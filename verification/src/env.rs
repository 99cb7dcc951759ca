use crate::value::{ErrV, HayashiError, Val, Value};
use vstd::prelude::*;

verus! {

/// A variable binding in a scope.
pub struct Binding {
    pub name: String,
    pub value: Value,
    pub constant: bool,
}

/// The abstract form of a binding: name, value, whether it is a constant.
pub type BindingV = (Seq<char>, Val, bool);

impl View for Binding {
    type V = BindingV;

    open spec fn view(&self) -> BindingV {
        (self.name@, self.value@, self.constant)
    }
}

/// Nested scopes of variables; the last scope is the innermost.
pub struct Env {
    pub scopes: Vec<Vec<Binding>>,
    pub quiet_mode: bool,
}

/// The abstract form of an environment.
pub struct EnvV {
    pub scopes: Seq<Seq<BindingV>>,
    pub quiet: bool,
}

/// The abstract form of one scope.
pub open spec fn scope_view(sc: Vec<Binding>) -> Seq<BindingV> {
    sc@.map_values(|b: Binding| b@)
}

impl View for Env {
    type V = EnvV;

    open spec fn view(&self) -> EnvV {
        EnvV { scopes: self.scopes@.map_values(|sc: Vec<Binding>| scope_view(sc)), quiet: self.quiet_mode }
    }
}

/// Index of the last binding of `name` in a scope, or -1.
pub open spec fn scope_find(s: Seq<BindingV>, name: Seq<char>) -> int
    decreases s.len(),
{
    if s.len() == 0 {
        -1
    } else if s.last().0 == name {
        s.len() - 1
    } else {
        scope_find(s.drop_last(), name)
    }
}

/// Index of the innermost scope that binds `name`, or -1.
pub open spec fn env_find(scopes: Seq<Seq<BindingV>>, name: Seq<char>) -> int
    decreases scopes.len(),
{
    if scopes.len() == 0 {
        -1
    } else if scope_find(scopes.last(), name) >= 0 {
        scopes.len() - 1
    } else {
        env_find(scopes.drop_last(), name)
    }
}

/// The value bound to `name`, looking from the innermost scope outwards.
pub open spec fn env_get(e: EnvV, name: Seq<char>) -> Option<Val> {
    let k = env_find(e.scopes, name);
    if k < 0 {
        None
    } else {
        Some(e.scopes[k][scope_find(e.scopes[k], name)].1)
    }
}

/// The environment with at least one scope.
pub open spec fn with_scope(e: EnvV) -> EnvV {
    if e.scopes.len() == 0 {
        EnvV { scopes: seq![Seq::empty()], quiet: e.quiet }
    } else {
        e
    }
}

/// Binds `name` in the innermost scope, replacing a binding there of the same name.
pub open spec fn bind_innermost(e: EnvV, name: Seq<char>, v: Val, constant: bool) -> EnvV {
    let e1 = with_scope(e);
    let k = e1.scopes.len() - 1;
    let sc = e1.scopes[k];
    let j = scope_find(sc, name);
    let sc2 = if j >= 0 {
        sc.update(j, (name, v, constant))
    } else {
        sc.push((name, v, constant))
    };
    EnvV { scopes: e1.scopes.update(k, sc2), quiet: e1.quiet }
}

/// `let`: declares `name` in the innermost scope; a constant there cannot be redeclared.
pub open spec fn env_declare(e: EnvV, name: Seq<char>, v: Val) -> Result<EnvV, ErrV> {
    let e1 = with_scope(e);
    let sc = e1.scopes.last();
    let j = scope_find(sc, name);
    if j >= 0 && sc[j].2 {
        Err(ErrV::Runtime("cannot redeclare constant '"@ + name + "'"@))
    } else {
        Ok(bind_innermost(e, name, v, false))
    }
}

/// `const`: binds `name` as a constant in the innermost scope.
pub open spec fn env_declare_const(e: EnvV, name: Seq<char>, v: Val) -> EnvV {
    bind_innermost(e, name, v, true)
}

/// Assignment: rebinds `name` in the innermost scope that has it, or binds it
/// in the innermost scope when no scope has it; constants cannot be assigned.
pub open spec fn env_set(e: EnvV, name: Seq<char>, v: Val) -> Result<EnvV, ErrV> {
    let k = env_find(e.scopes, name);
    if k < 0 {
        Ok(bind_innermost(e, name, v, false))
    } else {
        let j = scope_find(e.scopes[k], name);
        if e.scopes[k][j].2 {
            Err(ErrV::Runtime("cannot assign to constant '"@ + name + "'"@))
        } else {
            Ok(EnvV { scopes: e.scopes.update(k, e.scopes[k].update(j, (name, v, false))), quiet: e.quiet })
        }
    }
}

/// Opens a new innermost scope.
pub open spec fn env_push(e: EnvV) -> EnvV {
    EnvV { scopes: e.scopes.push(Seq::empty()), quiet: e.quiet }
}

/// Closes the innermost scope; the outermost scope is never closed.
pub open spec fn env_pop(e: EnvV) -> EnvV {
    if e.scopes.len() > 1 {
        EnvV { scopes: e.scopes.drop_last(), quiet: e.quiet }
    } else {
        e
    }
}

/// `scope_find` is the last index holding the name.
pub proof fn lemma_scope_find(s: Seq<BindingV>, name: Seq<char>)
    ensures
        -1 <= scope_find(s, name) < s.len(),
        scope_find(s, name) >= 0 ==> s[scope_find(s, name)].0 == name,
        forall|t: int| scope_find(s, name) < t < s.len() ==> s[t].0 != name,
    decreases s.len(),
{
    if s.len() > 0 {
        lemma_scope_find(s.drop_last(), name);
        assert forall|t: int| scope_find(s, name) < t < s.len() implies s[t].0 != name by {
            if t < s.len() - 1 {
                assert(s[t] == s.drop_last()[t]);
            }
        }
    }
}

/// `env_find` is the last scope holding the name.
pub proof fn lemma_env_find(scopes: Seq<Seq<BindingV>>, name: Seq<char>)
    ensures
        -1 <= env_find(scopes, name) < scopes.len(),
        env_find(scopes, name) >= 0 ==> scope_find(scopes[env_find(scopes, name)], name) >= 0,
        forall|t: int| env_find(scopes, name) < t < scopes.len() ==> scope_find(scopes[t], name) < 0,
    decreases scopes.len(),
{
    if scopes.len() > 0 {
        lemma_env_find(scopes.drop_last(), name);
        assert forall|t: int| env_find(scopes, name) < t < scopes.len() implies scope_find(
            scopes[t],
            name,
        ) < 0 by {
            if t < scopes.len() - 1 {
                assert(scopes[t] == scopes.drop_last()[t]);
            }
        }
    }
}

pub(crate) proof fn lemma_scope_find_unique(s: Seq<BindingV>, name: Seq<char>, r: int)
    requires
        -1 <= r < s.len(),
        r >= 0 ==> s[r].0 == name,
        forall|t: int| r < t < s.len() ==> s[t].0 != name,
    ensures
        scope_find(s, name) == r,
{
    lemma_scope_find(s, name);
}

pub(crate) proof fn lemma_env_find_unique(scopes: Seq<Seq<BindingV>>, name: Seq<char>, r: int)
    requires
        -1 <= r < scopes.len(),
        r >= 0 ==> scope_find(scopes[r], name) >= 0,
        forall|t: int| r < t < scopes.len() ==> scope_find(scopes[t], name) < 0,
    ensures
        env_find(scopes, name) == r,
{
    lemma_env_find(scopes, name);
}

/// Index of the last binding of `name` in a scope.
fn find_in_scope(sc: &Vec<Binding>, name: &String) -> (r: Option<usize>)
    ensures
        match r {
            Some(j) => j as int == scope_find(scope_view(*sc), name@) && j < sc@.len(),
            None => scope_find(scope_view(*sc), name@) == -1,
        },
{
    let ghost s = scope_view(*sc);
    let mut j: usize = sc.len();
    while j > 0
        invariant
            j <= sc@.len(),
            s == scope_view(*sc),
            s.len() == sc@.len(),
            forall|t: int| j <= t < s.len() ==> s[t].0 != name@,
        decreases j,
    {
        if sc[j - 1].name == *name {
            proof {
                lemma_scope_find_unique(s, name@, j - 1);
            }
            return Some(j - 1);
        }
        j = j - 1;
    }
    proof {
        lemma_scope_find_unique(s, name@, -1);
    }
    None
}

impl Env {
    /// An environment with one empty global scope.
    pub fn new() -> (e: Env)
        ensures
            e@.scopes == seq![Seq::<BindingV>::empty()],
            !e@.quiet,
    {
        let mut scopes: Vec<Vec<Binding>> = Vec::new();
        scopes.push(Vec::new());
        let e = Env { scopes, quiet_mode: false };
        assert(e@.scopes =~= seq![Seq::<BindingV>::empty()]) by {
            assert(scope_view(e.scopes@[0]) =~= Seq::<BindingV>::empty());
        }
        e
    }

    /// Index of the innermost scope binding `name`, and the binding's index there.
    fn find(&self, name: &String) -> (r: Option<(usize, usize)>)
        ensures
            match r {
                Some((k, j)) => k as int == env_find(self@.scopes, name@) && k < self.scopes@.len()
                    && j as int == scope_find(self@.scopes[k as int], name@) && j
                    < self.scopes@[k as int]@.len(),
                None => env_find(self@.scopes, name@) == -1,
            },
    {
        let ghost sv = self@.scopes;
        let mut k: usize = self.scopes.len();
        while k > 0
            invariant
                k <= self.scopes@.len(),
                sv == self@.scopes,
                sv.len() == self.scopes@.len(),
                forall|t: int| k <= t < sv.len() ==> scope_find(sv[t], name@) < 0,
            decreases k,
        {
            let found = find_in_scope(&self.scopes[k - 1], name);
            match found {
                Some(j) => {
                    proof {
                        lemma_env_find_unique(sv, name@, k - 1);
                    }
                    return Some((k - 1, j));
                },
                None => {},
            }
            k = k - 1;
        }
        proof {
            lemma_env_find_unique(sv, name@, -1);
        }
        None
    }

    /// The value bound to `name`.
    pub fn get(&self, name: &String) -> (r: Option<Value>)
        ensures
            match r {
                Some(v) => env_get(self@, name@) == Some(v@),
                None => env_get(self@, name@) is None,
            },
    {
        match self.find(name) {
            Some((k, j)) => Some(self.scopes[k][j].value.copy()),
            None => None,
        }
    }

    fn ensure_scope(&mut self)
        ensures
            final(self)@ == with_scope(old(self)@),
            final(self).scopes@.len() >= 1,
    {
        if self.scopes.len() == 0 {
            self.scopes.push(Vec::new());
            assert(self@.scopes =~= seq![Seq::<BindingV>::empty()]) by {
                assert(scope_view(self.scopes@[0]) =~= Seq::<BindingV>::empty());
            }
        }
        assert(self@ == with_scope(old(self)@));
    }

    fn replace_binding(&mut self, k: usize, j: usize, b: Binding)
        requires
            k < old(self).scopes@.len(),
            j < old(self).scopes@[k as int]@.len(),
        ensures
            final(self)@.quiet == old(self)@.quiet,
            final(self)@.scopes == old(self)@.scopes.update(
                k as int,
                old(self)@.scopes[k as int].update(j as int, b@),
            ),
    {
        let mut sc: Vec<Binding> = Vec::new();
        self.scopes.set_and_swap(k, &mut sc);
        sc.set(j, b);
        self.scopes.set_and_swap(k, &mut sc);
        assert(self@.scopes =~= old(self)@.scopes.update(
            k as int,
            old(self)@.scopes[k as int].update(j as int, b@),
        )) by {
            assert(scope_view(self.scopes@[k as int]) =~= old(self)@.scopes[k as int].update(
                j as int,
                b@,
            ));
        }
    }

    fn push_binding(&mut self, k: usize, b: Binding)
        requires
            k < old(self).scopes@.len(),
        ensures
            final(self)@.quiet == old(self)@.quiet,
            final(self)@.scopes == old(self)@.scopes.update(
                k as int,
                old(self)@.scopes[k as int].push(b@),
            ),
    {
        let mut sc: Vec<Binding> = Vec::new();
        self.scopes.set_and_swap(k, &mut sc);
        sc.push(b);
        self.scopes.set_and_swap(k, &mut sc);
        assert(self@.scopes =~= old(self)@.scopes.update(
            k as int,
            old(self)@.scopes[k as int].push(b@),
        )) by {
            assert(scope_view(self.scopes@[k as int]) =~= old(self)@.scopes[k as int].push(b@));
        }
    }

    fn bind_innermost(&mut self, name: &String, v: Value, constant: bool)
        ensures
            final(self)@ == bind_innermost(old(self)@, name@, v@, constant),
    {
        self.ensure_scope();
        let k = self.scopes.len() - 1;
        let b = Binding { name: name.clone(), value: v, constant };
        match find_in_scope(&self.scopes[k], name) {
            Some(j) => self.replace_binding(k, j, b),
            None => self.push_binding(k, b),
        }
    }

    /// `let name = v`.
    pub fn declare(&mut self, name: &String, v: Value) -> (r: Result<(), HayashiError>)
        ensures
            match env_declare(old(self)@, name@, v@) {
                Ok(e) => r is Ok && final(self)@ == e,
                Err(x) => r matches Err(y) && y@ == x && final(self)@ == with_scope(old(self)@),
            },
    {
        self.ensure_scope();
        let k = self.scopes.len() - 1;
        match find_in_scope(&self.scopes[k], name) {
            Some(j) => {
                if self.scopes[k][j].constant {
                    let m = String::from_str("cannot redeclare constant '").concat(name.as_str()).concat(
                        "'",
                    );
                    return Err(HayashiError::Runtime(m));
                }
            },
            None => {},
        }
        self.bind_innermost(name, v, false);
        Ok(())
    }

    /// `const name = v`.
    pub fn declare_const(&mut self, name: &String, v: Value)
        ensures
            final(self)@ == env_declare_const(old(self)@, name@, v@),
    {
        self.bind_innermost(name, v, true);
    }

    /// `name = v`.
    pub fn set(&mut self, name: &String, v: Value) -> (r: Result<(), HayashiError>)
        ensures
            match env_set(old(self)@, name@, v@) {
                Ok(e) => r is Ok && final(self)@ == e,
                Err(x) => r matches Err(y) && y@ == x && final(self)@ == old(self)@,
            },
    {
        match self.find(name) {
            Some((k, j)) => {
                if self.scopes[k][j].constant {
                    let m = String::from_str("cannot assign to constant '").concat(name.as_str()).concat(
                        "'",
                    );
                    return Err(HayashiError::Runtime(m));
                }
                let b = Binding { name: name.clone(), value: v, constant: false };
                self.replace_binding(k, j, b);
                Ok(())
            },
            None => {
                self.bind_innermost(name, v, false);
                Ok(())
            },
        }
    }

    /// Opens a new innermost scope.
    pub fn push_scope(&mut self)
        ensures
            final(self)@ == env_push(old(self)@),
    {
        self.scopes.push(Vec::new());
        assert(self@.scopes =~= env_push(old(self)@).scopes) by {
            assert(scope_view(self.scopes@.last()) =~= Seq::<BindingV>::empty());
        }
    }

    /// Closes the innermost scope (never the outermost one).
    pub fn pop_scope(&mut self)
        ensures
            final(self)@ == env_pop(old(self)@),
    {
        if self.scopes.len() > 1 {
            self.scopes.pop();
            assert(self@.scopes =~= env_pop(old(self)@).scopes);
        }
    }

    /// Turns quiet mode on or off.
    pub fn set_quiet_mode(&mut self, on: bool)
        ensures
            final(self)@ == (EnvV { scopes: old(self)@.scopes, quiet: on }),
    {
        self.quiet_mode = on;
    }
}

} // verus!
