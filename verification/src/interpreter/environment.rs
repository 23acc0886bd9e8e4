//! The variables of a running program, by scope: a name is looked up from
//! the innermost scope outwards.
use vstd::prelude::*;
use crate::common::types::{GreenValue, LiteralValue, Type};
use crate::error::error_code::ErrorCode;
use crate::error::error_context::{ErrorContext, str_pairs_view};
use crate::parser::node::{Lit, copy_literal};
use crate::text::{owned, str_eq};

verus! {

/// The model of a value: its type and its literal.
pub open spec fn value_view(v: GreenValue) -> (Type, Lit) {
    (v.value_type, v.value@)
}

/// The model of a scope: its variables in the order they were first set.
pub type ScopeModel = Seq<(Seq<char>, (Type, Lit))>;

/// Where `name` stands in a scope, if it does.
pub open spec fn scope_index(s: ScopeModel, name: Seq<char>) -> Option<int>
    decreases s.len(),
{
    if s.len() == 0 {
        None
    } else {
        match scope_index(s.drop_last(), name) {
            Some(i) => Some(i),
            None => if s.last().0 == name {
                Some(s.len() - 1)
            } else {
                None
            },
        }
    }
}

/// The value of `name` in a scope.
pub open spec fn scope_get(s: ScopeModel, name: Seq<char>) -> Option<(Type, Lit)> {
    match scope_index(s, name) {
        Some(i) => Some(s[i].1),
        None => None,
    }
}

/// A scope where `name` is set to `v`: in place where it stood, at the end
/// otherwise.
pub open spec fn scope_set(s: ScopeModel, name: Seq<char>, v: (Type, Lit)) -> ScopeModel {
    match scope_index(s, name) {
        Some(i) => s.update(i, (name, v)),
        None => s.push((name, v)),
    }
}

/// The value of `name` in the innermost scope that has it.
pub open spec fn env_get(scopes: Seq<ScopeModel>, name: Seq<char>) -> Option<(Type, Lit)>
    decreases scopes.len(),
{
    if scopes.len() == 0 {
        None
    } else {
        match scope_get(scopes.last(), name) {
            Some(v) => Some(v),
            None => env_get(scopes.drop_last(), name),
        }
    }
}

/// Why a change of a variable fails.
pub enum ChangeFailure {
    /// No scope has the variable.
    Missing,
    /// The variable has this type, not the type of the new value.
    Mismatch(Type),
}

/// The scopes after `name` is changed to `v` in the innermost scope that
/// has it, the type being kept; or why that fails.
pub open spec fn env_change(scopes: Seq<ScopeModel>, name: Seq<char>, v: (Type, Lit)) -> Result<
    Seq<ScopeModel>,
    ChangeFailure,
>
    decreases scopes.len(),
{
    if scopes.len() == 0 {
        Err(ChangeFailure::Missing)
    } else {
        match scope_get(scopes.last(), name) {
            Some(old) => if old.0 == v.0 {
                Ok(scopes.drop_last().push(scope_set(scopes.last(), name, v)))
            } else {
                Err(ChangeFailure::Mismatch(old.0))
            },
            None => match env_change(scopes.drop_last(), name, v) {
                Ok(inner) => Ok(inner.push(scopes.last())),
                Err(f) => Err(f),
            },
        }
    }
}

/// The report of a variable that no scope has.
pub open spec fn missing_report(e: ErrorContext, name: Seq<char>) -> bool {
    &&& e.error_code == ErrorCode::Runtime007
    &&& e.params_view() == seq![("variable"@, name)]
}

/// The report of a change whose value has another type than the variable.
pub open spec fn mismatch_report(e: ErrorContext, var_type: Type, value_type: Type, name: Seq<char>) -> bool {
    &&& e.error_code == ErrorCode::Runtime010
    &&& e.params_view() == seq![
        ("variable_type"@, var_type.text()),
        ("value_type"@, value_type.text()),
        ("name"@, name),
    ]
}

fn copy_value(v: &GreenValue) -> (r: GreenValue)
    ensures
        value_view(r) == value_view(*v),
{
    GreenValue { value_type: v.value_type, value: copy_literal(&v.value) }
}

/// The variables of one scope.
#[derive(Debug)]
struct Scope {
    vars: Vec<(String, GreenValue)>,
}

impl Scope {
    spec fn model(&self) -> ScopeModel {
        self.vars@.map_values(|p: (String, GreenValue)| (p.0@, value_view(p.1)))
    }

    fn find(&self, name: &str) -> (r: Option<usize>)
        ensures
            r matches Some(i) ==> scope_index(self.model(), name@) == Some(i as int) && i < self.vars@.len(),
            r is None ==> scope_index(self.model(), name@) is None,
    {
        let mut i: usize = 0;
        while i < self.vars.len()
            invariant
                i <= self.vars@.len(),
                scope_index(self.model().take(i as int), name@) is None,
            decreases self.vars@.len() - i,
        {
            proof {
                assert(self.model().take(i + 1).drop_last() =~= self.model().take(i as int));
            }
            if str_eq(self.vars[i].0.as_str(), name) {
                proof {
                    lemma_index_prefix(self.model(), i as int + 1, name@);
                }
                return Some(i);
            }
            i = i + 1;
        }
        proof {
            assert(self.model().take(i as int) =~= self.model());
        }
        None
    }

    fn set(&mut self, name: &str, value: &GreenValue)
        ensures
            final(self).model() == scope_set(old(self).model(), name@, value_view(*value)),
    {
        let v = copy_value(value);
        let ghost before = self.model();
        match self.find(name) {
            Some(i) => {
                self.vars.set(i, (owned(name), v));
                assert(self.model() =~= before.update(i as int, (name@, value_view(*value))));
            },
            None => {
                self.vars.push((owned(name), v));
                assert(self.model() =~= before.push((name@, value_view(*value))));
            },
        }
    }
}

/// Where `name` first stands in the first `k` variables is where it first
/// stands in all of them, once it stands there.
proof fn lemma_index_prefix(s: ScopeModel, k: int, name: Seq<char>)
    requires
        0 < k <= s.len(),
        s[k - 1].0 == name,
        scope_index(s.take(k - 1), name) is None,
    ensures
        scope_index(s, name) == Some(k - 1),
    decreases s.len(),
{
    if k == s.len() {
        assert(s.drop_last() =~= s.take(k - 1));
    } else {
        assert(s.drop_last().take(k - 1) =~= s.take(k - 1));
        assert(s.drop_last()[k - 1] == s[k - 1]);
        lemma_index_prefix(s.drop_last(), k, name);
    }
}


proof fn lemma_index_same_names(s: ScopeModel, t: ScopeModel, x: Seq<char>)
    requires
        s.len() == t.len(),
        forall|j: int| 0 <= j < s.len() ==> ((#[trigger] s[j]).0 == x) == (t[j].0 == x),
    ensures
        scope_index(s, x) == scope_index(t, x),
    decreases s.len(),
{
    if s.len() > 0 {
        assert(s.last() == s[s.len() - 1]);
        lemma_index_same_names(s.drop_last(), t.drop_last(), x);
    }
}

proof fn lemma_index_found(s: ScopeModel, x: Seq<char>)
    ensures
        scope_index(s, x) matches Some(i) ==> 0 <= i < s.len() && s[i].0 == x,
    decreases s.len(),
{
    if s.len() > 0 {
        lemma_index_found(s.drop_last(), x);
    }
}

/// Setting a name in a scope and reading it back gives the value set;
/// other names read as before.
pub proof fn lemma_scope_set_get(s: ScopeModel, name: Seq<char>, other: Seq<char>, v: (Type, Lit))
    ensures
        scope_get(scope_set(s, name, v), name) == Some(v),
        other != name ==> scope_get(scope_set(s, name, v), other) == scope_get(s, other),
{
    lemma_index_found(s, name);
    lemma_index_found(s, other);
    match scope_index(s, name) {
        Some(i) => {
            let t = s.update(i, (name, v));
            assert forall|j: int| 0 <= j < s.len() implies ((#[trigger] s[j]).0 == name) == (t[j].0 == name) by {}
            lemma_index_same_names(s, t, name);
            if other != name {
                assert forall|j: int| 0 <= j < s.len() implies ((#[trigger] s[j]).0 == other) == (t[j].0 == other) by {}
                lemma_index_same_names(s, t, other);
            }
        },
        None => {
            let t = s.push((name, v));
            assert(t.drop_last() =~= s);
        },
    }
}

/// A variable set in the innermost scope reads back as the value set, and
/// every other name reads as before.
pub proof fn law_set_then_get(scopes: Seq<ScopeModel>, name: Seq<char>, other: Seq<char>, v: (Type, Lit))
    requires
        scopes.len() > 0,
    ensures
        env_get(scopes.drop_last().push(scope_set(scopes.last(), name, v)), name) == Some(v),
        other != name ==> env_get(scopes.drop_last().push(scope_set(scopes.last(), name, v)), other)
            == env_get(scopes, other),
{
    let after = scopes.drop_last().push(scope_set(scopes.last(), name, v));
    lemma_scope_set_get(scopes.last(), name, other, v);
    assert(after.drop_last() =~= scopes.drop_last());
}

/// A new inner scope hides nothing: every name reads as before.
pub proof fn law_push_keeps_lookup(scopes: Seq<ScopeModel>, name: Seq<char>)
    ensures
        env_get(scopes.push(Seq::<(Seq<char>, (Type, Lit))>::empty()), name) == env_get(scopes, name),
{
    let after = scopes.push(Seq::<(Seq<char>, (Type, Lit))>::empty());
    assert(after.drop_last() =~= scopes);
}

/// Opening a scope, setting a variable in it and closing it leaves the
/// scopes as they were.
pub proof fn law_scope_closes(scopes: Seq<ScopeModel>, name: Seq<char>, v: (Type, Lit))
    ensures
        ({
            let opened = scopes.push(Seq::<(Seq<char>, (Type, Lit))>::empty());
            let set = opened.drop_last().push(scope_set(opened.last(), name, v));
            set.drop_last()
        }) == scopes,
{
    let opened = scopes.push(Seq::<(Seq<char>, (Type, Lit))>::empty());
    assert(opened.drop_last() =~= scopes);
    assert(opened.drop_last().push(scope_set(opened.last(), name, v)).drop_last() =~= scopes);
}

/// A change that succeeds gives the variable the new value, and it keeps its
/// type.
pub proof fn law_change_then_get(scopes: Seq<ScopeModel>, name: Seq<char>, v: (Type, Lit))
    requires
        env_change(scopes, name, v) is Ok,
    ensures
        env_get(env_change(scopes, name, v)->Ok_0, name) == Some(v),
        env_get(scopes, name) matches Some(old) && old.0 == v.0,
    decreases scopes.len(),
{
    match scope_get(scopes.last(), name) {
        Some(old) => {
            let after = scopes.drop_last().push(scope_set(scopes.last(), name, v));
            lemma_scope_set_get(scopes.last(), name, name, v);
            assert(after.last() == scope_set(scopes.last(), name, v));
        },
        None => {
            law_change_then_get(scopes.drop_last(), name, v);
            let inner = env_change(scopes.drop_last(), name, v)->Ok_0;
            assert(inner.push(scopes.last()).drop_last() =~= inner);
        },
    }
}

#[derive(Debug)]
pub struct Environment {
    scopes: Vec<Scope>,
}

impl Environment {
    /// The scopes, outermost first.
    pub closed spec fn scopes(&self) -> Seq<ScopeModel> {
        self.scopes@.map_values(|s: Scope| s.model())
    }

    pub fn new() -> (r: Self)
        ensures
            r.scopes() == seq![Seq::<(Seq<char>, (Type, Lit))>::empty()],
    {
        let mut scopes: Vec<Scope> = Vec::new();
        let s = Scope { vars: Vec::new() };
        assert(s.model() =~= Seq::<(Seq<char>, (Type, Lit))>::empty());
        scopes.push(s);
        let r = Environment { scopes };
        assert(r.scopes() =~= seq![Seq::<(Seq<char>, (Type, Lit))>::empty()]);
        r
    }

    /// Sets `name` to `value` in the innermost scope.
    pub fn set_variable(&mut self, name: &String, value: &GreenValue)
        ensures
            old(self).scopes().len() == 0 ==> final(self).scopes() == old(self).scopes(),
            old(self).scopes().len() > 0 ==> final(self).scopes() == old(self).scopes().drop_last().push(
                scope_set(old(self).scopes().last(), name@, value_view(*value)),
            ),
    {
        let ghost before = self.scopes();
        match self.scopes.pop() {
            None => {},
            Some(mut scope) => {
                scope.set(name.as_str(), value);
                self.scopes.push(scope);
                assert(self.scopes() =~= before.drop_last().push(
                    scope_set(before.last(), name@, value_view(*value)),
                ));
            },
        }
    }

    /// The value of `name` in the innermost scope that has it.
    pub fn get_variable(&mut self, name: &str) -> (r: Result<LiteralValue, ErrorContext>)
        ensures
            final(self).scopes() == old(self).scopes(),
            r matches Ok(v) ==> env_get(old(self).scopes(), name@) matches Some(found) && found.1 == v@,
            r matches Err(e) ==> env_get(old(self).scopes(), name@) is None && missing_report(e, name@),
    {
        let mut k: usize = self.scopes.len();
        assert(self.scopes().take(k as int) =~= self.scopes());
        while k > 0
            invariant
                k <= self.scopes@.len(),
                env_get(self.scopes(), name@) == env_get(self.scopes().take(k as int), name@),
            decreases k,
        {
            let ghost pre = self.scopes().take(k as int);
            proof {
                assert(pre.drop_last() =~= self.scopes().take(k - 1));
                assert(pre.last() == self.scopes@[k - 1].model());
            }
            match self.scopes[k - 1].find(name) {
                Some(i) => {
                    let value = copy_literal(&self.scopes[k - 1].vars[i].1.value);
                    return Ok(value);
                },
                None => {},
            }
            k = k - 1;
        }
        Err(ErrorContext::new(ErrorCode::Runtime007, 0, 0, one_pair("variable", name)))
    }

    /// Changes the value of `name` in the innermost scope that has it; the
    /// new value must have the variable's type.
    pub fn change_variable(&mut self, name: String, value: GreenValue) -> (r: Result<(), ErrorContext>)
        ensures
            r is Ok ==> env_change(old(self).scopes(), name@, value_view(value)) == Ok::<
                Seq<ScopeModel>,
                ChangeFailure,
            >(final(self).scopes()),
            r matches Err(e) ==> final(self).scopes() == old(self).scopes() && match env_change(
                old(self).scopes(),
                name@,
                value_view(value),
            ) {
                Err(ChangeFailure::Missing) => missing_report(e, name@),
                Err(ChangeFailure::Mismatch(t)) => mismatch_report(e, t, value.value_type, name@),
                Ok(_) => false,
            },
    {
        change_in(&mut self.scopes, name.as_str(), &value)
    }

    /// Opens a scope inside the current ones.
    pub fn push_scope(&mut self)
        ensures
            final(self).scopes() == old(self).scopes().push(Seq::<(Seq<char>, (Type, Lit))>::empty()),
    {
        let s = Scope { vars: Vec::new() };
        assert(s.model() =~= Seq::<(Seq<char>, (Type, Lit))>::empty());
        self.scopes.push(s);
        assert(self.scopes() =~= old(self).scopes().push(Seq::<(Seq<char>, (Type, Lit))>::empty()));
    }

    /// Closes the innermost scope, if any.
    pub fn pop_scope(&mut self)
        ensures
            final(self).scopes() == (if old(self).scopes().len() == 0 {
                old(self).scopes()
            } else {
                old(self).scopes().drop_last()
            }),
    {
        let _ = self.scopes.pop();
        assert(self.scopes() =~= (if old(self).scopes().len() == 0 {
            old(self).scopes()
        } else {
            old(self).scopes().drop_last()
        }));
    }
}

fn one_pair<'a>(k: &'a str, v: &'a str) -> (r: Vec<(&'a str, &'a str)>)
    ensures
        str_pairs_view(r@) == seq![(k@, v@)],
{
    let mut r: Vec<(&'a str, &'a str)> = Vec::new();
    r.push((k, v));
    assert(str_pairs_view(r@) =~= seq![(k@, v@)]);
    r
}

spec fn models(v: Seq<Scope>) -> Seq<ScopeModel> {
    v.map_values(|s: Scope| s.model())
}

/// Changes `name` in the innermost of `scopes` that has it.
fn change_in(scopes: &mut Vec<Scope>, name: &str, value: &GreenValue) -> (r: Result<(), ErrorContext>)
    ensures
        r is Ok ==> env_change(models(old(scopes)@), name@, value_view(*value)) == Ok::<
            Seq<ScopeModel>,
            ChangeFailure,
        >(models(final(scopes)@)),
        r matches Err(e) ==> models(final(scopes)@) == models(old(scopes)@) && match env_change(
            models(old(scopes)@),
            name@,
            value_view(*value),
        ) {
            Err(ChangeFailure::Missing) => missing_report(e, name@),
            Err(ChangeFailure::Mismatch(t)) => mismatch_report(e, t, value.value_type, name@),
            Ok(_) => false,
        },
    decreases old(scopes)@.len(),
{
    let ghost before = models(scopes@);
    match scopes.pop() {
        None => {
            assert(before.len() == 0);
            Err(ErrorContext::new(ErrorCode::Runtime007, 0, 0, one_pair("variable", name)))
        },
        Some(mut scope) => {
            proof {
                assert(models(scopes@) =~= before.drop_last());
                assert(scope.model() == before.last());
            }
            match scope.find(name) {
                Some(i) => {
                    let var_type = scope.vars[i].1.value_type;
                    if var_type == value.value_type {
                        scope.set(name, value);
                        scopes.push(scope);
                        assert(models(scopes@) =~= before.drop_last().push(
                            scope_set(before.last(), name@, value_view(*value)),
                        ));
                        Ok(())
                    } else {
                        scopes.push(scope);
                        assert(models(scopes@) =~= before);
                        let vt = var_type.to_string();
                        let nt = value.value_type.to_string();
                        let mut params: Vec<(&str, &str)> = Vec::new();
                        params.push(("variable_type", vt.as_str()));
                        params.push(("value_type", nt.as_str()));
                        params.push(("name", name));
                        let e = ErrorContext::new(ErrorCode::Runtime010, 0, 0, params);
                        assert(e.params_view() =~= seq![
                            ("variable_type"@, var_type.text()),
                            ("value_type"@, value.value_type.text()),
                            ("name"@, name@),
                        ]);
                        Err(e)
                    }
                },
                None => {
                    let r = change_in(scopes, name, value);
                    let ghost mid = models(scopes@);
                    scopes.push(scope);
                    assert(models(scopes@) =~= mid.push(before.last()));
                    match r {
                        Ok(()) => {},
                        Err(_) => {
                            assert(before.drop_last().push(before.last()) =~= before);
                        },
                    }
                    r
                },
            }
        },
    }
}

} // verus!
