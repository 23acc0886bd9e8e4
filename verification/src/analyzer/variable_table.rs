//! Variables by scope: each scope lists its declarations in order and may
//! name a parent scope, where a lookup goes on when the name is not found.
use vstd::prelude::*;
use crate::common::types::Type;
use crate::text::{owned, str_eq};

verus! {

/// The type of the first declaration of `name` in `entries`.
pub open spec fn first_type(entries: Seq<(Seq<char>, Type)>, name: Seq<char>) -> Option<Type>
    decreases entries.len(),
{
    if entries.len() == 0 {
        None
    } else if entries[0].0 == name {
        Some(entries[0].1)
    } else {
        first_type(entries.subrange(1, entries.len() as int), name)
    }
}

#[derive(Debug)]
pub struct VariableInfo {
    name: String,
    variable_type: Type,
}

impl View for VariableInfo {
    type V = (Seq<char>, Type);

    closed spec fn view(&self) -> (Seq<char>, Type) {
        (self.name@, self.variable_type)
    }
}

#[derive(Debug)]
pub struct VariableScope {
    variable_info: Vec<VariableInfo>,
    parent_pointer: Option<usize>,
}

/// The declarations of a scope, as names and types.
pub open spec fn infos_view(v: Seq<VariableInfo>) -> Seq<(Seq<char>, Type)> {
    v.map_values(|i: VariableInfo| i@)
}

impl VariableScope {
    /// The declarations of the scope, in order.
    pub closed spec fn entries(&self) -> Seq<(Seq<char>, Type)> {
        infos_view(self.variable_info@)
    }

    /// The parent scope, if any.
    pub closed spec fn parent(&self) -> Option<usize> {
        self.parent_pointer
    }

    pub fn new(parent_pointer: Option<usize>) -> (r: Self)
        ensures
            r.entries() == Seq::<(Seq<char>, Type)>::empty(),
            r.parent() == parent_pointer,
    {
        let r = Self { variable_info: Vec::new(), parent_pointer };
        assert(r.entries() =~= Seq::<(Seq<char>, Type)>::empty());
        r
    }

    /// 変数定義
    pub fn variable_declare(&mut self, name: &str, var_type: &Type)
        ensures
            final(self).entries() == old(self).entries().push((name@, *var_type)),
            final(self).parent() == old(self).parent(),
    {
        let ghost before = self.variable_info@;
        self.variable_info.push(VariableInfo { name: owned(name), variable_type: *var_type });
        assert(infos_view(self.variable_info@) =~= infos_view(before).push((name@, *var_type)));
    }

    /// 変数呼び出し（型情報を返す）: the type of the first declaration of
    /// `name` in the scope.
    pub fn get_type(&self, name: &str) -> (r: Option<Type>)
        ensures
            r == first_type(self.entries(), name@),
    {
        let mut i: usize = 0;
        assert(self.entries().subrange(0, self.entries().len() as int) =~= self.entries());
        while i < self.variable_info.len()
            invariant
                i <= self.variable_info.len(),
                first_type(self.entries(), name@) == first_type(
                    self.entries().subrange(i as int, self.entries().len() as int),
                    name@,
                ),
            decreases self.variable_info.len() - i,
        {
            let ghost rest = self.entries().subrange(i as int, self.entries().len() as int);
            assert(rest[0] == self.variable_info@[i as int]@);
            if str_eq(self.variable_info[i].name.as_str(), name) {
                return Some(self.variable_info[i].variable_type);
            }
            assert(rest.subrange(1, rest.len() as int) =~= self.entries().subrange(
                i + 1,
                self.entries().len() as int,
            ));
            i = i + 1;
        }
        None
    }

    /// A copy of the scope.
    pub fn copy(&self) -> (r: Self)
        ensures
            r.entries() == self.entries(),
            r.parent() == self.parent(),
    {
        let mut v: Vec<VariableInfo> = Vec::new();
        let mut i: usize = 0;
        while i < self.variable_info.len()
            invariant
                i <= self.variable_info.len(),
                v@.len() == i,
                infos_view(v@) == infos_view(self.variable_info@.take(i as int)),
            decreases self.variable_info.len() - i,
        {
            let ghost before = v@;
            v.push(
                VariableInfo {
                    name: owned(self.variable_info[i].name.as_str()),
                    variable_type: self.variable_info[i].variable_type,
                },
            );
            i = i + 1;
            assert(self.variable_info@.take(i as int) =~= self.variable_info@.take((i - 1) as int).push(
                self.variable_info@[i - 1],
            ));
            assert(v@[i - 1]@ == self.variable_info@[i - 1]@);
            assert(infos_view(v@) =~= infos_view(before).push(v@[i - 1]@));
            assert(infos_view(self.variable_info@.take(i as int)) =~= infos_view(
                self.variable_info@.take((i - 1) as int),
            ).push(self.variable_info@[i - 1]@));
        }
        assert(self.variable_info@.take(self.variable_info.len() as int) =~= self.variable_info@);
        Self { variable_info: v, parent_pointer: self.parent_pointer }
    }
}

/// The type of `name` seen from scope `idx`: its first declaration there, or
/// else its type seen from the parent scope.
pub open spec fn chain_lookup(scopes: Seq<VariableScope>, idx: int, name: Seq<char>) -> Option<Type>
    decreases idx,
{
    if idx < 0 || idx >= scopes.len() {
        None
    } else {
        match first_type(scopes[idx].entries(), name) {
            Some(t) => Some(t),
            None => match scopes[idx].parent() {
                Some(p) => if p < idx {
                    chain_lookup(scopes, p as int, name)
                } else {
                    None
                },
                None => None,
            },
        }
    }
}

/// A name declared in a scope where it was not declared before is found
/// with the type declared; other names are found as before.
pub proof fn law_declare_then_lookup(entries: Seq<(Seq<char>, Type)>, name: Seq<char>, other: Seq<char>, t: Type)
    ensures
        first_type(entries, name) is None ==> first_type(entries.push((name, t)), name) == Some(t),
        other != name ==> first_type(entries.push((name, t)), other) == first_type(entries, other),
    decreases entries.len(),
{
    if entries.len() > 0 {
        let pushed = entries.push((name, t));
        assert(pushed.subrange(1, pushed.len() as int) =~= entries.subrange(1, entries.len() as int).push(
            (name, t),
        ));
        law_declare_then_lookup(entries.subrange(1, entries.len() as int), name, other, t);
    } else {
        let pushed = entries.push((name, t));
        assert(pushed.subrange(1, pushed.len() as int) =~= Seq::<(Seq<char>, Type)>::empty());
        assert(pushed[0] == (name, t));
        assert(first_type(Seq::<(Seq<char>, Type)>::empty(), other) is None);
        assert(first_type(pushed.subrange(1, pushed.len() as int), other) is None);
    }
}

proof fn lemma_lookup_extended(scopes: Seq<VariableScope>, extra: VariableScope, idx: int, name: Seq<char>)
    requires
        idx < scopes.len(),
    ensures
        chain_lookup(scopes.push(extra), idx, name) == chain_lookup(scopes, idx, name),
    decreases idx,
{
    if 0 <= idx {
        assert(scopes.push(extra)[idx] == scopes[idx]);
        match first_type(scopes[idx].entries(), name) {
            Some(_) => {},
            None => match scopes[idx].parent() {
                Some(p) => if p < idx {
                    lemma_lookup_extended(scopes, extra, p as int, name);
                },
                None => {},
            },
        }
    }
}

/// A new scope opened under a parent finds every name as the parent does,
/// until something is declared in it.
pub proof fn law_child_scope_sees_parent(scopes: Seq<VariableScope>, child: VariableScope, parent: usize, name: Seq<char>)
    requires
        parent < scopes.len(),
        child.entries() == Seq::<(Seq<char>, Type)>::empty(),
        child.parent() == Some(parent),
    ensures
        chain_lookup(scopes.push(child), scopes.len() as int, name) == chain_lookup(scopes, parent as int, name),
{
    assert(scopes.push(child)[scopes.len() as int] == child);
    lemma_lookup_extended(scopes, child, parent as int, name);
}

#[derive(Debug)]
pub struct VariableTable {
    pub table: Vec<VariableScope>,
    /// 現在のポインタ
    current_pointer: usize,
    /// ポインタの最大値
    max_pointer: usize,
}

impl VariableTable {
    /// The scopes exist, the current one among them, and every scope's parent
    /// comes before it.
    pub closed spec fn wf(&self) -> bool {
        &&& self.scopes().len() >= 1
        &&& self.current_pointer < self.scopes().len()
        &&& self.max_pointer == self.scopes().len() - 1
        &&& forall|i: int|
            0 <= i < self.scopes().len() ==> (#[trigger] self.scopes()[i].parent() matches Some(p)
                ==> p < i)
    }

    /// The scopes, in the order they were opened.
    pub closed spec fn scopes(&self) -> Seq<VariableScope> {
        self.table@
    }

    /// The scope where declarations go and lookups start.
    pub closed spec fn current(&self) -> int {
        self.current_pointer as int
    }

    pub fn new() -> (r: Self)
        ensures
            r.wf(),
            r.current() == 0,
            r.scopes().len() == 1,
            r.scopes()[0].entries() == Seq::<(Seq<char>, Type)>::empty(),
            r.scopes()[0].parent() == None::<usize>,
    {
        let mut table: Vec<VariableScope> = Vec::new();
        table.push(VariableScope::new(None));
        Self { table, current_pointer: 0, max_pointer: 0 }
    }

    /// 変数宣言: into the current scope.
    pub fn variable_declare(&mut self, name: &str, var_type: &Type)
        requires
            old(self).wf(),
        ensures
            final(self).wf(),
            final(self).current() == old(self).current(),
            final(self).scopes().len() == old(self).scopes().len(),
            final(self).scopes()[final(self).current()].entries() == old(self).scopes()[old(
                self,
            ).current()].entries().push((name@, *var_type)),
            forall|i: int|
                0 <= i < final(self).scopes().len() ==> #[trigger] final(self).scopes()[i].parent()
                    == old(self).scopes()[i].parent(),
            forall|i: int|
                0 <= i < final(self).scopes().len() && i != final(self).current() ==> (
                #[trigger] final(self).scopes()[i]).entries() == old(self).scopes()[i].entries(),
    {
        let idx = self.current_pointer;
        let mut scope = VariableScope::new(None);
        std::mem::swap(&mut scope, &mut self.table[idx]);
        scope.variable_declare(name, var_type);
        std::mem::swap(&mut scope, &mut self.table[idx]);
    }

    /// 変数の型を取得: from the current scope up its parents.
    pub fn get_type(&mut self, name: &str) -> (r: Option<Type>)
        requires
            old(self).wf(),
        ensures
            *final(self) == *old(self),
            r == chain_lookup(old(self).scopes(), old(self).current(), name@),
    {
        let mut current_pointer = self.current_pointer;
        loop
            invariant
                self.wf(),
                current_pointer < self.scopes().len(),
                chain_lookup(self.scopes(), self.current(), name@) == chain_lookup(
                    self.scopes(),
                    current_pointer as int,
                    name@,
                ),
            decreases current_pointer,
        {
            match self.table[current_pointer].get_type(name) {
                Some(variable_type) => return Some(variable_type),
                None => {
                    match self.table[current_pointer].parent_pointer {
                        Some(pointer) => {
                            assert(self.table@[current_pointer as int].parent() matches Some(p)
                                && p < current_pointer);
                            current_pointer = pointer;
                        },
                        None => return None,
                    }
                },
            }
        }
    }

    /// Opens a new scope under `parent_pointer` and makes it current.
    pub fn push_scope(&mut self, parent_pointer: Option<usize>)
        requires
            old(self).wf(),
            parent_pointer matches Some(p) ==> p < old(self).scopes().len(),
        ensures
            final(self).wf(),
            final(self).scopes().len() == old(self).scopes().len() + 1,
            final(self).current() == old(self).scopes().len(),
            final(self).scopes().last().entries() == Seq::<(Seq<char>, Type)>::empty(),
            final(self).scopes().last().parent() == parent_pointer,
            final(self).scopes().subrange(0, old(self).scopes().len() as int) == old(self).scopes(),
    {
        self.table.push(VariableScope::new(parent_pointer));
        self.max_pointer = self.table.len() - 1;
        self.current_pointer = self.max_pointer;
    }

    /// Returns to the parent of the current scope.
    pub fn pop_scope(&mut self)
        requires
            old(self).wf(),
            old(self).scopes()[old(self).current()].parent() is Some,
        ensures
            final(self).wf(),
            final(self).scopes() == old(self).scopes(),
            final(self).current() == old(self).scopes()[old(self).current()].parent()->0,
    {
        match self.table[self.current_pointer].parent_pointer {
            Some(pointer) => {
                self.current_pointer = pointer;
            },
            None => {},
        }
    }
}

} // verus!
