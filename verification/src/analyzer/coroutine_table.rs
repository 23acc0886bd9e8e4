//! The coroutines of a program, by name.
use vstd::prelude::*;
use crate::common::types::BlockType;
use crate::parser::node::{Block, BlockNode, copy_block};
use crate::text::{owned, str_eq};
use super::variable_table::VariableScope;

verus! {

#[derive(Debug)]
pub struct CoroutineInfo {
    /// コルーチン名
    pub name: String,
    /// Docコメント
    pub doc: String,
    /// コルーチン内の変数
    pub local_variables: VariableScope,
    /// コルーチンの処理
    pub process: BlockNode,
}

/// The model of a coroutine's entry.
pub struct CoroutineModel {
    pub name: Seq<char>,
    pub doc: Seq<char>,
    pub locals: Seq<(Seq<char>, crate::common::types::Type)>,
    pub locals_parent: Option<usize>,
    pub process: Block,
}

impl View for CoroutineInfo {
    type V = CoroutineModel;

    open spec fn view(&self) -> CoroutineModel {
        CoroutineModel {
            name: self.name@,
            doc: self.doc@,
            locals: self.local_variables.entries(),
            locals_parent: self.local_variables.parent(),
            process: self.process@,
        }
    }
}

impl CoroutineInfo {
    /// A copy of the entry.
    pub fn copy(&self) -> (r: Self)
        ensures
            r@ == self@,
    {
        CoroutineInfo {
            name: owned(self.name.as_str()),
            doc: owned(self.doc.as_str()),
            local_variables: self.local_variables.copy(),
            process: copy_block(&self.process),
        }
    }
}

/// The index of the entry named `name`, if any.
pub open spec fn coroutine_index(infos: Seq<CoroutineInfo>, name: Seq<char>) -> Option<int> {
    if exists|i: int| 0 <= i < infos.len() && (#[trigger] infos[i]).name@ == name {
        Some(choose|i: int| 0 <= i < infos.len() && (#[trigger] infos[i]).name@ == name)
    } else {
        None
    }
}

/// The model of the entry named `name`, if any.
pub open spec fn coroutine_lookup(infos: Seq<CoroutineInfo>, name: Seq<char>) -> Option<CoroutineModel> {
    match coroutine_index(infos, name) {
        Some(i) => Some(infos[i]@),
        None => None,
    }
}

/// No two entries share a name.
pub open spec fn distinct_coroutine_names(infos: Seq<CoroutineInfo>) -> bool {
    forall|i: int, j: int|
        0 <= i < infos.len() && 0 <= j < infos.len() && i != j ==> (#[trigger] infos[i]).name@
            != (#[trigger] infos[j]).name@
}

proof fn lemma_index_unique(infos: Seq<CoroutineInfo>, name: Seq<char>, i: int)
    requires
        distinct_coroutine_names(infos),
        0 <= i < infos.len(),
        infos[i].name@ == name,
    ensures
        coroutine_index(infos, name) == Some(i),
{
    let k = choose|k: int| 0 <= k < infos.len() && (#[trigger] infos[k]).name@ == name;
    assert(0 <= k < infos.len() && infos[k].name@ == name);
}

/// Replacing the entry at `i` by one of the same name.
proof fn lemma_replace_entry(before: Seq<CoroutineInfo>, i: int, info: CoroutineInfo)
    requires
        distinct_coroutine_names(before),
        0 <= i < before.len(),
        before[i].name@ == info.name@,
    ensures
        distinct_coroutine_names(before.update(i, info)),
        coroutine_lookup(before.update(i, info), info.name@) == Some(info@),
        forall|n: Seq<char>| n != info.name@ ==> coroutine_lookup(before.update(i, info), n) == coroutine_lookup(before, n),
{
    let after = before.update(i, info);
    assert(distinct_coroutine_names(after)) by {
        assert forall|a: int, b: int| 0 <= a < after.len() && 0 <= b < after.len() && a != b
            implies (#[trigger] after[a]).name@ != (#[trigger] after[b]).name@ by {
            assert(before[a].name@ != before[b].name@);
        }
    }
    lemma_index_unique(after, info.name@, i);
    assert forall|n: Seq<char>| n != info.name@ implies coroutine_lookup(after, n) == coroutine_lookup(before, n) by {
        if coroutine_index(before, n) is Some {
            let k = coroutine_index(before, n)->0;
            assert(after[k].name@ == n);
            lemma_index_unique(after, n, k);
        } else if coroutine_index(after, n) is Some {
            let k = coroutine_index(after, n)->0;
            assert(before[k].name@ == n);
        }
    }
}

/// Adding an entry whose name no entry has.
proof fn lemma_push_entry(before: Seq<CoroutineInfo>, info: CoroutineInfo)
    requires
        distinct_coroutine_names(before),
        coroutine_index(before, info.name@) is None,
    ensures
        distinct_coroutine_names(before.push(info)),
        coroutine_lookup(before.push(info), info.name@) == Some(info@),
        forall|n: Seq<char>| n != info.name@ ==> coroutine_lookup(before.push(info), n) == coroutine_lookup(before, n),
{
    let after = before.push(info);
    assert(distinct_coroutine_names(after)) by {
        assert forall|a: int, b: int| 0 <= a < after.len() && 0 <= b < after.len() && a != b
            implies (#[trigger] after[a]).name@ != (#[trigger] after[b]).name@ by {
            if a < before.len() && b < before.len() {
                assert(before[a].name@ != before[b].name@);
            } else if a < before.len() {
                assert(before[a].name@ != info.name@);
            } else {
                assert(before[b].name@ != info.name@);
            }
        }
    }
    lemma_index_unique(after, info.name@, before.len() as int);
    assert forall|n: Seq<char>| n != info.name@ implies coroutine_lookup(after, n) == coroutine_lookup(before, n) by {
        if coroutine_index(before, n) is Some {
            let k = coroutine_index(before, n)->0;
            assert(after[k].name@ == n);
            lemma_index_unique(after, n, k);
        } else if coroutine_index(after, n) is Some {
            let k = coroutine_index(after, n)->0;
            assert(before[k].name@ == n);
        }
    }
}

#[derive(Debug)]
pub struct CoroutineTable {
    table: Vec<CoroutineInfo>,
}

impl CoroutineTable {
    /// No two entries share a name.
    pub closed spec fn wf(&self) -> bool {
        distinct_coroutine_names(self.table@)
    }

    /// The entry of `name`, as a model.
    pub closed spec fn lookup(&self, name: Seq<char>) -> Option<CoroutineModel> {
        coroutine_lookup(self.table@, name)
    }

    /// The entries, in the order they were first registered.
    pub closed spec fn entries(&self) -> Seq<CoroutineInfo> {
        self.table@
    }

    pub fn new() -> (r: Self)
        ensures
            r.wf(),
            forall|n: Seq<char>| r.lookup(n) is None,
            r.entries().len() == 0,
    {
        Self { table: Vec::new() }
    }

    /// Registers a coroutine under `name`, replacing an entry of that name.
    pub fn coroutine_definition(&mut self, name: &str, doc: Option<&str>, block: &BlockNode)
        requires
            old(self).wf(),
        ensures
            final(self).wf(),
            final(self).lookup(name@) == Some(
                CoroutineModel {
                    name: name@,
                    doc: match doc {
                        Some(d) => d@,
                        None => ""@,
                    },
                    locals: seq![],
                    locals_parent: None,
                    process: block@,
                },
            ),
            forall|n: Seq<char>| n != name@ ==> final(self).lookup(n) == old(self).lookup(n),
    {
        let doc = match doc {
            Some(doc) => doc,
            None => "",
        };
        let coroutine_info = CoroutineInfo {
            name: owned(name),
            doc: owned(doc),
            local_variables: VariableScope::new(None),
            process: copy_block(block),
        };
        let ghost entry = coroutine_info;
        match self.find(name) {
            Some(i) => {
                let ghost before = self.table@;
                self.table.set(i, coroutine_info);
                proof {
                    lemma_replace_entry(before, i as int, entry);
                }
            },
            None => {
                let ghost before = self.table@;
                self.table.push(coroutine_info);
                proof {
                    lemma_push_entry(before, entry);
                }
            },
        }
    }

    /// The index of the entry of `name`, if any.
    fn find(&self, name: &str) -> (r: Option<usize>)
        requires
            self.wf(),
        ensures
            match r {
                Some(i) => i < self.table@.len() && coroutine_index(self.table@, name@) == Some(i as int),
                None => coroutine_index(self.table@, name@) is None,
            },
    {
        let mut i: usize = 0;
        while i < self.table.len()
            invariant
                self.wf(),
                i <= self.table.len(),
                forall|j: int| 0 <= j < i ==> (#[trigger] self.table@[j]).name@ != name@,
            decreases self.table.len() - i,
        {
            if str_eq(self.table[i].name.as_str(), name) {
                proof {
                    lemma_index_unique(self.table@, name@, i as int);
                }
                return Some(i);
            }
            i = i + 1;
        }
        None
    }

    /// A copy of the entry of `name`, if any.
    pub fn get_function_info(&self, name: &str) -> (r: Option<CoroutineInfo>)
        requires
            self.wf(),
        ensures
            match r {
                Some(info) => self.lookup(name@) == Some(info@),
                None => self.lookup(name@) is None,
            },
    {
        match self.find(name) {
            Some(i) => Some(self.table[i].copy()),
            None => None,
        }
    }

    /// Replaces the local variables of the entry of `name`, if any.
    pub fn set_local_variables(&mut self, name: &str, locals: VariableScope)
        requires
            old(self).wf(),
        ensures
            final(self).wf(),
            match old(self).lookup(name@) {
                Some(m) => final(self).lookup(name@) == Some(
                    CoroutineModel { locals: locals.entries(), locals_parent: locals.parent(), ..m },
                ),
                None => final(self).lookup(name@) is None,
            },
            forall|n: Seq<char>| n != name@ ==> final(self).lookup(n) == old(self).lookup(n),
    {
        match self.find(name) {
            Some(i) => {
                let ghost before = self.table@;
                let mut info = CoroutineInfo {
                    name: String::new(),
                    doc: String::new(),
                    local_variables: VariableScope::new(None),
                    process: BlockNode { block_type: BlockType::Coroutine, statements: Vec::new() },
                };
                std::mem::swap(&mut info, &mut self.table[i]);
                info.local_variables = locals;
                std::mem::swap(&mut info, &mut self.table[i]);
                proof {
                    assert(self.table@ == before.update(i as int, self.table@[i as int]));
                    lemma_replace_entry(before, i as int, self.table@[i as int]);
                }
            },
            None => {},
        }
    }

    /// The entry of `name`, to change in place.
    pub fn get_function_info_mut(&mut self, name: &str) -> (r: Option<&mut CoroutineInfo>)
        requires
            old(self).wf(),
        ensures
            match r {
                Some(info) => {
                    &&& old(self).lookup(name@) == Some((*info)@)
                    &&& coroutine_index(old(self).entries(), name@) matches Some(i)
                        && final(self).entries() == old(self).entries().update(i, *final(info))
                },
                None => {
                    &&& old(self).lookup(name@) is None
                    &&& *final(self) == *old(self)
                },
            },
    {
        match self.find(name) {
            Some(i) => Some(&mut self.table[i]),
            None => None,
        }
    }
}

} // verus!
