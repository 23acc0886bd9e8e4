//! The functions of a program, by name.
use vstd::prelude::*;
use crate::common::types::{BlockType, Type};
use crate::parser::node::{Block, BlockNode, ParameterNode, copy_block};
use crate::text::{owned, str_eq};
use super::variable_table::VariableScope;

verus! {

/// The model of a parameter: its name and type.
pub open spec fn param_view(p: ParameterNode) -> (Seq<char>, Type) {
    (p.name@, p.variable_type)
}

/// The models of a list of parameters.
pub open spec fn params_view(v: Seq<ParameterNode>) -> Seq<(Seq<char>, Type)> {
    v.map_values(|p: ParameterNode| param_view(p))
}

/// A copy of a list of parameters.
pub fn copy_params(v: &Vec<ParameterNode>) -> (r: Vec<ParameterNode>)
    ensures
        params_view(r@) == params_view(v@),
{
    let mut out: Vec<ParameterNode> = Vec::new();
    let mut i: usize = 0;
    while i < v.len()
        invariant
            i <= v.len(),
            out@.len() == i,
            params_view(out@) == params_view(v@.take(i as int)),
        decreases v.len() - i,
    {
        let ghost before = out@;
        out.push(ParameterNode { name: owned(v[i].name.as_str()), variable_type: v[i].variable_type });
        i = i + 1;
        assert(v@.take(i as int) =~= v@.take((i - 1) as int).push(v@[i - 1]));
        assert(params_view(out@) =~= params_view(before).push(param_view(v@[i - 1])));
        assert(params_view(v@.take(i as int)) =~= params_view(v@.take((i - 1) as int)).push(
            param_view(v@[i - 1]),
        ));
    }
    assert(v@.take(v.len() as int) =~= v@);
    out
}

#[derive(Debug)]
pub struct FunctionInfo {
    /// 関数名
    pub name: String,
    /// Docコメント
    pub doc: String,
    /// パラメータ
    pub parameters: Vec<ParameterNode>,
    /// 戻り値
    pub return_type: Option<Type>,
    /// 関数内の変数
    pub local_variables: VariableScope,
    /// 可変長引数であるか
    /// trueであれば、引数の数と型をチェックしない
    pub is_variadic: bool,
    /// 関数の処理
    pub process: BlockNode,
}

/// The model of a function's entry.
pub struct FunctionModel {
    pub name: Seq<char>,
    pub doc: Seq<char>,
    pub parameters: Seq<(Seq<char>, Type)>,
    pub return_type: Option<Type>,
    pub locals: Seq<(Seq<char>, Type)>,
    pub locals_parent: Option<usize>,
    pub is_variadic: bool,
    pub process: Block,
}

impl View for FunctionInfo {
    type V = FunctionModel;

    open spec fn view(&self) -> FunctionModel {
        FunctionModel {
            name: self.name@,
            doc: self.doc@,
            parameters: params_view(self.parameters@),
            return_type: self.return_type,
            locals: self.local_variables.entries(),
            locals_parent: self.local_variables.parent(),
            is_variadic: self.is_variadic,
            process: self.process@,
        }
    }
}

impl FunctionInfo {
    /// A copy of the entry.
    pub fn copy(&self) -> (r: Self)
        ensures
            r@ == self@,
    {
        FunctionInfo {
            name: owned(self.name.as_str()),
            doc: owned(self.doc.as_str()),
            parameters: copy_params(&self.parameters),
            return_type: self.return_type,
            local_variables: self.local_variables.copy(),
            is_variadic: self.is_variadic,
            process: copy_block(&self.process),
        }
    }
}

/// The index of the entry named `name`, if any.
pub open spec fn function_index(infos: Seq<FunctionInfo>, name: Seq<char>) -> Option<int> {
    if exists|i: int| 0 <= i < infos.len() && (#[trigger] infos[i]).name@ == name {
        Some(choose|i: int| 0 <= i < infos.len() && (#[trigger] infos[i]).name@ == name)
    } else {
        None
    }
}

/// The model of the entry named `name`, if any.
pub open spec fn function_lookup(infos: Seq<FunctionInfo>, name: Seq<char>) -> Option<FunctionModel> {
    match function_index(infos, name) {
        Some(i) => Some(infos[i]@),
        None => None,
    }
}

/// No two entries share a name.
pub open spec fn distinct_function_names(infos: Seq<FunctionInfo>) -> bool {
    forall|i: int, j: int|
        0 <= i < infos.len() && 0 <= j < infos.len() && i != j ==> (#[trigger] infos[i]).name@
            != (#[trigger] infos[j]).name@
}

proof fn lemma_index_unique(infos: Seq<FunctionInfo>, name: Seq<char>, i: int)
    requires
        distinct_function_names(infos),
        0 <= i < infos.len(),
        infos[i].name@ == name,
    ensures
        function_index(infos, name) == Some(i),
{
    let k = choose|k: int| 0 <= k < infos.len() && (#[trigger] infos[k]).name@ == name;
    assert(0 <= k < infos.len() && infos[k].name@ == name);
}

/// Replacing the entry at `i` by one of the same name.
proof fn lemma_replace_entry(before: Seq<FunctionInfo>, i: int, info: FunctionInfo)
    requires
        distinct_function_names(before),
        0 <= i < before.len(),
        before[i].name@ == info.name@,
    ensures
        distinct_function_names(before.update(i, info)),
        function_lookup(before.update(i, info), info.name@) == Some(info@),
        forall|n: Seq<char>| n != info.name@ ==> function_lookup(before.update(i, info), n) == function_lookup(before, n),
{
    let after = before.update(i, info);
    assert(distinct_function_names(after)) by {
        assert forall|a: int, b: int| 0 <= a < after.len() && 0 <= b < after.len() && a != b
            implies (#[trigger] after[a]).name@ != (#[trigger] after[b]).name@ by {
            assert(before[a].name@ != before[b].name@);
        }
    }
    lemma_index_unique(after, info.name@, i);
    assert forall|n: Seq<char>| n != info.name@ implies function_lookup(after, n) == function_lookup(before, n) by {
        if function_index(before, n) is Some {
            let k = function_index(before, n)->0;
            assert(after[k].name@ == n);
            lemma_index_unique(after, n, k);
        } else if function_index(after, n) is Some {
            let k = function_index(after, n)->0;
            assert(before[k].name@ == n);
        }
    }
}

/// Adding an entry whose name no entry has.
proof fn lemma_push_entry(before: Seq<FunctionInfo>, info: FunctionInfo)
    requires
        distinct_function_names(before),
        function_index(before, info.name@) is None,
    ensures
        distinct_function_names(before.push(info)),
        function_lookup(before.push(info), info.name@) == Some(info@),
        forall|n: Seq<char>| n != info.name@ ==> function_lookup(before.push(info), n) == function_lookup(before, n),
{
    let after = before.push(info);
    assert(distinct_function_names(after)) by {
        assert forall|a: int, b: int| 0 <= a < after.len() && 0 <= b < after.len() && a != b
            implies (#[trigger] after[a]).name@ != (#[trigger] after[b]).name@ by {
            if a < before.len() && b < before.len() {
                assert(before[a].name@ != before[b].name@);
            } else if a < before.len() {
                assert(before[a].name@ != info.name@);
            } else {
                assert(before[b].name@ != info.name@);
            }
        }
    }
    lemma_index_unique(after, info.name@, before.len() as int);
    assert forall|n: Seq<char>| n != info.name@ implies function_lookup(after, n) == function_lookup(before, n) by {
        if function_index(before, n) is Some {
            let k = function_index(before, n)->0;
            assert(after[k].name@ == n);
            lemma_index_unique(after, n, k);
        } else if function_index(after, n) is Some {
            let k = function_index(after, n)->0;
            assert(before[k].name@ == n);
        }
    }
}

#[derive(Debug)]
pub struct FunctionTable {
    pub table: Vec<FunctionInfo>,
}

/// The model of the built-in `print`: variadic, without parameters or
/// result, with an empty body.
pub open spec fn print_model() -> FunctionModel {
    FunctionModel {
        name: "print"@,
        doc: ""@,
        parameters: seq![],
        return_type: None,
        locals: seq![],
        locals_parent: None,
        is_variadic: true,
        process: Block { block_type: BlockType::Function, statements: seq![] },
    }
}

impl FunctionTable {
    /// No two entries share a name.
    pub open spec fn wf(&self) -> bool {
        distinct_function_names(self.table@)
    }

    /// The entry of `name`, as a model.
    pub open spec fn lookup(&self, name: Seq<char>) -> Option<FunctionModel> {
        function_lookup(self.table@, name)
    }

    /// A table that holds the built-in `print` alone.
    pub fn new() -> (r: Self)
        ensures
            r.wf(),
            r.lookup("print"@) == Some(print_model()),
            forall|n: Seq<char>| n != "print"@ ==> r.lookup(n) is None,
    {
        let mut table = Self { table: Vec::new() };
        let empty: Vec<ParameterNode> = Vec::new();
        let body = BlockNode { block_type: BlockType::Function, statements: Vec::new() };
        table.function_definition("print", None, &empty, &None, true, &body);
        proof {
            assert(body.statements@ =~= Seq::<crate::parser::node::PrivateNode>::empty());
            assert(crate::parser::node::nodes_view(body.statements@) =~= seq![]);
            assert(params_view(empty@) =~= seq![]);
        }
        table
    }

    /// Registers a function under `name`, replacing an entry of that name.
    pub fn function_definition(
        &mut self,
        name: &str,
        doc: Option<&str>,
        parameters: &Vec<ParameterNode>,
        return_type: &Option<Type>,
        is_variadic: bool,
        block: &BlockNode,
    )
        requires
            old(self).wf(),
        ensures
            final(self).wf(),
            final(self).lookup(name@) == Some(
                FunctionModel {
                    name: name@,
                    doc: match doc {
                        Some(d) => d@,
                        None => ""@,
                    },
                    parameters: params_view(parameters@),
                    return_type: *return_type,
                    locals: seq![],
                    locals_parent: None,
                    is_variadic,
                    process: block@,
                },
            ),
            forall|n: Seq<char>| n != name@ ==> final(self).lookup(n) == old(self).lookup(n),
    {
        let doc = match doc {
            Some(doc) => doc,
            None => "",
        };
        let function_info = FunctionInfo {
            name: owned(name),
            doc: owned(doc),
            parameters: copy_params(parameters),
            return_type: *return_type,
            local_variables: VariableScope::new(None),
            is_variadic,
            process: copy_block(block),
        };
        let ghost entry = function_info;
        match self.find(name) {
            Some(i) => {
                let ghost before = self.table@;
                self.table.set(i, function_info);
                proof {
                    lemma_replace_entry(before, i as int, entry);
                }
            },
            None => {
                let ghost before = self.table@;
                self.table.push(function_info);
                proof {
                    lemma_push_entry(before, entry);
                }
            },
        }
    }

    /// The index of the entry of `name`, if any.
    fn find(&self, name: &str) -> (r: Option<usize>)
        requires
            self.wf(),
        ensures
            match r {
                Some(i) => i < self.table@.len() && function_index(self.table@, name@) == Some(i as int),
                None => function_index(self.table@, name@) is None,
            },
    {
        let mut i: usize = 0;
        while i < self.table.len()
            invariant
                self.wf(),
                i <= self.table.len(),
                forall|j: int| 0 <= j < i ==> (#[trigger] self.table@[j]).name@ != name@,
            decreases self.table.len() - i,
        {
            if str_eq(self.table[i].name.as_str(), name) {
                proof {
                    lemma_index_unique(self.table@, name@, i as int);
                }
                return Some(i);
            }
            i = i + 1;
        }
        None
    }

    /// A copy of the entry of `name`, if any.
    pub fn get_function_info(&self, name: &str) -> (r: Option<FunctionInfo>)
        requires
            self.wf(),
        ensures
            match r {
                Some(info) => self.lookup(name@) == Some(info@),
                None => self.lookup(name@) is None,
            },
    {
        match self.find(name) {
            Some(i) => Some(self.table[i].copy()),
            None => None,
        }
    }

    /// The entry of `name`, to change in place.
    pub fn get_function_info_mut(&mut self, name: &str) -> (r: Option<&mut FunctionInfo>)
        requires
            old(self).wf(),
        ensures
            match r {
                Some(info) => {
                    &&& old(self).lookup(name@) == Some((*info)@)
                    &&& function_index(old(self).table@, name@) matches Some(i)
                        && final(self).table@ == old(self).table@.update(i, *final(info))
                },
                None => {
                    &&& old(self).lookup(name@) is None
                    &&& *final(self) == *old(self)
                },
            },
    {
        match self.find(name) {
            Some(i) => Some(&mut self.table[i]),
            None => None,
        }
    }

    /// Replaces the local variables of the entry of `name`, if any.
    pub fn set_local_variables(&mut self, name: &str, locals: VariableScope)
        requires
            old(self).wf(),
        ensures
            final(self).wf(),
            match old(self).lookup(name@) {
                Some(m) => final(self).lookup(name@) == Some(
                    FunctionModel { locals: locals.entries(), locals_parent: locals.parent(), ..m },
                ),
                None => final(self).lookup(name@) is None,
            },
            forall|n: Seq<char>| n != name@ ==> final(self).lookup(n) == old(self).lookup(n),
    {
        match self.find(name) {
            Some(i) => {
                let ghost before = self.table@;
                let mut info = FunctionInfo {
                    name: String::new(),
                    doc: String::new(),
                    parameters: Vec::new(),
                    return_type: None,
                    local_variables: VariableScope::new(None),
                    is_variadic: false,
                    process: BlockNode { block_type: BlockType::Function, statements: Vec::new() },
                };
                std::mem::swap(&mut info, &mut self.table[i]);
                info.local_variables = locals;
                std::mem::swap(&mut info, &mut self.table[i]);
                proof {
                    assert(self.table@ == before.update(i as int, self.table@[i as int]));
                    lemma_replace_entry(before, i as int, self.table@[i as int]);
                }
            },
            None => {},
        }
    }
}

} // verus!
