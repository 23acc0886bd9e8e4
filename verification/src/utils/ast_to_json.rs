//! The structure of a program as the sequence diagram shows it: for each
//! function and task, the calls, resumptions, yields and process steps its
//! body makes, in order.
use vstd::prelude::*;
use crate::analyzer::coroutine_table::CoroutineTable;
use crate::analyzer::function_table::FunctionInfo;
use crate::analyzer::semantic::Semantic;
use crate::analyzer::task_table::CoroutineTask;
use crate::interpreter::named::{find_key, key_set, keys, lemma_key_same_names};
use crate::parser::node::{Block, BlockNode, PrivateNode, Stmt, lemma_nodes_view, nodes_view};
use crate::text::{owned, str_eq};

verus! {

/// One entry of the structure of a body: its kind and one named datum.
#[derive(Debug)]
pub struct Data {
    pub kind: String,
    pub key: String,
    pub value: String,
}

impl View for Data {
    type V = (Seq<char>, Seq<char>, Seq<char>);

    open spec fn view(&self) -> (Seq<char>, Seq<char>, Seq<char>) {
        (self.kind@, self.key@, self.value@)
    }
}

impl Data {
    pub fn new(kind: &str, key: &str, value: &str) -> (r: Self)
        ensures
            r@ == (kind@, key@, value@),
    {
        Self { kind: owned(kind), key: owned(key), value: owned(value) }
    }
}

/// The models of a list of entries.
pub open spec fn datas_view(v: Seq<Data>) -> Seq<(Seq<char>, Seq<char>, Seq<char>)> {
    v.map_values(|d: Data| d@)
}

/// What one statement adds to the structure.
pub open spec fn analysis_node(n: Stmt) -> Seq<(Seq<char>, Seq<char>, Seq<char>)>
    decreases n,
{
    match n {
        Stmt::IfStatement { condition_node: _, then_block, else_block } => analysis_nodes(
            then_block.statements,
        ) + match else_block {
            Some(b) => analysis_nodes(b.statements),
            None => seq![],
        },
        Stmt::LoopStatement { condition_node: _, block } => analysis_nodes(block.statements),
        Stmt::VariableDeclaration { name: _, variable_type: _, initializer, doc: _ } => match initializer {
            Some(init) => analysis_node(*init),
            None => seq![],
        },
        Stmt::VariableAssignment { name: _, expression } => analysis_node(*expression),
        Stmt::CoroutineResume { task_name } => seq![("task_resume"@, "target"@, task_name)],
        Stmt::Yield => seq![("yield"@, "target"@, "main"@)],
        Stmt::FunctionCall { name, arguments, return_flg: _ } => (if name != "print"@ {
            seq![("function_call"@, "target"@, name)]
        } else {
            seq![]
        }) + analysis_nodes(arguments),
        Stmt::ProcessComment { comment } => seq![("doc"@, "string"@, comment)],
        _ => seq![],
    }
}

/// What a list of statements adds to the structure, in order.
pub open spec fn analysis_nodes(s: Seq<Stmt>) -> Seq<(Seq<char>, Seq<char>, Seq<char>)>
    decreases s,
{
    if s.len() == 0 {
        seq![]
    } else {
        analysis_nodes(s.drop_last()) + analysis_node(s.last())
    }
}

/// The structure of statements put one after another is the structure of
/// each, in order.
pub proof fn law_structure_in_order(s: Seq<Stmt>, t: Seq<Stmt>)
    ensures
        analysis_nodes(s + t) == analysis_nodes(s) + analysis_nodes(t),
    decreases t.len(),
{
    if t.len() == 0 {
        assert(s + t =~= s);
        assert(analysis_nodes(s) + analysis_nodes(t) =~= analysis_nodes(s));
    } else {
        assert((s + t).drop_last() =~= s + t.drop_last());
        assert((s + t).last() == t.last());
        law_structure_in_order(s, t.drop_last());
        assert(analysis_nodes(s) + analysis_nodes(t.drop_last()) + analysis_node(t.last()) =~= analysis_nodes(s)
            + (analysis_nodes(t.drop_last()) + analysis_node(t.last())));
    }
}

/// The structure of one statement alone is its own.
pub proof fn law_structure_of_one(x: Stmt)
    ensures
        analysis_nodes(seq![x]) == analysis_node(x),
{
    assert(seq![x].drop_last() =~= Seq::<Stmt>::empty());
    assert(analysis_nodes(Seq::<Stmt>::empty()) + analysis_node(x) =~= analysis_node(x));
}

/// A call records itself (unless it is `print`) and then the structure of
/// its arguments, in order: a call made in an argument of another call is
/// recorded too.
pub proof fn law_call_records_its_arguments(name: Seq<char>, args: Seq<Stmt>, return_flg: bool)
    ensures
        analysis_node(Stmt::FunctionCall { name, arguments: args, return_flg }) == (if name != "print"@ {
            seq![("function_call"@, "target"@, name)]
        } else {
            seq![]
        }) + analysis_nodes(args),
        forall|i: int|
            0 <= i < args.len() && #[trigger] args[i] is FunctionCall && args[i]->FunctionCall_name != "print"@
                ==> analysis_node(Stmt::FunctionCall { name, arguments: args, return_flg }).contains(
                ("function_call"@, "target"@, args[i]->FunctionCall_name),
            ),
{
    let whole = analysis_node(Stmt::FunctionCall { name, arguments: args, return_flg });
    let head: Seq<(Seq<char>, Seq<char>, Seq<char>)> = if name != "print"@ {
        seq![("function_call"@, "target"@, name)]
    } else {
        seq![]
    };
    assert forall|i: int|
        0 <= i < args.len() && #[trigger] args[i] is FunctionCall && args[i]->FunctionCall_name != "print"@ implies
        whole.contains(("function_call"@, "target"@, args[i]->FunctionCall_name)) by {
        let g = args[i]->FunctionCall_name;
        let before = args.take(i);
        let after = args.skip(i + 1);
        assert(args =~= before + seq![args[i]] + after);
        law_structure_in_order(before + seq![args[i]], after);
        law_structure_in_order(before, seq![args[i]]);
        law_structure_of_one(args[i]);
        let inner = analysis_node(args[i]);
        assert(inner[0] == ("function_call"@, "target"@, g));
        let k: int = (head.len() + analysis_nodes(before).len()) as int;
        assert(whole == head + (analysis_nodes(before) + inner + analysis_nodes(after)));
        assert(whole[k] == inner[0]);
    }
}

/// The structure of a body.
pub open spec fn analysis(b: Block) -> Seq<(Seq<char>, Seq<char>, Seq<char>)> {
    analysis_nodes(b.statements)
}

struct AnalyzeAst {
    stack: Vec<Data>,
}

impl AnalyzeAst {
    /// The structure of a body.
    fn new(ast: &BlockNode) -> (r: Vec<Data>)
        ensures
            datas_view(r@) == analysis(ast@),
    {
        let mut analyze_ast = Self { stack: Vec::new() };
        assert(datas_view(analyze_ast.stack@) =~= seq![]);
        analyze_ast.analyze_block(ast);
        analyze_ast.stack
    }

    fn push(&mut self, d: Data)
        ensures
            datas_view(final(self).stack@) == datas_view(old(self).stack@).push(d@),
    {
        let ghost before = self.stack@;
        self.stack.push(d);
        assert(datas_view(self.stack@) =~= datas_view(before).push(d@));
    }

    fn analyze_nodes(&mut self, nodes: &Vec<PrivateNode>)
        ensures
            datas_view(final(self).stack@) == datas_view(old(self).stack@) + analysis_nodes(nodes_view(nodes@)),
        decreases nodes, 0nat,
    {
        proof {
            lemma_nodes_view(nodes@);
        }
        let ghost start = datas_view(self.stack@);
        let mut i: usize = 0;
        while i < nodes.len()
            invariant
                i <= nodes@.len(),
                nodes_view(nodes@).len() == nodes@.len(),
                forall|j: int| 0 <= j < nodes@.len() ==> #[trigger] nodes_view(nodes@)[j] == nodes@[j]@,
                datas_view(self.stack@) == start + analysis_nodes(nodes_view(nodes@).take(i as int)),
            decreases nodes@.len() - i,
        {
            proof {
                assert(decreases_to!(nodes => nodes[i as int]));
            }
            let ghost before = datas_view(self.stack@);
            self.analyze_node(&nodes[i]);
            proof {
                let t = nodes_view(nodes@).take(i + 1);
                assert(t.drop_last() =~= nodes_view(nodes@).take(i as int));
                assert(t.last() == nodes@[i as int]@);
                assert(datas_view(self.stack@) =~= start + analysis_nodes(t));
            }
            i = i + 1;
        }
        assert(nodes_view(nodes@).take(i as int) =~= nodes_view(nodes@));
    }

    fn analyze_block(&mut self, block: &BlockNode)
        ensures
            datas_view(final(self).stack@) == datas_view(old(self).stack@) + analysis(block@),
        decreases block, 1nat,
    {
        proof {
            assert(decreases_to!(block => block.statements));
        }
        self.analyze_nodes(&block.statements);
    }

    fn analyze_node(&mut self, ast: &PrivateNode)
        ensures
            datas_view(final(self).stack@) == datas_view(old(self).stack@) + analysis_node(ast@),
        decreases ast, 2nat,
    {
        let ghost before = datas_view(self.stack@);
        match ast {
            PrivateNode::IfStatement { condition_node: _, then_block, else_block } => {
                self.analyze_block(then_block);
                match else_block {
                    Some(b) => {
                        self.analyze_block(b);
                    },
                    None => {},
                }
                assert(datas_view(self.stack@) =~= before + analysis_node(ast@));
            },
            PrivateNode::LoopStatement { condition_node: _, block } => {
                self.analyze_block(block);
            },
            PrivateNode::VariableDeclaration { name: _, variable_type: _, initializer, doc: _ } => {
                match initializer {
                    Some(ini) => {
                        self.analyze_node(ini);
                    },
                    None => {
                        assert(datas_view(self.stack@) =~= before + analysis_node(ast@));
                    },
                }
            },
            PrivateNode::VariableAssignment { name: _, expression } => {
                self.analyze_node(expression);
            },
            PrivateNode::CoroutineResume { task_name } => {
                self.push(Data::new("task_resume", "target", task_name.as_str()));
                assert(datas_view(self.stack@) =~= before + analysis_node(ast@));
            },
            PrivateNode::Yield => {
                self.push(Data::new("yield", "target", "main"));
                assert(datas_view(self.stack@) =~= before + analysis_node(ast@));
            },
            PrivateNode::FunctionCall { name, arguments, return_flg: _ } => {
                if !str_eq(name.as_str(), "print") {
                    self.push(Data::new("function_call", "target", name.as_str()));
                }
                let ghost mid = datas_view(self.stack@);
                self.analyze_nodes(arguments);
                assert(datas_view(self.stack@) =~= before + analysis_node(ast@));
            },
            PrivateNode::ProcessComment { comment } => {
                self.push(Data::new("doc", "string", comment.as_str()));
                assert(datas_view(self.stack@) =~= before + analysis_node(ast@));
            },
            _ => {
                assert(datas_view(self.stack@) =~= before + analysis_node(ast@));
            },
        }
    }
}

/// One definition shown in the diagram: a function or a task.
#[derive(Debug)]
pub struct Definition {
    pub name: String,
    pub kind: String,
    pub doc: String,
    pub reference: String,
}

impl View for Definition {
    type V = (Seq<char>, Seq<char>, Seq<char>, Seq<char>);

    open spec fn view(&self) -> (Seq<char>, Seq<char>, Seq<char>, Seq<char>) {
        (self.name@, self.kind@, self.doc@, self.reference@)
    }
}

impl Definition {
    pub fn new(name: &str, kind: &str, doc: &str, reference: &str) -> (r: Self)
        ensures
            r@ == (name@, kind@, doc@, reference@),
    {
        Self { name: owned(name), kind: owned(kind), doc: owned(doc), reference: owned(reference) }
    }
}

/// The model of the structures: for each name, its entries.
pub open spec fn structs_view(v: Seq<(String, Vec<Data>)>) -> Seq<(Seq<char>, Seq<(Seq<char>, Seq<char>, Seq<char>)>)> {
    v.map_values(|p: (String, Vec<Data>)| (p.0@, datas_view(p.1@)))
}

/// The models of a list of definitions.
pub open spec fn defs_view(v: Seq<Definition>) -> Seq<(Seq<char>, Seq<char>, Seq<char>, Seq<char>)> {
    v.map_values(|d: Definition| d@)
}

/// The definitions of the functions, in table order, the built-in `print`
/// left out.
pub open spec fn function_definitions(fs: Seq<FunctionInfo>) -> Seq<(Seq<char>, Seq<char>, Seq<char>, Seq<char>)>
    decreases fs.len(),
{
    if fs.len() == 0 {
        seq![]
    } else {
        let f = fs.last();
        function_definitions(fs.drop_last()) + if f.name@ == "print"@ {
            seq![]
        } else {
            seq![(f.name@, "function"@, f.doc@, ""@)]
        }
    }
}

/// The structures after those of the functions are set, in table order.
pub open spec fn function_structures(
    fs: Seq<FunctionInfo>,
    start: Seq<(Seq<char>, Seq<(Seq<char>, Seq<char>, Seq<char>)>)>,
) -> Seq<(Seq<char>, Seq<(Seq<char>, Seq<char>, Seq<char>)>)>
    decreases fs.len(),
{
    if fs.len() == 0 {
        start
    } else {
        let f = fs.last();
        let prev = function_structures(fs.drop_last(), start);
        if f.name@ == "print"@ {
            prev
        } else {
            key_set(prev, f.name@, analysis(f.process@))
        }
    }
}

/// The definitions of the tasks, each naming its coroutine.
pub open spec fn task_definitions(ts: Seq<CoroutineTask>, coroutines: CoroutineTable) -> Seq<
    (Seq<char>, Seq<char>, Seq<char>, Seq<char>),
>
    decreases ts.len(),
{
    if ts.len() == 0 {
        seq![]
    } else {
        let t = ts.last();
        let c = coroutines.lookup(t.coroutine_name@)->Some_0;
        task_definitions(ts.drop_last(), coroutines) + seq![(t.task_name@, "coroutine"@, c.doc, c.name)]
    }
}

/// The structures after those of the tasks are set: each task shows the
/// body of its coroutine.
pub open spec fn task_structures(
    ts: Seq<CoroutineTask>,
    coroutines: CoroutineTable,
    start: Seq<(Seq<char>, Seq<(Seq<char>, Seq<char>, Seq<char>)>)>,
) -> Seq<(Seq<char>, Seq<(Seq<char>, Seq<char>, Seq<char>)>)>
    decreases ts.len(),
{
    if ts.len() == 0 {
        start
    } else {
        let t = ts.last();
        let c = coroutines.lookup(t.coroutine_name@)->Some_0;
        key_set(task_structures(ts.drop_last(), coroutines, start), t.task_name@, analysis(c.process))
    }
}

/// What the diagram shows of a program: its definitions, and the structure
/// of each by name.
#[derive(Debug)]
pub struct JsonData {
    pub definitions: Vec<Definition>,
    pub structures: Vec<(String, Vec<Data>)>,
}

fn set_structure(structures: &mut Vec<(String, Vec<Data>)>, name: &str, data: Vec<Data>)
    ensures
        structs_view(final(structures)@) == key_set(structs_view(old(structures)@), name@, datas_view(data@)),
{
    let ghost before = structures@;
    let ghost dv = datas_view(data@);
    proof {
        lemma_key_same_names(structs_view(before), keys(before), name@);
    }
    match find_key(structures, name) {
        Some(i) => {
            structures.set(i, (owned(name), data));
            assert(structs_view(structures@) =~= structs_view(before).update(i as int, (name@, dv)));
        },
        None => {
            structures.push((owned(name), data));
            assert(structs_view(structures@) =~= structs_view(before).push((name@, dv)));
        },
    }
}

impl JsonData {
    /// The definitions and structures of an analysed program: its functions
    /// (but `print`) in table order, then its tasks.
    pub fn new(semantic: &Semantic) -> (r: Self)
        requires
            semantic.coroutines().wf(),
            forall|i: int|
                0 <= i < semantic.task_entries().len() ==> semantic.coroutines().lookup(
                    (#[trigger] semantic.task_entries()[i]).coroutine_name@,
                ) is Some,
        ensures
            defs_view(r.definitions@) == function_definitions(semantic.function_entries()) + task_definitions(
                semantic.task_entries(),
                semantic.coroutines(),
            ),
            structs_view(r.structures@) == task_structures(
                semantic.task_entries(),
                semantic.coroutines(),
                function_structures(semantic.function_entries(), seq![]),
            ),
    {
        let functions = semantic.function_infos();
        let tasks = semantic.tasks();
        let coroutine_table = semantic.coroutine_table();
        let mut definitions: Vec<Definition> = Vec::new();
        let mut structures: Vec<(String, Vec<Data>)> = Vec::new();
        assert(defs_view(definitions@) =~= seq![]);
        assert(structs_view(structures@) =~= seq![]);
        let mut i: usize = 0;
        while i < functions.len()
            invariant
                i <= functions@.len(),
                defs_view(definitions@) == function_definitions(functions@.take(i as int)),
                structs_view(structures@) == function_structures(functions@.take(i as int), seq![]),
            decreases functions@.len() - i,
        {
            let f = &functions[i];
            let ghost d_before = definitions@;
            proof {
                assert(functions@.take(i + 1).drop_last() =~= functions@.take(i as int));
                assert(functions@.take(i + 1).last() == functions@[i as int]);
            }
            if !str_eq(f.name.as_str(), "print") {
                definitions.push(Definition::new(f.name.as_str(), "function", f.doc.as_str(), ""));
                assert(defs_view(definitions@) =~= defs_view(d_before) + seq![(f.name@, "function"@, f.doc@, ""@)]);
                let stack = AnalyzeAst::new(&f.process);
                set_structure(&mut structures, f.name.as_str(), stack);
            } else {
                assert(defs_view(definitions@) =~= defs_view(d_before) + seq![]);
            }
            i = i + 1;
        }
        assert(functions@.take(i as int) =~= functions@);
        let ghost fun_defs = defs_view(definitions@);
        let ghost fun_structs = structs_view(structures@);
        let mut j: usize = 0;
        while j < tasks.len()
            invariant
                j <= tasks@.len(),
                tasks@ == semantic.task_entries(),
                *coroutine_table == semantic.coroutines(),
                semantic.coroutines().wf(),
                forall|k: int|
                    0 <= k < semantic.task_entries().len() ==> semantic.coroutines().lookup(
                        (#[trigger] semantic.task_entries()[k]).coroutine_name@,
                    ) is Some,
                defs_view(definitions@) == fun_defs + task_definitions(tasks@.take(j as int), semantic.coroutines()),
                structs_view(structures@) == task_structures(
                    tasks@.take(j as int),
                    semantic.coroutines(),
                    fun_structs,
                ),
            decreases tasks@.len() - j,
        {
            let task = &tasks[j];
            proof {
                assert(tasks@.take(j + 1).drop_last() =~= tasks@.take(j as int));
                assert(tasks@.take(j + 1).last() == tasks@[j as int]);
                assert(semantic.coroutines().lookup(tasks@[j as int].coroutine_name@) is Some);
            }
            match coroutine_table.get_function_info(task.coroutine_name.as_str()) {
                Some(coroutine) => {
                    let ghost d_before = definitions@;
                    definitions.push(
                        Definition::new(
                            task.task_name.as_str(),
                            "coroutine",
                            coroutine.doc.as_str(),
                            coroutine.name.as_str(),
                        ),
                    );
                    assert(defs_view(definitions@) =~= defs_view(d_before) + seq![
                        (task.task_name@, "coroutine"@, coroutine.doc@, coroutine.name@),
                    ]);
                    let stack = AnalyzeAst::new(&coroutine.process);
                    set_structure(&mut structures, task.task_name.as_str(), stack);
                },
                None => {},
            }
            j = j + 1;
        }
        assert(tasks@.take(j as int) =~= tasks@);
        JsonData { definitions, structures }
    }
}

} // verus!
