//! The coroutines a running program defines, and the tasks made from them:
//! a task runs the statements of its coroutine one by one.
use vstd::prelude::*;
use crate::error::error_code::ErrorCode;
use crate::error::error_context::ErrorContext;
use crate::interpreter::named::{find_key, key_get, key_set, keys, lemma_key_same_names, lemma_key_set_get};
use crate::parser::node::{Block, BlockNode, PrivateNode, Stmt, copy_block, copy_nodes, lemma_nodes_view, nodes_view};
use crate::text::owned;

verus! {

#[derive(Debug, Clone, Copy, PartialEq, Eq, Structural)]
pub enum CoroutineStatus {
    /// 実行準備OK
    Ready,
    /// 実行中
    Running,
    /// 一時停止中
    Paused,
    /// 実行完了
    Completed,
}

#[derive(Debug)]
pub struct CoroutineTask {
    pub task_name: String,
    pub status: CoroutineStatus,
    pub current_position: usize,
    pub process: Vec<PrivateNode>,
}

/// The model of a task.
pub struct TaskView {
    pub task_name: Seq<char>,
    pub status: CoroutineStatus,
    pub current_position: nat,
    pub process: Seq<Stmt>,
}

impl View for CoroutineTask {
    type V = TaskView;

    open spec fn view(&self) -> TaskView {
        TaskView {
            task_name: self.task_name@,
            status: self.status,
            current_position: self.current_position as nat,
            process: nodes_view(self.process@),
        }
    }
}

/// A task of the coroutine whose block is `process`, not started yet.
pub open spec fn fresh_task(task_name: Seq<char>, process: Block) -> TaskView {
    TaskView { task_name, status: CoroutineStatus::Ready, current_position: 0, process: process.statements }
}

/// The task after it ran one statement: it stands at the next one, and is
/// completed once it has run them all.
pub open spec fn stepped(t: TaskView) -> TaskView {
    TaskView {
        current_position: t.current_position + 1,
        status: if t.current_position + 1 >= t.process.len() {
            CoroutineStatus::Completed
        } else {
            t.status
        },
        ..t
    }
}

/// The task after it ran `k` statements.
pub open spec fn steps(t: TaskView, k: nat) -> TaskView
    decreases k,
{
    if k == 0 {
        t
    } else {
        stepped(steps(t, (k - 1) as nat))
    }
}

/// A task that runs each statement of its coroutine in turn stands past the
/// last one and is completed; before that it is not.
pub proof fn law_task_completes(task_name: Seq<char>, process: Block, k: nat)
    requires
        process.statements.len() > 0,
        k <= process.statements.len(),
    ensures
        steps(fresh_task(task_name, process), k).current_position == k,
        steps(fresh_task(task_name, process), k).process == process.statements,
        k < process.statements.len() ==> steps(fresh_task(task_name, process), k).status
            == CoroutineStatus::Ready,
        k == process.statements.len() ==> steps(fresh_task(task_name, process), k).status
            == CoroutineStatus::Completed,
    decreases k,
{
    if k > 0 {
        law_task_completes(task_name, process, (k - 1) as nat);
    }
}

impl CoroutineTask {
    pub fn new(task_name: &str, process: &BlockNode) -> (r: Self)
        ensures
            r@ == fresh_task(task_name@, process@),
    {
        Self {
            task_name: owned(task_name),
            status: CoroutineStatus::Ready,
            current_position: 0,
            process: copy_nodes(&process.statements),
        }
    }

    pub fn step(&mut self)
        requires
            old(self).current_position < usize::MAX,
        ensures
            final(self)@ == stepped(old(self)@),
    {
        proof {
            lemma_nodes_view(self.process@);
        }
        self.current_position += 1;
        if self.current_position >= self.process.len() {
            self.status = CoroutineStatus::Completed;
        }
    }

    /// A copy of the task.
    pub fn copy(&self) -> (r: Self)
        ensures
            r@ == self@,
    {
        Self {
            task_name: owned(self.task_name.as_str()),
            status: self.status,
            current_position: self.current_position,
            process: copy_nodes(&self.process),
        }
    }
}

/// The coroutine blocks of a list of entries, by name.
pub open spec fn blocks_model(v: Seq<(String, BlockNode)>) -> Seq<(Seq<char>, Block)> {
    v.map_values(|p: (String, BlockNode)| (p.0@, p.1@))
}

/// The tasks of a list of entries, by name.
pub open spec fn tasks_model(v: Seq<(String, CoroutineTask)>) -> Seq<(Seq<char>, TaskView)> {
    v.map_values(|p: (String, CoroutineTask)| (p.0@, p.1@))
}

/// The report of a coroutine or task that is not there.
pub open spec fn unknown_coroutine(e: ErrorContext, name: Seq<char>) -> bool {
    &&& e.error_code == ErrorCode::Runtime019
    &&& e.params_view() == seq![("coroutine"@, name)]
}

fn unknown_error(name: &str) -> (r: ErrorContext)
    ensures
        unknown_coroutine(r, name@),
{
    let mut params: Vec<(&str, &str)> = Vec::new();
    params.push(("coroutine", name));
    let r = ErrorContext::new(ErrorCode::Runtime019, 0, 0, params);
    assert(r.params_view() =~= seq![("coroutine"@, name@)]);
    r
}

pub struct CoroutineManager {
    coroutine_defs: Vec<(String, BlockNode)>,
    coroutine_tasks: Vec<(String, CoroutineTask)>,
}

/// A task made from a coroutine is found under its name, not started, with
/// the statements of the coroutine; the other tasks are found as before.
pub proof fn law_add_task_then_get(
    defs: Seq<(Seq<char>, Block)>,
    tasks: Seq<(Seq<char>, TaskView)>,
    task_name: Seq<char>,
    coroutine_name: Seq<char>,
    other: Seq<char>,
)
    requires
        key_get(defs, coroutine_name) is Some,
    ensures
        key_get(
            key_set(tasks, task_name, fresh_task(task_name, key_get(defs, coroutine_name)->Some_0)),
            task_name,
        ) == Some(fresh_task(task_name, key_get(defs, coroutine_name)->Some_0)),
        other != task_name ==> key_get(
            key_set(tasks, task_name, fresh_task(task_name, key_get(defs, coroutine_name)->Some_0)),
            other,
        ) == key_get(tasks, other),
{
    lemma_key_set_get(tasks, task_name, other, fresh_task(task_name, key_get(defs, coroutine_name)->Some_0));
}

impl CoroutineManager {
    /// The coroutines, by name.
    pub closed spec fn defs(&self) -> Seq<(Seq<char>, Block)> {
        blocks_model(self.coroutine_defs@)
    }

    /// The tasks, by name.
    pub closed spec fn tasks(&self) -> Seq<(Seq<char>, TaskView)> {
        tasks_model(self.coroutine_tasks@)
    }

    pub fn new() -> (r: Self)
        ensures
            r.defs() == Seq::<(Seq<char>, Block)>::empty(),
            r.tasks() == Seq::<(Seq<char>, TaskView)>::empty(),
    {
        let r = Self { coroutine_defs: Vec::new(), coroutine_tasks: Vec::new() };
        assert(r.defs() =~= Seq::<(Seq<char>, Block)>::empty());
        assert(r.tasks() =~= Seq::<(Seq<char>, TaskView)>::empty());
        r
    }

    /// Defines `coroutine_name`, replacing an earlier definition of it.
    pub fn add_def(&mut self, coroutine_name: &str, process: &BlockNode)
        ensures
            final(self).defs() == key_set(old(self).defs(), coroutine_name@, process@),
            final(self).tasks() == old(self).tasks(),
    {
        let block = copy_block(process);
        let ghost before = self.coroutine_defs@;
        proof {
            lemma_key_same_names(blocks_model(before), keys(before), coroutine_name@);
        }
        match find_key(&self.coroutine_defs, coroutine_name) {
            Some(i) => {
                self.coroutine_defs.set(i, (owned(coroutine_name), block));
                assert(self.defs() =~= blocks_model(before).update(i as int, (coroutine_name@, process@)));
            },
            None => {
                self.coroutine_defs.push((owned(coroutine_name), block));
                assert(self.defs() =~= blocks_model(before).push((coroutine_name@, process@)));
            },
        }
    }

    fn put_task(&mut self, task_name: &str, task: CoroutineTask)
        ensures
            final(self).tasks() == key_set(old(self).tasks(), task_name@, task@),
            final(self).defs() == old(self).defs(),
    {
        let ghost before = self.coroutine_tasks@;
        let ghost view = task@;
        proof {
            lemma_key_same_names(tasks_model(before), keys(before), task_name@);
        }
        match find_key(&self.coroutine_tasks, task_name) {
            Some(i) => {
                self.coroutine_tasks.set(i, (owned(task_name), task));
                assert(self.tasks() =~= tasks_model(before).update(i as int, (task_name@, view)));
            },
            None => {
                self.coroutine_tasks.push((owned(task_name), task));
                assert(self.tasks() =~= tasks_model(before).push((task_name@, view)));
            },
        }
    }

    /// Makes the task `task_name` of the coroutine `coroutine_name`.
    pub fn add_task(&mut self, task_name: &str, coroutine_name: &str) -> (r: Result<(), ErrorContext>)
        ensures
            final(self).defs() == old(self).defs(),
            r is Ok <==> key_get(old(self).defs(), coroutine_name@) is Some,
            r is Ok ==> final(self).tasks() == key_set(
                old(self).tasks(),
                task_name@,
                fresh_task(task_name@, key_get(old(self).defs(), coroutine_name@)->Some_0),
            ),
            r matches Err(e) ==> final(self).tasks() == old(self).tasks() && unknown_coroutine(e, coroutine_name@),
    {
        proof {
            lemma_key_same_names(self.defs(), keys(self.coroutine_defs@), coroutine_name@);
        }
        match find_key(&self.coroutine_defs, coroutine_name) {
            Some(i) => {
                let task = CoroutineTask::new(task_name, &self.coroutine_defs[i].1);
                self.put_task(task_name, task);
                Ok(())
            },
            None => Err(unknown_error(coroutine_name)),
        }
    }

    /// A copy of the task `task_name`.
    pub fn get_task(&mut self, task_name: &str) -> (r: Result<CoroutineTask, ErrorContext>)
        ensures
            final(self).defs() == old(self).defs(),
            final(self).tasks() == old(self).tasks(),
            r matches Ok(t) ==> key_get(old(self).tasks(), task_name@) == Some(t@),
            r matches Err(e) ==> key_get(old(self).tasks(), task_name@) is None && unknown_coroutine(e, task_name@),
    {
        proof {
            lemma_key_same_names(self.tasks(), keys(self.coroutine_tasks@), task_name@);
        }
        match find_key(&self.coroutine_tasks, task_name) {
            Some(i) => Ok(self.coroutine_tasks[i].1.copy()),
            None => Err(unknown_error(task_name)),
        }
    }

    /// Stores the task `task_name`, replacing the one of that name.
    pub fn set_task(&mut self, task_name: &str, task: CoroutineTask)
        ensures
            final(self).tasks() == key_set(old(self).tasks(), task_name@, task@),
            final(self).defs() == old(self).defs(),
    {
        self.put_task(task_name, task);
    }
}

} // verus!
