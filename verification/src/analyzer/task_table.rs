//! Coroutine tasks: instances of coroutines that run step by step.
use vstd::prelude::*;
use crate::parser::node::{BlockNode, PrivateNode, Stmt, copy_nodes, nodes_view};
use crate::text::{owned, str_eq};

verus! {

#[derive(Debug, Clone, Copy, PartialEq, Eq, Structural)]
pub enum TaskStatus {
    /// 実行準備OK
    Ready,
    /// 実行中
    Running,
    /// 一時停止中
    Paused,
    /// 実行完了
    Completed,
}

#[derive(Debug)]
pub struct CoroutineTask {
    pub task_name: String,
    pub coroutine_name: String,
    pub status: TaskStatus,
    pub current_position: usize,
    pub process: Vec<PrivateNode>,
}

/// The model of a task.
pub struct TaskModel {
    pub task_name: Seq<char>,
    pub coroutine_name: Seq<char>,
    pub status: TaskStatus,
    pub current_position: nat,
    pub process: Seq<Stmt>,
}

impl View for CoroutineTask {
    type V = TaskModel;

    open spec fn view(&self) -> TaskModel {
        TaskModel {
            task_name: self.task_name@,
            coroutine_name: self.coroutine_name@,
            status: self.status,
            current_position: self.current_position as nat,
            process: nodes_view(self.process@),
        }
    }
}

impl CoroutineTask {
    /// A task of the coroutine whose body is `process`, ready at its first
    /// statement.
    pub fn new(task_name: &str, coroutine_name: &str, process: &BlockNode) -> (r: Self)
        ensures
            r@ == (TaskModel {
                task_name: task_name@,
                coroutine_name: coroutine_name@,
                status: TaskStatus::Ready,
                current_position: 0,
                process: process@.statements,
            }),
            r.process@.len() == process.statements@.len(),
    {
        let process = copy_nodes(&process.statements);
        Self {
            task_name: owned(task_name),
            coroutine_name: owned(coroutine_name),
            status: TaskStatus::Ready,
            current_position: 0,
            process,
        }
    }

    /// Moves on to the next statement; past the last one the task is
    /// completed.
    pub fn step(&mut self)
        requires
            old(self).current_position < usize::MAX,
        ensures
            final(self).current_position == old(self).current_position + 1,
            final(self).status == (if final(self).current_position >= old(self).process@.len() {
                TaskStatus::Completed
            } else {
                old(self).status
            }),
            final(self).task_name == old(self).task_name,
            final(self).coroutine_name == old(self).coroutine_name,
            final(self).process == old(self).process,
    {
        self.current_position = self.current_position + 1;
        if self.current_position >= self.process.len() {
            self.status = TaskStatus::Completed;
        }
    }

    /// A copy of the task.
    pub fn copy(&self) -> (r: Self)
        ensures
            r@ == self@,
            r.process@.len() == self.process@.len(),
    {
        Self {
            task_name: owned(self.task_name.as_str()),
            coroutine_name: owned(self.coroutine_name.as_str()),
            status: self.status,
            current_position: self.current_position,
            process: copy_nodes(&self.process),
        }
    }
}

/// The index of the key `name`, if any.
pub open spec fn task_index(keys: Seq<String>, name: Seq<char>) -> Option<int> {
    if exists|i: int| 0 <= i < keys.len() && (#[trigger] keys[i])@ == name {
        Some(choose|i: int| 0 <= i < keys.len() && (#[trigger] keys[i])@ == name)
    } else {
        None
    }
}

/// The model of the task stored under `name`, if any.
pub open spec fn task_lookup(keys: Seq<String>, infos: Seq<CoroutineTask>, name: Seq<char>) -> Option<TaskModel> {
    match task_index(keys, name) {
        Some(i) => Some(infos[i]@),
        None => None,
    }
}

/// No two keys are the same.
pub open spec fn distinct_task_names(keys: Seq<String>) -> bool {
    forall|i: int, j: int|
        0 <= i < keys.len() && 0 <= j < keys.len() && i != j ==> (#[trigger] keys[i])@
            != (#[trigger] keys[j])@
}

proof fn lemma_index_unique(keys: Seq<String>, name: Seq<char>, i: int)
    requires
        distinct_task_names(keys),
        0 <= i < keys.len(),
        keys[i]@ == name,
    ensures
        task_index(keys, name) == Some(i),
{
    let k = choose|k: int| 0 <= k < keys.len() && (#[trigger] keys[k])@ == name;
    assert(0 <= k < keys.len() && keys[k]@ == name);
}

/// Replacing the task at `i`, whose key stays.
proof fn lemma_replace_entry(keys: Seq<String>, before: Seq<CoroutineTask>, i: int, info: CoroutineTask)
    requires
        distinct_task_names(keys),
        keys.len() == before.len(),
        0 <= i < before.len(),
    ensures
        task_lookup(keys, before.update(i, info), keys[i]@) == Some(info@),
        forall|n: Seq<char>| n != keys[i]@ ==> task_lookup(keys, before.update(i, info), n) == task_lookup(keys, before, n),
{
    lemma_index_unique(keys, keys[i]@, i);
    assert forall|n: Seq<char>| n != keys[i]@ implies task_lookup(keys, before.update(i, info), n)
        == task_lookup(keys, before, n) by {
        if task_index(keys, n) is Some {
            let k = task_index(keys, n)->0;
            assert(k != i);
        }
    }
}

/// Adding a task under a key that no task has.
proof fn lemma_push_entry(keys: Seq<String>, before: Seq<CoroutineTask>, key: String, info: CoroutineTask)
    requires
        distinct_task_names(keys),
        keys.len() == before.len(),
        task_index(keys, key@) is None,
    ensures
        distinct_task_names(keys.push(key)),
        task_lookup(keys.push(key), before.push(info), key@) == Some(info@),
        forall|n: Seq<char>| n != key@ ==> task_lookup(keys.push(key), before.push(info), n) == task_lookup(keys, before, n),
{
    let after = keys.push(key);
    assert(distinct_task_names(after)) by {
        assert forall|a: int, b: int| 0 <= a < after.len() && 0 <= b < after.len() && a != b
            implies (#[trigger] after[a])@ != (#[trigger] after[b])@ by {
            if a < keys.len() && b < keys.len() {
                assert(keys[a]@ != keys[b]@);
            } else if a < keys.len() {
                assert(keys[a]@ != key@);
            } else {
                assert(keys[b]@ != key@);
            }
        }
    }
    lemma_index_unique(after, key@, keys.len() as int);
    assert forall|n: Seq<char>| n != key@ implies task_lookup(after, before.push(info), n) == task_lookup(keys, before, n) by {
        if task_index(keys, n) is Some {
            let k = task_index(keys, n)->0;
            assert(after[k]@ == n);
            lemma_index_unique(after, n, k);
        } else if task_index(after, n) is Some {
            let k = task_index(after, n)->0;
            assert(keys[k]@ == n);
        }
    }
}

/// The tasks, each stored under a name.
#[derive(Debug)]
pub struct TaskTable {
    pub keys: Vec<String>,
    pub table: Vec<CoroutineTask>,
}

impl TaskTable {
    /// A task for each key, and no two keys the same.
    pub open spec fn wf(&self) -> bool {
        &&& self.keys@.len() == self.table@.len()
        &&& distinct_task_names(self.keys@)
    }

    /// The task stored under `name`, as a model.
    pub open spec fn lookup(&self, name: Seq<char>) -> Option<TaskModel> {
        task_lookup(self.keys@, self.table@, name)
    }

    pub fn new() -> (r: Self)
        ensures
            r.wf(),
            forall|n: Seq<char>| r.lookup(n) is None,
            r.table@.len() == 0,
    {
        Self { keys: Vec::new(), table: Vec::new() }
    }

    /// タスクの新規登録
    pub fn add_task(&mut self, task_name: &str, coroutine_name: &str, process: &BlockNode)
        requires
            old(self).wf(),
        ensures
            final(self).wf(),
            final(self).lookup(task_name@) == Some(
                TaskModel {
                    task_name: task_name@,
                    coroutine_name: coroutine_name@,
                    status: TaskStatus::Ready,
                    current_position: 0,
                    process: process@.statements,
                },
            ),
            forall|n: Seq<char>| n != task_name@ ==> final(self).lookup(n) == old(self).lookup(n),
    {
        let task = CoroutineTask::new(task_name, coroutine_name, process);
        self.set_task(task_name, task);
    }

    /// タスクの上書き: the task is stored under `task_name`.
    pub fn set_task(&mut self, task_name: &str, task: CoroutineTask)
        requires
            old(self).wf(),
        ensures
            final(self).wf(),
            final(self).lookup(task_name@) == Some(task@),
            forall|n: Seq<char>| n != task_name@ ==> final(self).lookup(n) == old(self).lookup(n),
    {
        let ghost entry = task;
        match self.find(task_name) {
            Some(i) => {
                let ghost before = self.table@;
                self.table.set(i, task);
                proof {
                    lemma_replace_entry(self.keys@, before, i as int, entry);
                }
            },
            None => {
                let ghost before = self.table@;
                let ghost keys_before = self.keys@;
                let key = owned(task_name);
                self.keys.push(key);
                self.table.push(task);
                proof {
                    lemma_push_entry(keys_before, before, key, entry);
                }
            },
        }
    }

    /// The index of the task stored under `name`, if any.
    fn find(&self, name: &str) -> (r: Option<usize>)
        requires
            self.wf(),
        ensures
            match r {
                Some(i) => i < self.table@.len() && task_index(self.keys@, name@) == Some(i as int)
                    && self.keys@[i as int]@ == name@,
                None => task_index(self.keys@, name@) is None,
            },
    {
        let mut i: usize = 0;
        while i < self.keys.len()
            invariant
                self.wf(),
                i <= self.keys.len(),
                forall|j: int| 0 <= j < i ==> (#[trigger] self.keys@[j])@ != name@,
            decreases self.keys.len() - i,
        {
            if str_eq(self.keys[i].as_str(), name) {
                proof {
                    lemma_index_unique(self.keys@, name@, i as int);
                }
                return Some(i);
            }
            i = i + 1;
        }
        None
    }

    /// A copy of the task of `task_name`, if any.
    pub fn get_task(&mut self, task_name: &str) -> (r: Option<CoroutineTask>)
        requires
            old(self).wf(),
        ensures
            *final(self) == *old(self),
            match r {
                Some(task) => old(self).lookup(task_name@) == Some(task@) && task.process@.len()
                    == old(self).table@[task_index(old(self).keys@, task_name@)->0].process@.len(),
                None => old(self).lookup(task_name@) is None,
            },
    {
        match self.find(task_name) {
            Some(i) => Some(self.table[i].copy()),
            None => None,
        }
    }
}

} // verus!
