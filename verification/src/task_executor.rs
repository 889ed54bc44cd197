//! Tasks that run renderer modules, each on a thread of its own: their ids,
//! the operations they are sent, and the state a task keeps between
//! operations. The threads and channels are the caller's; it sends each
//! operation decided here to the task it names.

use vstd::prelude::*;
use std::collections::HashMap;
use crate::modules::{HardwareRendererFactory, ModuleInfo, RayTracingFactory, SoftwareRendererFactory};

verus! {

/// Input forwarded to a running task.
#[derive(Debug, Clone, Copy, PartialEq, Eq, Structural)]
pub enum InputEvent {
    MouseMove,
    MouseInput,
    TouchInput,
    KeyboardInput,
}

/// What a task is told. `Start` comes with the GPU the task renders with.
#[derive(Debug, Clone, Copy, PartialEq, Eq, Structural)]
pub enum TaskOperation {
    Idle,
    Pause,
    Resume,
    Start,
    Stop,
    Input(InputEvent),
}

/// The state of a task between operations: whether it is paused, whether
/// it is stopped, and whether it has a GPU to render with.
#[derive(Debug, Clone, Copy, PartialEq, Eq, Structural)]
pub struct TaskState {
    pub pause: bool,
    pub stop: bool,
    pub has_gpu: bool,
}

/// The state after operation `op`.
pub open spec fn spec_apply(s: TaskState, op: TaskOperation) -> TaskState {
    match op {
        TaskOperation::Resume => TaskState { pause: false, ..s },
        TaskOperation::Pause => TaskState { pause: true, ..s },
        TaskOperation::Start => TaskState { pause: false, has_gpu: true, ..s },
        TaskOperation::Stop => TaskState { stop: true, ..s },
        _ => s,
    }
}

/// The state after the operations `ops`, in order.
pub open spec fn apply_all(s: TaskState, ops: Seq<TaskOperation>) -> TaskState
    decreases ops.len(),
{
    if ops.len() == 0 {
        s
    } else {
        spec_apply(apply_all(s, ops.drop_last()), ops.last())
    }
}

impl TaskState {
    /// A new task: paused, with no GPU.
    pub fn new() -> (r: Self)
        ensures
            r == (TaskState { pause: true, stop: false, has_gpu: false }),
    {
        TaskState { pause: true, stop: false, has_gpu: false }
    }

    /// Whether the task runs another round.
    pub fn running(&self) -> (r: bool)
        ensures
            r == !self.stop,
    {
        !self.stop
    }

    /// Whether the task renders a frame this round: when it is not paused
    /// and has a GPU.
    pub fn renders(&self) -> (r: bool)
        ensures
            r == (!self.pause && self.has_gpu),
    {
        !self.pause && self.has_gpu
    }

    /// Whether the task waits for its next operation (when paused), rather
    /// than taking one only if one is there.
    pub fn waits(&self) -> (r: bool)
        ensures
            r == self.pause,
    {
        self.pause
    }

    /// Takes operation `op`; input is handed back for the task's camera
    /// controller.
    pub fn apply(&mut self, op: TaskOperation) -> (r: Option<InputEvent>)
        ensures
            *final(self) == spec_apply(*old(self), op),
            r == match op {
                TaskOperation::Input(ev) => Some(ev),
                _ => None::<InputEvent>,
            },
    {
        match op {
            TaskOperation::Resume => {
                self.pause = false;
                None
            },
            TaskOperation::Pause => {
                self.pause = true;
                None
            },
            TaskOperation::Start => {
                self.has_gpu = true;
                self.pause = false;
                None
            },
            TaskOperation::Stop => {
                self.stop = true;
                None
            },
            TaskOperation::Input(ev) => Some(ev),
            TaskOperation::Idle => None,
        }
    }
}

/// A task has a GPU, and so renders, only once it was started: from a new
/// task, whatever the operations, a GPU means a `Start` came among them.
pub proof fn lemma_renders_after_start(ops: Seq<TaskOperation>)
    ensures
        apply_all(TaskState { pause: true, stop: false, has_gpu: false }, ops).has_gpu ==> ops.contains(
            TaskOperation::Start,
        ),
    decreases ops.len(),
{
    if ops.len() > 0 {
        lemma_renders_after_start(ops.drop_last());
        let s0 = TaskState { pause: true, stop: false, has_gpu: false };
        let s = apply_all(s0, ops.drop_last());
        if s.has_gpu {
            let i = choose|i: int| 0 <= i < ops.drop_last().len() && ops.drop_last()[i] == TaskOperation::Start;
            assert(ops[i] == TaskOperation::Start);
        } else if ops.last() == TaskOperation::Start {
            assert(ops[ops.len() - 1] == TaskOperation::Start);
        }
    }
}

/// A stopped task stays stopped, whatever it is sent.
pub proof fn lemma_stop_is_final(s: TaskState, ops: Seq<TaskOperation>)
    requires
        s.stop,
    ensures
        apply_all(s, ops).stop,
    decreases ops.len(),
{
    if ops.len() > 0 {
        lemma_stop_is_final(s, ops.drop_last());
    }
}

/// The renderer modules a task can run.
#[derive(Debug, Clone, Copy, PartialEq, Eq, Structural)]
pub enum ModuleKind {
    Hardware,
    Software,
    RayTracing,
}

/// The name of a module.
pub open spec fn module_name(k: ModuleKind) -> Seq<char> {
    match k {
        ModuleKind::Hardware => "hardware gpu renderer"@,
        ModuleKind::Software => "software renderer"@,
        ModuleKind::RayTracing => "ray tracing"@,
    }
}

/// What module `k` says of itself.
pub fn module_info(k: ModuleKind) -> (r: ModuleInfo)
    ensures
        r.name@ == module_name(k),
{
    match k {
        ModuleKind::Hardware => HardwareRendererFactory::new().info(),
        ModuleKind::Software => SoftwareRendererFactory::new().info(),
        ModuleKind::RayTracing => RayTracingFactory::new().info(),
    }
}

/// The tasks and the modules they run: each task by its id, with the index
/// of its module; the id the next task gets; and the tasks that wait for a
/// GPU to start with.
pub struct Executor {
    modules: Vec<ModuleKind>,
    tasks: HashMap<u64, usize>,
    last_task_id: u64,
    tasks_to_wakeup: Vec<u64>,
}

impl Executor {
    pub closed spec fn modules(&self) -> Seq<ModuleKind> {
        self.modules@
    }

    /// The tasks, each with the index of the module it runs.
    pub closed spec fn task_map(&self) -> Map<u64, usize> {
        self.tasks@
    }

    pub closed spec fn next_id(&self) -> u64 {
        self.last_task_id
    }

    /// The tasks that are started at the next frame.
    pub closed spec fn wakeup(&self) -> Seq<u64> {
        self.tasks_to_wakeup@
    }

    /// Every task has an id below the next one, and every task to start is
    /// a task.
    pub closed spec fn wf(&self) -> bool {
        &&& forall|id: u64| #[trigger] self.tasks@.contains_key(id) ==> id < self.last_task_id
        &&& forall|i: int| 0 <= i < self.tasks_to_wakeup@.len() ==> self.tasks@.contains_key(
            #[trigger] self.tasks_to_wakeup@[i],
        )
    }

    /// The hardware, software and ray tracing renderers, and no task.
    pub fn new() -> (r: Self)
        ensures
            r.wf(),
            r.modules() == seq![ModuleKind::Hardware, ModuleKind::Software, ModuleKind::RayTracing],
            r.task_map() == Map::<u64, usize>::empty(),
            r.next_id() == 0,
            r.wakeup() == Seq::<u64>::empty(),
    {
        let mut modules: Vec<ModuleKind> = Vec::new();
        modules.push(ModuleKind::Hardware);
        modules.push(ModuleKind::Software);
        modules.push(ModuleKind::RayTracing);
        let r = Executor { modules, tasks: HashMap::new(), last_task_id: 0, tasks_to_wakeup: Vec::new() };
        proof {
            assert(r.modules@ =~= seq![ModuleKind::Hardware, ModuleKind::Software, ModuleKind::RayTracing]);
            assert(r.tasks@ =~= Map::<u64, usize>::empty());
            assert(r.tasks_to_wakeup@ =~= Seq::<u64>::empty());
        }
        r
    }

    /// A new task that runs module `index`: it gets the next id and is
    /// started at the next frame.
    pub fn run(&mut self, index: usize) -> (id: u64)
        requires
            old(self).wf(),
            index < old(self).modules().len(),
            old(self).next_id() < u64::MAX,
        ensures
            final(self).wf(),
            id == old(self).next_id(),
            !old(self).task_map().contains_key(id),
            final(self).task_map() == old(self).task_map().insert(id, index),
            final(self).wakeup() == old(self).wakeup().push(id),
            final(self).next_id() == old(self).next_id() + 1,
            final(self).modules() == old(self).modules(),
    {
        broadcast use vstd::std_specs::hash::group_hash_axioms;
        let id = self.last_task_id;
        self.tasks.insert(id, index);
        self.tasks_to_wakeup.push(id);
        self.last_task_id = id + 1;
        proof {
            assert forall|i: int| 0 <= i < self.tasks_to_wakeup@.len() implies self.tasks@.contains_key(
                #[trigger] self.tasks_to_wakeup@[i],
            ) by {
                if i < old(self).tasks_to_wakeup@.len() {
                    assert(old(self).tasks@.contains_key(old(self).tasks_to_wakeup@[i]));
                }
            }
        }
        id
    }

    /// The operation `op` for task `task_id`, where there is such a task.
    fn send(&self, task_id: u64, op: TaskOperation) -> (r: Option<TaskOperation>)
        ensures
            r == if self.task_map().contains_key(task_id) {
                Some(op)
            } else {
                None::<TaskOperation>
            },
    {
        broadcast use vstd::std_specs::hash::group_hash_axioms;
        if self.tasks.contains_key(&task_id) {
            Some(op)
        } else {
            None
        }
    }

    /// Stops task `task_id`: the operation to send it, where there is such a
    /// task. The task keeps its id.
    pub fn stop(&self, task_id: u64) -> (r: Option<TaskOperation>)
        ensures
            r == if self.task_map().contains_key(task_id) {
                Some(TaskOperation::Stop)
            } else {
                None::<TaskOperation>
            },
    {
        self.send(task_id, TaskOperation::Stop)
    }

    /// Pauses task `task_id`: the operation to send it, where there is such a
    /// task.
    pub fn pause(&self, task_id: u64) -> (r: Option<TaskOperation>)
        ensures
            r == if self.task_map().contains_key(task_id) {
                Some(TaskOperation::Pause)
            } else {
                None::<TaskOperation>
            },
    {
        self.send(task_id, TaskOperation::Pause)
    }

    /// Resumes task `task_id`: the operation to send it, where there is such
    /// a task.
    pub fn resume(&self, task_id: u64) -> (r: Option<TaskOperation>)
        ensures
            r == if self.task_map().contains_key(task_id) {
                Some(TaskOperation::Resume)
            } else {
                None::<TaskOperation>
            },
    {
        self.send(task_id, TaskOperation::Resume)
    }

    /// The ids of all tasks, each once, in no set order.
    pub fn tasks(&self) -> (r: Vec<u64>)
        ensures
            r@.to_set() == self.task_map().dom(),
            r@.no_duplicates(),
    {
        broadcast use vstd::std_specs::hash::group_hash_axioms;
        let ghost ks = vstd::std_specs::iter::IteratorSpec::remaining(&vstd::std_specs::hash::spec_keys_iter(&self.tasks));
        let mut ids: Vec<u64> = Vec::new();
        for id in it: self.tasks.keys()
            invariant
                ks == it.seq(),
                ids@.len() == it.index(),
                forall|i: int| 0 <= i < it.index() ==> ids@[i] == *ks[i],
        {
            ids.push(*id);
        }
        proof {
            assert(ids@ =~= ks.unref());
        }
        ids
    }

    /// Stops all tasks: the tasks to send `Stop`, each once.
    pub fn stop_all(&self) -> (r: Vec<u64>)
        ensures
            r@.to_set() == self.task_map().dom(),
            r@.no_duplicates(),
    {
        self.tasks()
    }

    /// What each module says of itself.
    pub fn module_list(&self) -> (r: Vec<ModuleInfo>)
        ensures
            r@.len() == self.modules().len(),
            forall|i: int| 0 <= i < r@.len() ==> (#[trigger] r@[i]).name@ == module_name(self.modules()[i]),
    {
        let mut r: Vec<ModuleInfo> = Vec::new();
        let mut i: usize = 0;
        while i < self.modules.len()
            invariant
                i <= self.modules@.len(),
                r@.len() == i,
                forall|j: int| 0 <= j < i ==> (#[trigger] r@[j]).name@ == module_name(self.modules@[j]),
            decreases self.modules@.len() - i,
        {
            r.push(module_info(self.modules[i]));
            i = i + 1;
        }
        r
    }

    /// Starts the tasks that wait for a GPU: the tasks to send `Start` to, in
    /// the order they were run; none waits after.
    pub fn render(&mut self) -> (r: Vec<u64>)
        requires
            old(self).wf(),
        ensures
            final(self).wf(),
            r@ == old(self).wakeup(),
            forall|i: int| 0 <= i < r@.len() ==> old(self).task_map().contains_key(#[trigger] r@[i]),
            final(self).wakeup() == Seq::<u64>::empty(),
            final(self).task_map() == old(self).task_map(),
            final(self).next_id() == old(self).next_id(),
            final(self).modules() == old(self).modules(),
    {
        let r = self.tasks_to_wakeup.clone();
        self.tasks_to_wakeup.clear();
        proof {
            assert(self.tasks_to_wakeup@ =~= Seq::<u64>::empty());
        }
        r
    }
}

/// Task ids are never reused: the id a new task gets is that of no task,
/// and stays the id of no later task.
pub proof fn lemma_task_ids_fresh(e: Executor)
    requires
        e.wf(),
    ensures
        !e.task_map().contains_key(e.next_id()),
        forall|id: u64| #[trigger] e.task_map().contains_key(id) ==> id < e.next_id(),
{
}

} // verus!
