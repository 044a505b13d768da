use crate::clone_exact;
use crate::process::Process;
use std::collections::HashMap;
use std::sync::Arc;
use vstd::prelude::*;
use vstd::std_specs::hash::{obeys_key_model, spec_keys_iter};
use vstd::std_specs::iter::IteratorSpec;

verus! {

broadcast use vstd::std_specs::hash::group_hash_axioms;

/// Task status enumeration
#[derive(Debug, Clone, PartialEq)]
pub enum TaskStatus {
    /// Task has been started
    Started,
    /// Task has finished (successfully)
    Finished,
}

/// Workflow state that tracks task execution status.
///
/// Maps each task that has started to its current status; a task that has not started yet is
/// absent from the map.
///
/// Every statement about the map below holds for key types whose `Hash` and `Eq` agree with
/// equality (`obeys_key_model`), as they do for derived implementations.
#[derive(Debug, Clone, PartialEq)]
pub struct WorkflowState<Task: std::hash::Hash + Eq> {
    /// Task status mapping - maps task names to their current status
    pub tasks: HashMap<Task, TaskStatus>,
    /// Workflow identifier for tracking
    pub workflow_id: String,
}

/// Workflow events that represent state changes in task execution.
#[derive(Debug, Clone, PartialEq)]
pub enum WorkflowEvent<Task> {
    /// A task has started execution
    TaskStarted {
        /// The task that started
        task: Task,
        /// Identifier of the workflow that the task is part of
        workflow_id: String,
    },
    /// A task has completed successfully
    TaskCompleted {
        /// The task that completed
        task: Task,
        /// Identifier of the workflow that the task is part of
        workflow_id: String,
        /// The result/output of the task
        result: String,
    },
}

/// A `Process` specialized with `WorkflowState<Task>` and `WorkflowEvent<Task>`.
pub type Workflow<AR, A, Task, DecideFn, EvolveFn, InitFn, ReactFn, PendingFn, ResultError = std::convert::Infallible> =
    Process<AR, WorkflowState<Task>, WorkflowEvent<Task>, A, DecideFn, EvolveFn, InitFn, ReactFn, PendingFn, ResultError>;

/// Takes the next item of an iterator.
fn advance<I: Iterator>(iter: &mut I) -> (item: Option<I::Item>)
    ensures
        (*old(iter)).obeys_prophetic_iter_laws() ==> if (*old(iter)).remaining().len() > 0 {
            &&& (*final(iter)).remaining() == (*old(iter)).remaining().drop_first()
            &&& item == Some((*old(iter)).remaining()[0])
        } else {
            &&& (*final(iter)).remaining() == (*old(iter)).remaining()
            &&& item is None
        },
{
    iter.next()
}

impl<Task> WorkflowState<Task> where Task: Clone + PartialEq + std::hash::Hash + Eq {
    /// The tasks whose status is `Finished`.
    pub open spec fn finished_set(&self) -> Set<Task> {
        self.tasks@.dom().filter(|t: Task| self.tasks@[t] is Finished)
    }

    /// The tasks whose status is `Started`: started and not finished.
    pub open spec fn running_set(&self) -> Set<Task> {
        self.tasks@.dom().filter(|t: Task| self.tasks@[t] is Started)
    }

    /// Creates a new workflow state with the given workflow ID and no task started.
    pub fn new(workflow_id: String) -> (state: Self)
        ensures
            state.tasks@ == Map::<Task, TaskStatus>::empty(),
            state.workflow_id == workflow_id,
    {
        WorkflowState { tasks: HashMap::new(), workflow_id }
    }

    /// Creates a new workflow state for the given tasks: none of them has started yet, so the
    /// status map is empty.
    pub fn with_tasks(workflow_id: String, _initial_tasks: Vec<Task>) -> (state: Self)
        ensures
            state.tasks@ == Map::<Task, TaskStatus>::empty(),
            state.workflow_id == workflow_id,
    {
        let tasks = HashMap::new();
        WorkflowState { tasks, workflow_id }
    }

    /// Gets the status of a specific task (`None` if it has not started).
    pub fn task_status(&self, task: &Task) -> (status: Option<&TaskStatus>)
        ensures
            obeys_key_model::<Task>() ==> match status {
                Some(st) => self.tasks@.contains_key(*task) && self.tasks@[*task] == *st,
                None => !self.tasks@.contains_key(*task),
            },
    {
        self.tasks.get(task)
    }

    /// Checks if a task has started (is in the tasks map).
    pub fn is_task_started(&self, task: &Task) -> (started: bool)
        ensures
            obeys_key_model::<Task>() ==> started == self.tasks@.contains_key(*task),
    {
        self.tasks.contains_key(task)
    }

    /// Checks if a task has finished.
    pub fn is_task_finished(&self, task: &Task) -> (finished: bool)
        ensures
            obeys_key_model::<Task>() ==> finished == (self.tasks@.contains_key(*task)
                && self.tasks@[*task] is Finished),
    {
        match self.tasks.get(task) {
            Some(TaskStatus::Finished) => true,
            _ => false,
        }
    }

    /// Gets all tasks that have started, each once, in no particular order.
    pub fn started_tasks(&self) -> (started: Vec<&Task>)
        ensures
            obeys_key_model::<Task>() ==> {
                &&& started@.unref().to_set() == self.tasks@.dom()
                &&& started@.unref().no_duplicates()
            },
    {
        let mut started: Vec<&Task> = Vec::new();
        let mut keys = self.tasks.keys();
        let n = self.tasks.len();
        let ghost all = keys.remaining();
        let mut count: usize = 0;
        while count < n
            invariant
                0 <= count <= n,
                obeys_key_model::<Task>() ==> all == spec_keys_iter(&self.tasks).remaining(),
                obeys_key_model::<Task>() ==> n == self.tasks@.dom().len(),
                keys.remaining() == all.skip(count as int),
                started@ == all.take(count as int),
                count <= all.len(),
            ensures
                keys.remaining() == all.skip(count as int),
                started@ == all.take(count as int),
                obeys_key_model::<Task>() ==> count == all.len(),
            decreases n - count,
        {
            match advance(&mut keys) {
                Some(task) => {
                    started.push(task);
                    count = count + 1;
                },
                None => {
                    break;
                },
            }
        }
        proof {
            if obeys_key_model::<Task>() {
                assert(all.take(all.len() as int) == all);
            }
        }
        started
    }

    /// Gets all tasks that have finished, each once, in no particular order.
    pub fn finished_tasks(&self) -> (finished: Vec<&Task>)
        ensures
            obeys_key_model::<Task>() ==> {
                &&& finished@.unref().to_set() == self.finished_set()
                &&& finished@.unref().no_duplicates()
            },
    {
        self.tasks_with_status(true)
    }

    /// Gets all tasks that are currently running (started but not finished), each once, in no
    /// particular order.
    pub fn running_tasks(&self) -> (running: Vec<&Task>)
        ensures
            obeys_key_model::<Task>() ==> {
                &&& running@.unref().to_set() == self.running_set()
                &&& running@.unref().no_duplicates()
            },
    {
        self.tasks_with_status(false)
    }

    /// The tasks whose status is `Finished` (when `finished`) or `Started` (otherwise).
    fn tasks_with_status(&self, finished: bool) -> (selected: Vec<&Task>)
        ensures
            obeys_key_model::<Task>() ==> {
                &&& selected@.unref().to_set() == (if finished { self.finished_set() } else { self.running_set() })
                &&& selected@.unref().no_duplicates()
            },
    {
        let mut selected: Vec<&Task> = Vec::new();
        let ghost wanted = if finished { self.finished_set() } else { self.running_set() };
        let mut keys = self.tasks.keys();
        let n = self.tasks.len();
        let ghost all = keys.remaining();
        let mut count: usize = 0;
        while count < n
            invariant_except_break
                obeys_key_model::<Task>() ==> forall|j: int| 0 <= j < selected@.len() ==> exists|i: int| 0 <= i < count && #[trigger] selected@[j] == all[i],
            invariant
                0 <= count <= n,
                count <= all.len(),
                wanted == (if finished { self.finished_set() } else { self.running_set() }),
                obeys_key_model::<Task>() ==> all == spec_keys_iter(&self.tasks).remaining(),
                obeys_key_model::<Task>() ==> n == self.tasks@.dom().len(),
                keys.remaining() == all.skip(count as int),
                obeys_key_model::<Task>() ==> forall|j: int| 0 <= j < selected@.len() ==> wanted.contains(*#[trigger] selected@[j]),
                obeys_key_model::<Task>() ==> forall|i: int| 0 <= i < count && wanted.contains(*#[trigger] all[i]) ==> selected@.unref().contains(*all[i]),
                obeys_key_model::<Task>() ==> selected@.unref().no_duplicates(),
            ensures
                keys.remaining() == all.skip(count as int),
                obeys_key_model::<Task>() ==> count == all.len(),
                obeys_key_model::<Task>() ==> {
                    &&& forall|j: int| 0 <= j < selected@.len() ==> wanted.contains(*#[trigger] selected@[j])
                    &&& forall|i: int| 0 <= i < count && wanted.contains(*#[trigger] all[i]) ==> selected@.unref().contains(*all[i])
                    &&& selected@.unref().no_duplicates()
                },
            decreases n - count,
        {
            match advance(&mut keys) {
                Some(task) => {
                    proof {
                        assert(task == all[count as int]);
                    }
                    let keep = match self.tasks.get(task) {
                        Some(TaskStatus::Finished) => finished,
                        Some(TaskStatus::Started) => !finished,
                        None => false,
                    };
                    let ghost before = selected@;
                    if keep {
                        selected.push(task);
                    }
                    proof {
                        if obeys_key_model::<Task>() {
                            let all_keys = spec_keys_iter(&self.tasks).remaining();
                            assert(all.unref()[count as int] == *task);
                            assert(all.unref().contains(*task));
                            assert(all_keys.unref().to_set().contains(*task));
                            assert(self.tasks@.contains_key(*task));
                            assert(keep == wanted.contains(*task));
                            if keep {
                                assert forall|j: int| 0 <= j < before.len() implies before.unref()[j] != *task by {
                                    let i = choose|i: int| 0 <= i < count && #[trigger] before[j] == all[i];
                                    assert(all.unref()[i] != all.unref()[count as int]);
                                }
                                assert(selected@.unref() == before.unref().push(*task));
                                assert forall|j: int| 0 <= j < selected@.len() implies exists|i: int| 0 <= i < count + 1 && #[trigger] selected@[j] == all[i] by {
                                    if j < before.len() {
                                        let i = choose|i: int| 0 <= i < count && #[trigger] before[j] == all[i];
                                        assert(selected@[j] == all[i]);
                                    } else {
                                        assert(selected@[j] == all[count as int]);
                                    }
                                }
                                assert forall|i: int| 0 <= i < count + 1 && wanted.contains(*#[trigger] all[i]) implies selected@.unref().contains(*all[i]) by {
                                    if i < count {
                                        let k = choose|k: int| 0 <= k < before.len() && before.unref()[k] == *all[i];
                                        assert(selected@.unref()[k] == *all[i]);
                                    } else {
                                        assert(selected@.unref()[before.len() as int] == *all[i]);
                                    }
                                }
                            } else {
                                assert forall|j: int| 0 <= j < selected@.len() implies exists|i: int| 0 <= i < count + 1 && #[trigger] selected@[j] == all[i] by {
                                    let i = choose|i: int| 0 <= i < count && #[trigger] before[j] == all[i];
                                }
                            }
                        }
                    }
                    count = count + 1;
                },
                None => {
                    break;
                },
            }
        }
        proof {
            if obeys_key_model::<Task>() {
                let all_keys = spec_keys_iter(&self.tasks).remaining();
                assert(all_keys.unref().to_set() == self.tasks@.dom());
                assert forall|t: Task| selected@.unref().to_set().contains(t) <==> wanted.contains(t) by {
                    if wanted.contains(t) {
                        assert(all_keys.unref().to_set().contains(t));
                        let i = choose|i: int| 0 <= i < all.len() && all.unref()[i] == t;
                        assert(wanted.contains(*all[i]));
                    }
                    if selected@.unref().to_set().contains(t) {
                        let j = choose|j: int| 0 <= j < selected@.len() && selected@.unref()[j] == t;
                        assert(wanted.contains(*selected@[j]));
                    }
                }
                assert(selected@.unref().to_set() =~= wanted);
            }
        }
        selected
    }

    /// Starts a task (sets its status to Started).
    pub fn start_task(&mut self, task: Task)
        ensures
            final(self).workflow_id == old(self).workflow_id,
            obeys_key_model::<Task>() ==> final(self).tasks@ == old(self).tasks@.insert(task, TaskStatus::Started),
    {
        self.tasks.insert(task, TaskStatus::Started);
    }

    /// Completes a task (sets its status to Finished).
    pub fn complete_task(&mut self, task: Task)
        ensures
            final(self).workflow_id == old(self).workflow_id,
            obeys_key_model::<Task>() ==> final(self).tasks@ == old(self).tasks@.insert(task, TaskStatus::Finished),
    {
        self.tasks.insert(task, TaskStatus::Finished);
    }

    /// Every started task is either finished or running, never both.
    pub proof fn lemma_finished_and_running_partition_started(&self)
        ensures
            self.finished_set().union(self.running_set()) == self.tasks@.dom(),
            self.finished_set().disjoint(self.running_set()),
    {
        assert(self.finished_set().union(self.running_set()) =~= self.tasks@.dom());
    }
}

/// The state after a workflow event: the event's task (a clone of it) gets the status the
/// event announces; every other task, and the workflow id, stay as they were.
pub open spec fn evolved_workflow<Task: std::hash::Hash + Eq + Clone>(
    state: WorkflowState<Task>,
    event: WorkflowEvent<Task>,
    next: WorkflowState<Task>,
) -> bool {
    &&& next.workflow_id == state.workflow_id
    &&& obeys_key_model::<Task>() ==> match event {
        WorkflowEvent::TaskStarted { task, .. } => exists|t: Task|
            #[trigger] cloned(task, t) && next.tasks@ == state.tasks@.insert(t, TaskStatus::Started),
        WorkflowEvent::TaskCompleted { task, .. } => exists|t: Task|
            #[trigger] cloned(task, t) && next.tasks@ == state.tasks@.insert(t, TaskStatus::Finished),
    }
}

/// Evolving by `TaskStarted` marks (a clone of) the event's task `Started`, so it is running and
/// not finished, whatever its status was; every other task and the workflow id stay as they were.
pub proof fn lemma_task_started_marks_task_running<Task: Clone + PartialEq + std::hash::Hash + Eq>(
    state: WorkflowState<Task>,
    task: Task,
    workflow_id: String,
    next: WorkflowState<Task>,
)
    requires
        obeys_key_model::<Task>(),
        evolved_workflow(state, WorkflowEvent::TaskStarted { task, workflow_id }, next),
    ensures
        next.workflow_id == state.workflow_id,
        exists|t: Task|
            #[trigger] cloned(task, t) && next.tasks@.contains_key(t) && next.tasks@[t] == TaskStatus::Started
                && next.running_set().contains(t) && !next.finished_set().contains(t)
                && next.tasks@.dom() == state.tasks@.dom().insert(t)
                && forall|other: Task| other != t && #[trigger] state.tasks@.contains_key(other)
                    ==> next.tasks@[other] == state.tasks@[other],
        clone_exact::<Task>() ==> next.tasks@ == state.tasks@.insert(task, TaskStatus::Started),
{
    let t = choose|t: Task| #[trigger] cloned(task, t) && next.tasks@ == state.tasks@.insert(t, TaskStatus::Started);
    assert(next.tasks@.dom() == state.tasks@.dom().insert(t));
    assert(next.running_set().contains(t));
}

/// Evolving by `TaskCompleted` marks (a clone of) the event's task `Finished`, so it is finished
/// and no longer running; every other task and the workflow id stay as they were.
pub proof fn lemma_task_completed_marks_task_finished<Task: Clone + PartialEq + std::hash::Hash + Eq>(
    state: WorkflowState<Task>,
    task: Task,
    workflow_id: String,
    result: String,
    next: WorkflowState<Task>,
)
    requires
        obeys_key_model::<Task>(),
        evolved_workflow(state, WorkflowEvent::TaskCompleted { task, workflow_id, result }, next),
    ensures
        next.workflow_id == state.workflow_id,
        exists|t: Task|
            #[trigger] cloned(task, t) && next.tasks@.contains_key(t) && next.tasks@[t] == TaskStatus::Finished
                && next.finished_set().contains(t) && !next.running_set().contains(t)
                && next.tasks@.dom() == state.tasks@.dom().insert(t)
                && forall|other: Task| other != t && #[trigger] state.tasks@.contains_key(other)
                    ==> next.tasks@[other] == state.tasks@[other],
        clone_exact::<Task>() ==> next.tasks@ == state.tasks@.insert(task, TaskStatus::Finished),
{
    let t = choose|t: Task| #[trigger] cloned(task, t) && next.tasks@ == state.tasks@.insert(t, TaskStatus::Finished);
    assert(next.tasks@.dom() == state.tasks@.dom().insert(t));
    assert(next.finished_set().contains(t));
}

/// Creates a workflow process with common workflow patterns.
///
/// - **decide**: `decide_fn`, unchanged
/// - **evolve**: sets the status of the event's task (`Started` or `Finished`)
/// - **initial_state**: a state with id `workflow_id` and no task started
/// - **react**: `action_generator` given the event (the filtered ToDo list)
/// - **pending**: `action_generator` given no event (the complete ToDo list)
pub fn create_workflow_process<AR, A, Task, DecideFn, ActionGen>(
    workflow_id: String,
    initial_tasks: Vec<Task>,
    decide_fn: DecideFn,
    action_generator: ActionGen,
) -> (workflow: Workflow<
    AR,
    A,
    Task,
    DecideFn,
    impl Fn(&WorkflowState<Task>, &WorkflowEvent<Task>) -> WorkflowState<Task>,
    impl Fn() -> WorkflowState<Task>,
    impl Fn(&WorkflowState<Task>, &WorkflowEvent<Task>) -> Vec<A>,
    impl Fn(&WorkflowState<Task>) -> Vec<A>,
    String,
>) where
    Task: Clone + PartialEq + std::fmt::Debug + std::hash::Hash + Eq + 'static,
    AR: Clone + 'static,
    A: Clone + 'static,
    DecideFn: Fn(&AR, &WorkflowState<Task>) -> Result<Vec<WorkflowEvent<Task>>, String> + 'static,
    ActionGen: Fn(&WorkflowState<Task>, Option<&WorkflowEvent<Task>>) -> Vec<A> + 'static,

    requires
        forall|r: AR, s: WorkflowState<Task>| #[trigger] call_requires(decide_fn, (&r, &s)),
        forall|s: WorkflowState<Task>, e: Option<&WorkflowEvent<Task>>| #[trigger] call_requires(action_generator, (&s, e)),
    ensures
        workflow.total(),
        workflow.decide == decide_fn,
        forall|s: WorkflowState<Task>, e: WorkflowEvent<Task>, next: WorkflowState<Task>|
            #[trigger] call_ensures(workflow.evolve, (&s, &e), next) ==> evolved_workflow(s, e, next),
        forall|s: WorkflowState<Task>|
            #[trigger] call_ensures(workflow.initial_state, (), s) ==> s.workflow_id == workflow_id
                && s.tasks@ == Map::<Task, TaskStatus>::empty(),
        forall|s: WorkflowState<Task>, e: WorkflowEvent<Task>, actions: Vec<A>|
            #[trigger] call_ensures(workflow.react, (&s, &e), actions) ==> call_ensures(
                action_generator,
                (&s, Some(&e)),
                actions,
            ),
        forall|s: WorkflowState<Task>, actions: Vec<A>|
            #[trigger] call_ensures(workflow.pending, (&s,), actions) ==> call_ensures(
                action_generator,
                (&s, None::<&WorkflowEvent<Task>>),
                actions,
            ),
{
    let gid: Ghost<String> = Ghost(workflow_id);
    let ga: Ghost<ActionGen> = Ghost(action_generator);
    let workflow_id_clone = workflow_id.clone();
    let initial_tasks_clone = initial_tasks.clone();
    let action_generator = Arc::new(action_generator);
    let action_generator_clone = action_generator.clone();
    let evolve = |state: &WorkflowState<Task>, event: &WorkflowEvent<Task>| -> (next: WorkflowState<Task>)
        ensures
            evolved_workflow(*state, *event, next),
    {
        let mut next = WorkflowState { tasks: state.tasks.clone(), workflow_id: state.workflow_id.clone() };
        match event {
            WorkflowEvent::TaskStarted { task, .. } => {
                let t = task.clone();
                let ghost gt = t;
                next.start_task(t);
                assert(cloned(*task, gt));
            },
            WorkflowEvent::TaskCompleted { task, .. } => {
                let t = task.clone();
                let ghost gt = t;
                next.complete_task(t);
                assert(cloned(*task, gt));
            },
        }
        next
    };
    let initial_state = move || -> (s: WorkflowState<Task>)
        ensures
            s.workflow_id == gid@,
            s.tasks@ == Map::<Task, TaskStatus>::empty(),
    { WorkflowState::with_tasks(workflow_id_clone.clone(), initial_tasks_clone.clone()) };
    let react = move |state: &WorkflowState<Task>, event: &WorkflowEvent<Task>| -> (actions: Vec<A>)
        ensures
            call_ensures(ga@, (state, Some(event)), actions),
    { (*action_generator_clone)(state, Some(event)) };
    let pending = move |state: &WorkflowState<Task>| -> (actions: Vec<A>)
        ensures
            call_ensures(ga@, (state, None::<&WorkflowEvent<Task>>), actions),
    { (*action_generator)(state, None) };
    Workflow::new(decide_fn, evolve, initial_state, react, pending)
}

} // verus!
