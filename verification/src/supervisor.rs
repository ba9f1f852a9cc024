//! The background-task supervisor.
//!
//! Tasks are spawned under a name and classified as essential or
//! best-effort.  A best-effort task that ends is recorded and forgotten; an
//! essential task that ends, for whatever reason, takes the node down: every
//! other running task is told to stop and the shutdown path is entered, once.

use vstd::prelude::*;

verus! {

/// Where a task stands in its life.
#[derive(Clone, Copy, Debug, PartialEq, Eq, Structural)]
pub enum TaskStatus {
    /// Spawned and not yet ended.
    Running,
    /// Ended by itself without an error.
    Completed,
    /// Ended by itself with an error.
    Failed,
    /// Told to stop because the node shuts down.
    Stopped,
}

/// How a unit of work ended.
#[derive(Clone, Copy, Debug, PartialEq, Eq, Structural)]
pub enum TaskOutcome {
    Completed,
    Failed,
}

/// What the supervisor asks of the program after a task has ended.
#[derive(Debug, PartialEq, Eq)]
pub enum SupervisorAction {
    /// The event named no running task; nothing changed.
    Ignored,
    /// The end of the task was recorded; the node keeps running.
    Continue,
    /// An essential task ended: stop the listed tasks and shut the node down.
    Shutdown(Vec<usize>),
}

/// Mathematical value of a [`SupervisorAction`].
pub enum ActionView {
    Ignored,
    Continue,
    Shutdown(Seq<usize>),
}

impl View for SupervisorAction {
    type V = ActionView;

    open spec fn view(&self) -> ActionView {
        match self {
            SupervisorAction::Ignored => ActionView::Ignored,
            SupervisorAction::Continue => ActionView::Continue,
            SupervisorAction::Shutdown(ids) => ActionView::Shutdown(ids@),
        }
    }
}

/// A spawned unit of work as the supervisor knows it.
#[derive(Debug, PartialEq, Eq)]
pub struct TaskHandle {
    pub name: String,
    pub group: Option<String>,
    pub essential: bool,
    pub blocking: bool,
}

/// Mathematical value of a [`TaskHandle`].
pub struct TaskView {
    pub name: Seq<char>,
    pub group: Option<Seq<char>>,
    pub essential: bool,
    pub blocking: bool,
}

impl View for TaskHandle {
    type V = TaskView;

    open spec fn view(&self) -> TaskView {
        TaskView {
            name: self.name@,
            group: match self.group {
                Some(g) => Some(g@),
                None => None,
            },
            essential: self.essential,
            blocking: self.blocking,
        }
    }
}

/// Mathematical value of a [`Supervisor`]: the tasks in spawn order, the
/// status of each, and whether shutdown has begun.
pub struct SupervisorView {
    pub tasks: Seq<TaskView>,
    pub status: Seq<TaskStatus>,
    pub shutting_down: bool,
}

impl SupervisorView {
    /// One status per task, no more tasks than an id can name, and once
    /// shutdown has begun nothing runs.
    pub open spec fn wf(self) -> bool {
        &&& self.tasks.len() == self.status.len()
        &&& self.tasks.len() <= usize::MAX
        &&& self.shutting_down ==> forall|i: int|
            0 <= i < self.status.len() ==> self.status[i] != TaskStatus::Running
    }

    /// Whether `id` names a task that is running.
    pub open spec fn is_running(self, id: int) -> bool {
        0 <= id < self.status.len() && self.status[id] == TaskStatus::Running
    }

    /// The state after a successful spawn.
    pub open spec fn spawned(self, task: TaskView) -> SupervisorView {
        SupervisorView {
            tasks: self.tasks.push(task),
            status: self.status.push(TaskStatus::Running),
            shutting_down: self.shutting_down,
        }
    }

    /// Whether the end of task `id` is fatal to the node.
    pub open spec fn is_fatal(self, id: int) -> bool {
        self.is_running(id) && 0 <= id < self.tasks.len() && self.tasks[id].essential
            && !self.shutting_down
    }

    /// The status that an outcome leaves behind.
    pub open spec fn ended(outcome: TaskOutcome) -> TaskStatus {
        match outcome {
            TaskOutcome::Completed => TaskStatus::Completed,
            TaskOutcome::Failed => TaskStatus::Failed,
        }
    }

    /// The state after task `id` ended with `outcome`.
    pub open spec fn exited(self, id: int, outcome: TaskOutcome) -> SupervisorView {
        if !self.is_running(id) {
            self
        } else if self.is_fatal(id) {
            SupervisorView {
                tasks: self.tasks,
                status: Seq::new(
                    self.status.len(),
                    |i: int|
                        if i == id {
                            Self::ended(outcome)
                        } else if self.status[i] == TaskStatus::Running {
                            TaskStatus::Stopped
                        } else {
                            self.status[i]
                        },
                ),
                shutting_down: true,
            }
        } else {
            SupervisorView {
                tasks: self.tasks,
                status: self.status.update(id, Self::ended(outcome)),
                shutting_down: self.shutting_down,
            }
        }
    }

    /// Holds of the ids of the running tasks other than `id`.
    pub open spec fn other_running(self, id: int) -> spec_fn(usize) -> bool {
        |i: usize| i != id && self.status[i as int] == TaskStatus::Running
    }

    /// The tasks other than `id` that are running, in spawn order.
    pub open spec fn others_running(self, id: int) -> Seq<usize> {
        ids_below(self.status.len()).filter(self.other_running(id))
    }

    /// What the program is asked to do after task `id` ended.
    pub open spec fn exit_action(self, id: int) -> ActionView {
        if !self.is_running(id) {
            ActionView::Ignored
        } else if self.is_fatal(id) {
            ActionView::Shutdown(self.others_running(id))
        } else {
            ActionView::Continue
        }
    }
}

/// The supervisor: owner of every task handle for the node's lifetime.
#[derive(Debug)]
pub struct Supervisor {
    tasks: Vec<TaskHandle>,
    status: Vec<TaskStatus>,
    shutting_down: bool,
}

impl View for Supervisor {
    type V = SupervisorView;

    closed spec fn view(&self) -> SupervisorView {
        SupervisorView {
            tasks: Seq::new(self.tasks@.len(), |i: int| self.tasks@[i]@),
            status: self.status@,
            shutting_down: self.shutting_down,
        }
    }
}

/// The ids `0 .. n`, in order.
pub open spec fn ids_below(n: nat) -> Seq<usize> {
    Seq::new(n, |i: int| i as usize)
}

proof fn lemma_filter_step(n: nat, i: int, keep: spec_fn(usize) -> bool)
    requires
        0 <= i < n,
        n <= usize::MAX,
    ensures
        ids_below(n).take(i + 1).filter(keep) == if keep(i as usize) {
            ids_below(n).take(i).filter(keep).push(i as usize)
        } else {
            ids_below(n).take(i).filter(keep)
        },
{
    let s = ids_below(n).take(i + 1);
    assert(s.drop_last() =~= ids_below(n).take(i));
    assert(s.last() == i as usize);
    reveal(Seq::filter);
}

impl Supervisor {
    /// A supervisor without tasks.
    pub fn new() -> (s: Supervisor)
        ensures
            s@.wf(),
            s@.tasks.len() == 0,
            !s@.shutting_down,
    {
        Supervisor { tasks: Vec::new(), status: Vec::new(), shutting_down: false }
    }

    /// Registers a unit of work under `name` and returns its id.  Once
    /// shutdown has begun nothing is spawned any more and `None` comes back.
    pub fn spawn(&mut self, name: &str, group: Option<&str>, essential: bool, blocking: bool) -> (id:
        Option<usize>)
        requires
            old(self)@.wf(),
        ensures
            final(self)@.wf(),
            old(self)@.shutting_down ==> id is None && final(self)@ == old(self)@,
            !old(self)@.shutting_down ==> id == Some(old(self)@.tasks.len() as usize)
                && final(self)@ == old(self)@.spawned(
                TaskView {
                    name: name@,
                    group: match group {
                        Some(g) => Some(g@),
                        None => None,
                    },
                    essential,
                    blocking,
                },
            ),
    {
        if self.shutting_down {
            return None;
        }
        let id = self.tasks.len();
        let group = match group {
            Some(g) => Some(g.to_owned()),
            None => None,
        };
        let task = TaskHandle { name: name.to_owned(), group, essential, blocking };
        self.tasks.push(task);
        self.status.push(TaskStatus::Running);
        proof {
            assert(self@.tasks =~= old(self)@.tasks.push(task@));
            assert(self.tasks@.len() == self.tasks.len());
        }
        Some(id)
    }

    /// Number of tasks spawned so far.
    pub fn len(&self) -> (n: usize)
        ensures
            n == self@.tasks.len(),
    {
        self.tasks.len()
    }

    /// Whether shutdown has begun.
    pub fn is_shutting_down(&self) -> (b: bool)
        ensures
            b == self@.shutting_down,
    {
        self.shutting_down
    }

    /// The status of task `id`, if there is such a task.
    pub fn status(&self, id: usize) -> (s: Option<TaskStatus>)
        ensures
            id < self@.status.len() ==> s == Some(self@.status[id as int]),
            id >= self@.status.len() ==> s is None,
    {
        if id < self.status.len() {
            Some(self.status[id])
        } else {
            None
        }
    }

    /// Whether task `id` was spawned as essential; `None` for an unknown id.
    pub fn is_essential(&self, id: usize) -> (e: Option<bool>)
        ensures
            id < self@.tasks.len() ==> e == Some(self@.tasks[id as int].essential),
            id >= self@.tasks.len() ==> e is None,
    {
        if id < self.tasks.len() {
            Some(self.tasks[id].essential)
        } else {
            None
        }
    }

    /// Records that the unit of work of task `id` has ended.
    ///
    /// The end of a best-effort task is recorded and nothing else happens.
    /// The end of an essential task, with or without an error, begins the
    /// shutdown: every other running task is marked as stopped and listed in
    /// the answer.  An id that names no running task changes nothing.
    pub fn exit(&mut self, id: usize, outcome: TaskOutcome) -> (action: SupervisorAction)
        requires
            old(self)@.wf(),
        ensures
            final(self)@.wf(),
            final(self)@ == old(self)@.exited(id as int, outcome),
            action@ == old(self)@.exit_action(id as int),
    {
        if id >= self.status.len() {
            return SupervisorAction::Ignored;
        }
        match self.status[id] {
            TaskStatus::Running => {},
            _ => {
                return SupervisorAction::Ignored;
            },
        }
        let ended = match outcome {
            TaskOutcome::Completed => TaskStatus::Completed,
            TaskOutcome::Failed => TaskStatus::Failed,
        };
        if !self.tasks[id].essential || self.shutting_down {
            self.status.set(id, ended);
            proof {
                assert(self@.tasks =~= old(self)@.tasks);
                assert(self@ == old(self)@.exited(id as int, outcome));
            }
            return SupervisorAction::Continue;
        }
        let n = self.status.len();
        let ghost before = self@;
        let ghost keep = before.other_running(id as int);
        let mut stopped: Vec<usize> = Vec::new();
        let mut i: usize = 0;
        while i < n
            invariant
                0 <= i <= n,
                id < n,
                n == before.status.len(),
                n == self.status@.len(),
                before.wf(),
                self.tasks@ == old(self).tasks@,
                before == old(self)@,
                keep == before.other_running(id as int),
                before.is_fatal(id as int),
                ended == SupervisorView::ended(outcome),
                stopped@ == ids_below(n as nat).take(i as int).filter(keep),
                forall|j: int| i <= j < n ==> self.status@[j] == before.status[j],
                forall|j: int|
                    0 <= j < i ==> self.status@[j] == before.exited(id as int, outcome).status[j],
            decreases n - i,
        {
            proof {
                lemma_filter_step(n as nat, i as int, keep);
            }
            if i == id {
                self.status.set(i, ended);
            } else {
                match self.status[i] {
                    TaskStatus::Running => {
                        self.status.set(i, TaskStatus::Stopped);
                        stopped.push(i);
                    },
                    _ => {},
                }
            }
            i += 1;
        }
        self.shutting_down = true;
        proof {
            assert(ids_below(n as nat).take(n as int) =~= ids_below(n as nat));
            assert(self@.tasks =~= before.tasks);
            assert(self@.status =~= before.exited(id as int, outcome).status);
        }
        SupervisorAction::Shutdown(stopped)
    }
}

/// The end of one unit of work, as the supervisor is told of it.
pub struct ExitEvent {
    pub id: int,
    pub outcome: TaskOutcome,
}

/// The state after the tasks named by `events` have ended, in that order.
pub open spec fn after_exits(s: SupervisorView, events: Seq<ExitEvent>) -> SupervisorView
    decreases events.len(),
{
    if events.len() == 0 {
        s
    } else {
        after_exits(s.exited(events[0].id, events[0].outcome), events.drop_first())
    }
}

/// How often the shutdown path is entered while `events` are handled.
pub open spec fn shutdowns(s: SupervisorView, events: Seq<ExitEvent>) -> nat
    decreases events.len(),
{
    if events.len() == 0 {
        0
    } else {
        let rest = shutdowns(s.exited(events[0].id, events[0].outcome), events.drop_first());
        if s.is_fatal(events[0].id) {
            rest + 1
        } else {
            rest
        }
    }
}

/// Fatal escalation: when a running essential task ends, with or without an
/// error, shutdown begins, the answer lists exactly the other tasks that were
/// running, and none of them runs afterwards.  The tasks themselves, and the
/// status of those that had ended before, stay as they were.
pub proof fn lemma_fatal_escalation(s: SupervisorView, id: int, outcome: TaskOutcome)
    requires
        s.wf(),
        s.is_fatal(id),
    ensures
        s.exited(id, outcome).wf(),
        s.exited(id, outcome).shutting_down,
        s.exited(id, outcome).tasks == s.tasks,
        s.exited(id, outcome).status[id] == SupervisorView::ended(outcome),
        s.exit_action(id) == ActionView::Shutdown(s.others_running(id)),
        forall|j: int|
            0 <= j < s.status.len() && j != id ==> (s.is_running(j)
                <==> #[trigger] s.others_running(id).contains(j as usize)),
        forall|j: int|
            0 <= j < s.status.len() && j != id ==> #[trigger] s.exited(id, outcome).status[j] == (
            if s.is_running(j) {
                TaskStatus::Stopped
            } else {
                s.status[j]
            }),
        forall|k: int|
            0 <= k < s.others_running(id).len() ==> s.is_running(
                #[trigger] s.others_running(id)[k] as int,
            ) && s.others_running(id)[k] != id,
{
    let ids = ids_below(s.status.len());
    let keep = s.other_running(id);
    broadcast use vstd::seq_lib::group_filter_ensures;

    assert forall|j: int| 0 <= j < s.status.len() && j != id implies (s.is_running(j)
        <==> #[trigger] s.others_running(id).contains(j as usize)) by {
        if s.is_running(j) {
            assert(ids[j] == j as usize);
            assert(keep(ids[j]));
        }
        if s.others_running(id).contains(j as usize) {
            assert(keep(j as usize));
        }
    }
    assert forall|k: int| 0 <= k < s.others_running(id).len() implies s.is_running(
        #[trigger] s.others_running(id)[k] as int,
    ) && s.others_running(id)[k] != id by {
        let v = s.others_running(id)[k];
        assert(keep(v));
        assert(ids.filter(keep).contains(v));
        ids.lemma_filter_contains_rev(keep, v);
        let at = choose|at: int| 0 <= at < ids.len() && ids[at] == v;
        assert(ids[at] == at as usize);
    }
}

/// A task that ends without being essential, or after shutdown has begun,
/// changes nothing but its own status, and the node keeps running as before.
pub proof fn lemma_best_effort_exit(s: SupervisorView, id: int, outcome: TaskOutcome)
    requires
        s.wf(),
        s.is_running(id),
        !s.is_fatal(id),
    ensures
        s.exited(id, outcome).wf(),
        s.exited(id, outcome).shutting_down == s.shutting_down,
        s.exited(id, outcome).tasks == s.tasks,
        s.exited(id, outcome).status == s.status.update(id, SupervisorView::ended(outcome)),
        s.exit_action(id) == ActionView::Continue,
{
}

/// Whatever ends, and in whatever order, the shutdown path is entered at most
/// once; it is entered exactly when shutdown had not begun before and has
/// begun afterwards, and once begun it stays.
pub proof fn lemma_shutdown_at_most_once(s: SupervisorView, events: Seq<ExitEvent>)
    requires
        s.wf(),
    ensures
        after_exits(s, events).wf(),
        shutdowns(s, events) <= 1,
        s.shutting_down ==> shutdowns(s, events) == 0 && after_exits(s, events).shutting_down,
        !s.shutting_down ==> (after_exits(s, events).shutting_down <==> shutdowns(s, events) == 1),
        after_exits(s, events).tasks == s.tasks,
    decreases events.len(),
{
    if events.len() > 0 {
        let next = s.exited(events[0].id, events[0].outcome);
        lemma_shutdown_at_most_once(next, events.drop_first());
    }
}

} // verus!
