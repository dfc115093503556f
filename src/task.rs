use vstd::prelude::*;
use vstd::string::*;

verus! {

/// Whether a task knows how many units of work it has.
#[derive(Clone, Copy, Debug, PartialEq, Eq, Structural)]
pub enum TaskKind {
    /// A known number of units; progress goes from zero up to it.
    Bounded,
    /// Indeterminate activity that lasts for a fixed duration.
    Unbounded,
}

/// Where a task is in its life.
#[derive(Debug)]
pub enum TaskStatus {
    Running,
    Failed(String),
    /// Cancellation was asked for and has not yet been observed.
    CancelRequested,
    /// The run loop is over: it ran to its end, or it observed a cancellation.
    Finished,
}

/// The mathematical counterpart of [`TaskStatus`].
pub enum StatusModel {
    Running,
    Failed(Seq<char>),
    CancelRequested,
    Finished,
}

impl View for TaskStatus {
    type V = StatusModel;

    open spec fn view(&self) -> StatusModel {
        match self {
            TaskStatus::Running => StatusModel::Running,
            TaskStatus::Failed(r) => StatusModel::Failed(r@),
            TaskStatus::CancelRequested => StatusModel::CancelRequested,
            TaskStatus::Finished => StatusModel::Finished,
        }
    }
}

impl StatusModel {
    /// Failed and finished are final: nothing changes them.
    pub open spec fn is_terminal(self) -> bool {
        self is Failed || self is Finished
    }
}

/// What a worker must do after a call of [`Task::step`].
#[derive(Clone, Copy, Debug, PartialEq, Eq, Structural)]
pub enum Step {
    /// Show this position, pause for one work interval, then step again.
    Advance(u64),
    /// Start the periodic tick, block for this many milliseconds, then step again.
    Wait(u64),
    /// The task is over: show its final message and stop.
    Done,
}

/// The abstract state of a task.
pub struct TaskModel {
    pub label: Seq<char>,
    pub kind: TaskKind,
    /// Total units for a bounded task; milliseconds of activity for an unbounded one.
    pub amount: nat,
    pub position: nat,
    pub status: StatusModel,
    /// Whether an unbounded task has been told to block for its duration.
    pub waited: bool,
    /// Whether the run loop stopped early because it observed a cancellation.
    pub cancelled: bool,
}

impl TaskModel {
    /// A task as it is made: running, at position zero, with nothing observed.
    pub open spec fn initial(label: Seq<char>, kind: TaskKind, amount: nat) -> TaskModel {
        TaskModel {
            label,
            kind,
            amount,
            position: 0,
            status: StatusModel::Running,
            waited: false,
            cancelled: false,
        }
    }

    pub open spec fn is_initial(self) -> bool {
        self == TaskModel::initial(self.label, self.kind, self.amount)
    }

    /// The same unit of work: label, kind and amount agree.
    pub open spec fn same_task(self, other: TaskModel) -> bool {
        self.label == other.label && self.kind == other.kind && self.amount == other.amount
    }

    pub open spec fn wf(self) -> bool {
        &&& self.amount <= u64::MAX
        &&& self.kind is Bounded ==> self.position <= self.amount
        &&& self.kind is Unbounded ==> self.position == 0
    }

    /// Nothing remains for the worker to do.
    pub open spec fn is_done(self) -> bool {
        self.status.is_terminal() && (self.kind is Bounded || self.waited)
    }

    /// One step of the run loop: the state after it, and what the worker must do.
    pub open spec fn step(self) -> (TaskModel, Step) {
        if self.kind is Unbounded && !self.waited {
            (TaskModel { waited: true, ..self }, Step::Wait(self.amount as u64))
        } else if self.status.is_terminal() {
            (self, Step::Done)
        } else if self.status is CancelRequested {
            (TaskModel { status: StatusModel::Finished, cancelled: true, ..self }, Step::Done)
        } else if self.kind is Bounded && self.position < self.amount {
            (
                TaskModel { position: self.position + 1, ..self },
                Step::Advance((self.position + 1) as u64),
            )
        } else {
            (TaskModel { status: StatusModel::Finished, ..self }, Step::Done)
        }
    }

    /// The state after `k` steps with no outside event in between.
    pub open spec fn steps(self, k: nat) -> TaskModel
        decreases k,
    {
        if k == 0 {
            self
        } else {
            self.step().0.steps((k - 1) as nat)
        }
    }

    /// The state after a failure is reported with `reason`.
    pub open spec fn fail(self, reason: Seq<char>) -> TaskModel {
        if self.status.is_terminal() {
            self
        } else {
            TaskModel { status: StatusModel::Failed(reason), ..self }
        }
    }

    /// The state after cancellation is asked for.
    pub open spec fn cancel(self) -> TaskModel {
        if self.status is Running {
            TaskModel { status: StatusModel::CancelRequested, ..self }
        } else {
            self
        }
    }

    /// The message shown when the task ends; failure wins over cancellation.
    pub open spec fn final_message(self) -> Seq<char> {
        match self.status {
            StatusModel::Failed(r) => self.label + " failed: "@ + r,
            _ => if self.cancelled {
                self.label + " cancelled"@
            } else {
                self.label + " finished"@
            },
        }
    }
}

/// One unit of work, with its progress and status.
pub struct Task {
    label: String,
    kind: TaskKind,
    amount: u64,
    position: u64,
    status: TaskStatus,
    waited: bool,
    cancelled: bool,
}

impl View for Task {
    type V = TaskModel;

    closed spec fn view(&self) -> TaskModel {
        TaskModel {
            label: self.label@,
            kind: self.kind,
            amount: self.amount as nat,
            position: self.position as nat,
            status: self.status@,
            waited: self.waited,
            cancelled: self.cancelled,
        }
    }
}

fn clone_status(s: &TaskStatus) -> (r: TaskStatus)
    ensures
        r@ == s@,
{
    match s {
        TaskStatus::Running => TaskStatus::Running,
        TaskStatus::Failed(reason) => TaskStatus::Failed(reason.clone()),
        TaskStatus::CancelRequested => TaskStatus::CancelRequested,
        TaskStatus::Finished => TaskStatus::Finished,
    }
}

fn is_terminal(s: &TaskStatus) -> (r: bool)
    ensures
        r == s@.is_terminal(),
{
    match s {
        TaskStatus::Failed(_) | TaskStatus::Finished => true,
        _ => false,
    }
}

impl Task {
    /// A running task at position zero. `amount` is the number of units of a
    /// bounded task, or the duration in milliseconds of an unbounded one.
    pub fn new(label: String, kind: TaskKind, amount: u64) -> (r: Task)
        ensures
            r@ == TaskModel::initial(label@, kind, amount as nat),
            r@.wf(),
    {
        Task {
            label,
            kind,
            amount,
            position: 0,
            status: TaskStatus::Running,
            waited: false,
            cancelled: false,
        }
    }

    pub fn label(&self) -> (r: &String)
        ensures
            r@ == self@.label,
    {
        &self.label
    }

    pub fn kind(&self) -> (r: TaskKind)
        ensures
            r == self@.kind,
    {
        self.kind
    }

    pub fn amount(&self) -> (r: u64)
        ensures
            r as nat == self@.amount,
    {
        self.amount
    }

    pub fn position(&self) -> (r: u64)
        ensures
            r as nat == self@.position,
    {
        self.position
    }

    pub fn status(&self) -> (r: TaskStatus)
        ensures
            r@ == self@.status,
    {
        clone_status(&self.status)
    }

    /// Whether the task has failed or finished.
    pub fn is_terminal(&self) -> (r: bool)
        ensures
            r == self@.status.is_terminal(),
    {
        is_terminal(&self.status)
    }

    /// Whether the run loop stopped early on an observed cancellation.
    pub fn was_cancelled(&self) -> (r: bool)
        ensures
            r == self@.cancelled,
    {
        self.cancelled
    }

    pub fn is_failed(&self) -> (r: bool)
        ensures
            r == self@.status is Failed,
    {
        match &self.status {
            TaskStatus::Failed(_) => true,
            _ => false,
        }
    }

    /// Replaces the task's label.
    pub fn set_message(&mut self, message: String)
        ensures
            final(self)@ == (TaskModel { label: message@, ..old(self)@ }),
    {
        self.label = message;
    }

    /// Records a failure. A task that has failed or finished keeps its
    /// status; the result says whether the status changed, in which
    /// case the worker should abandon the task's progress indicator.
    pub fn mark_failed(&mut self, reason: String) -> (r: bool)
        ensures
            final(self)@ == old(self)@.fail(reason@),
            r == !old(self)@.status.is_terminal(),
    {
        if is_terminal(&self.status) {
            false
        } else {
            self.status = TaskStatus::Failed(reason);
            true
        }
    }

    /// Asks a running task to stop at its next polling point. Any other
    /// status is kept: a failure stays a failure.
    pub fn request_cancel(&mut self)
        ensures
            final(self)@ == old(self)@.cancel(),
    {
        if let TaskStatus::Running = self.status {
            self.status = TaskStatus::CancelRequested;
        }
    }

    /// Whether nothing remains for the worker to do.
    pub fn is_done(&self) -> (r: bool)
        ensures
            r == self@.is_done(),
    {
        is_terminal(&self.status) && (self.kind == TaskKind::Bounded || self.waited)
    }

    /// Decides the next move of the run loop. A bounded task checks for a
    /// failure, then for cancellation, then advances by one unit or finishes.
    /// An unbounded task first blocks once for its duration, then resolves.
    pub fn step(&mut self) -> (r: Step)
        requires
            old(self)@.wf(),
        ensures
            (final(self)@, r) == old(self)@.step(),
            final(self)@.wf(),
    {
        if self.kind == TaskKind::Unbounded && !self.waited {
            self.waited = true;
            Step::Wait(self.amount)
        } else if is_terminal(&self.status) {
            Step::Done
        } else if let TaskStatus::CancelRequested = self.status {
            self.status = TaskStatus::Finished;
            self.cancelled = true;
            Step::Done
        } else if self.kind == TaskKind::Bounded && self.position < self.amount {
            self.position = self.position + 1;
            Step::Advance(self.position)
        } else {
            self.status = TaskStatus::Finished;
            Step::Done
        }
    }

    /// The message to show once the task is over.
    pub fn final_message(&self) -> (r: String)
        ensures
            r@ == self@.final_message(),
    {
        let mut m = self.label.clone();
        match &self.status {
            TaskStatus::Failed(reason) => {
                m.append(" failed: ");
                m.append(reason.as_str());
            },
            _ => {
                if self.cancelled {
                    m.append(" cancelled");
                } else {
                    m.append(" finished");
                }
            },
        }
        m
    }
}

} // verus!
