use vstd::prelude::*;
use crate::task::{Task, TaskKind, TaskModel};

verus! {

/// The stages of a run, in the only order in which they can be passed.
#[derive(Clone, Copy, Debug, PartialEq, Eq, Structural)]
pub enum Phase {
    /// Tasks are being added.
    Idle,
    /// Tasks are handed out; completion signals are awaited.
    Running,
    /// Every task has signalled completion; joins are awaited.
    Drained,
    /// Every worker has been joined.
    Joined,
    /// The run is over and its tasks can be inspected.
    Done,
}

/// Why the runner refused a request.
#[derive(Clone, Copy, Debug, PartialEq, Eq, Structural)]
pub enum RunnerError {
    /// The request does not belong to the current phase.
    WrongPhase,
    /// No task has this index.
    UnknownTask,
    /// A second completion signal for one task.
    DuplicateSignal,
    /// A second join of one task.
    DuplicateJoin,
    /// The returned task still has work to do.
    Unfinished,
    /// Some tasks have not signalled, or not been joined, yet.
    Pending,
    /// The returned task is not the one handed out at this index.
    Mismatch,
}

/// How many entries of `s` are true.
pub open spec fn count_true(s: Seq<bool>) -> nat
    decreases s.len(),
{
    if s.len() == 0 {
        0
    } else {
        count_true(s.drop_last()) + if s.last() { 1nat } else { 0nat }
    }
}

pub proof fn lemma_count_true_bound(s: Seq<bool>)
    ensures
        count_true(s) <= s.len(),
        count_true(s) == s.len() ==> forall|i: int| 0 <= i < s.len() ==> #[trigger] s[i],
    decreases s.len(),
{
    if s.len() > 0 {
        lemma_count_true_bound(s.drop_last());
        if count_true(s) == s.len() {
            assert forall|i: int| 0 <= i < s.len() implies #[trigger] s[i] by {
                if i < s.len() - 1 {
                    assert(s.drop_last()[i] == s[i]);
                }
            }
        }
    }
}

pub proof fn lemma_count_true_set(s: Seq<bool>, i: int)
    requires
        0 <= i < s.len(),
        !s[i],
    ensures
        count_true(s.update(i, true)) == count_true(s) + 1,
    decreases s.len(),
{
    let t = s.update(i, true);
    if i == s.len() - 1 {
        assert(t.drop_last() =~= s.drop_last());
    } else {
        assert(t.drop_last() =~= s.drop_last().update(i, true));
        lemma_count_true_set(s.drop_last(), i);
    }
}

pub proof fn lemma_count_true_all_false(n: nat)
    ensures
        count_true(Seq::new(n, |i: int| false)) == 0,
    decreases n,
{
    if n > 0 {
        assert(Seq::new(n, |i: int| false).drop_last() =~= Seq::new((n - 1) as nat, |i: int| false));
        lemma_count_true_all_false((n - 1) as nat);
    }
}

/// The abstract state of a runner.
pub struct RunnerModel {
    pub phase: Phase,
    /// The tasks added so far; empty once they are handed out.
    pub tasks: Seq<TaskModel>,
    /// The number of tasks handed out by the start of the run.
    pub count: nat,
    /// The tasks handed out by the start of the run, as they were then.
    pub started: Seq<TaskModel>,
    /// Which tasks have signalled completion.
    pub signalled: Seq<bool>,
    /// The tasks given back by their joined workers, by index.
    pub results: Seq<Option<TaskModel>>,
}

impl RunnerModel {
    pub open spec fn joined(self) -> Seq<bool> {
        self.results.map_values(|o: Option<TaskModel>| o is Some)
    }

    pub open spec fn signal_count(self) -> nat {
        count_true(self.signalled)
    }

    pub open spec fn join_count(self) -> nat {
        count_true(self.joined())
    }

    /// Whether task `i` may signal completion now.
    pub open spec fn signal_ok(self, i: int) -> bool {
        self.phase is Running && 0 <= i < self.count && !self.signalled[i]
    }

    /// The state after task `i` signals completion.
    pub open spec fn signal(self, i: int) -> RunnerModel {
        RunnerModel { signalled: self.signalled.update(i, true), ..self }
    }

    /// Whether `t` may be taken back now as task `i`: the run is drained,
    /// `i` is not joined yet, `t` is the task handed out as `i`, and it is done.
    pub open spec fn join_ok(self, i: int, t: TaskModel) -> bool {
        &&& self.phase is Drained
        &&& 0 <= i < self.count
        &&& self.results[i] is None
        &&& t.same_task(self.started[i])
        &&& t.is_done()
    }

    /// The state after `t` is taken back as task `i`.
    pub open spec fn join(self, i: int, t: TaskModel) -> RunnerModel {
        RunnerModel { results: self.results.update(i, Some(t)), ..self }
    }

    pub open spec fn wf(self) -> bool {
        &&& forall|i: int| 0 <= i < self.tasks.len() ==> (#[trigger] self.tasks[i]).wf()
            && self.tasks[i].is_initial()
        &&& forall|i: int| 0 <= i < self.started.len() ==> (#[trigger] self.started[i]).wf()
            && self.started[i].is_initial()
        &&& self.phase is Idle ==> self.count == 0 && self.signalled.len() == 0
            && self.results.len() == 0 && self.started.len() == 0
        &&& !(self.phase is Idle) ==> self.tasks.len() == 0 && self.signalled.len() == self.count
            && self.results.len() == self.count && self.started.len() == self.count
        &&& self.phase is Running ==> self.join_count() == 0
        &&& (self.phase is Drained || self.phase is Joined || self.phase is Done)
            ==> self.signal_count() == self.count
        &&& (self.phase is Joined || self.phase is Done) ==> self.join_count() == self.count
        &&& forall|i: int| 0 <= i < self.results.len() && (#[trigger] self.results[i]) is Some
            ==> self.signalled[i] && self.results[i].unwrap().is_done()
            && self.results[i].unwrap().same_task(self.started[i])
    }

    /// The task at `i`: an added one while idle, a returned one afterwards.
    pub open spec fn task_at(self, i: int) -> Option<TaskModel> {
        if self.phase is Idle {
            if 0 <= i < self.tasks.len() {
                Some(self.tasks[i])
            } else {
                None
            }
        } else if 0 <= i < self.results.len() {
            self.results[i]
        } else {
            None
        }
    }
}

/// Owns a set of tasks and accounts for each of them through one run.
pub struct TaskRunner {
    phase: Phase,
    tasks: Vec<Task>,
    count: usize,
    started: Vec<Handout>,
    signalled: Vec<bool>,
    n_signalled: usize,
    results: Vec<Option<Task>>,
    n_joined: usize,
}

/// What the runner keeps of a task it hands out.
struct Handout {
    label: String,
    kind: TaskKind,
    amount: u64,
}

spec fn handout_view(h: Handout) -> TaskModel {
    TaskModel::initial(h.label@, h.kind, h.amount as nat)
}

pub open spec fn option_view(o: Option<Task>) -> Option<TaskModel> {
    match o {
        Some(t) => Some(t@),
        None => None,
    }
}

impl View for TaskRunner {
    type V = RunnerModel;

    closed spec fn view(&self) -> RunnerModel {
        RunnerModel {
            phase: self.phase,
            tasks: self.tasks@.map_values(|t: Task| t@),
            count: self.count as nat,
            started: self.started@.map_values(|h: Handout| handout_view(h)),
            signalled: self.signalled@,
            results: self.results@.map_values(|o: Option<Task>| option_view(o)),
        }
    }
}

impl TaskRunner {
    /// The runner's invariant: it holds after every operation.
    pub closed spec fn wf(&self) -> bool {
        &&& self@.wf()
        &&& self.n_signalled as nat == self@.signal_count()
        &&& self.n_joined as nat == self@.join_count()
    }

    pub proof fn lemma_wf(&self)
        requires
            self.wf(),
        ensures
            self@.wf(),
    {
    }

    /// An idle runner with no tasks.
    pub fn new() -> (r: TaskRunner)
        ensures
            r.wf(),
            r@.phase is Idle,
            r@.tasks.len() == 0,
    {
        let r = TaskRunner {
            phase: Phase::Idle,
            tasks: Vec::new(),
            count: 0,
            started: Vec::new(),
            signalled: Vec::new(),
            n_signalled: 0,
            results: Vec::new(),
            n_joined: 0,
        };
        proof {
            assert(r@.signalled =~= Seq::<bool>::empty());
            assert(r@.started =~= Seq::<TaskModel>::empty());
            assert(r@.joined() =~= Seq::<bool>::empty());
        }
        r
    }

    pub fn phase(&self) -> (r: Phase)
        ensures
            r == self@.phase,
    {
        self.phase
    }

    /// The number of tasks added, or handed out once the run has started.
    pub fn task_count(&self) -> (r: usize)
        requires
            self.wf(),
        ensures
            r == if self@.phase is Idle { self@.tasks.len() } else { self@.count },
    {
        if self.phase == Phase::Idle {
            self.tasks.len()
        } else {
            self.count
        }
    }

    /// Adds a running task at position zero; refused once the run has started.
    /// Returns the new task's index.
    pub fn add_task(&mut self, label: String, kind: TaskKind, amount: u64) -> (r: Result<
        usize,
        RunnerError,
    >)
        requires
            old(self).wf(),
        ensures
            final(self).wf(),
            old(self)@.phase is Idle ==> r == Ok::<usize, RunnerError>(old(self)@.tasks.len() as usize)
                && final(self)@ == (RunnerModel {
                tasks: old(self)@.tasks.push(TaskModel::initial(label@, kind, amount as nat)),
                ..old(self)@
            }),
            !(old(self)@.phase is Idle) ==> r == Err::<usize, RunnerError>(RunnerError::WrongPhase)
                && final(self)@ == old(self)@,
    {
        if self.phase != Phase::Idle {
            return Err(RunnerError::WrongPhase);
        }
        let ghost before = self@;
        let i = self.tasks.len();
        let t = Task::new(label, kind, amount);
        self.tasks.push(t);
        proof {
            assert(self@.tasks =~= before.tasks.push(t@));
        }
        Ok(i)
    }

    /// Starts the run: hands every task out, by index, to be run by its own
    /// worker. Refused unless idle.
    pub fn start(&mut self) -> (r: Result<Vec<Task>, RunnerError>)
        requires
            old(self).wf(),
        ensures
            final(self).wf(),
            match r {
                Ok(v) => old(self)@.phase is Idle && v@.map_values(|t: Task| t@) == old(self)@.tasks
                    && final(self)@ == (RunnerModel {
                    phase: Phase::Running,
                    tasks: Seq::empty(),
                    count: old(self)@.tasks.len(),
                    started: old(self)@.tasks,
                    signalled: Seq::new(old(self)@.tasks.len(), |i: int| false),
                    results: Seq::new(old(self)@.tasks.len(), |i: int| None::<TaskModel>),
                }),
                Err(e) => !(old(self)@.phase is Idle) && e == RunnerError::WrongPhase
                    && final(self)@ == old(self)@,
            },
    {
        if self.phase != Phase::Idle {
            return Err(RunnerError::WrongPhase);
        }
        let ghost before = self@;
        assert(forall|j: int| 0 <= j < before.tasks.len() ==> (#[trigger] before.tasks[j]).is_initial());
        let mut out: Vec<Task> = Vec::new();
        core::mem::swap(&mut out, &mut self.tasks);
        assert(out@.map_values(|t: Task| t@) =~= before.tasks);
        let n = out.len();
        let mut started: Vec<Handout> = Vec::new();
        let mut signalled: Vec<bool> = Vec::new();
        let mut results: Vec<Option<Task>> = Vec::new();
        let mut i: usize = 0;
        while i < n
            invariant
                i <= n,
                n == out@.len(),
                n == before.tasks.len(),
                forall|j: int| 0 <= j < n ==> (#[trigger] out@[j])@ == before.tasks[j],
                forall|j: int| 0 <= j < n ==> (#[trigger] before.tasks[j]).is_initial(),
                started@.len() == i,
                forall|j: int| 0 <= j < i ==> handout_view(#[trigger] started@[j]) == out@[j]@,
                signalled@ =~= Seq::new(i as nat, |j: int| false),
                results@.len() == i,
                forall|j: int| 0 <= j < i ==> (#[trigger] results@[j]) is None,
            decreases n - i,
        {
            let t = &out[i];
            assert(t@ == before.tasks[i as int]);
            started.push(Handout { label: t.label().clone(), kind: t.kind(), amount: t.amount() });
            signalled.push(false);
            results.push(None);
            i = i + 1;
        }
        self.phase = Phase::Running;
        self.count = n;
        self.started = started;
        self.signalled = signalled;
        self.results = results;
        self.n_signalled = 0;
        self.n_joined = 0;
        proof {
            lemma_count_true_all_false(n as nat);
            assert(self@.joined() =~= Seq::new(n as nat, |j: int| false));
            assert(self@.tasks =~= Seq::<TaskModel>::empty());
            assert(self@.results =~= Seq::new(n as nat, |j: int| None::<TaskModel>));
            assert(self@.started =~= before.tasks);
        }
        Ok(out)
    }

    /// Records that task `index` has signalled completion. Each task may
    /// signal once, and only while the run is under way.
    pub fn record_completion(&mut self, index: usize) -> (r: Result<(), RunnerError>)
        requires
            old(self).wf(),
        ensures
            final(self).wf(),
            !(old(self)@.phase is Running) ==> r == Err::<(), RunnerError>(RunnerError::WrongPhase),
            old(self)@.phase is Running && index >= old(self)@.count ==> r == Err::<(), RunnerError>(
                RunnerError::UnknownTask,
            ),
            old(self)@.phase is Running && index < old(self)@.count && old(self)@.signalled[index as int]
                ==> r == Err::<(), RunnerError>(RunnerError::DuplicateSignal),
            r is Ok <==> old(self)@.signal_ok(index as int),
            r is Ok ==> final(self)@ == old(self)@.signal(index as int),
            r is Ok ==> final(self)@.signal_count() == old(self)@.signal_count() + 1,
            r is Err ==> final(self)@ == old(self)@,
    {
        if self.phase != Phase::Running {
            return Err(RunnerError::WrongPhase);
        }
        if index >= self.count {
            return Err(RunnerError::UnknownTask);
        }
        if self.signalled[index] {
            return Err(RunnerError::DuplicateSignal);
        }
        proof {
            lemma_count_true_set(self.signalled@, index as int);
            lemma_count_true_bound(self.signalled@.update(index as int, true));
        }
        self.signalled.set(index, true);
        self.n_signalled = self.n_signalled + 1;
        Ok(())
    }

    /// Ends the wait for completion signals; refused while any is missing.
    pub fn close_signals(&mut self) -> (r: Result<(), RunnerError>)
        requires
            old(self).wf(),
        ensures
            final(self).wf(),
            !(old(self)@.phase is Running) ==> r == Err::<(), RunnerError>(RunnerError::WrongPhase),
            old(self)@.phase is Running && old(self)@.signal_count() < old(self)@.count ==> r == Err::<
                (),
                RunnerError,
            >(RunnerError::Pending),
            r is Ok <==> old(self)@.phase is Running && old(self)@.signal_count() == old(self)@.count,
            r is Ok ==> final(self)@ == (RunnerModel { phase: Phase::Drained, ..old(self)@ }),
            r is Err ==> final(self)@ == old(self)@,
    {
        if self.phase != Phase::Running {
            return Err(RunnerError::WrongPhase);
        }
        proof {
            lemma_count_true_bound(self@.signalled);
        }
        if self.n_signalled < self.count {
            return Err(RunnerError::Pending);
        }
        self.phase = Phase::Drained;
        Ok(())
    }

    /// Takes back task `index` from its joined worker. Joins are accepted
    /// only after every task has signalled, once per task, and only of the
    /// task handed out as `index`, with nothing left to do.
    pub fn record_join(&mut self, index: usize, task: Task) -> (r: Result<(), RunnerError>)
        requires
            old(self).wf(),
        ensures
            final(self).wf(),
            !(old(self)@.phase is Drained) ==> r == Err::<(), RunnerError>(RunnerError::WrongPhase),
            old(self)@.phase is Drained && index >= old(self)@.count ==> r == Err::<(), RunnerError>(
                RunnerError::UnknownTask,
            ),
            old(self)@.phase is Drained && index < old(self)@.count
                && old(self)@.results[index as int] is Some ==> r == Err::<(), RunnerError>(
                RunnerError::DuplicateJoin,
            ),
            old(self)@.phase is Drained && index < old(self)@.count
                && old(self)@.results[index as int] is None
                && !task@.same_task(old(self)@.started[index as int]) ==> r == Err::<(), RunnerError>(
                RunnerError::Mismatch,
            ),
            old(self)@.phase is Drained && index < old(self)@.count
                && old(self)@.results[index as int] is None
                && task@.same_task(old(self)@.started[index as int]) && !task@.is_done() ==> r
                == Err::<(), RunnerError>(RunnerError::Unfinished),
            r is Ok <==> old(self)@.join_ok(index as int, task@),
            r is Ok ==> final(self)@ == old(self)@.join(index as int, task@),
            r is Ok ==> final(self)@.join_count() == old(self)@.join_count() + 1,
            r is Err ==> final(self)@ == old(self)@,
    {
        if self.phase != Phase::Drained {
            return Err(RunnerError::WrongPhase);
        }
        if index >= self.count {
            return Err(RunnerError::UnknownTask);
        }
        if self.results[index].is_some() {
            return Err(RunnerError::DuplicateJoin);
        }
        let h = &self.started[index];
        if !task.label().eq(&h.label) || task.kind() != h.kind || task.amount() != h.amount {
            return Err(RunnerError::Mismatch);
        }
        if !task.is_done() {
            return Err(RunnerError::Unfinished);
        }
        let ghost before = self@;
        proof {
            lemma_count_true_set(before.joined(), index as int);
            lemma_count_true_bound(before.joined().update(index as int, true));
            lemma_count_true_bound(before.signalled);
        }
        let ghost tm = task@;
        self.results.set(index, Some(task));
        self.n_joined = self.n_joined + 1;
        proof {
            assert(self@.results =~= before.results.update(index as int, Some(tm)));
            assert(self@.joined() =~= before.joined().update(index as int, true));
        }
        Ok(())
    }

    /// Ends the wait for joins; refused while any worker is not joined.
    pub fn close_joins(&mut self) -> (r: Result<(), RunnerError>)
        requires
            old(self).wf(),
        ensures
            final(self).wf(),
            !(old(self)@.phase is Drained) ==> r == Err::<(), RunnerError>(RunnerError::WrongPhase),
            old(self)@.phase is Drained && old(self)@.join_count() < old(self)@.count ==> r == Err::<
                (),
                RunnerError,
            >(RunnerError::Pending),
            r is Ok <==> old(self)@.phase is Drained && old(self)@.join_count() == old(self)@.count,
            r is Ok ==> final(self)@ == (RunnerModel { phase: Phase::Joined, ..old(self)@ }),
            r is Err ==> final(self)@ == old(self)@,
    {
        if self.phase != Phase::Drained {
            return Err(RunnerError::WrongPhase);
        }
        proof {
            lemma_count_true_bound(self@.joined());
        }
        if self.n_joined < self.count {
            return Err(RunnerError::Pending);
        }
        self.phase = Phase::Joined;
        Ok(())
    }

    /// Ends the run once every worker is joined.
    pub fn finish(&mut self) -> (r: Result<(), RunnerError>)
        requires
            old(self).wf(),
        ensures
            final(self).wf(),
            r is Ok <==> old(self)@.phase is Joined,
            r is Err ==> r == Err::<(), RunnerError>(RunnerError::WrongPhase),
            r is Ok ==> final(self)@ == (RunnerModel { phase: Phase::Done, ..old(self)@ }),
            r is Err ==> final(self)@ == old(self)@,
    {
        if self.phase != Phase::Joined {
            return Err(RunnerError::WrongPhase);
        }
        self.phase = Phase::Done;
        Ok(())
    }

    /// The task at `index`: an added one while idle, the returned one after
    /// its worker is joined, and none otherwise.
    pub fn task(&self, index: usize) -> (r: Option<&Task>)
        requires
            self.wf(),
        ensures
            match r {
                Some(t) => self@.task_at(index as int) == Some(t@),
                None => self@.task_at(index as int) is None,
            },
    {
        if self.phase == Phase::Idle {
            if index < self.tasks.len() {
                Some(&self.tasks[index])
            } else {
                None
            }
        } else if index < self.results.len() {
            match &self.results[index] {
                Some(t) => Some(t),
                None => None,
            }
        } else {
            None
        }
    }
}

} // verus!
