//! The pipeline run coordinator: one run of a due pipeline's task chain.
//!
//! A run is a state machine. It names the task that is to be executed next;
//! the caller executes it and reports what happened; the run turns the report
//! into the record of the attempt and moves on. The chain stops at the first
//! task that fails. Nothing is rolled back.
//!
//! The run never waits and never executes anything itself. No time limit is
//! put on a task: a task that hangs holds up its own run, and only that.

use vstd::prelude::*;
use crate::clock::{format_instant, utc_text, Instant};
use crate::models::{Task, TaskInstance, TaskInstanceView, TaskView};
use crate::schedule::Launch;
use crate::text::{
    byte_list, byte_list_text, decimal, decimal_has_no_separator, decimal_is_injective,
    decimal_text, join, joined, joined_cancels_right, joined_splits_at_last_separator,
};

verus! {

/// The result of an execution as a mathematical value.
pub struct OutcomeView {
    pub exit_code: Option<i32>,
    pub status: Seq<char>,
    pub stdout: Seq<u8>,
    pub stderr: Seq<u8>,
}

impl OutcomeView {
    /// A task has succeeded when its process ran and exited with code 0.
    pub open spec fn succeeded(self) -> bool {
        self.exit_code == Some(0i32)
    }
}

/// What executing a task's command came to.
#[derive(Debug)]
pub struct TaskOutcome {
    /// The exit code of the process; `None` when the process could not be
    /// started or waited for, or ended without a code.
    pub exit_code: Option<i32>,
    /// The exit status in words, as the system reports it.
    pub status: String,
    /// Everything the process wrote to its standard output.
    pub stdout: Vec<u8>,
    /// Everything the process wrote to its standard error.
    pub stderr: Vec<u8>,
}

impl View for TaskOutcome {
    type V = OutcomeView;

    open spec fn view(&self) -> OutcomeView {
        OutcomeView {
            exit_code: self.exit_code,
            status: self.status@,
            stdout: self.stdout@,
            stderr: self.stderr@,
        }
    }
}

impl TaskOutcome {
    /// The outcome of a command that could not be started or waited for:
    /// there is no exit code, nothing was captured, and the status is the
    /// reason given.
    pub fn not_started(reason: String) -> (outcome: Self)
        ensures
            outcome@ == (OutcomeView {
                exit_code: None,
                status: reason@,
                stdout: Seq::empty(),
                stderr: Seq::empty(),
            }),
            !outcome@.succeeded(),
    {
        TaskOutcome { exit_code: None, status: reason, stdout: Vec::new(), stderr: Vec::new() }
    }

    /// Whether the task succeeded.
    pub fn succeeded(&self) -> (yes: bool)
        ensures
            yes == self@.succeeded(),
    {
        match self.exit_code {
            Some(code) => code == 0,
            None => false,
        }
    }
}

/// An attempt as a mathematical value.
pub struct AttemptView {
    pub task_id: Seq<char>,
    pub pipeline_id: Seq<char>,
    pub scheduled_time: Instant,
    pub run: nat,
    pub execution_start: Instant,
    pub execution_end: Instant,
    pub created_at: Instant,
    pub outcome: OutcomeView,
}

/// One executed attempt of a task within a run, with its instants as numbers.
#[derive(Debug)]
pub struct Attempt {
    pub task_id: String,
    pub pipeline_id: String,
    /// The nominal time of the run.
    pub scheduled_time: Instant,
    /// The number of the run.
    pub run: u64,
    /// The clock reading taken before the command was started.
    pub execution_start: Instant,
    /// The clock reading taken after the command had ended.
    pub execution_end: Instant,
    /// The clock reading taken when the record was made.
    pub created_at: Instant,
    pub outcome: TaskOutcome,
}

impl View for Attempt {
    type V = AttemptView;

    open spec fn view(&self) -> AttemptView {
        AttemptView {
            task_id: self.task_id@,
            pipeline_id: self.pipeline_id@,
            scheduled_time: self.scheduled_time,
            run: self.run as nat,
            execution_start: self.execution_start,
            execution_end: self.execution_end,
            created_at: self.created_at,
            outcome: self.outcome@,
        }
    }
}

impl DeepView for Attempt {
    type V = AttemptView;

    open spec fn deep_view(&self) -> AttemptView {
        self@
    }
}

/// The id of the record of an attempt: task, pipeline, nominal time and run
/// number, joined by underscores. The run number sets the records of two runs
/// apart even where task, pipeline and nominal time agree.
pub open spec fn instance_id(attempt: AttemptView) -> Seq<char> {
    joined(
        joined(
            joined(attempt.task_id, attempt.pipeline_id),
            utc_text(attempt.scheduled_time as int),
        ),
        decimal(attempt.run),
    )
}

/// The record of an attempt in the form in which the store keeps it.
pub open spec fn instance_of(attempt: AttemptView) -> TaskInstanceView {
    TaskInstanceView {
        id: instance_id(attempt),
        task_id: attempt.task_id,
        pipeline_id: attempt.pipeline_id,
        scheduled_time: utc_text(attempt.scheduled_time as int),
        execution_start: utc_text(attempt.execution_start as int),
        execution_end: utc_text(attempt.execution_end as int),
        status: attempt.outcome.status,
        logs: byte_list(attempt.outcome.stdout),
        created_at: utc_text(attempt.created_at as int),
    }
}

impl Attempt {
    /// The id under which the attempt is recorded.
    pub fn id(&self) -> (id: String)
        ensures
            id@ == instance_id(self@),
    {
        let task_and_pipeline = join(self.task_id.as_str(), self.pipeline_id.as_str());
        let scheduled = format_instant(self.scheduled_time);
        let upto_time = join(task_and_pipeline.as_str(), scheduled.as_str());
        let run = decimal_text(self.run);
        join(upto_time.as_str(), run.as_str())
    }

    /// The record to persist for the attempt. Its logs are the bytes of the
    /// standard output, written as a list of numbers.
    pub fn instance(&self) -> (instance: TaskInstance)
        ensures
            instance@ == instance_of(self@),
    {
        TaskInstance {
            id: self.id(),
            task_id: self.task_id.clone(),
            pipeline_id: self.pipeline_id.clone(),
            scheduled_time: format_instant(self.scheduled_time),
            execution_start: format_instant(self.execution_start),
            execution_end: format_instant(self.execution_end),
            status: self.outcome.status.clone(),
            logs: byte_list_text(&self.outcome.stdout),
            created_at: format_instant(self.created_at),
        }
    }
}

/// A report as a mathematical value.
pub struct Reading {
    pub started: Instant,
    pub finished: Instant,
    pub recorded: Instant,
    pub outcome: OutcomeView,
}

/// What the caller reports of one execution.
#[derive(Debug)]
pub struct Report {
    /// The clock reading taken before the command was started.
    pub started: Instant,
    /// The clock reading taken after the command had ended.
    pub finished: Instant,
    /// The clock reading taken when the report is made.
    pub recorded: Instant,
    pub outcome: TaskOutcome,
}

impl View for Report {
    type V = Reading;

    open spec fn view(&self) -> Reading {
        Reading {
            started: self.started,
            finished: self.finished,
            recorded: self.recorded,
            outcome: self.outcome@,
        }
    }
}

impl DeepView for Report {
    type V = Reading;

    open spec fn deep_view(&self) -> Reading {
        self@
    }
}

/// A run as a mathematical value.
pub struct RunView {
    pub pipeline_id: Seq<char>,
    pub scheduled_time: Instant,
    pub run: nat,
    /// The chain, in the order in which the store lists it.
    pub tasks: Seq<TaskView>,
    /// How many tasks of the chain have been attempted.
    pub position: nat,
    /// Whether an attempted task has failed.
    pub halted: bool,
}

impl RunView {
    /// The task to execute next: the first one not attempted yet, unless a
    /// task has failed or the chain is done.
    pub open spec fn pending(self) -> Option<TaskView> {
        if !self.halted && self.position < self.tasks.len() {
            Some(self.tasks[self.position as int])
        } else {
            None
        }
    }

    /// The attempt that a report on the pending task makes.
    pub open spec fn attempt(self, reading: Reading) -> AttemptView
        recommends
            self.pending() is Some,
    {
        AttemptView {
            task_id: self.tasks[self.position as int].id,
            pipeline_id: self.pipeline_id,
            scheduled_time: self.scheduled_time,
            run: self.run,
            execution_start: reading.started,
            execution_end: reading.finished,
            created_at: reading.recorded,
            outcome: reading.outcome,
        }
    }

    /// The run after a report on the pending task: one task further, and
    /// halted if the task did not succeed.
    pub open spec fn advance(self, reading: Reading) -> RunView
        recommends
            self.pending() is Some,
    {
        RunView { position: self.position + 1, halted: !reading.outcome.succeeded(), ..self }
    }
}

/// The attempts that a run makes when its executions are reported by
/// `readings`, one reading for each task in turn. The run takes readings as
/// long as a task is pending.
pub open spec fn chain(run: RunView, readings: Seq<Reading>) -> Seq<AttemptView>
    decreases readings.len(),
{
    if readings.len() == 0 || run.pending() is None {
        Seq::empty()
    } else {
        seq![run.attempt(readings[0])] + chain(run.advance(readings[0]), readings.drop_first())
    }
}

/// The run after it has taken `readings`, one for each task in turn, as long
/// as a task was pending.
pub open spec fn after(run: RunView, readings: Seq<Reading>) -> RunView
    decreases readings.len(),
{
    if readings.len() == 0 || run.pending() is None {
        run
    } else {
        after(run.advance(readings[0]), readings.drop_first())
    }
}

/// One run of a pipeline's task chain.
pub struct PipelineRun {
    pipeline_id: String,
    scheduled_time: Instant,
    run: u64,
    tasks: Vec<Task>,
    position: usize,
    halted: bool,
}

impl View for PipelineRun {
    type V = RunView;

    closed spec fn view(&self) -> RunView {
        RunView {
            pipeline_id: self.pipeline_id@,
            scheduled_time: self.scheduled_time,
            run: self.run as nat,
            tasks: self.tasks.deep_view(),
            position: self.position as nat,
            halted: self.halted,
        }
    }
}

impl PipelineRun {
    /// A run never counts more attempts than its chain has tasks.
    #[verifier::type_invariant]
    spec fn within_chain(self) -> bool {
        self.position <= self.tasks.len()
    }

    /// A run of the given chain that has attempted nothing yet.
    pub fn new(pipeline_id: String, scheduled_time: Instant, run: u64, tasks: Vec<Task>) -> (fresh:
        Self)
        ensures
            fresh@ == (RunView {
                pipeline_id: pipeline_id@,
                scheduled_time,
                run: run as nat,
                tasks: tasks.deep_view(),
                position: 0,
                halted: false,
            }),
    {
        PipelineRun { pipeline_id, scheduled_time, run, tasks, position: 0, halted: false }
    }

    /// The run that a launch asks for, over the tasks that the store lists
    /// for its pipeline.
    pub fn for_launch(launch: &Launch, tasks: Vec<Task>) -> (fresh: Self)
        ensures
            fresh@ == (RunView {
                pipeline_id: launch@.pipeline.id,
                scheduled_time: launch.scheduled_time,
                run: launch@.run,
                tasks: tasks.deep_view(),
                position: 0,
                halted: false,
            }),
    {
        PipelineRun::new(launch.pipeline.id.clone(), launch.scheduled_time, launch.run, tasks)
    }

    /// The task to execute next, if the run is not over.
    pub fn pending(&self) -> (task: Option<&Task>)
        ensures
            match task {
                Some(task) => self@.pending() == Some(task@),
                None => self@.pending() is None,
            },
    {
        if !self.halted && self.position < self.tasks.len() {
            Some(&self.tasks[self.position])
        } else {
            None
        }
    }

    /// Whether the run is over: every task was attempted, or one failed.
    pub fn is_over(&self) -> (over: bool)
        ensures
            over == self@.pending() is None,
    {
        self.halted || self.position >= self.tasks.len()
    }

    /// Whether the run was stopped by a failing task.
    pub fn is_halted(&self) -> (halted: bool)
        ensures
            halted == self@.halted,
    {
        self.halted
    }

    /// How many tasks of the chain have been attempted: never more than the
    /// chain has.
    pub fn attempted(&self) -> (count: usize)
        ensures
            count == self@.position,
            count <= self@.tasks.len(),
    {
        proof {
            use_type_invariant(self);
        }
        self.position
    }

    /// Takes the report on the execution of the pending task.
    ///
    /// Gives the attempt to persist and moves on to the next task, or halts
    /// the chain if the task did not succeed. With no task pending, nothing
    /// is recorded and the run stays as it is.
    pub fn complete(&mut self, report: Report) -> (attempt: Option<Attempt>)
        ensures
            match old(self)@.pending() {
                Some(_) => attempt is Some && attempt->0@ == old(self)@.attempt(report@)
                    && final(self)@ == old(self)@.advance(report@),
                None => attempt is None && final(self)@ == old(self)@,
            },
    {
        if self.halted || self.position >= self.tasks.len() {
            return None;
        }
        let succeeded = report.outcome.succeeded();
        let attempt = Attempt {
            task_id: self.tasks[self.position].id.clone(),
            pipeline_id: self.pipeline_id.clone(),
            scheduled_time: self.scheduled_time,
            run: self.run,
            execution_start: report.started,
            execution_end: report.finished,
            created_at: report.recorded,
            outcome: report.outcome,
        };
        self.position = self.position + 1;
        self.halted = !succeeded;
        Some(attempt)
    }

    /// Takes a series of reports, one for each task in turn, and gives the
    /// attempts they make. Reports that come when no task is pending any more
    /// are passed over.
    pub fn replay(&mut self, reports: Vec<Report>) -> (attempts: Vec<Attempt>)
        ensures
            attempts.deep_view() == chain(old(self)@, reports.deep_view()),
            final(self)@ == after(old(self)@, reports.deep_view()),
    {
        let ghost start = self@;
        let ghost all = reports.deep_view();
        let mut attempts: Vec<Attempt> = Vec::new();
        assert(attempts.deep_view() =~= Seq::<AttemptView>::empty());
        assert(all.skip(0) =~= all);
        for report in iter: reports.into_iter()
            invariant
                iter.seq() == reports@,
                all == reports.deep_view(),
                chain(start, all) == attempts.deep_view() + chain(self@, all.skip(iter.index())),
                after(start, all) == after(self@, all.skip(iter.index())),
        {
            let ghost i = iter.index();
            let ghost rest = all.skip(i);
            let ghost before = self@;
            let ghost made = attempts.deep_view();
            proof {
                assert(rest.len() > 0);
                assert(rest[0] == report@);
                assert(rest.drop_first() =~= all.skip(i + 1));
            }
            match self.complete(report) {
                Some(attempt) => {
                    attempts.push(attempt);
                    proof {
                        assert(attempts.deep_view() =~= made.push(before.attempt(rest[0])));
                        assert(chain(before, rest) =~= seq![before.attempt(rest[0])] + chain(
                            self@,
                            all.skip(i + 1),
                        ));
                        assert(made + chain(before, rest) =~= attempts.deep_view() + chain(
                            self@,
                            all.skip(i + 1),
                        ));
                    }
                },
                None => {
                    proof {
                        lemma_over_run_takes_nothing(before, rest);
                        lemma_over_run_takes_nothing(before, all.skip(i + 1));
                    }
                },
            }
        }
        proof {
            assert(all.skip(all.len() as int) =~= Seq::<Reading>::empty());
        }
        attempts
    }
}

proof fn lemma_over_run_takes_nothing(run: RunView, readings: Seq<Reading>)
    requires
        run.pending() is None,
    ensures
        chain(run, readings) == Seq::<AttemptView>::empty(),
        after(run, readings) == run,
{
}

/// The attempt that a run makes of the task `i` places after its position,
/// when `readings` report its executions.
pub open spec fn nth_attempt(run: RunView, readings: Seq<Reading>, i: int) -> AttemptView
    recommends
        0 <= i < readings.len(),
        run.position + i < run.tasks.len(),
{
    RunView { position: (run.position + i) as nat, ..run }.attempt(readings[i])
}

/// Whether the clock behind the first `n` readings never went back: each
/// execution ends no earlier than it started, and starts no earlier than the
/// one before it ended.
pub open spec fn clock_in_step(readings: Seq<Reading>, n: int) -> bool {
    &&& forall|i: int| 0 <= i < n ==> (#[trigger] readings[i]).started <= readings[i].finished
    &&& forall|i: int, j: int|
        0 <= i < j < n ==> (#[trigger] readings[i]).finished <= (#[trigger] readings[j]).started
}

/// However the executions turn out, a run attempts the tasks of its chain in
/// order, one report each: none is attempted twice, none is passed over, and
/// every attempt but the last has succeeded.
pub proof fn chain_follows_the_task_order(run: RunView, readings: Seq<Reading>)
    requires
        run.position <= run.tasks.len(),
    ensures
        chain(run, readings).len() <= readings.len(),
        chain(run, readings).len() <= run.tasks.len() - run.position,
        forall|i: int|
            0 <= i < chain(run, readings).len() ==> #[trigger] chain(run, readings)[i]
                == nth_attempt(run, readings, i),
        forall|i: int|
            0 <= i < chain(run, readings).len() - 1 ==> (#[trigger] chain(
                run,
                readings,
            )[i]).outcome.succeeded(),
    decreases readings.len(),
{
    if readings.len() == 0 || run.pending() is None {
    } else {
        let next = run.advance(readings[0]);
        let rest = readings.drop_first();
        chain_follows_the_task_order(next, rest);
        assert forall|i: int| 0 <= i < chain(run, readings).len() implies #[trigger] chain(
            run,
            readings,
        )[i] == nth_attempt(run, readings, i) by {
            if i == 0 {
                assert((RunView { position: (run.position + 0) as nat, ..run }) == run);
            } else {
                assert(chain(run, readings)[i] == chain(next, rest)[i - 1]);
                assert(chain(next, rest)[i - 1] == nth_attempt(next, rest, i - 1));
                assert(rest[i - 1] == readings[i]);
                assert((RunView { position: (next.position + (i - 1)) as nat, ..next }) == (
                RunView { position: (run.position + i) as nat, ..run }));
            }
        }
        assert forall|i: int| 0 <= i < chain(run, readings).len() - 1 implies (#[trigger] chain(
            run,
            readings,
        )[i]).outcome.succeeded() by {
            if i == 0 {
                if !readings[0].outcome.succeeded() {
                    assert(next.pending() is None);
                    assert(chain(next, rest).len() == 0);
                }
            } else {
                assert(chain(run, readings)[i] == chain(next, rest)[i - 1]);
            }
        }
    }
}

/// When the task `k` places after the run's position is the first to fail,
/// the run attempts the tasks up to and including that one, in order, and no
/// task after it.
pub proof fn chain_halts_at_first_failure(run: RunView, readings: Seq<Reading>, k: int)
    requires
        !run.halted,
        0 <= k < readings.len(),
        run.position + k < run.tasks.len(),
        forall|i: int| 0 <= i < k ==> (#[trigger] readings[i]).outcome.succeeded(),
        !readings[k].outcome.succeeded(),
    ensures
        chain(run, readings).len() == k + 1,
        forall|i: int|
            0 <= i <= k ==> #[trigger] chain(run, readings)[i] == nth_attempt(run, readings, i),
    decreases k,
{
    let next = run.advance(readings[0]);
    let rest = readings.drop_first();
    assert(run.pending() is Some);
    if k == 0 {
        assert(next.pending() is None);
        assert(chain(next, rest) =~= Seq::<AttemptView>::empty());
        assert(chain(run, readings) =~= seq![run.attempt(readings[0])]);
        assert((RunView { position: (run.position + 0) as nat, ..run }) == run);
    } else {
        assert(readings[0].outcome.succeeded());
        assert forall|i: int| 0 <= i < k - 1 implies (#[trigger] rest[i]).outcome.succeeded() by {
            assert(rest[i] == readings[i + 1]);
        }
        assert(rest[k - 1] == readings[k]);
        chain_halts_at_first_failure(next, rest, k - 1);
        assert forall|i: int| 0 <= i <= k implies #[trigger] chain(run, readings)[i]
            == nth_attempt(run, readings, i) by {
            if i == 0 {
                assert((RunView { position: (run.position + 0) as nat, ..run }) == run);
            } else {
                assert(chain(run, readings)[i] == chain(next, rest)[i - 1]);
                assert(chain(next, rest)[i - 1] == nth_attempt(next, rest, i - 1));
                assert(rest[i - 1] == readings[i]);
                assert((RunView { position: (next.position + (i - 1)) as nat, ..next }) == (
                RunView { position: (run.position + i) as nat, ..run }));
            }
        }
    }
}

/// When every task from the run's position on succeeds, the run attempts
/// each of them once, in order.
pub proof fn chain_of_successes_attempts_every_task(run: RunView, readings: Seq<Reading>)
    requires
        !run.halted,
        run.position <= run.tasks.len(),
        readings.len() >= run.tasks.len() - run.position,
        forall|i: int|
            0 <= i < run.tasks.len() - run.position ==> (
            #[trigger] readings[i]).outcome.succeeded(),
    ensures
        chain(run, readings).len() == run.tasks.len() - run.position,
        forall|i: int|
            0 <= i < run.tasks.len() - run.position ==> #[trigger] chain(run, readings)[i]
                == nth_attempt(run, readings, i),
    decreases readings.len(),
{
    let n = run.tasks.len() - run.position;
    if n == 0 {
        assert(run.pending() is None);
    } else {
        let next = run.advance(readings[0]);
        let rest = readings.drop_first();
        assert(run.pending() is Some);
        assert(readings[0].outcome.succeeded());
        assert forall|i: int| 0 <= i < n - 1 implies (#[trigger] rest[i]).outcome.succeeded() by {
            assert(rest[i] == readings[i + 1]);
        }
        chain_of_successes_attempts_every_task(next, rest);
        assert forall|i: int| 0 <= i < n implies #[trigger] chain(run, readings)[i] == nth_attempt(
            run,
            readings,
            i,
        ) by {
            if i == 0 {
                assert((RunView { position: (run.position + 0) as nat, ..run }) == run);
            } else {
                assert(chain(run, readings)[i] == chain(next, rest)[i - 1]);
                assert(chain(next, rest)[i - 1] == nth_attempt(next, rest, i - 1));
                assert(rest[i - 1] == readings[i]);
                assert((RunView { position: (next.position + (i - 1)) as nat, ..next }) == (
                RunView { position: (run.position + i) as nat, ..run }));
            }
        }
    }
}

/// A fresh run whose every task succeeds makes one attempt per task, in the
/// order of the chain. Read from a clock that never goes back, each attempt
/// ends no earlier than it starts, and starts no earlier than the attempt
/// before it ended.
pub proof fn successful_run_records_every_task_in_time_order(
    run: RunView,
    readings: Seq<Reading>,
)
    requires
        !run.halted,
        run.position == 0,
        readings.len() >= run.tasks.len(),
        forall|i: int| 0 <= i < run.tasks.len() ==> (#[trigger] readings[i]).outcome.succeeded(),
        clock_in_step(readings, run.tasks.len() as int),
    ensures
        chain(run, readings).len() == run.tasks.len(),
        forall|i: int|
            0 <= i < run.tasks.len() ==> {
                &&& (#[trigger] chain(run, readings)[i]).task_id == run.tasks[i].id
                &&& chain(run, readings)[i].outcome.succeeded()
                &&& chain(run, readings)[i].execution_start <= chain(run, readings)[i].execution_end
            },
        forall|i: int, j: int|
            0 <= i < j < run.tasks.len() ==> (#[trigger] chain(run, readings)[i]).execution_end <= (
            #[trigger] chain(run, readings)[j]).execution_start,
{
    chain_of_successes_attempts_every_task(run, readings);
    assert forall|i: int| 0 <= i < run.tasks.len() implies {
        &&& (#[trigger] chain(run, readings)[i]).task_id == run.tasks[i].id
        &&& chain(run, readings)[i].outcome.succeeded()
        &&& chain(run, readings)[i].execution_start <= chain(run, readings)[i].execution_end
    } by {
        assert(chain(run, readings)[i] == nth_attempt(run, readings, i));
        assert(readings[i].outcome.succeeded());
    }
    assert forall|i: int, j: int| 0 <= i < j < run.tasks.len() implies (#[trigger] chain(
        run,
        readings,
    )[i]).execution_end <= (#[trigger] chain(run, readings)[j]).execution_start by {
        assert(chain(run, readings)[i] == nth_attempt(run, readings, i));
        assert(chain(run, readings)[j] == nth_attempt(run, readings, j));
        assert(readings[i].finished <= readings[j].started);
    }
}

/// The records of two attempts that belong to runs with different numbers
/// have different ids, whatever else the attempts share.
pub proof fn instance_ids_tell_runs_apart(first: AttemptView, second: AttemptView)
    requires
        first.run != second.run,
    ensures
        instance_id(first) != instance_id(second),
{
    if instance_id(first) == instance_id(second) {
        decimal_has_no_separator(first.run);
        decimal_has_no_separator(second.run);
        joined_splits_at_last_separator(
            joined(
                joined(first.task_id, first.pipeline_id),
                utc_text(first.scheduled_time as int),
            ),
            decimal(first.run),
            joined(
                joined(second.task_id, second.pipeline_id),
                utc_text(second.scheduled_time as int),
            ),
            decimal(second.run),
        );
        decimal_is_injective(first.run, second.run);
    }
}

/// Within one run of a pipeline, the records of attempts of different tasks
/// have different ids.
pub proof fn instance_ids_tell_tasks_apart(first: AttemptView, second: AttemptView)
    requires
        first.task_id != second.task_id,
        first.pipeline_id == second.pipeline_id,
        first.scheduled_time == second.scheduled_time,
        first.run == second.run,
    ensures
        instance_id(first) != instance_id(second),
{
    if instance_id(first) == instance_id(second) {
        let time = utc_text(first.scheduled_time as int);
        joined_cancels_right(
            joined(joined(first.task_id, first.pipeline_id), time),
            joined(joined(second.task_id, second.pipeline_id), time),
            decimal(first.run),
        );
        joined_cancels_right(
            joined(first.task_id, first.pipeline_id),
            joined(second.task_id, second.pipeline_id),
            time,
        );
        joined_cancels_right(first.task_id, second.task_id, first.pipeline_id);
    }
}

/// Whether no two tasks of a chain share an id, as the store guarantees.
pub open spec fn distinct_task_ids(tasks: Seq<TaskView>) -> bool {
    forall|i: int, j: int| 0 <= i < j < tasks.len() ==> (#[trigger] tasks[i]).id != (
    #[trigger] tasks[j]).id
}

/// The records that one run makes have pairwise different ids.
pub proof fn records_of_a_run_have_distinct_ids(run: RunView, readings: Seq<Reading>)
    requires
        run.position <= run.tasks.len(),
        distinct_task_ids(run.tasks),
    ensures
        forall|i: int, j: int|
            0 <= i < j < chain(run, readings).len() ==> instance_id(
                #[trigger] chain(run, readings)[i],
            ) != instance_id(#[trigger] chain(run, readings)[j]),
{
    chain_follows_the_task_order(run, readings);
    assert forall|i: int, j: int| 0 <= i < j < chain(run, readings).len() implies instance_id(
        #[trigger] chain(run, readings)[i],
    ) != instance_id(#[trigger] chain(run, readings)[j]) by {
        let first = chain(run, readings)[i];
        let second = chain(run, readings)[j];
        assert(first == nth_attempt(run, readings, i));
        assert(second == nth_attempt(run, readings, j));
        assert(first.task_id == run.tasks[run.position + i].id);
        assert(second.task_id == run.tasks[run.position + j].id);
        instance_ids_tell_tasks_apart(first, second);
    }
}

} // verus!
