//! The schedule state tracker: which pipelines are due in a poll cycle.
//!
//! For every pipeline the scheduler remembers the next fire instant it last
//! computed. A pipeline seen for the first time only gets a baseline. A
//! pipeline whose next fire instant has changed since the last cycle is due:
//! the instant remembered until now is the nominal time of the run.
//!
//! The rule ties detection to the polling frequency. When the scheduler polls
//! less often than the expression fires, the fires between two polls are
//! absorbed into the one change that the later poll sees.
//!
//! Nothing here keeps two runs of one pipeline from overlapping: a pipeline
//! that falls due again while its chain is still running is launched again.

use vstd::prelude::*;
use vstd::hash_map::StringHashMap;
use vstd::string::StringExecFns;
use crate::clock::Instant;
use crate::cron::{next_fire, next_fire_of, ScheduleError};
use crate::models::{Pipeline, PipelineView};

verus! {

/// The pause between two poll cycles, in seconds, unless the caller chooses
/// another.
pub const DEFAULT_POLL_INTERVAL_SECS: u64 = 5;

/// The nominal time and the number of a run that fell due.
#[derive(Debug, Clone, Copy, PartialEq, Eq, Structural)]
pub struct Due {
    /// The fire instant that was tracked until this cycle.
    pub scheduled_time: Instant,
    /// How many runs this scheduler had launched before this one.
    pub run: u64,
}

/// A launch as a mathematical value.
pub struct LaunchView {
    pub pipeline: PipelineView,
    pub scheduled_time: Instant,
    pub run: nat,
}

/// A pipeline that a cycle found due, to be handed to a coordinator.
#[derive(Debug)]
pub struct Launch {
    pub pipeline: Pipeline,
    /// The nominal time of the run.
    pub scheduled_time: Instant,
    /// Distinguishes this run from every other run of the same scheduler.
    pub run: u64,
}

impl View for Launch {
    type V = LaunchView;

    open spec fn view(&self) -> LaunchView {
        LaunchView {
            pipeline: self.pipeline@,
            scheduled_time: self.scheduled_time,
            run: self.run as nat,
        }
    }
}

impl DeepView for Launch {
    type V = LaunchView;

    open spec fn deep_view(&self) -> LaunchView {
        self@
    }
}

/// A skipped pipeline as a mathematical value.
pub struct SkippedView {
    pub pipeline_id: Seq<char>,
    pub error: ScheduleError,
}

/// A pipeline that a cycle passed over because its schedule gave no next
/// fire instant.
#[derive(Debug)]
pub struct Skipped {
    pub pipeline_id: String,
    pub error: ScheduleError,
}

impl View for Skipped {
    type V = SkippedView;

    open spec fn view(&self) -> SkippedView {
        SkippedView { pipeline_id: self.pipeline_id@, error: self.error }
    }
}

impl DeepView for Skipped {
    type V = SkippedView;

    open spec fn deep_view(&self) -> SkippedView {
        self@
    }
}

/// What one poll cycle decided.
#[derive(Debug)]
pub struct CycleReport {
    /// The instant at which the cycle looked at the pipelines.
    pub at: Instant,
    /// The due pipelines, in the order in which the store listed them.
    pub launches: Vec<Launch>,
    /// The pipelines left out of this cycle, in the same order.
    pub skipped: Vec<Skipped>,
}

/// The run that one sighting of a pipeline triggers: none for a pipeline not
/// tracked yet, none while the candidate equals the tracked instant, and
/// otherwise one whose nominal time is the tracked instant.
pub open spec fn observe(
    due_times: Map<Seq<char>, Instant>,
    id: Seq<char>,
    candidate: Instant,
) -> Option<Instant> {
    if due_times.contains_key(id) && due_times[id] != candidate {
        Some(due_times[id])
    } else {
        None
    }
}

/// The outcome of a poll cycle as a mathematical value.
pub struct Round {
    /// The tracked fire instants after the cycle.
    pub due_times: Map<Seq<char>, Instant>,
    /// The number of runs launched so far, this cycle included.
    pub runs: nat,
    pub launches: Seq<LaunchView>,
    pub skipped: Seq<SkippedView>,
}

/// One poll cycle: the pipelines are taken in order, each is given its next
/// fire instant after `now`, and `observe` decides whether it is due.
pub open spec fn round(
    due_times: Map<Seq<char>, Instant>,
    runs: nat,
    pipelines: Seq<PipelineView>,
    now: Instant,
) -> Round
    decreases pipelines.len(),
{
    if pipelines.len() == 0 {
        Round { due_times, runs, launches: Seq::empty(), skipped: Seq::empty() }
    } else {
        let before = round(due_times, runs, pipelines.drop_last(), now);
        let pipeline = pipelines.last();
        match next_fire_of(pipeline.schedule, now) {
            Err(error) => Round {
                skipped: before.skipped.push(SkippedView { pipeline_id: pipeline.id, error }),
                ..before
            },
            Ok(candidate) => match observe(before.due_times, pipeline.id, candidate) {
                None => Round {
                    due_times: before.due_times.insert(pipeline.id, candidate),
                    ..before
                },
                Some(previous) => Round {
                    due_times: before.due_times.insert(pipeline.id, candidate),
                    runs: before.runs + 1,
                    launches: before.launches.push(
                        LaunchView { pipeline, scheduled_time: previous, run: before.runs },
                    ),
                    ..before
                },
            },
        }
    }
}

/// The scheduler's memory: for each pipeline seen so far the next fire
/// instant last computed for it, and the number of runs launched.
///
/// It lives in the process only. A new process starts from `new`, where no
/// pipeline is tracked.
pub struct ScheduleState {
    next_due: StringHashMap<Instant>,
    runs: u64,
}

impl ScheduleState {
    /// The tracked pipelines, each with its next fire instant.
    pub closed spec fn due_times(&self) -> Map<Seq<char>, Instant> {
        self.next_due@
    }

    /// The number of runs launched so far.
    pub closed spec fn runs(&self) -> nat {
        self.runs as nat
    }

    /// The state of a scheduler that has seen nothing yet.
    pub fn new() -> (state: Self)
        ensures
            state.due_times() == Map::<Seq<char>, Instant>::empty(),
            state.runs() == 0,
    {
        ScheduleState { next_due: StringHashMap::new(), runs: 0 }
    }

    /// The next fire instant tracked for a pipeline, if it is tracked.
    pub fn next_due(&self, id: &str) -> (instant: Option<Instant>)
        ensures
            instant == if self.due_times().contains_key(id@) {
                Some(self.due_times()[id@])
            } else {
                None
            },
    {
        match self.next_due.get(id) {
            Some(instant) => Some(*instant),
            None => None,
        }
    }

    /// The number of runs launched so far.
    pub fn launched(&self) -> (count: u64)
        ensures
            count == self.runs(),
    {
        self.runs
    }

    /// Stops tracking a pipeline, such as one that left the store. Seen
    /// again, it starts over from a baseline.
    pub fn forget(&mut self, id: &str)
        ensures
            final(self).due_times() == old(self).due_times().remove(id@),
            final(self).runs() == old(self).runs(),
    {
        self.next_due.remove(id);
    }

    /// One sighting of a pipeline whose next fire instant is `candidate`.
    ///
    /// The candidate is tracked from now on. The pipeline is due when it was
    /// tracked before with another instant; the run then takes that instant
    /// as its nominal time and the next free run number.
    pub fn track(&mut self, id: &str, candidate: Instant) -> (due: Option<Due>)
        requires
            old(self).runs() < u64::MAX,
        ensures
            final(self).due_times() == old(self).due_times().insert(id@, candidate),
            due == match observe(old(self).due_times(), id@, candidate) {
                Some(previous) => Some(
                    Due { scheduled_time: previous, run: old(self).runs() as u64 },
                ),
                None => None,
            },
            final(self).runs() == old(self).runs() + if due is Some {
                1nat
            } else {
                0nat
            },
    {
        let previous = self.next_due(id);
        self.next_due.insert(String::from_str(id), candidate);
        match previous {
            Some(previous) => {
                if previous != candidate {
                    let run = self.runs;
                    self.runs = self.runs + 1;
                    Some(Due { scheduled_time: previous, run })
                } else {
                    None
                }
            },
            None => None,
        }
    }

    /// One poll cycle over the pipelines that the store lists, at the instant
    /// `now`.
    ///
    /// Each pipeline is given its next fire instant after `now` and tracked
    /// with it. A pipeline whose schedule gives none is skipped for this
    /// cycle and keeps what was tracked for it. The report lists the due
    /// pipelines; launching them is up to the caller.
    pub fn cycle(&mut self, pipelines: &Vec<Pipeline>, now: Instant) -> (report: CycleReport)
        requires
            old(self).runs() + pipelines.len() <= u64::MAX,
        ensures
            report.at == now,
            ({
                let outcome = round(
                    old(self).due_times(),
                    old(self).runs(),
                    pipelines.deep_view(),
                    now,
                );
                &&& final(self).due_times() == outcome.due_times
                &&& final(self).runs() == outcome.runs
                &&& report.launches.deep_view() == outcome.launches
                &&& report.skipped.deep_view() == outcome.skipped
            }),
    {
        let ghost start_times = self.due_times();
        let ghost start_runs = self.runs();
        let ghost all = pipelines.deep_view();
        let mut launches: Vec<Launch> = Vec::new();
        let mut skipped: Vec<Skipped> = Vec::new();
        let mut i: usize = 0;
        assert(launches.deep_view() =~= Seq::<LaunchView>::empty());
        assert(skipped.deep_view() =~= Seq::<SkippedView>::empty());
        while i < pipelines.len()
            invariant
                i <= pipelines.len(),
                all == pipelines.deep_view(),
                all.len() == pipelines.len(),
                self.runs() + (pipelines.len() - i) <= u64::MAX,
                self.due_times() == round(
                    start_times,
                    start_runs,
                    all.take(i as int),
                    now,
                ).due_times,
                self.runs() == round(start_times, start_runs, all.take(i as int), now).runs,
                launches.deep_view() == round(
                    start_times,
                    start_runs,
                    all.take(i as int),
                    now,
                ).launches,
                skipped.deep_view() == round(
                    start_times,
                    start_runs,
                    all.take(i as int),
                    now,
                ).skipped,
            decreases pipelines.len() - i,
        {
            let pipeline = &pipelines[i];
            proof {
                let upto = all.take(i + 1);
                assert(upto.drop_last() =~= all.take(i as int));
                assert(upto.last() == pipeline@);
            }
            let ghost old_launches = launches.deep_view();
            let ghost old_skipped = skipped.deep_view();
            match next_fire(pipeline.schedule.as_str(), now) {
                Err(error) => {
                    skipped.push(Skipped { pipeline_id: pipeline.id.clone(), error });
                    assert(skipped.deep_view() =~= old_skipped.push(
                        SkippedView { pipeline_id: pipeline.id@, error },
                    ));
                },
                Ok(candidate) => {
                    match self.track(pipeline.id.as_str(), candidate) {
                        Some(due) => {
                            launches.push(
                                Launch {
                                    pipeline: pipeline.clone(),
                                    scheduled_time: due.scheduled_time,
                                    run: due.run,
                                },
                            );
                            assert(launches.deep_view() =~= old_launches.push(
                                LaunchView {
                                    pipeline: pipeline@,
                                    scheduled_time: due.scheduled_time,
                                    run: due.run as nat,
                                },
                            ));
                        },
                        None => {},
                    }
                },
            }
            i += 1;
        }
        assert(all.take(i as int) =~= all);
        CycleReport { at: now, launches, skipped }
    }

    /// One poll cycle at the instant that the system clock shows, which the
    /// report names. Without a reading of the clock there is no cycle, and
    /// the state stays as it is.
    pub fn poll(&mut self, pipelines: &Vec<Pipeline>) -> (report: Option<CycleReport>)
        requires
            old(self).runs() + pipelines.len() <= u64::MAX,
        ensures
            match report {
                Some(report) => {
                    let outcome = round(
                        old(self).due_times(),
                        old(self).runs(),
                        pipelines.deep_view(),
                        report.at,
                    );
                    &&& final(self).due_times() == outcome.due_times
                    &&& final(self).runs() == outcome.runs
                    &&& report.launches.deep_view() == outcome.launches
                    &&& report.skipped.deep_view() == outcome.skipped
                },
                None => final(self).due_times() == old(self).due_times() && final(self).runs()
                    == old(self).runs(),
            },
    {
        self.cycle_at_reading(pipelines, crate::clock::now())
    }

    /// One poll cycle at a reading of the clock, if the clock gave one:
    /// with a reading, the cycle at that instant; without one, no cycle, and
    /// the state stays as it is.
    pub fn cycle_at_reading(
        &mut self,
        pipelines: &Vec<Pipeline>,
        reading: Option<Instant>,
    ) -> (report: Option<CycleReport>)
        requires
            reading is Some ==> old(self).runs() + pipelines.len() <= u64::MAX,
        ensures
            match reading {
                Some(now) => {
                    let outcome = round(
                        old(self).due_times(),
                        old(self).runs(),
                        pipelines.deep_view(),
                        now,
                    );
                    &&& report is Some
                    &&& report->0.at == now
                    &&& final(self).due_times() == outcome.due_times
                    &&& final(self).runs() == outcome.runs
                    &&& report->0.launches.deep_view() == outcome.launches
                    &&& report->0.skipped.deep_view() == outcome.skipped
                },
                None => {
                    &&& report is None
                    &&& final(self).due_times() == old(self).due_times()
                    &&& final(self).runs() == old(self).runs()
                },
            },
    {
        match reading {
            Some(now) => Some(self.cycle(pipelines, now)),
            None => None,
        }
    }
}

/// Whether no two of the pipelines share an id, as the store guarantees.
pub open spec fn distinct_ids(pipelines: Seq<PipelineView>) -> bool {
    forall|i: int, j: int|
        0 <= i < j < pipelines.len() ==> (#[trigger] pipelines[i]).id != (
        #[trigger] pipelines[j]).id
}

/// Whether one of the pipelines has the given id.
pub open spec fn has_id(pipelines: Seq<PipelineView>, id: Seq<char>) -> bool {
    exists|i: int| 0 <= i < pipelines.len() && (#[trigger] pipelines[i]).id == id
}

/// Whether one of the launches is for the pipeline with the given id.
pub open spec fn launches_id(launches: Seq<LaunchView>, id: Seq<char>) -> bool {
    exists|k: int| 0 <= k < launches.len() && (#[trigger] launches[k]).pipeline.id == id
}

/// What a cycle decides for one pipeline when it meets it with the given
/// state: the nominal time of its run, if it is due.
pub open spec fn due_in(
    due_times: Map<Seq<char>, Instant>,
    pipeline: PipelineView,
    now: Instant,
) -> Option<Instant> {
    match next_fire_of(pipeline.schedule, now) {
        Ok(candidate) => observe(due_times, pipeline.id, candidate),
        Err(_) => None,
    }
}

/// Whether a launch is the decision of a cycle for one of the pipelines.
pub open spec fn decided(
    due_times: Map<Seq<char>, Instant>,
    pipelines: Seq<PipelineView>,
    now: Instant,
    launch: LaunchView,
) -> bool {
    exists|i: int|
        0 <= i < pipelines.len() && #[trigger] pipelines[i] == launch.pipeline && due_in(
            due_times,
            pipelines[i],
            now,
        ) == Some(launch.scheduled_time)
}

/// Whether two states hold the same for an id.
pub open spec fn untouched(
    before: Map<Seq<char>, Instant>,
    after: Map<Seq<char>, Instant>,
    id: Seq<char>,
) -> bool {
    after.contains_key(id) == before.contains_key(id) && (before.contains_key(id) ==> after[id]
        == before[id])
}

/// Whether the state after a cycle holds for a pipeline what the cycle owes
/// it: its next fire instant after `now`, or, where its schedule gives none,
/// what the state before the cycle held for it.
pub open spec fn settled(
    before: Map<Seq<char>, Instant>,
    after: Map<Seq<char>, Instant>,
    pipeline: PipelineView,
    now: Instant,
) -> bool {
    match next_fire_of(pipeline.schedule, now) {
        Ok(candidate) => after.contains_key(pipeline.id) && after[pipeline.id] == candidate,
        Err(_) => untouched(before, after, pipeline.id),
    }
}

proof fn lemma_prefix_is_distinct(pipelines: Seq<PipelineView>)
    requires
        distinct_ids(pipelines),
        pipelines.len() > 0,
    ensures
        distinct_ids(pipelines.drop_last()),
        !has_id(pipelines.drop_last(), pipelines.last().id),
{
    let prefix = pipelines.drop_last();
    let n = prefix.len() as int;
    assert forall|i: int, j: int| 0 <= i < j < prefix.len() implies (#[trigger] prefix[i]).id != (
    #[trigger] prefix[j]).id by {
        assert(prefix[i] == pipelines[i]);
        assert(prefix[j] == pipelines[j]);
    }
    if has_id(prefix, pipelines.last().id) {
        let i = choose|i: int|
            0 <= i < prefix.len() && (#[trigger] prefix[i]).id == pipelines.last().id;
        assert(prefix[i] == pipelines[i]);
        assert(pipelines[n] == pipelines.last());
        assert(pipelines[i].id != pipelines[n].id);
    }
}

proof fn lemma_id_of_prefix(pipelines: Seq<PipelineView>, id: Seq<char>)
    requires
        pipelines.len() > 0,
        !has_id(pipelines, id),
    ensures
        !has_id(pipelines.drop_last(), id),
        pipelines.last().id != id,
{
    let prefix = pipelines.drop_last();
    let n = prefix.len() as int;
    assert(pipelines[n] == pipelines.last());
    if has_id(prefix, id) {
        let i = choose|i: int| 0 <= i < prefix.len() && (#[trigger] prefix[i]).id == id;
        assert(pipelines[i] == prefix[i]);
    }
}

/// The state after a cycle over pipelines with distinct ids: every listed
/// pipeline is settled, and nothing else has changed.
proof fn lemma_round_state(
    due_times: Map<Seq<char>, Instant>,
    runs: nat,
    pipelines: Seq<PipelineView>,
    now: Instant,
)
    requires
        distinct_ids(pipelines),
    ensures
        forall|id: Seq<char>|
            !has_id(pipelines, id) ==> #[trigger] untouched(
                due_times,
                round(due_times, runs, pipelines, now).due_times,
                id,
            ),
        forall|i: int|
            0 <= i < pipelines.len() ==> settled(
                due_times,
                round(due_times, runs, pipelines, now).due_times,
                #[trigger] pipelines[i],
                now,
            ),
    decreases pipelines.len(),
{
    let after = round(due_times, runs, pipelines, now).due_times;
    if pipelines.len() == 0 {
        assert(after == due_times);
    } else {
        let prefix = pipelines.drop_last();
        let last = pipelines.last();
        let n = prefix.len() as int;
        let before = round(due_times, runs, prefix, now).due_times;
        lemma_prefix_is_distinct(pipelines);
        lemma_round_state(due_times, runs, prefix, now);
        assert(untouched(due_times, before, last.id));
        assert forall|id: Seq<char>| !has_id(pipelines, id) implies #[trigger] untouched(
            due_times,
            after,
            id,
        ) by {
            lemma_id_of_prefix(pipelines, id);
            assert(untouched(due_times, before, id));
        }
        assert forall|i: int| 0 <= i < pipelines.len() implies settled(
            due_times,
            after,
            #[trigger] pipelines[i],
            now,
        ) by {
            if i < n {
                assert(prefix[i] == pipelines[i]);
                assert(pipelines[n] == last);
                assert(pipelines[i].id != pipelines[n].id);
                assert(settled(due_times, before, prefix[i], now));
            } else {
                assert(pipelines[i] == last);
            }
        }
    }
}

/// The launches of a cycle over pipelines with distinct ids: each pipeline
/// is judged against the state before the cycle, whatever the cycle has done
/// to the pipelines listed before it. Every launch is the decision for a
/// listed pipeline, every due pipeline is launched, and none twice.
proof fn lemma_round_launches(
    due_times: Map<Seq<char>, Instant>,
    runs: nat,
    pipelines: Seq<PipelineView>,
    now: Instant,
)
    requires
        distinct_ids(pipelines),
    ensures
        forall|k: int|
            0 <= k < round(due_times, runs, pipelines, now).launches.len() ==> decided(
                due_times,
                pipelines,
                now,
                #[trigger] round(due_times, runs, pipelines, now).launches[k],
            ),
        forall|i: int|
            0 <= i < pipelines.len() && due_in(due_times, #[trigger] pipelines[i], now) is Some
                ==> launches_id(round(due_times, runs, pipelines, now).launches, pipelines[i].id),
        forall|k: int, m: int|
            0 <= k < m < round(due_times, runs, pipelines, now).launches.len() ==> (
            #[trigger] round(due_times, runs, pipelines, now).launches[k]).pipeline.id != (
            #[trigger] round(due_times, runs, pipelines, now).launches[m]).pipeline.id,
    decreases pipelines.len(),
{
    let launches = round(due_times, runs, pipelines, now).launches;
    if pipelines.len() == 0 {
        assert(launches.len() == 0);
    } else {
        let prefix = pipelines.drop_last();
        let last = pipelines.last();
        let n = prefix.len() as int;
        let before = round(due_times, runs, prefix, now);
        lemma_prefix_is_distinct(pipelines);
        lemma_round_launches(due_times, runs, prefix, now);
        lemma_round_state(due_times, runs, prefix, now);
        assert(pipelines[n] == last);
        assert(untouched(due_times, before.due_times, last.id));
        assert(due_in(before.due_times, last, now) == due_in(due_times, last, now));
        // What the last pipeline adds to the launches of those before it.
        assert(launches == match due_in(due_times, last, now) {
            Some(previous) => before.launches.push(
                LaunchView { pipeline: last, scheduled_time: previous, run: before.runs },
            ),
            None => before.launches,
        });
        assert forall|k: int| 0 <= k < launches.len() implies decided(
            due_times,
            pipelines,
            now,
            #[trigger] launches[k],
        ) by {
            if k < before.launches.len() {
                assert(launches[k] == before.launches[k]);
                lemma_decided_in_prefix(due_times, pipelines, now, launches[k]);
            }
        }
        assert forall|i: int|
            0 <= i < pipelines.len() && due_in(
                due_times,
                #[trigger] pipelines[i],
                now,
            ) is Some implies launches_id(launches, pipelines[i].id) by {
            if i < n {
                assert(prefix[i] == pipelines[i]);
                assert(launches_id(before.launches, prefix[i].id));
                let k = choose|k: int|
                    0 <= k < before.launches.len() && (#[trigger] before.launches[k]).pipeline.id
                        == prefix[i].id;
                assert(launches[k] == before.launches[k]);
            } else {
                assert(launches[before.launches.len() as int].pipeline.id == last.id);
            }
        }
        assert forall|k: int, m: int| 0 <= k < m < launches.len() implies (
        #[trigger] launches[k]).pipeline.id != (#[trigger] launches[m]).pipeline.id by {
            assert(launches[k] == before.launches[k]);
            if m < before.launches.len() {
                assert(launches[m] == before.launches[m]);
            } else {
                assert(launches[m].pipeline == last);
                assert(decided(due_times, prefix, now, before.launches[k]));
                let i = choose|i: int|
                    0 <= i < prefix.len() && #[trigger] prefix[i] == before.launches[k].pipeline
                        && due_in(due_times, prefix[i], now) == Some(
                        before.launches[k].scheduled_time,
                    );
                assert(has_id(prefix, prefix[i].id));
            }
        }
    }
}

proof fn lemma_decided_in_prefix(
    due_times: Map<Seq<char>, Instant>,
    pipelines: Seq<PipelineView>,
    now: Instant,
    launch: LaunchView,
)
    requires
        pipelines.len() > 0,
        decided(due_times, pipelines.drop_last(), now, launch),
    ensures
        decided(due_times, pipelines, now, launch),
{
    let prefix = pipelines.drop_last();
    let i = choose|i: int|
        0 <= i < prefix.len() && #[trigger] prefix[i] == launch.pipeline && due_in(
            due_times,
            prefix[i],
            now,
        ) == Some(launch.scheduled_time);
    assert(pipelines[i] == prefix[i]);
}

/// The one listed pipeline that a launch with a listed id belongs to.
proof fn lemma_launch_of(
    due_times: Map<Seq<char>, Instant>,
    pipelines: Seq<PipelineView>,
    now: Instant,
    launch: LaunchView,
    i: int,
)
    requires
        distinct_ids(pipelines),
        0 <= i < pipelines.len(),
        decided(due_times, pipelines, now, launch),
        launch.pipeline.id == pipelines[i].id,
    ensures
        launch.pipeline == pipelines[i],
        due_in(due_times, pipelines[i], now) == Some(launch.scheduled_time),
{
    let j = choose|j: int|
        0 <= j < pipelines.len() && #[trigger] pipelines[j] == launch.pipeline && due_in(
            due_times,
            pipelines[j],
            now,
        ) == Some(launch.scheduled_time);
    if j < i {
        assert(pipelines[j].id != pipelines[i].id);
    } else if i < j {
        assert(pipelines[i].id != pipelines[j].id);
    }
}

/// The first cycle that sees a pipeline gives it a baseline and triggers no
/// run of it, whatever its next fire instant is.
pub proof fn first_sighting_sets_baseline(
    due_times: Map<Seq<char>, Instant>,
    runs: nat,
    pipelines: Seq<PipelineView>,
    now: Instant,
    i: int,
)
    requires
        distinct_ids(pipelines),
        0 <= i < pipelines.len(),
        !due_times.contains_key(pipelines[i].id),
    ensures
        !launches_id(round(due_times, runs, pipelines, now).launches, pipelines[i].id),
        settled(due_times, round(due_times, runs, pipelines, now).due_times, pipelines[i], now),
{
    lemma_round_state(due_times, runs, pipelines, now);
    lemma_round_launches(due_times, runs, pipelines, now);
    let launches = round(due_times, runs, pipelines, now).launches;
    if launches_id(launches, pipelines[i].id) {
        let k = choose|k: int|
            0 <= k < launches.len() && (#[trigger] launches[k]).pipeline.id == pipelines[i].id;
        lemma_launch_of(due_times, pipelines, now, launches[k], i);
    }
}

/// When the next fire instant of a tracked pipeline has changed from `t1` to
/// another instant `t2`, the cycle triggers exactly one run of it, with `t1`
/// as its nominal time, and tracks `t2`.
pub proof fn changed_fire_instant_triggers_one_run(
    due_times: Map<Seq<char>, Instant>,
    runs: nat,
    pipelines: Seq<PipelineView>,
    now: Instant,
    i: int,
    t1: Instant,
    t2: Instant,
)
    requires
        distinct_ids(pipelines),
        0 <= i < pipelines.len(),
        due_times.contains_key(pipelines[i].id),
        due_times[pipelines[i].id] == t1,
        next_fire_of(pipelines[i].schedule, now) == Ok::<Instant, ScheduleError>(t2),
        t2 != t1,
    ensures
        exists|k: int|
            {
                &&& 0 <= k < round(due_times, runs, pipelines, now).launches.len()
                &&& (#[trigger] round(due_times, runs, pipelines, now).launches[k]).pipeline
                    == pipelines[i]
                &&& round(due_times, runs, pipelines, now).launches[k].scheduled_time == t1
                &&& forall|m: int|
                    0 <= m < round(due_times, runs, pipelines, now).launches.len() && m != k ==> (
                    #[trigger] round(due_times, runs, pipelines, now).launches[m]).pipeline.id
                        != pipelines[i].id
            },
        round(due_times, runs, pipelines, now).due_times.contains_key(pipelines[i].id),
        round(due_times, runs, pipelines, now).due_times[pipelines[i].id] == t2,
{
    lemma_round_state(due_times, runs, pipelines, now);
    lemma_round_launches(due_times, runs, pipelines, now);
    let outcome = round(due_times, runs, pipelines, now);
    let launches = outcome.launches;
    assert(settled(due_times, outcome.due_times, pipelines[i], now));
    assert(due_in(due_times, pipelines[i], now) == Some(t1));
    assert(launches_id(launches, pipelines[i].id));
    let k = choose|k: int|
        0 <= k < launches.len() && (#[trigger] launches[k]).pipeline.id == pipelines[i].id;
    lemma_launch_of(due_times, pipelines, now, launches[k], i);
    assert forall|m: int| 0 <= m < launches.len() && m != k implies (
    #[trigger] launches[m]).pipeline.id != pipelines[i].id by {
        if m < k {
            assert(launches[m].pipeline.id != launches[k].pipeline.id);
        } else {
            assert(launches[k].pipeline.id != launches[m].pipeline.id);
        }
    }
    assert(launches[k].pipeline == pipelines[i] && launches[k].scheduled_time == t1);
}

/// While the next fire instant of a tracked pipeline stays what it was, the
/// cycle triggers no run of it.
pub proof fn unchanged_fire_instant_triggers_no_run(
    due_times: Map<Seq<char>, Instant>,
    runs: nat,
    pipelines: Seq<PipelineView>,
    now: Instant,
    i: int,
)
    requires
        distinct_ids(pipelines),
        0 <= i < pipelines.len(),
        due_times.contains_key(pipelines[i].id),
        next_fire_of(pipelines[i].schedule, now) == Ok::<Instant, ScheduleError>(
            due_times[pipelines[i].id],
        ),
    ensures
        !launches_id(round(due_times, runs, pipelines, now).launches, pipelines[i].id),
{
    lemma_round_launches(due_times, runs, pipelines, now);
    let launches = round(due_times, runs, pipelines, now).launches;
    if launches_id(launches, pipelines[i].id) {
        let k = choose|k: int|
            0 <= k < launches.len() && (#[trigger] launches[k]).pipeline.id == pipelines[i].id;
        lemma_launch_of(due_times, pipelines, now, launches[k], i);
    }
}

/// Between two cycles: a pipeline whose schedule gave the fire instant `a` at
/// the first poll and gives `b` at the second is launched by the second cycle
/// exactly if `b` differs from `a`, and then with `a` as its nominal time.
/// How many fire instants lie between the two polls makes no difference: a
/// scheduler that polls less often than a pipeline fires launches it once
/// for all the fires that it missed.
pub proof fn later_cycle_launches_what_changed(
    due_times: Map<Seq<char>, Instant>,
    runs: nat,
    pipelines: Seq<PipelineView>,
    first: Instant,
    second: Instant,
    i: int,
    a: Instant,
    b: Instant,
)
    requires
        distinct_ids(pipelines),
        0 <= i < pipelines.len(),
        next_fire_of(pipelines[i].schedule, first) == Ok::<Instant, ScheduleError>(a),
        next_fire_of(pipelines[i].schedule, second) == Ok::<Instant, ScheduleError>(b),
    ensures
        ({
            let between = round(due_times, runs, pipelines, first);
            let later = round(between.due_times, between.runs, pipelines, second);
            &&& launches_id(later.launches, pipelines[i].id) <==> a != b
            &&& forall|k: int|
                0 <= k < later.launches.len() && (#[trigger] later.launches[k]).pipeline.id
                    == pipelines[i].id ==> later.launches[k].scheduled_time == a
            &&& later.due_times.contains_key(pipelines[i].id)
            &&& later.due_times[pipelines[i].id] == b
        }),
{
    let between = round(due_times, runs, pipelines, first);
    let later = round(between.due_times, between.runs, pipelines, second);
    lemma_round_state(due_times, runs, pipelines, first);
    assert(settled(due_times, between.due_times, pipelines[i], first));
    lemma_round_state(between.due_times, between.runs, pipelines, second);
    assert(settled(between.due_times, later.due_times, pipelines[i], second));
    lemma_round_launches(between.due_times, between.runs, pipelines, second);
    if a != b {
        assert(due_in(between.due_times, pipelines[i], second) == Some(a));
    } else {
        unchanged_fire_instant_triggers_no_run(
            between.due_times,
            between.runs,
            pipelines,
            second,
            i,
        );
    }
    assert forall|k: int|
        0 <= k < later.launches.len() && (#[trigger] later.launches[k]).pipeline.id
            == pipelines[i].id implies later.launches[k].scheduled_time == a by {
        lemma_launch_of(between.due_times, pipelines, second, later.launches[k], i);
    }
}

/// A pipeline whose schedule gives no next fire instant is left out of the
/// cycle: no run of it is triggered, and what was tracked for it stays.
pub proof fn invalid_schedule_is_skipped(
    due_times: Map<Seq<char>, Instant>,
    runs: nat,
    pipelines: Seq<PipelineView>,
    now: Instant,
    i: int,
)
    requires
        distinct_ids(pipelines),
        0 <= i < pipelines.len(),
        next_fire_of(pipelines[i].schedule, now) is Err,
    ensures
        !launches_id(round(due_times, runs, pipelines, now).launches, pipelines[i].id),
        untouched(due_times, round(due_times, runs, pipelines, now).due_times, pipelines[i].id),
{
    lemma_round_state(due_times, runs, pipelines, now);
    lemma_round_launches(due_times, runs, pipelines, now);
    let outcome = round(due_times, runs, pipelines, now);
    assert(settled(due_times, outcome.due_times, pipelines[i], now));
    if launches_id(outcome.launches, pipelines[i].id) {
        let k = choose|k: int|
            0 <= k < outcome.launches.len() && (#[trigger] outcome.launches[k]).pipeline.id
                == pipelines[i].id;
        lemma_launch_of(due_times, pipelines, now, outcome.launches[k], i);
    }
}

/// A scheduler that has just started tracks nothing, so its first cycle
/// launches nothing, however close a pipeline was to firing before: each
/// pipeline with a valid schedule gets its baseline and waits for the next
/// change.
pub proof fn fresh_state_launches_nothing(runs: nat, pipelines: Seq<PipelineView>, now: Instant)
    requires
        distinct_ids(pipelines),
    ensures
        round(Map::empty(), runs, pipelines, now).launches.len() == 0,
        round(Map::empty(), runs, pipelines, now).runs == runs,
        forall|i: int|
            0 <= i < pipelines.len() ==> settled(
                Map::empty(),
                round(Map::empty(), runs, pipelines, now).due_times,
                #[trigger] pipelines[i],
                now,
            ),
{
    let empty = Map::<Seq<char>, Instant>::empty();
    lemma_round_state(empty, runs, pipelines, now);
    lemma_round_launches(empty, runs, pipelines, now);
    run_numbers_count_up(empty, runs, pipelines, now);
    let outcome = round(empty, runs, pipelines, now);
    if outcome.launches.len() > 0 {
        assert(decided(empty, pipelines, now, outcome.launches[0]));
    }
}

/// The runs of a cycle are numbered upwards from the number of runs launched
/// before it, so no two runs of one scheduler share a number.
pub proof fn run_numbers_count_up(
    due_times: Map<Seq<char>, Instant>,
    runs: nat,
    pipelines: Seq<PipelineView>,
    now: Instant,
)
    ensures
        round(due_times, runs, pipelines, now).runs == runs + round(
            due_times,
            runs,
            pipelines,
            now,
        ).launches.len(),
        round(due_times, runs, pipelines, now).launches.len() <= pipelines.len(),
        forall|k: int|
            0 <= k < round(due_times, runs, pipelines, now).launches.len() ==> (#[trigger] round(
                due_times,
                runs,
                pipelines,
                now,
            ).launches[k]).run == runs + k,
    decreases pipelines.len(),
{
    if pipelines.len() > 0 {
        run_numbers_count_up(due_times, runs, pipelines.drop_last(), now);
    }
}

} // verus!
