use synthesizer::cron::{next_fire, ScheduleError};
use synthesizer::models::Pipeline;
use synthesizer::schedule::{Due, ScheduleState, DEFAULT_POLL_INTERVAL_SECS};

const SECOND: i64 = 1_000_000_000;
const MINUTE: i64 = 60 * SECOND;
/// 2023-01-01 00:00:00 UTC.
const NEW_YEAR: i64 = 1_672_531_200 * SECOND;

fn pipeline(id: &str, schedule: &str) -> Pipeline {
    Pipeline { id: id.to_string(), schedule: schedule.to_string() }
}

#[test]
fn a_new_state_knows_no_pipeline() {
    let state = ScheduleState::new();
    assert_eq!(state.next_due("p1"), None);
    assert_eq!(state.launched(), 0);
}

#[test]
fn first_sighting_sets_a_baseline_and_triggers_no_run() {
    let mut state = ScheduleState::new();
    assert_eq!(state.track("p1", 100), None);
    assert_eq!(state.next_due("p1"), Some(100));
    assert_eq!(state.launched(), 0);
}

#[test]
fn first_cycle_triggers_no_run_however_close_the_next_fire_is() {
    let mut state = ScheduleState::new();
    // One nanosecond before the pipeline fires.
    let now = NEW_YEAR + MINUTE - 1;
    let report = state.cycle(&vec![pipeline("p1", "* * * * *")], now);
    assert!(report.launches.is_empty());
    assert!(report.skipped.is_empty());
    assert_eq!(state.next_due("p1"), Some(NEW_YEAR + MINUTE));
    assert_eq!(state.launched(), 0);
}

#[test]
fn unchanged_next_fire_triggers_no_run() {
    let mut state = ScheduleState::new();
    assert_eq!(state.track("p1", 100), None);
    assert_eq!(state.track("p1", 100), None);
    assert_eq!(state.track("p1", 100), None);
    assert_eq!(state.next_due("p1"), Some(100));
    assert_eq!(state.launched(), 0);
}

#[test]
fn changed_next_fire_triggers_one_run_at_the_previous_instant() {
    let mut state = ScheduleState::new();
    assert_eq!(state.track("p1", 100), None);
    assert_eq!(state.track("p1", 200), Some(Due { scheduled_time: 100, run: 0 }));
    assert_eq!(state.next_due("p1"), Some(200));
    // The same candidate again: the run is not repeated.
    assert_eq!(state.track("p1", 200), None);
    assert_eq!(state.launched(), 1);
}

#[test]
fn a_next_fire_that_moves_back_is_a_change_too() {
    let mut state = ScheduleState::new();
    assert_eq!(state.track("p1", 200), None);
    assert_eq!(state.track("p1", 100), Some(Due { scheduled_time: 200, run: 0 }));
    assert_eq!(state.next_due("p1"), Some(100));
}

#[test]
fn pipelines_are_judged_apart() {
    let mut state = ScheduleState::new();
    assert_eq!(state.track("p1", 100), None);
    assert_eq!(state.track("p2", 100), None);
    assert_eq!(state.track("p2", 300), Some(Due { scheduled_time: 100, run: 0 }));
    assert_eq!(state.track("p1", 100), None);
    assert_eq!(state.track("p1", 400), Some(Due { scheduled_time: 100, run: 1 }));
    assert_eq!(state.next_due("p1"), Some(400));
    assert_eq!(state.next_due("p2"), Some(300));
}

#[test]
fn a_due_pipeline_is_launched_once_per_change() {
    let mut state = ScheduleState::new();
    let pipelines = vec![pipeline("p1", "* * * * *")];
    let first = state.cycle(&pipelines, NEW_YEAR + 10 * SECOND);
    assert!(first.launches.is_empty());
    // Still within the same minute: the next fire is what it was.
    let second = state.cycle(&pipelines, NEW_YEAR + 15 * SECOND);
    assert!(second.launches.is_empty());
    // The minute has turned.
    let third = state.cycle(&pipelines, NEW_YEAR + MINUTE + 2 * SECOND);
    assert_eq!(third.launches.len(), 1);
    assert_eq!(third.launches[0].pipeline, pipelines[0]);
    assert_eq!(third.launches[0].scheduled_time, NEW_YEAR + MINUTE);
    assert_eq!(third.launches[0].run, 0);
    assert_eq!(state.next_due("p1"), Some(NEW_YEAR + 2 * MINUTE));
    let fourth = state.cycle(&pipelines, NEW_YEAR + MINUTE + 7 * SECOND);
    assert!(fourth.launches.is_empty());
    assert_eq!(state.launched(), 1);
}

#[test]
fn coarse_polling_absorbs_the_fires_between_two_polls() {
    let mut state = ScheduleState::new();
    let pipelines = vec![pipeline("p1", "* * * * *")];
    let first = state.cycle(&pipelines, NEW_YEAR + 10 * SECOND);
    assert!(first.launches.is_empty());
    // Three fires later, one poll: one run, with the baseline as its time.
    let second = state.cycle(&pipelines, NEW_YEAR + 3 * MINUTE + 10 * SECOND);
    assert_eq!(second.launches.len(), 1);
    assert_eq!(second.launches[0].scheduled_time, NEW_YEAR + MINUTE);
    assert_eq!(state.next_due("p1"), Some(NEW_YEAR + 4 * MINUTE));
    assert_eq!(state.launched(), 1);
}

#[test]
fn a_cycle_lists_the_due_pipelines_in_order_and_numbers_their_runs() {
    let mut state = ScheduleState::new();
    let pipelines = vec![
        pipeline("every-minute", "* * * * *"),
        pipeline("every-hour", "0 * * * *"),
        pipeline("every-other-minute", "*/2 * * * *"),
    ];
    assert!(state.cycle(&pipelines, NEW_YEAR + SECOND).launches.is_empty());
    let report = state.cycle(&pipelines, NEW_YEAR + 2 * MINUTE + SECOND);
    assert_eq!(report.launches.len(), 2);
    assert_eq!(report.launches[0].pipeline.id, "every-minute");
    assert_eq!(report.launches[0].scheduled_time, NEW_YEAR + MINUTE);
    assert_eq!(report.launches[0].run, 0);
    assert_eq!(report.launches[1].pipeline.id, "every-other-minute");
    assert_eq!(report.launches[1].scheduled_time, NEW_YEAR + 2 * MINUTE);
    assert_eq!(report.launches[1].run, 1);
    assert_eq!(state.launched(), 2);
    assert_eq!(state.next_due("every-hour"), Some(NEW_YEAR + 60 * MINUTE));
    let later = state.cycle(&pipelines, NEW_YEAR + 3 * MINUTE + SECOND);
    assert_eq!(later.launches.len(), 1);
    assert_eq!(later.launches[0].run, 2);
}

#[test]
fn a_pipeline_with_an_invalid_schedule_is_skipped_and_the_others_go_on() {
    let mut state = ScheduleState::new();
    let pipelines = vec![
        pipeline("broken", "every minute"),
        pipeline("p1", "* * * * *"),
    ];
    let first = state.cycle(&pipelines, NEW_YEAR + SECOND);
    assert!(first.launches.is_empty());
    assert_eq!(first.skipped.len(), 1);
    assert_eq!(first.skipped[0].pipeline_id, "broken");
    assert_eq!(first.skipped[0].error, ScheduleError::InvalidExpression);
    assert_eq!(state.next_due("broken"), None);
    let second = state.cycle(&pipelines, NEW_YEAR + MINUTE + SECOND);
    assert_eq!(second.launches.len(), 1);
    assert_eq!(second.launches[0].pipeline.id, "p1");
    assert_eq!(second.skipped.len(), 1);
}

#[test]
fn a_schedule_that_turns_invalid_keeps_its_baseline() {
    let mut state = ScheduleState::new();
    state.cycle(&vec![pipeline("p1", "* * * * *")], NEW_YEAR + SECOND);
    let report = state.cycle(&vec![pipeline("p1", "* * * *")], NEW_YEAR + MINUTE + SECOND);
    assert!(report.launches.is_empty());
    assert_eq!(report.skipped.len(), 1);
    assert_eq!(state.next_due("p1"), Some(NEW_YEAR + MINUTE));
}

#[test]
fn after_a_restart_a_pipeline_about_to_fire_waits_for_its_next_fire() {
    let pipelines = vec![pipeline("p1", "*/5 * * * *")];
    let mut before = ScheduleState::new();
    before.cycle(&pipelines, NEW_YEAR + 4 * MINUTE + 50 * SECOND);
    assert_eq!(before.next_due("p1"), Some(NEW_YEAR + 5 * MINUTE));
    // The process ends here; the next one starts from nothing, after the
    // fire instant has passed.
    let mut after = ScheduleState::new();
    let first = after.cycle(&pipelines, NEW_YEAR + 5 * MINUTE + 2 * SECOND);
    assert!(first.launches.is_empty());
    assert_eq!(after.next_due("p1"), Some(NEW_YEAR + 10 * MINUTE));
    let second = after.cycle(&pipelines, NEW_YEAR + 9 * MINUTE + 59 * SECOND);
    assert!(second.launches.is_empty());
    let third = after.cycle(&pipelines, NEW_YEAR + 10 * MINUTE + SECOND);
    assert_eq!(third.launches.len(), 1);
    assert_eq!(third.launches[0].scheduled_time, NEW_YEAR + 10 * MINUTE);
}

#[test]
fn a_forgotten_pipeline_starts_over_from_a_baseline() {
    let mut state = ScheduleState::new();
    state.track("p1", 100);
    state.track("p2", 100);
    state.forget("p1");
    assert_eq!(state.next_due("p1"), None);
    assert_eq!(state.next_due("p2"), Some(100));
    assert_eq!(state.track("p1", 200), None);
    assert_eq!(state.track("p2", 200), Some(Due { scheduled_time: 100, run: 0 }));
}

#[test]
fn an_empty_store_makes_an_empty_cycle() {
    let mut state = ScheduleState::new();
    let report = state.cycle(&Vec::new(), NEW_YEAR);
    assert!(report.launches.is_empty());
    assert!(report.skipped.is_empty());
    assert_eq!(state.launched(), 0);
}

#[test]
fn a_cycle_tracks_what_the_evaluator_gives() {
    let mut state = ScheduleState::new();
    let now = NEW_YEAR + 17 * SECOND;
    state.cycle(&vec![pipeline("p1", "*/7 3-5 * * *")], now);
    assert_eq!(state.next_due("p1"), next_fire("*/7 3-5 * * *", now).ok());
}

#[test]
fn the_default_poll_interval_is_five_seconds() {
    assert_eq!(DEFAULT_POLL_INTERVAL_SECS, 5);
}

#[test]
fn a_cycle_names_the_instant_at_which_it_looked() {
    let mut state = ScheduleState::new();
    let report = state.cycle(&vec![pipeline("p1", "* * * * *")], NEW_YEAR + 17);
    assert_eq!(report.at, NEW_YEAR + 17);
}

#[test]
fn a_poll_is_a_cycle_at_the_reading_of_the_clock() {
    let pipelines = vec![pipeline("p1", "* * * * *"), pipeline("broken", "* * *")];
    let mut state = ScheduleState::new();
    let report = state.poll(&pipelines).expect("the clock is in range");
    // The clock of the machine shows a time after the year 2023.
    assert!(report.at > NEW_YEAR);
    assert!(report.launches.is_empty());
    assert_eq!(report.skipped.len(), 1);
    assert_eq!(state.next_due("p1"), next_fire("* * * * *", report.at).ok());
    assert_eq!(state.next_due("broken"), None);
}

#[test]
fn without_a_reading_of_the_clock_there_is_no_cycle() {
    let pipelines = vec![pipeline("p1", "* * * * *")];
    let mut state = ScheduleState::new();
    state.track("p1", 100);
    assert!(state.cycle_at_reading(&pipelines, None).is_none());
    assert_eq!(state.next_due("p1"), Some(100));
    assert_eq!(state.launched(), 0);
}

#[test]
fn with_a_reading_of_the_clock_the_cycle_is_at_that_instant() {
    let pipelines = vec![pipeline("p1", "* * * * *")];
    let mut state = ScheduleState::new();
    let first = state.cycle_at_reading(&pipelines, Some(NEW_YEAR + SECOND)).unwrap();
    assert_eq!(first.at, NEW_YEAR + SECOND);
    assert!(first.launches.is_empty());
    assert_eq!(state.next_due("p1"), Some(NEW_YEAR + MINUTE));
    let second = state.cycle_at_reading(&pipelines, Some(NEW_YEAR + MINUTE + SECOND)).unwrap();
    assert_eq!(second.at, NEW_YEAR + MINUTE + SECOND);
    assert_eq!(second.launches.len(), 1);
    assert_eq!(second.launches[0].scheduled_time, NEW_YEAR + MINUTE);
    assert_eq!(state.launched(), 1);
}
