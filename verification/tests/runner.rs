use synthesizer::clock::format_instant;
use synthesizer::models::{Pipeline, Task, TaskInstance};
use synthesizer::runner::{Attempt, PipelineRun, Report, TaskOutcome};
use synthesizer::schedule::{Launch, ScheduleState};

const SECOND: i64 = 1_000_000_000;
/// 2023-01-01 00:00:00 UTC.
const NEW_YEAR: i64 = 1_672_531_200 * SECOND;

fn task(id: &str, pipeline_id: &str, command: &str) -> Task {
    Task { id: id.to_string(), pipeline_id: pipeline_id.to_string(), command: command.to_string() }
}

fn exited(code: i32, stdout: &[u8]) -> TaskOutcome {
    TaskOutcome {
        exit_code: Some(code),
        status: format!("exit status: {}", code),
        stdout: stdout.to_vec(),
        stderr: Vec::new(),
    }
}

fn report(started: i64, finished: i64, recorded: i64, outcome: TaskOutcome) -> Report {
    Report { started, finished, recorded, outcome }
}

/// Stands in for the shell: knows the commands of the tests.
fn pretend_to_run(command: &str) -> TaskOutcome {
    match command {
        "exit 0" => exited(0, b""),
        "exit 1" => exited(1, b""),
        "echo hi" => exited(0, b"hi\n"),
        other => panic!("unexpected command {:?}", other),
    }
}

/// Drives a run the way the scheduler does, with a clock that ticks once a
/// second, and returns the commands executed and the attempts made.
fn drive(run: &mut PipelineRun, start: i64) -> (Vec<String>, Vec<Attempt>) {
    let mut clock = start;
    let mut executed = Vec::new();
    let mut attempts = Vec::new();
    loop {
        let command = match run.pending() {
            Some(task) => task.command.clone(),
            None => break,
        };
        let started = clock;
        let outcome = pretend_to_run(&command);
        executed.push(command);
        clock += SECOND;
        let finished = clock;
        clock += SECOND;
        let attempt = run.complete(report(started, finished, clock, outcome)).expect("a task was pending");
        attempts.push(attempt);
    }
    (executed, attempts)
}

#[test]
fn the_chain_stops_at_the_first_failing_task() {
    let pipelines = vec![Pipeline { id: "p1".to_string(), schedule: "* * * * *".to_string() }];
    let tasks = vec![
        task("t1", "p1", "exit 0"),
        task("t2", "p1", "exit 1"),
        task("t3", "p1", "echo hi"),
    ];
    // The pipeline gets its baseline, and is due a minute later.
    let mut state = ScheduleState::new();
    assert!(state.cycle(&pipelines, NEW_YEAR + SECOND).launches.is_empty());
    let report = state.cycle(&pipelines, NEW_YEAR + 61 * SECOND);
    assert_eq!(report.launches.len(), 1);
    assert_eq!(report.launches[0].scheduled_time, NEW_YEAR + 60 * SECOND);

    let mut run = PipelineRun::for_launch(&report.launches[0], tasks);
    let (executed, attempts) = drive(&mut run, NEW_YEAR + 61 * SECOND);
    assert_eq!(executed, vec!["exit 0".to_string(), "exit 1".to_string()]);
    assert_eq!(attempts.len(), 2);
    assert_eq!(attempts[0].task_id, "t1");
    assert!(attempts[0].outcome.succeeded());
    assert_eq!(attempts[1].task_id, "t2");
    assert!(!attempts[1].outcome.succeeded());
    assert!(run.is_over());
    assert!(run.is_halted());
    assert_eq!(run.attempted(), 2);
    let records: Vec<TaskInstance> = attempts.iter().map(|attempt| attempt.instance()).collect();
    assert_eq!(records.len(), 2);
    assert_eq!(records[0].task_id, "t1");
    assert_eq!(records[0].pipeline_id, "p1");
    assert_eq!(records[0].scheduled_time, "2023-01-01 00:01:00 UTC");
    assert_eq!(records[0].status, "exit status: 0");
    assert_eq!(records[1].task_id, "t2");
    assert_eq!(records[1].pipeline_id, "p1");
    assert_eq!(records[1].scheduled_time, "2023-01-01 00:01:00 UTC");
    assert_eq!(records[1].status, "exit status: 1");
    assert_ne!(records[0].id, records[1].id);
}

#[test]
fn a_halted_run_takes_no_further_report() {
    let tasks = vec![task("t1", "p1", "exit 1"), task("t2", "p1", "echo hi")];
    let mut run = PipelineRun::new("p1".to_string(), NEW_YEAR, 0, tasks);
    assert!(run.complete(report(1, 2, 3, exited(1, b""))).is_some());
    assert!(run.pending().is_none());
    assert!(run.complete(report(4, 5, 6, exited(0, b""))).is_none());
    assert_eq!(run.attempted(), 1);
    assert!(run.is_halted());
}

#[test]
fn a_run_whose_tasks_all_succeed_records_each_task_in_time_order() {
    let tasks = vec![
        task("t1", "p1", "exit 0"),
        task("t2", "p1", "echo hi"),
        task("t3", "p1", "exit 0"),
    ];
    let mut run = PipelineRun::new("p1".to_string(), NEW_YEAR, 3, tasks);
    let (executed, attempts) = drive(&mut run, NEW_YEAR + SECOND);
    assert_eq!(executed.len(), 3);
    assert_eq!(attempts.len(), 3);
    let ids: Vec<&str> = attempts.iter().map(|attempt| attempt.task_id.as_str()).collect();
    assert_eq!(ids, vec!["t1", "t2", "t3"]);
    for attempt in &attempts {
        assert!(attempt.outcome.succeeded());
        assert!(attempt.execution_start <= attempt.execution_end);
        assert_eq!(attempt.pipeline_id, "p1");
        assert_eq!(attempt.scheduled_time, NEW_YEAR);
        assert_eq!(attempt.run, 3);
    }
    for pair in attempts.windows(2) {
        assert!(pair[0].execution_end <= pair[1].execution_start);
    }
    assert!(run.is_over());
    assert!(!run.is_halted());
    assert!(run.complete(report(1, 2, 3, exited(0, b""))).is_none());
}

#[test]
fn a_run_without_tasks_is_over_at_once() {
    let mut run = PipelineRun::new("p1".to_string(), NEW_YEAR, 0, Vec::new());
    assert!(run.pending().is_none());
    assert!(run.is_over());
    assert!(!run.is_halted());
    assert!(run.complete(report(1, 2, 3, exited(0, b""))).is_none());
    assert_eq!(run.attempted(), 0);
}

#[test]
fn the_pending_task_is_the_first_one_not_attempted() {
    let tasks = vec![task("t1", "p1", "echo hi"), task("t2", "p1", "exit 0")];
    let mut run = PipelineRun::new("p1".to_string(), NEW_YEAR, 0, tasks);
    assert_eq!(run.pending(), Some(&task("t1", "p1", "echo hi")));
    run.complete(report(1, 2, 3, exited(0, b"hi\n")));
    assert_eq!(run.pending(), Some(&task("t2", "p1", "exit 0")));
    run.complete(report(4, 5, 6, exited(0, b"")));
    assert_eq!(run.pending(), None);
}

#[test]
fn a_run_for_a_launch_takes_its_pipeline_time_and_number() {
    let launch = Launch {
        pipeline: Pipeline { id: "p1".to_string(), schedule: "* * * * *".to_string() },
        scheduled_time: NEW_YEAR,
        run: 41,
    };
    let mut run = PipelineRun::for_launch(&launch, vec![task("t1", "other", "exit 0")]);
    let attempt = run.complete(report(1, 2, 3, exited(0, b""))).unwrap();
    assert_eq!(attempt.pipeline_id, "p1");
    assert_eq!(attempt.scheduled_time, NEW_YEAR);
    assert_eq!(attempt.run, 41);
}

#[test]
fn a_command_that_did_not_start_is_recorded_as_a_failure_and_halts_the_chain() {
    let tasks = vec![task("t1", "p1", "echo hi"), task("t2", "p1", "exit 0")];
    let mut run = PipelineRun::new("p1".to_string(), NEW_YEAR, 0, tasks);
    let outcome = TaskOutcome::not_started("No such file or directory".to_string());
    assert_eq!(outcome.exit_code, None);
    assert!(outcome.stdout.is_empty());
    assert!(outcome.stderr.is_empty());
    assert!(!outcome.succeeded());
    let attempt = run.complete(report(1, 2, 3, outcome)).unwrap();
    assert_eq!(attempt.instance().status, "No such file or directory");
    assert!(run.is_halted());
    assert!(run.pending().is_none());
}

#[test]
fn only_exit_code_zero_is_a_success() {
    assert!(exited(0, b"").succeeded());
    assert!(!exited(1, b"").succeeded());
    assert!(!exited(-1, b"").succeeded());
    assert!(!exited(255, b"").succeeded());
    let killed = TaskOutcome {
        exit_code: None,
        status: "signal: 9 (SIGKILL)".to_string(),
        stdout: Vec::new(),
        stderr: Vec::new(),
    };
    assert!(!killed.succeeded());
}

#[test]
fn the_record_of_an_attempt_is_written_out_in_full() {
    let attempt = Attempt {
        task_id: "t1".to_string(),
        pipeline_id: "p1".to_string(),
        scheduled_time: NEW_YEAR,
        run: 12,
        execution_start: NEW_YEAR + SECOND,
        execution_end: NEW_YEAR + 2 * SECOND + 500_000_000,
        created_at: NEW_YEAR + 3 * SECOND + 1,
        outcome: TaskOutcome {
            exit_code: Some(0),
            status: "exit status: 0".to_string(),
            stdout: b"hi\n".to_vec(),
            stderr: b"warning\n".to_vec(),
        },
    };
    assert_eq!(
        attempt.instance(),
        TaskInstance {
            id: "t1_p1_2023-01-01 00:00:00 UTC_12".to_string(),
            task_id: "t1".to_string(),
            pipeline_id: "p1".to_string(),
            scheduled_time: "2023-01-01 00:00:00 UTC".to_string(),
            execution_start: "2023-01-01 00:00:01 UTC".to_string(),
            execution_end: "2023-01-01 00:00:02.500 UTC".to_string(),
            status: "exit status: 0".to_string(),
            logs: "[104, 105, 10]".to_string(),
            created_at: "2023-01-01 00:00:03.000000001 UTC".to_string(),
        }
    );
    assert_eq!(attempt.id(), "t1_p1_2023-01-01 00:00:00 UTC_12");
}

#[test]
fn records_of_different_runs_have_different_ids() {
    let tasks = || vec![task("t1", "p1", "exit 0")];
    let mut first = PipelineRun::new("p1".to_string(), NEW_YEAR, 0, tasks());
    let mut second = PipelineRun::new("p1".to_string(), NEW_YEAR, 1, tasks());
    let a = first.complete(report(1, 2, 3, exited(0, b""))).unwrap();
    let b = second.complete(report(1, 2, 3, exited(0, b""))).unwrap();
    assert_ne!(a.id(), b.id());
    assert_eq!(a.id(), "t1_p1_2023-01-01 00:00:00 UTC_0");
    assert_eq!(b.id(), "t1_p1_2023-01-01 00:00:00 UTC_1");
}

#[test]
fn records_of_different_tasks_of_one_run_have_different_ids() {
    let tasks = vec![task("t", "p", "exit 0"), task("t_p", "p", "exit 0")];
    let mut run = PipelineRun::new("p".to_string(), NEW_YEAR, 0, tasks);
    let a = run.complete(report(1, 2, 3, exited(0, b""))).unwrap();
    let b = run.complete(report(4, 5, 6, exited(0, b""))).unwrap();
    assert_ne!(a.id(), b.id());
}

#[test]
fn instants_are_written_as_dates_and_times_in_utc() {
    assert_eq!(format_instant(0), "1970-01-01 00:00:00 UTC");
    assert_eq!(format_instant(NEW_YEAR), "2023-01-01 00:00:00 UTC");
    assert_eq!(format_instant(-1), "1969-12-31 23:59:59.999999999 UTC");
    assert_eq!(format_instant(i64::MAX), "2262-04-11 23:47:16.854775807 UTC");
    assert_eq!(format_instant(i64::MIN), "1677-09-21 00:12:43.145224192 UTC");
}

#[test]
fn a_series_of_reports_is_taken_until_the_first_failure() {
    let tasks = vec![
        task("t1", "p1", "exit 0"),
        task("t2", "p1", "exit 1"),
        task("t3", "p1", "echo hi"),
    ];
    let mut run = PipelineRun::new("p1".to_string(), NEW_YEAR, 0, tasks);
    let attempts = run.replay(vec![
        report(1, 2, 3, exited(0, b"")),
        report(4, 5, 6, exited(1, b"")),
        report(7, 8, 9, exited(0, b"hi\n")),
    ]);
    assert_eq!(attempts.len(), 2);
    assert_eq!(attempts[0].task_id, "t1");
    assert_eq!((attempts[0].execution_start, attempts[0].execution_end), (1, 2));
    assert_eq!(attempts[0].created_at, 3);
    assert_eq!(attempts[1].task_id, "t2");
    assert_eq!((attempts[1].execution_start, attempts[1].execution_end), (4, 5));
    assert_eq!(attempts[1].outcome.exit_code, Some(1));
    assert!(run.is_halted());
    assert_eq!(run.attempted(), 2);
}

#[test]
fn a_series_of_reports_may_end_before_the_chain_does() {
    let tasks = vec![task("t1", "p1", "exit 0"), task("t2", "p1", "exit 0")];
    let mut run = PipelineRun::new("p1".to_string(), NEW_YEAR, 0, tasks);
    assert!(run.replay(Vec::new()).is_empty());
    let attempts = run.replay(vec![report(1, 2, 3, exited(0, b""))]);
    assert_eq!(attempts.len(), 1);
    assert!(!run.is_over());
    assert_eq!(run.pending().map(|task| task.id.as_str()), Some("t2"));
    let more = run.replay(vec![report(4, 5, 6, exited(0, b"")), report(7, 8, 9, exited(0, b""))]);
    assert_eq!(more.len(), 1);
    assert_eq!(more[0].task_id, "t2");
    assert!(run.is_over());
    assert!(!run.is_halted());
}
