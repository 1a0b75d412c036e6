use synthesizer::cron::{interpret, next_fire, ScheduleError};

const SECOND: i64 = 1_000_000_000;
/// 2023-01-01 00:00:00 UTC, a Sunday.
const NEW_YEAR: i64 = 1_672_531_200 * SECOND;
const MINUTE: i64 = 60 * SECOND;

#[test]
fn next_fire_gives_the_first_match_after_the_reference() {
    assert_eq!(next_fire("*/5 * * * *", NEW_YEAR + MINUTE), Ok(NEW_YEAR + 5 * MINUTE));
    assert_eq!(next_fire("1 * * * *", NEW_YEAR), Ok(NEW_YEAR + MINUTE));
    assert_eq!(next_fire("1 * * * *", NEW_YEAR + MINUTE), Ok(NEW_YEAR + 61 * MINUTE));
    assert_eq!(next_fire("0 12 * * *", NEW_YEAR), Ok(1_672_574_400 * SECOND));
}

#[test]
fn next_fire_is_strictly_after_a_reference_that_matches() {
    let matching = NEW_YEAR + 5 * MINUTE;
    assert_eq!(next_fire("* * * * *", matching), Ok(matching + MINUTE));
    assert_eq!(next_fire("*/5 * * * *", matching), Ok(matching + 5 * MINUTE));
}

#[test]
fn next_fire_lies_on_a_full_minute_whatever_the_reference() {
    let reference = NEW_YEAR + 5 * MINUTE + 30 * SECOND + 500_000_000;
    assert_eq!(next_fire("* * * * *", reference), Ok(NEW_YEAR + 6 * MINUTE));
    assert_eq!(next_fire("* * * * *", NEW_YEAR + 1), Ok(NEW_YEAR + MINUTE));
}

#[test]
fn next_fire_reads_all_five_fields() {
    // The first Monday after Sunday 2023-01-01, at nine.
    assert_eq!(next_fire("0 9 * * MON", NEW_YEAR), Ok(1_672_650_000 * SECOND));
    assert_eq!(next_fire("0 9 * * 1", NEW_YEAR), Ok(1_672_650_000 * SECOND));
    // The next 29th of February.
    assert_eq!(next_fire("0 0 29 2 *", NEW_YEAR), Ok(1_709_164_800 * SECOND));
}

#[test]
fn next_fire_gives_the_same_answer_every_time() {
    let first = next_fire("*/7 3-5 * * *", NEW_YEAR + 17 * SECOND);
    for _ in 0..10 {
        assert_eq!(next_fire("*/7 3-5 * * *", NEW_YEAR + 17 * SECOND), first);
    }
    let rejected = next_fire("every minute", NEW_YEAR);
    for _ in 0..10 {
        assert_eq!(next_fire("every minute", NEW_YEAR), rejected);
    }
}

#[test]
fn next_fire_rejects_what_is_no_cron_expression() {
    for expression in ["", "every minute", "* * * *", "* * * * * *", "60 * * * *", "* 24 * * *",
        "* * 0 * *", "* * * 13 *", "* * * * 7", "*/0 * * * *", "5-1 * * * *", "1,,2 * * * *"]
    {
        assert_eq!(
            next_fire(expression, NEW_YEAR),
            Err(ScheduleError::InvalidExpression),
            "{:?}",
            expression
        );
    }
}

#[test]
fn next_fire_rejects_a_date_that_never_comes() {
    assert_eq!(next_fire("0 0 31 2 *", NEW_YEAR), Err(ScheduleError::InvalidExpression));
}

#[test]
fn next_fire_past_the_last_instant_is_out_of_range() {
    // The last full minute that an instant can hold.
    let last_minute = 9_223_372_020_000_000_000;
    assert_eq!(next_fire("* * * * *", last_minute - 1), Ok(last_minute));
    assert_eq!(next_fire("* * * * *", last_minute), Err(ScheduleError::OutOfRange));
    assert_eq!(next_fire("* * * * *", i64::MAX), Err(ScheduleError::OutOfRange));
}

#[test]
fn next_fire_works_before_the_epoch() {
    assert_eq!(next_fire("* * * * *", -MINUTE - 1), Ok(-MINUTE));
    assert_eq!(next_fire("* * * * *", -1), Ok(0));
}

#[test]
fn interpret_maps_each_answer_of_the_cron_library() {
    assert_eq!(interpret(Ok(Some(5))), Ok(5));
    assert_eq!(interpret(Ok(None)), Err(ScheduleError::OutOfRange));
    let error = cron_parser::Schedule::parse("every minute").unwrap_err();
    assert_eq!(interpret(Err(error)), Err(ScheduleError::InvalidExpression));
}

#[test]
fn next_fire_is_always_after_the_reference_and_on_a_full_minute() {
    let expressions = ["* * * * *", "*/5 * * * *", "1 * * * *", "0 0 * * *", "30 6 1 * *",
        "0 0 29 2 *", "15,45 8-18 * * MON", "0 12 * 1-6 0"];
    let references = [i64::MIN, -1, 0, 1, NEW_YEAR - 1, NEW_YEAR, NEW_YEAR + 1,
        NEW_YEAR + 59 * SECOND, NEW_YEAR + 12_345 * MINUTE + 678];
    for expression in expressions {
        for reference in references {
            let next = next_fire(expression, reference).unwrap();
            assert!(next > reference, "{:?} after {}", expression, reference);
            assert_eq!(next.rem_euclid(MINUTE), 0, "{:?} after {}", expression, reference);
        }
    }
}
