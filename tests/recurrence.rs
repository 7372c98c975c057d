use looper::recurrence::{next_occurrence, parse, LATEST_INSTANT};

// 2024-01-01 00:00:00 on the library's clock.
const JAN_1_2024: i64 = 1_704_067_200;

#[test]
fn parse_accepts_cron_expressions() {
    assert!(parse("0 0 0 * * *").is_some());
    assert!(parse("0 */15 * * * *").is_some());
    assert!(parse("0 30 9 * * Mon-Fri").is_some());
}

#[test]
fn parse_refuses_malformed_expressions() {
    assert!(parse("").is_none());
    assert!(parse("every day").is_none());
    assert!(parse("0 0 25 * * *").is_none());
}

#[test]
fn next_occurrence_is_strictly_later() {
    let p = parse("0 * * * * *").unwrap();
    assert_eq!(next_occurrence(&p, 0), Some(60));
    // An instant that matches is not its own next occurrence.
    assert_eq!(next_occurrence(&p, 60), Some(120));
    assert_eq!(next_occurrence(&p, 59), Some(60));
}

fn brute_force_next(after: i64, matches: impl Fn(i64) -> bool) -> i64 {
    let mut t = after + 1;
    while !matches(t) {
        t += 1;
    }
    t
}

#[test]
fn next_occurrence_matches_brute_force_scan() {
    let quarter = parse("0 */15 * * * *").unwrap();
    let hourly_at_7 = parse("7 0 * * * *").unwrap();
    let mut after = JAN_1_2024 - 3_700;
    while after < JAN_1_2024 + 7_300 {
        let expected = brute_force_next(after, |t| t % 60 == 0 && (t / 60) % 15 == 0);
        assert_eq!(next_occurrence(&quarter, after), Some(expected));
        let expected = brute_force_next(after, |t| t % 3600 == 7);
        assert_eq!(next_occurrence(&hourly_at_7, after), Some(expected));
        after += 97;
    }
}

#[test]
fn next_occurrence_none_when_schedule_is_exhausted() {
    let p = parse("0 0 0 1 1 * 2000").unwrap();
    assert_eq!(next_occurrence(&p, JAN_1_2024), None);
    let daily = parse("0 0 0 * * *").unwrap();
    assert_eq!(next_occurrence(&daily, LATEST_INSTANT + 1), None);
}
