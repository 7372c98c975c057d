use looper::completion::State;
use looper::registry::{Registry, Routine};
use looper::scheduler::{get_next_date, mark_done, mark_done_batch, ErrorKind};

const DAY: i64 = 86_400;
// 2024-01-01 00:00:00 on the library's clock.
const JAN_1_2024: i64 = 1_704_067_200;

fn routine(name: &str, period: &str) -> Routine {
    Routine { name: name.to_string(), period: period.to_string() }
}

fn registry(entries: &[(&str, &str, &str)]) -> Registry {
    let mut r = Registry::new();
    for (id, name, period) in entries {
        assert!(r.insert(id.to_string(), routine(name, period)).is_ok());
    }
    r
}

#[test]
fn never_completed_counts_from_epoch() {
    let reg = registry(&[("tea", "Tea", "0 0 * * * *")]);
    assert_eq!(get_next_date(&reg, &State::new(), "tea").unwrap(), 3600);
}

#[test]
fn daily_midnight_next_due_is_next_midnight() {
    let reg = registry(&[("plants", "Water plants", "0 0 0 * * *")]);
    let mut state = State::new();
    state.insert("plants", JAN_1_2024);
    assert_eq!(get_next_date(&reg, &state, "plants").unwrap(), JAN_1_2024 + DAY);
}

#[test]
fn next_due_after_done_is_later_than_done() {
    let reg = registry(&[("plants", "Water plants", "0 0 0 * * *")]);
    let mut state = State::new();
    state.insert("plants", JAN_1_2024);
    let now = JAN_1_2024 + 3 * DAY + 5_000;
    let c = mark_done(&reg, &mut state, "plants", now).unwrap();
    assert_eq!(c.done_at, now);
    let next = get_next_date(&reg, &state, "plants").unwrap();
    assert_eq!(next, c.next_due);
    assert!(next > c.done_at);
    assert_eq!(next, JAN_1_2024 + 4 * DAY);
}

#[test]
fn early_completion_records_coming_occurrence() {
    let reg = registry(&[("stretch", "Stretch", "0 * * * * *")]);
    let mut state = State::new();
    // Never completed: currently due at 60; complete at 55.
    let c = mark_done(&reg, &mut state, "stretch", 55).unwrap();
    assert_eq!(c.done_at, 60);
    assert_eq!(c.next_due, 120);
    assert_eq!(state.get("stretch"), Some(60));
}

#[test]
fn completion_due_exactly_now_records_now() {
    let reg = registry(&[("stretch", "Stretch", "0 * * * * *")]);
    let mut state = State::new();
    let c = mark_done(&reg, &mut state, "stretch", 60).unwrap();
    assert_eq!(c.done_at, 60);
    assert_eq!(c.next_due, 120);
}

#[test]
fn double_completion_advances_twice() {
    let reg = registry(&[("plants", "Water plants", "0 0 0 * * *")]);
    let mut state = State::new();
    state.insert("plants", JAN_1_2024);
    let now = JAN_1_2024 + 3_600;
    let first = mark_done(&reg, &mut state, "plants", now).unwrap();
    let second = mark_done(&reg, &mut state, "plants", now).unwrap();
    assert_eq!(first.done_at, JAN_1_2024 + DAY);
    assert_eq!(second.done_at, JAN_1_2024 + 2 * DAY);
    assert!(second.done_at > first.done_at);
    assert_eq!(second.next_due, JAN_1_2024 + 3 * DAY);
}

#[test]
fn unknown_id_leaves_record_unchanged() {
    let reg = registry(&[("plants", "Water plants", "0 0 0 * * *")]);
    let mut state = State::new();
    state.insert("plants", JAN_1_2024);
    let before = state.finish_times.clone();
    let err = mark_done(&reg, &mut state, "nonexistent", JAN_1_2024).unwrap_err();
    assert_eq!(err.kind, ErrorKind::UnknownRoutineId);
    assert_eq!(err.id, "nonexistent");
    assert_eq!(state.finish_times, before);
}

#[test]
fn get_next_date_unknown_id() {
    let reg = registry(&[("plants", "Water plants", "0 0 0 * * *")]);
    let err = get_next_date(&reg, &State::new(), "cat").unwrap_err();
    assert_eq!(err.kind, ErrorKind::UnknownRoutineId);
    assert_eq!(err.id, "cat");
}

#[test]
fn invalid_recurrence_is_reported() {
    let reg = registry(&[("bad", "Broken", "whenever")]);
    let mut state = State::new();
    let err = get_next_date(&reg, &state, "bad").unwrap_err();
    assert_eq!(err.kind, ErrorKind::InvalidRecurrenceSpec);
    assert_eq!(err.id, "bad");
    let err = mark_done(&reg, &mut state, "bad", JAN_1_2024).unwrap_err();
    assert_eq!(err.kind, ErrorKind::InvalidRecurrenceSpec);
    assert!(state.finish_times.is_empty());
}

#[test]
fn exhausted_recurrence_is_reported() {
    let reg = registry(&[("y2k", "Party", "0 0 0 1 1 * 2000")]);
    let mut state = State::new();
    state.insert("y2k", JAN_1_2024);
    let err = get_next_date(&reg, &state, "y2k").unwrap_err();
    assert_eq!(err.kind, ErrorKind::NoNextOccurrence);
    let err = mark_done(&reg, &mut state, "y2k", JAN_1_2024).unwrap_err();
    assert_eq!(err.kind, ErrorKind::NoNextOccurrence);
    assert_eq!(state.get("y2k"), Some(JAN_1_2024));
}

#[test]
fn batch_stops_at_unknown_id() {
    let reg = registry(&[("a", "A", "0 0 0 * * *"), ("b", "B", "0 0 0 * * *")]);
    let mut state = State::new();
    state.insert("a", JAN_1_2024);
    state.insert("b", JAN_1_2024);
    let ids = vec!["a".to_string(), "missing".to_string(), "b".to_string()];
    let now = JAN_1_2024 + 2 * DAY + 10;
    let err = mark_done_batch(&reg, &mut state, &ids, now).unwrap_err();
    assert_eq!(err.kind, ErrorKind::UnknownRoutineId);
    assert_eq!(err.id, "missing");
    assert_eq!(state.get("a"), Some(now));
    assert_eq!(state.get("b"), Some(JAN_1_2024));
}

#[test]
fn batch_completes_every_id_in_order() {
    let reg = registry(&[("a", "A", "0 0 0 * * *"), ("b", "B", "0 0 12 * * *")]);
    let mut state = State::new();
    let ids = vec!["a".to_string(), "b".to_string(), "a".to_string()];
    let now = JAN_1_2024;
    let done = mark_done_batch(&reg, &mut state, &ids, now).unwrap();
    assert_eq!(done.len(), 3);
    assert_eq!(done[0].done_at, now);
    assert_eq!(done[0].next_due, now + DAY);
    assert_eq!(done[1].done_at, now);
    assert_eq!(done[1].next_due, now + DAY / 2);
    assert_eq!(done[2].done_at, now + DAY);
    assert_eq!(done[2].next_due, now + 2 * DAY);
    assert_eq!(state.get("a"), Some(now + DAY));
    assert_eq!(state.get("b"), Some(now));
}

#[test]
fn empty_batch_changes_nothing() {
    let reg = registry(&[("a", "A", "0 0 0 * * *")]);
    let mut state = State::new();
    let done = mark_done_batch(&reg, &mut state, &Vec::new(), JAN_1_2024).unwrap();
    assert!(done.is_empty());
    assert!(state.finish_times.is_empty());
}
