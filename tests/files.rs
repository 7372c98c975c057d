use looper::completion::State;
use looper::config::ConfigType;
use looper::listing::{day_of, left_out, same_day, shown_upcoming};
use looper::registry::{Registry, Routine};
use looper::schedule_file::{parse_schedule, ScheduleFileError};

#[test]
fn schedule_file_groups_routines_by_period() {
    let text = "[\"0 0 0 * * *\"]\nwater = \"Water plants\"\nbins = \"Take out bins\"\n\n[\"0 0 12 * * *\"]\nlunch = \"Lunch\"\n";
    let reg = parse_schedule(text).ok().unwrap();
    assert_eq!(reg.routines.len(), 3);
    let water = reg.get("water").unwrap();
    assert_eq!(water.name, "Water plants");
    assert_eq!(water.period, "0 0 0 * * *");
    assert_eq!(reg.get("lunch").unwrap().period, "0 0 12 * * *");
    assert!(reg.get("nothing").is_none());
    // Tables in key order, entries in key order.
    let order: Vec<&str> = reg.routines.iter().map(|(id, _)| id.as_str()).collect();
    assert_eq!(order, vec!["bins", "water", "lunch"]);
}

#[test]
fn schedule_file_wrong_format() {
    assert!(matches!(parse_schedule("this is not toml ["), Err(ScheduleFileError::WrongFormat)));
    assert!(matches!(parse_schedule("water = \"daily\""), Err(ScheduleFileError::WrongFormat)));
}

#[test]
fn schedule_file_empty_is_empty_registry() {
    let reg = parse_schedule("").ok().unwrap();
    assert!(reg.routines.is_empty());
}

#[test]
fn schedule_file_key_collision() {
    let text = "[\"0 0 0 * * *\"]\nwater = \"Water plants\"\n\n[\"0 0 12 * * *\"]\nwater = \"Water again\"\n";
    match parse_schedule(text) {
        Err(ScheduleFileError::KeyCollision { id, first_name, first_period, second_name, second_period }) => {
            assert_eq!(id, "water");
            assert_eq!(first_name, "Water plants");
            assert_eq!(first_period, "0 0 0 * * *");
            assert_eq!(second_name, "Water again");
            assert_eq!(second_period, "0 0 12 * * *");
        }
        _ => panic!("expected a key collision"),
    }
}

#[test]
fn registry_keeps_first_of_duplicate_ids() {
    let mut reg = Registry::new();
    let r = |n: &str| Routine { name: n.to_string(), period: "0 0 0 * * *".to_string() };
    assert!(reg.insert("a".to_string(), r("first")).is_ok());
    let back = reg.insert("a".to_string(), r("second")).err().unwrap();
    assert_eq!(back.name, "second");
    assert_eq!(reg.get("a").unwrap().name, "first");
    assert_eq!(reg.routines.len(), 1);
}

#[test]
fn state_insert_replaces_earlier_record() {
    let mut state = State::new();
    assert_eq!(state.get("a"), None);
    state.insert("a", 5);
    state.insert("b", 7);
    state.insert("a", 9);
    assert_eq!(state.get("a"), Some(9));
    assert_eq!(state.get("b"), Some(7));
    assert_eq!(state.finish_times.len(), 2);
}

#[test]
fn config_paths() {
    let folder = "/tmp/looper".to_string();
    let home = "/home/me".to_string();
    assert_eq!(ConfigType::Schedule.get_path(Some(&folder), Some(&home)).unwrap(), "/tmp/looper/schedule.toml");
    assert_eq!(ConfigType::State.get_path(None, Some(&home)).unwrap(), "/home/me/.config/looper/state.toml");
    assert_eq!(
        ConfigType::State.get_path(None, None).unwrap_err(),
        "Environment variable $HOME not set"
    );
    assert_eq!(ConfigType::State.file_stem(), "state");
}

#[test]
fn calendar_days() {
    assert_eq!(day_of(0), 0);
    assert_eq!(day_of(86_399), 0);
    assert_eq!(day_of(86_400), 1);
    assert_eq!(day_of(-1), -1);
    assert_eq!(day_of(-86_400), -1);
    assert_eq!(day_of(-86_401), -2);
    assert_eq!(day_of(i64::MIN), -106_751_991_167_301);
    assert!(same_day(1_704_067_200, 1_704_153_599));
    assert!(!same_day(1_704_067_199, 1_704_067_200));
}

#[test]
fn short_listing_limits() {
    assert_eq!(shown_upcoming(3, false), 3);
    assert_eq!(shown_upcoming(25, false), 10);
    assert_eq!(shown_upcoming(25, true), 25);
    assert_eq!(left_out(25, false), Some(15));
    assert_eq!(left_out(10, false), Some(0));
    assert_eq!(left_out(9, false), None);
    assert_eq!(left_out(25, true), None);
}
