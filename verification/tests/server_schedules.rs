use tapo_rest::server::schedules::execution_log_line;
use tapo_rest::calendar::{Date, DateTime, TimeOfDay};
use tapo_rest::scheduler::Action;
use tapo_rest::server::schedules::{
    action_command, default_owner, Schedule, ScheduleStore, ScheduleType, ScheduleUpdate,
    StoreError,
};
use tapo_rest::server::schedules_api::ScheduleInput;

fn sched(id: &str, ty: ScheduleType, time: &str, days: &[&str], excl: &[&str], end: Option<&str>) -> Schedule {
    Schedule {
        id: id.to_string(),
        device_id: "lamp".to_string(),
        action: "on".to_string(),
        schedule_type: ty,
        time: time.to_string(),
        days_of_week: days.iter().map(|d| d.to_string()).collect(),
        exclude_dates: excl.iter().map(|d| d.to_string()).collect(),
        end_date: end.map(|e| e.to_string()),
        owner: "admin@yourdomain.com".to_string(),
    }
}

fn empty_update() -> ScheduleUpdate {
    ScheduleUpdate { time: None, days_of_week: None, exclude_dates: None, end_date: None, action: None }
}

fn ids(v: &[Schedule]) -> Vec<String> {
    v.iter().map(|s| s.id.clone()).collect()
}

fn is_uuid_v4(s: &str) -> bool {
    let b = s.as_bytes();
    b.len() == 36
        && b.iter().enumerate().all(|(i, c)| match i {
            8 | 13 | 18 | 23 => *c == b'-',
            _ => c.is_ascii_hexdigit() && !c.is_ascii_uppercase(),
        })
        && b[14] == b'4'
        && matches!(b[19], b'8' | b'9' | b'a' | b'b')
}

#[test]
fn new_single_formats_time_and_uses_default_owner() {
    let s = Schedule::new_single(
        "lamp".to_string(),
        "on".to_string(),
        TimeOfDay { hour: 7, minute: 5, second: 42, nano: 0 },
    );
    assert!(is_uuid_v4(&s.id));
    assert_eq!(s.time, "07:05");
    assert_eq!(s.schedule_type, ScheduleType::Single);
    assert!(s.days_of_week.is_empty());
    assert!(s.exclude_dates.is_empty());
    assert_eq!(s.end_date, None);
    assert_eq!(s.owner, "admin@yourdomain.com");
    assert_eq!(default_owner(), "admin@yourdomain.com");
    let t = Schedule::new_single_with_id(
        "x".to_string(),
        "plug".to_string(),
        "off".to_string(),
        TimeOfDay { hour: 23, minute: 59, second: 59, nano: 1_500_000_000 },
    );
    assert_eq!(t.id, "x");
    assert_eq!(t.time, "23:59");
}

#[test]
fn input_becomes_schedule_with_fresh_id() {
    let input = ScheduleInput {
        device_id: "lamp".to_string(),
        action: "off".to_string(),
        schedule_type: ScheduleType::Recurring,
        time: "21:30".to_string(),
        days_of_week: vec!["Mon".to_string()],
        exclude_dates: vec![],
        end_date: Some("2024-12-31".to_string()),
    };
    let s = input.clone().into_schedule();
    assert!(is_uuid_v4(&s.id));
    assert_eq!(s.device_id, "lamp");
    assert_eq!(s.action, "off");
    assert_eq!(s.time, "21:30");
    assert_eq!(s.days_of_week, vec!["Mon".to_string()]);
    assert_eq!(s.end_date, Some("2024-12-31".to_string()));
    assert_eq!(s.owner, "admin@yourdomain.com");
    let t = input.into_schedule_with_id("given".to_string());
    assert_eq!(t.id, "given");
}

#[test]
fn insert_returns_the_schedule_id() {
    let mut store = ScheduleStore::new();
    let id = store.insert(sched("abc", ScheduleType::Single, "08:00", &[], &[], None));
    assert_eq!(id, "abc");
    assert_eq!(ids(&store.values()), vec!["abc".to_string()]);
}

#[test]
fn update_of_unknown_id_is_not_found() {
    let mut store = ScheduleStore::new();
    store.insert(sched("abc", ScheduleType::Single, "08:00", &[], &[], None));
    let r = store.update("nope", empty_update());
    assert_eq!(r, Err(StoreError::NotFound));
    assert_eq!(StoreError::NotFound.message(), "schedule not found");
    assert_eq!(store.values()[0].time, "08:00");
}

#[test]
fn update_replaces_only_present_fields() {
    let mut store = ScheduleStore::new();
    store.insert(sched("abc", ScheduleType::Recurring, "08:00", &["Mon"], &["2024-01-01"], None));
    let r = store.update(
        "abc",
        ScheduleUpdate {
            time: Some("09:15".to_string()),
            days_of_week: None,
            exclude_dates: Some(vec![]),
            end_date: Some("2024-06-30".to_string()),
            action: Some("off".to_string()),
        },
    );
    assert_eq!(r, Ok(()));
    let s = &store.values()[0];
    assert_eq!(s.id, "abc");
    assert_eq!(s.time, "09:15");
    assert_eq!(s.days_of_week, vec!["Mon".to_string()]);
    assert!(s.exclude_dates.is_empty());
    assert_eq!(s.end_date, Some("2024-06-30".to_string()));
    assert_eq!(s.action, "off");
    assert_eq!(s.schedule_type, ScheduleType::Recurring);
    assert_eq!(store.update("abc", empty_update()), Ok(()));
    assert_eq!(store.values()[0].time, "09:15");
}

#[test]
fn delete_removes_the_schedule() {
    let mut store = ScheduleStore::new();
    store.insert(sched("a", ScheduleType::Single, "08:00", &[], &[], None));
    store.insert(sched("b", ScheduleType::Single, "08:00", &[], &[], None));
    store.delete("a");
    assert_eq!(ids(&store.values()), vec!["b".to_string()]);
    store.delete("a");
    assert_eq!(ids(&store.values()), vec!["b".to_string()]);
}

#[test]
fn load_keeps_last_of_duplicates() {
    let store = ScheduleStore::load(vec![
        ("a".to_string(), sched("a", ScheduleType::Single, "08:00", &[], &[], None)),
        ("a".to_string(), sched("a", ScheduleType::Single, "09:00", &[], &[], None)),
    ]);
    let v = store.values();
    assert_eq!(v.len(), 1);
    assert_eq!(v[0].time, "09:00");
}

#[test]
fn due_at_single_needs_its_date() {
    let mut store = ScheduleStore::new();
    store.insert(sched("dated", ScheduleType::Single, "08:00", &[], &[], Some("2024-03-09")));
    store.insert(sched("undated", ScheduleType::Single, "08:00", &[], &[], None));
    assert_eq!(ids(&store.due_at("08:00", "2024-03-09", "Sat")), vec!["dated".to_string()]);
    assert!(store.due_at("08:01", "2024-03-09", "Sat").is_empty());
    assert!(store.due_at("08:00", "2024-03-10", "Sun").is_empty());
    assert_eq!(ids(&store.due_at("08:00", "", "Sat")), vec!["undated".to_string()]);
}

#[test]
fn due_at_recurring_days_end_and_exclusions() {
    let mut store = ScheduleStore::new();
    store.insert(sched("r", ScheduleType::Recurring, "08:00", &["Sat", "Sun"], &["2024-03-16"], Some("2024-03-31")));
    assert_eq!(ids(&store.due_at("08:00", "2024-03-09", "Sat")), vec!["r".to_string()]);
    assert_eq!(ids(&store.due_at("08:00", "2024-03-31", "Sun")), vec!["r".to_string()]);
    assert!(store.due_at("08:00", "2024-03-11", "Mon").is_empty());
    assert!(store.due_at("08:00", "2024-03-16", "Sat").is_empty());
    assert!(store.due_at("08:00", "2024-04-06", "Sat").is_empty());
    assert!(store.due_at("07:00", "2024-03-09", "Sat").is_empty());
}

#[test]
fn due_schedules_writes_the_clock_as_text() {
    let mut store = ScheduleStore::new();
    store.insert(sched("r", ScheduleType::Recurring, "07:05", &["Sat"], &[], None));
    store.insert(sched("s", ScheduleType::Single, "07:05", &[], &[], Some("2024-03-09")));
    store.insert(sched("t", ScheduleType::Single, "07:05", &[], &[], Some("0999-01-05")));
    let now = DateTime {
        date: Date { year: 2024, month: 3, day: 9 },
        time: TimeOfDay { hour: 7, minute: 5, second: 10, nano: 0 },
    };
    assert_eq!(ids(&store.due_schedules(&now)), vec!["r".to_string(), "s".to_string()]);
    let old = DateTime {
        date: Date { year: 999, month: 1, day: 5 },
        time: TimeOfDay { hour: 7, minute: 5, second: 0, nano: 0 },
    };
    // 0999-01-05 was a Saturday too
    assert_eq!(ids(&store.due_schedules(&old)), vec!["r".to_string(), "t".to_string()]);
    let sunday = DateTime { date: Date { year: 2024, month: 3, day: 10 }, ..now };
    assert!(store.due_schedules(&sunday).is_empty());
}

#[test]
fn action_texts_name_commands() {
    assert_eq!(action_command("on"), Some(Action::On));
    assert_eq!(action_command("off"), Some(Action::Off));
    assert_eq!(action_command("ON"), None);
    assert_eq!(action_command("toggle"), None);
    assert_eq!(action_command(""), None);
}

#[test]
fn is_due_on_one_schedule() {
    let s = sched("r", ScheduleType::Recurring, "08:00", &["Mon"], &[], None);
    assert!(s.is_due("08:00", "2024-03-11", "Mon"));
    assert!(!s.is_due("08:00", "2024-03-12", "Tue"));
}

#[test]
fn execution_log_line_shows_local_time_and_upper_case_action() {
    let s = sched("abc", ScheduleType::Single, "08:00", &[], &[], None);
    let now = DateTime {
        date: Date { year: 2024, month: 3, day: 9 },
        time: TimeOfDay { hour: 8, minute: 0, second: 0, nano: 0 },
    };
    assert_eq!(
        execution_log_line(&now, 32400, &s),
        "[2024-03-09T08:00:00+09:00] 예약 실행: ID=abc 디바이스=lamp 동작=ON\n"
    );
    assert_eq!(
        execution_log_line(&now, -19800, &s),
        "[2024-03-09T08:00:00-05:30] 예약 실행: ID=abc 디바이스=lamp 동작=ON\n"
    );
    let mut t = s.clone();
    t.action = "off".to_string();
    let late = DateTime { time: TimeOfDay { hour: 23, minute: 5, second: 7, nano: 123_456_789 }, ..now };
    assert_eq!(
        execution_log_line(&late, 0, &t),
        "[2024-03-09T23:05:07.123456789+00:00] 예약 실행: ID=abc 디바이스=lamp 동작=OFF\n"
    );
}

#[test]
fn store_entries_keep_ids() {
    let mut store = ScheduleStore::default();
    store.insert(sched("a", ScheduleType::Single, "08:00", &[], &[], None));
    let e = store.entries();
    assert_eq!(e.len(), 1);
    assert_eq!(e[0].0, "a");
    assert_eq!(e[0].1.time, "08:00");
}

#[test]
fn due_schedules_at_the_ends_of_the_calendar() {
    let mut store = ScheduleStore::new();
    store.insert(sched("t", ScheduleType::Single, "00:00", &[], &[], Some("+262142-12-31")));
    let last = DateTime {
        date: Date { year: 262142, month: 12, day: 31 },
        time: TimeOfDay { hour: 0, minute: 0, second: 0, nano: 0 },
    };
    assert_eq!(ids(&store.due_schedules(&last)), vec!["t".to_string()]);
    let first = DateTime { date: Date { year: -262143, month: 1, day: 1 }, ..last };
    assert!(store.due_schedules(&first).is_empty());
}
