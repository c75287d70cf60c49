use tapo_rest::scheduler::execution_log_line;
use tapo_rest::calendar::{Date, DateTime, TimeOfDay, Weekday};
use tapo_rest::scheduler::{Action, Schedule, ScheduleKind, Scheduler};

fn date(year: i32, month: u32, day: u32) -> Date {
    Date { year, month, day }
}

fn time(hour: u32, minute: u32, second: u32) -> TimeOfDay {
    TimeOfDay { hour, minute, second, nano: 0 }
}

fn at(d: Date, t: TimeOfDay) -> DateTime {
    DateTime { date: d, time: t }
}

fn once(owner: &str, device: &str, action: Action, when: DateTime) -> Schedule {
    Schedule {
        id: String::new(),
        owner: owner.to_string(),
        device: device.to_string(),
        action,
        kind: ScheduleKind::Once { datetime: when },
    }
}

fn recurring(
    owner: &str,
    device: &str,
    weekdays: Vec<Weekday>,
    t: TimeOfDay,
    end_date: Option<Date>,
    exclude_dates: Vec<Date>,
) -> Schedule {
    Schedule {
        id: String::new(),
        owner: owner.to_string(),
        device: device.to_string(),
        action: Action::On,
        kind: ScheduleKind::Recurring { weekdays, time: t, end_date, exclude_dates },
    }
}

fn is_uuid_v4(s: &str) -> bool {
    let b = s.as_bytes();
    b.len() == 36
        && b.iter().enumerate().all(|(i, c)| match i {
            8 | 13 | 18 | 23 => *c == b'-',
            _ => c.is_ascii_hexdigit() && !c.is_ascii_uppercase(),
        })
        && b[14] == b'4'
        && matches!(b[19], b'8' | b'9' | b'a' | b'b')
}

#[test]
fn insert_assigns_a_fresh_uuid_and_stores_it() {
    let mut s = Scheduler::new();
    let id = s.insert(once("ann", "lamp", Action::On, at(date(2024, 1, 1), time(8, 0, 0))));
    assert!(is_uuid_v4(&id));
    let all = s.list_all();
    assert_eq!(all.len(), 1);
    assert_eq!(all[0].id, id);
    assert_eq!(all[0].owner, "ann");
    let id2 = s.insert(once("bob", "plug", Action::Off, at(date(2024, 1, 1), time(9, 0, 0))));
    assert_ne!(id, id2);
    assert_eq!(s.list_all().len(), 2);
}

#[test]
fn insert_with_id_overwrites_same_id() {
    let mut s = Scheduler::new();
    s.insert_with_id("a".to_string(), once("ann", "lamp", Action::On, at(date(2024, 1, 1), time(8, 0, 0))));
    s.insert_with_id("a".to_string(), once("ann", "plug", Action::Off, at(date(2024, 1, 1), time(8, 0, 0))));
    let all = s.list_all();
    assert_eq!(all.len(), 1);
    assert_eq!(all[0].id, "a");
    assert_eq!(all[0].device, "plug");
    assert_eq!(all[0].action, Action::Off);
}

#[test]
fn update_replaces_only_existing_schedules() {
    let mut s = Scheduler::new();
    s.insert_with_id("a".to_string(), once("ann", "lamp", Action::On, at(date(2024, 1, 1), time(8, 0, 0))));
    // the replacement keeps the id it carries
    s.update("a", once("ann", "plug", Action::Off, at(date(2024, 1, 2), time(8, 0, 0))));
    let all = s.list_all();
    assert_eq!(all.len(), 1);
    assert_eq!(all[0].device, "plug");
    assert_eq!(all[0].id, "");
    s.update("missing", once("ann", "tv", Action::On, at(date(2024, 1, 2), time(8, 0, 0))));
    assert_eq!(s.list_all().len(), 1);
}

#[test]
fn remove_drops_only_the_given_id() {
    let mut s = Scheduler::new();
    s.insert_with_id("a".to_string(), once("ann", "lamp", Action::On, at(date(2024, 1, 1), time(8, 0, 0))));
    s.insert_with_id("b".to_string(), once("bob", "plug", Action::On, at(date(2024, 1, 1), time(8, 0, 0))));
    s.remove("a");
    let all = s.list_all();
    assert_eq!(all.len(), 1);
    assert_eq!(all[0].id, "b");
    s.remove("zzz");
    assert_eq!(s.list_all().len(), 1);
}

#[test]
fn list_owner_keeps_only_that_owner() {
    let mut s = Scheduler::new();
    s.insert_with_id("a".to_string(), once("ann", "lamp", Action::On, at(date(2024, 1, 1), time(8, 0, 0))));
    s.insert_with_id("b".to_string(), once("bob", "plug", Action::On, at(date(2024, 1, 1), time(8, 0, 0))));
    s.insert_with_id("c".to_string(), once("ann", "tv", Action::Off, at(date(2024, 1, 1), time(8, 0, 0))));
    let ann: Vec<String> = s.list_owner("ann").into_iter().map(|x| x.id).collect();
    assert_eq!(ann, vec!["a".to_string(), "c".to_string()]);
    assert!(s.list_owner("carl").is_empty());
}

#[test]
fn load_keeps_last_of_duplicate_ids() {
    let pairs = vec![
        ("x".to_string(), once("ann", "lamp", Action::On, at(date(2024, 1, 1), time(8, 0, 0)))),
        ("y".to_string(), once("bob", "plug", Action::On, at(date(2024, 1, 1), time(8, 0, 0)))),
        ("x".to_string(), once("ann", "tv", Action::Off, at(date(2024, 1, 1), time(8, 0, 0)))),
    ];
    let s = Scheduler::load(pairs);
    let all = s.list_all();
    assert_eq!(all.len(), 2);
    assert_eq!(all[0].device, "tv");
    assert_eq!(all[1].device, "plug");
}

#[test]
fn once_runs_and_is_dropped_when_due() {
    let mut s = Scheduler::new();
    s.insert_with_id("past".to_string(), once("ann", "lamp", Action::On, at(date(2024, 3, 9), time(7, 59, 59))));
    s.insert_with_id("now".to_string(), once("ann", "plug", Action::Off, at(date(2024, 3, 9), time(8, 0, 0))));
    s.insert_with_id("later".to_string(), once("ann", "tv", Action::On, at(date(2024, 3, 9), time(8, 0, 1))));
    let plan = s.plan_check(&at(date(2024, 3, 9), time(8, 0, 0)));
    let ran: Vec<(String, String, Action)> =
        plan.executions.iter().map(|e| (e.id.clone(), e.device.clone(), e.action)).collect();
    assert_eq!(
        ran,
        vec![
            ("past".to_string(), "lamp".to_string(), Action::On),
            ("now".to_string(), "plug".to_string(), Action::Off)
        ]
    );
    assert_eq!(plan.removals, vec!["past".to_string(), "now".to_string()]);
    s.remove_all(&plan.removals);
    let left: Vec<String> = s.list_all().into_iter().map(|x| x.id).collect();
    assert_eq!(left, vec!["later".to_string()]);
    let again = s.plan_check(&at(date(2024, 3, 9), time(8, 0, 0)));
    assert!(again.removals.is_empty());
    assert!(again.executions.is_empty());
}

#[test]
fn recurring_runs_in_first_half_minute_of_its_weekday() {
    let mut s = Scheduler::new();
    // 2024-03-09 is a Saturday
    s.insert_with_id("sat".to_string(), recurring("ann", "lamp", vec![Weekday::Sat], time(8, 0, 0), None, vec![]));
    s.insert_with_id("sun".to_string(), recurring("ann", "plug", vec![Weekday::Sun], time(8, 0, 0), None, vec![]));
    let plan = s.plan_check(&at(date(2024, 3, 9), time(8, 0, 29)));
    let ran: Vec<String> = plan.executions.iter().map(|e| e.id.clone()).collect();
    assert_eq!(ran, vec!["sat".to_string()]);
    assert!(plan.removals.is_empty());
    let late = s.plan_check(&at(date(2024, 3, 9), time(8, 0, 30)));
    assert!(late.executions.is_empty());
    let other_minute = s.plan_check(&at(date(2024, 3, 9), time(8, 1, 0)));
    assert!(other_minute.executions.is_empty());
    // 1970-01-01 was a Thursday, 2000-01-01 a Saturday, 2024-03-10 a Sunday
    let sunday = s.plan_check(&at(date(2024, 3, 10), time(8, 0, 5)));
    let ran: Vec<String> = sunday.executions.iter().map(|e| e.id.clone()).collect();
    assert_eq!(ran, vec!["sun".to_string()]);
    let y2k = s.plan_check(&at(date(2000, 1, 1), time(8, 0, 5)));
    let ran: Vec<String> = y2k.executions.iter().map(|e| e.id.clone()).collect();
    assert_eq!(ran, vec!["sat".to_string()]);
}

#[test]
fn recurring_skips_excluded_dates() {
    let mut s = Scheduler::new();
    s.insert_with_id(
        "r".to_string(),
        recurring("ann", "lamp", vec![Weekday::Sat], time(8, 0, 0), None, vec![date(2024, 3, 9)]),
    );
    let plan = s.plan_check(&at(date(2024, 3, 9), time(8, 0, 0)));
    assert!(plan.executions.is_empty());
    assert!(plan.removals.is_empty());
    let next_week = s.plan_check(&at(date(2024, 3, 16), time(8, 0, 0)));
    assert_eq!(next_week.executions.len(), 1);
}

#[test]
fn recurring_is_dropped_after_its_end_date() {
    let mut s = Scheduler::new();
    s.insert_with_id(
        "r".to_string(),
        recurring("ann", "lamp", vec![Weekday::Sat], time(8, 0, 0), Some(date(2024, 3, 9)), vec![]),
    );
    // on the end date itself it still runs
    let on_end = s.plan_check(&at(date(2024, 3, 9), time(8, 0, 0)));
    assert_eq!(on_end.executions.len(), 1);
    assert!(on_end.removals.is_empty());
    let after = s.plan_check(&at(date(2024, 3, 16), time(8, 0, 0)));
    assert!(after.executions.is_empty());
    assert_eq!(after.removals, vec!["r".to_string()]);
}

#[test]
fn plan_check_on_uses_the_given_weekday() {
    let mut s = Scheduler::new();
    s.insert_with_id("r".to_string(), recurring("ann", "lamp", vec![Weekday::Mon], time(8, 0, 0), None, vec![]));
    let plan = s.plan_check_on(&at(date(2024, 3, 9), time(8, 0, 0)), Weekday::Mon);
    assert_eq!(plan.executions.len(), 1);
    let plan = s.plan_check_on(&at(date(2024, 3, 9), time(8, 0, 0)), Weekday::Tue);
    assert!(plan.executions.is_empty());
}

#[test]
fn runs_at_and_expires_at_on_one_kind() {
    let k = ScheduleKind::Once { datetime: at(date(2024, 3, 9), time(8, 0, 0)) };
    assert!(!k.runs_at(&at(date(2024, 3, 8), time(23, 59, 59)), Weekday::Fri));
    assert!(!k.expires_at(&at(date(2024, 3, 8), time(23, 59, 59))));
    assert!(k.runs_at(&at(date(2024, 3, 10), time(0, 0, 0)), Weekday::Sun));
    assert!(k.expires_at(&at(date(2024, 3, 10), time(0, 0, 0))));
    let r = ScheduleKind::Recurring { weekdays: vec![], time: time(8, 0, 0), end_date: None, exclude_dates: vec![] };
    assert!(!r.runs_at(&at(date(2024, 3, 9), time(8, 0, 0)), Weekday::Sat));
    assert!(!r.expires_at(&at(date(9999, 12, 31), time(8, 0, 0))));
}

#[test]
fn execution_log_line_shows_utc_instant_and_id() {
    let now = at(date(2024, 3, 9), time(8, 0, 0));
    assert_eq!(execution_log_line(&now, "abc"), "2024-03-09 08:00:00 UTC executed abc\n");
    let frac = at(date(2024, 3, 9), TimeOfDay { hour: 8, minute: 0, second: 1, nano: 500_000_000 });
    assert_eq!(execution_log_line(&frac, "x"), "2024-03-09 08:00:01.500 UTC executed x\n");
    let leap = at(date(2016, 12, 31), TimeOfDay { hour: 23, minute: 59, second: 59, nano: 1_000_000_000 });
    assert_eq!(execution_log_line(&leap, "x"), "2016-12-31 23:59:60 UTC executed x\n");
    let micro = at(date(-5, 1, 1), TimeOfDay { hour: 0, minute: 0, second: 0, nano: 1_000 });
    assert_eq!(execution_log_line(&micro, "y"), "-0005-01-01 00:00:00.000001 UTC executed y\n");
}

#[test]
fn entries_and_contains_follow_the_stored_ids() {
    let mut s = Scheduler::new();
    s.insert_with_id("a".to_string(), once("ann", "lamp", Action::On, at(date(2024, 1, 1), time(8, 0, 0))));
    s.insert_with_id("b".to_string(), once("bob", "plug", Action::On, at(date(2024, 1, 1), time(8, 0, 0))));
    s.update("b", once("bob", "tv", Action::Off, at(date(2024, 1, 1), time(8, 0, 0))));
    assert!(s.contains("a"));
    assert!(!s.contains("c"));
    let e: Vec<(String, String, String)> =
        s.entries().into_iter().map(|(k, v)| (k, v.id, v.device)).collect();
    assert_eq!(
        e,
        vec![
            ("a".to_string(), "a".to_string(), "lamp".to_string()),
            ("b".to_string(), "".to_string(), "tv".to_string())
        ]
    );
}

#[test]
fn check_at_the_ends_of_the_calendar() {
    let mut s = Scheduler::new();
    s.insert_with_id("r".to_string(), recurring("ann", "lamp", vec![Weekday::Fri], time(0, 0, 0), None, vec![]));
    // 262142-12-31 and -262143-01-01 are the last and first dates chrono holds
    let last = s.plan_check(&at(date(262142, 12, 31), time(0, 0, 0)));
    let first = s.plan_check(&at(date(-262143, 1, 1), time(0, 0, 0)));
    assert!(last.removals.is_empty());
    assert!(first.removals.is_empty());
    assert_eq!(
        tapo_rest::scheduler::execution_log_line(&at(date(262142, 12, 31), time(0, 0, 0)), "z"),
        "+262142-12-31 00:00:00 UTC executed z\n"
    );
}
