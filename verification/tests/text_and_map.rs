use tapo_rest::id_map::IdMap;
use tapo_rest::text::{list_contains_text, text_eq, text_is_before};
use tapo_rest::calendar::{date_is_before, datetime_is_before, time_is_before, Date, DateTime, TimeOfDay};

#[test]
fn text_order_matches_str_order() {
    let cases = [
        ("2024-03-09", "2024-03-10"),
        ("2024-03-10", "2024-03-09"),
        ("abc", "abc"),
        ("ab", "abc"),
        ("abc", "ab"),
        ("", "a"),
        ("a", ""),
        ("é", "z"),
        ("Z", "a"),
    ];
    for (a, b) in cases {
        assert_eq!(text_is_before(a, b), a < b, "{a} {b}");
    }
    assert!(text_eq("on", "on"));
    assert!(!text_eq("on", "off"));
    let list = vec!["Mon".to_string(), "Tue".to_string()];
    assert!(list_contains_text(&list, "Tue"));
    assert!(!list_contains_text(&list, "Wed"));
}

#[test]
fn calendar_order() {
    let d = |y, m, dd| Date { year: y, month: m, day: dd };
    assert!(date_is_before(&d(2023, 12, 31), &d(2024, 1, 1)));
    assert!(date_is_before(&d(2024, 1, 31), &d(2024, 2, 1)));
    assert!(!date_is_before(&d(2024, 2, 1), &d(2024, 2, 1)));
    let t = |h, m, s, n| TimeOfDay { hour: h, minute: m, second: s, nano: n };
    assert!(time_is_before(&t(8, 0, 59, 999_999_999), &t(8, 1, 0, 0)));
    assert!(time_is_before(&t(23, 59, 59, 999_999_999), &t(23, 59, 59, 1_000_000_000)));
    assert!(!time_is_before(&t(8, 1, 0, 0), &t(8, 1, 0, 0)));
    let a = DateTime { date: d(2024, 1, 1), time: t(23, 0, 0, 0) };
    let b = DateTime { date: d(2024, 1, 2), time: t(0, 0, 0, 0) };
    assert!(datetime_is_before(&a, &b));
    assert!(!datetime_is_before(&b, &a));
}

#[test]
fn id_map_insert_get_remove() {
    let mut m: IdMap<u32> = IdMap::new();
    m.insert("a".to_string(), 1);
    m.insert("b".to_string(), 2);
    m.insert("a".to_string(), 3);
    assert_eq!(m.len(), 2);
    assert_eq!(m.get("a"), Some(&3));
    assert_eq!(m.position("b"), Some(1));
    assert!(m.contains_key("b"));
    assert_eq!(m.remove("a"), Some(3));
    assert_eq!(m.remove("a"), None);
    assert_eq!(m.get("a"), None);
    assert_eq!(m.len(), 1);
    assert_eq!(m.entry_at(0), (&"b".to_string(), &2));
    m.set_value_at(0, 7);
    assert_eq!(m.get("b"), Some(&7));
    let m2 = IdMap::from_pairs(vec![("x".to_string(), 1u32), ("y".to_string(), 2), ("x".to_string(), 5)]);
    assert_eq!(m2.get("x"), Some(&5));
    assert_eq!(m2.position("y"), Some(1));
    let mut m3 = m2;
    m3.remove_all(&vec!["x".to_string(), "q".to_string()]);
    assert_eq!(m3.len(), 1);
}

#[test]
fn calendar_validity() {
    let d = |y, m, dd| Date { year: y, month: m, day: dd };
    assert!(d(2024, 2, 29).is_valid());
    assert!(!d(2023, 2, 29).is_valid());
    assert!(d(2000, 2, 29).is_valid());
    assert!(!d(1900, 2, 29).is_valid());
    assert!(d(-4, 2, 29).is_valid());
    assert!(!d(-1, 2, 29).is_valid());
    assert!(!d(2024, 4, 31).is_valid());
    assert!(!d(2024, 13, 1).is_valid());
    assert!(!d(2024, 1, 0).is_valid());
    assert!(!d(262143, 1, 1).is_valid());
    assert!(d(262142, 12, 31).is_valid());
    assert!(d(-262143, 1, 1).is_valid());
    assert!(!d(-262144, 12, 31).is_valid());
    let t = |h, m, s, n| TimeOfDay { hour: h, minute: m, second: s, nano: n };
    assert!(t(23, 59, 59, 1_999_999_999).is_valid());
    assert!(!t(23, 59, 58, 1_000_000_000).is_valid());
    assert!(!t(24, 0, 0, 0).is_valid());
    assert!(DateTime { date: d(2024, 1, 1), time: t(0, 0, 0, 0) }.is_valid());
    assert!(!DateTime { date: d(2024, 1, 1), time: t(0, 60, 0, 0) }.is_valid());
}

#[test]
fn id_map_pairs_in_order() {
    let mut m: IdMap<u32> = IdMap::new();
    m.insert("b".to_string(), 2);
    m.insert("a".to_string(), 1);
    assert_eq!(m.len(), 2);
    assert_eq!(m.entry_at(1), (&"a".to_string(), &1));
}
