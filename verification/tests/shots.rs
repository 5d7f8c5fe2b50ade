use monado_frame::shots::{file_stem, is_png, scan_all, Entry, Stamp};
use monado_frame::times::{cleanup_old, parse_integer, shot_secs, shot_time, Watcher, SCAN_INTERVAL};

fn bytes(s: &str) -> Vec<u8> {
    s.as_bytes().to_vec()
}

fn at(secs: i64) -> Stamp {
    Stamp { secs, nanos: 0 }
}

fn entry(name: &str, secs: i64) -> Entry {
    Entry { name: bytes(name), mtime: Some(at(secs)) }
}

fn names(shots: &[monado_frame::shots::Shot]) -> Vec<String> {
    shots.iter().map(|s| String::from_utf8(s.name.clone()).unwrap()).collect()
}

#[test]
fn png_names() {
    assert!(is_png(&bytes("a.png")));
    assert!(is_png(&bytes("a.PnG")));
    assert!(is_png(&bytes(".a.png")));
    assert!(is_png(&bytes("..png")));
    assert!(!is_png(&bytes(".png")));
    assert!(!is_png(&bytes("png")));
    assert!(!is_png(&bytes("a.png.part")));
    assert!(!is_png(&bytes("a.png ")));
    assert!(!is_png(&bytes("")));
    assert!(is_png(&vec![0xff, 0x2e, 0x70, 0x6e, 0x67]));
}

#[test]
fn stems() {
    assert_eq!(file_stem(&bytes("a.b.png")), bytes("a.b"));
    assert_eq!(file_stem(&bytes(".png")), bytes(".png"));
    assert_eq!(file_stem(&bytes("plain")), bytes("plain"));
}

#[test]
fn scan_sorts_newest_first_and_keeps_order_of_equals() {
    let entries = vec![
        entry("old.png", 10),
        entry("b.png", 20),
        entry("note.txt", 99),
        Entry { name: bytes("lost.png"), mtime: None },
        entry("c.png", 20),
        entry("new.PNG", 30),
    ];
    assert_eq!(names(&scan_all(&entries)), ["new.PNG", "b.png", "c.png", "old.png"]);
    assert!(scan_all(&Vec::new()).is_empty());
}

#[test]
fn nanoseconds_break_ties() {
    let entries = vec![
        Entry { name: bytes("a.png"), mtime: Some(Stamp { secs: 5, nanos: 1 }) },
        Entry { name: bytes("b.png"), mtime: Some(Stamp { secs: 5, nanos: 2 }) },
    ];
    assert_eq!(names(&scan_all(&entries)), ["b.png", "a.png"]);
}

#[test]
fn integers_as_in_file_names() {
    let cases: [(&str, Option<i64>); 12] = [
        ("", None),
        ("+", None),
        ("-", None),
        ("12a", None),
        ("7", Some(7)),
        ("+7", Some(7)),
        ("-7", Some(-7)),
        ("000000000000000000000000012", Some(12)),
        ("9223372036854775807", Some(i64::MAX)),
        ("9223372036854775808", None),
        ("-9223372036854775808", Some(i64::MIN)),
        ("-9223372036854775809", None),
    ];
    for (text, expected) in cases {
        assert_eq!(parse_integer(&bytes(text)), expected, "{text}");
        assert_eq!(text.parse::<i64>().ok(), expected, "{text}");
    }
}

#[test]
fn time_comes_from_the_name() {
    let name = bytes("monado_screenshot_1700000000_3.png");
    assert_eq!(shot_secs(&name, Some(at(5))), Some(1_700_000_000));
    assert_eq!(shot_secs(&bytes("x_1000000000_1000000001.png"), None), Some(1_000_000_001));
}

#[test]
fn time_falls_back_to_the_file() {
    assert_eq!(shot_secs(&bytes("holiday.png"), Some(at(1234))), Some(1234));
    assert_eq!(shot_secs(&bytes("holiday.png"), Some(at(-1))), None);
    assert_eq!(shot_secs(&bytes("holiday.png"), None), None);
    let no_text = vec![0xff, 0x5f, 0x31, 0x37, 0x30, 0x30, 0x30, 0x30, 0x30, 0x30, 0x30, 0x30];
    assert_eq!(shot_secs(&no_text, Some(at(8))), Some(8));
}

#[test]
fn time_as_text() {
    assert_eq!(shot_time(Some(0), Some(0)), "1970/01/01  00:00:00");
    assert_eq!(shot_time(Some(1_700_000_000), Some(0)), "2023/11/14  22:13:20");
    assert_eq!(shot_time(Some(1_700_000_000), Some(2 * 3600)), "2023/11/15  00:13:20");
    assert_eq!(shot_time(Some(951_782_400), Some(0)), "2000/02/29  00:00:00");
    assert_eq!(shot_time(Some(253_402_300_799), Some(0)), "9999/12/31  23:59:59");
    assert_eq!(shot_time(Some(0), Some(-3600)), "1969/12/31  23:00:00");
}

#[test]
fn unknown_times_are_empty() {
    assert_eq!(shot_time(None, Some(0)), "");
    assert_eq!(shot_time(Some(0), None), "");
    assert_eq!(shot_time(Some(i64::MAX), Some(0)), "");
    assert_eq!(shot_time(Some(8_210_266_876_800), Some(0)), "");
    assert_eq!(shot_time(Some(-8_334_601_228_801), Some(0)), "");
    assert_ne!(shot_time(Some(8_210_266_876_799), Some(0)), "");
    assert_ne!(shot_time(Some(-8_334_601_228_800), Some(0)), "");
    assert_ne!(shot_time(Some(8_210_266_876_799), Some(86_399)), "");
    assert_ne!(shot_time(Some(-8_334_601_228_800), Some(-86_399)), "");
    assert_eq!(shot_time(Some(0), Some(86_400)), "");
    assert_eq!(shot_time(Some(0), Some(-86_400)), "");
}

#[test]
fn screenshots_are_new_once() {
    let first = scan_all(&vec![entry("a.png", 10)]);
    let mut w = Watcher::new(&first, 0);
    assert_eq!(w.take_new(&first), 0);
    let more = scan_all(&vec![entry("a.png", 10), entry("b.png", 11), entry("c.png", 12)]);
    assert_eq!(w.take_new(&more), 2);
    assert_eq!(w.take_new(&more), 0);
    assert_eq!(w.newest, Some(at(12)));
    assert_eq!(w.take_new(&Vec::new()), 0);
    assert_eq!(w.newest, Some(at(12)));
}

#[test]
fn removed_screenshots_make_none_new() {
    let all = scan_all(&vec![entry("a.png", 10), entry("b.png", 11), entry("c.png", 12)]);
    let mut w = Watcher::new(&all, 0);
    assert_eq!(w.take_new(&scan_all(&vec![entry("a.png", 10), entry("b.png", 11)])), 0);
    assert_eq!(w.take_new(&scan_all(&vec![entry("b.png", 11), entry("d.png", 12)])), 1);
}

#[test]
fn everything_is_new_in_a_folder_that_was_empty() {
    let mut w = Watcher::new(&Vec::new(), 0);
    assert_eq!(w.take_new(&scan_all(&vec![entry("a.png", 1), entry("b.png", 2)])), 2);
}

#[test]
fn looks_are_an_interval_apart() {
    let mut w = Watcher::new(&Vec::new(), 100);
    assert!(!w.due(100));
    assert!(!w.due(100 + SCAN_INTERVAL));
    assert!(w.due(101 + SCAN_INTERVAL));
    assert!(!w.due(102 + SCAN_INTERVAL));
    assert_eq!(w.last_scan, 101 + SCAN_INTERVAL);
    assert!(!w.due(0));
}

#[test]
fn cleanup_takes_what_is_older() {
    let shots = scan_all(&vec![entry("new.png", 86_400 * 10), entry("edge.png", 86_400 * 8), entry("old.png", 86_400 * 8 - 1)]);
    let now = at(86_400 * 10);
    assert_eq!(cleanup_old(&shots, now, 2), vec![bytes("old.png")]);
    assert_eq!(cleanup_old(&shots, now, 1), vec![bytes("edge.png"), bytes("old.png")]);
    assert!(cleanup_old(&shots, now, 0).is_empty());
    assert!(cleanup_old(&shots, now, -3).is_empty());
    assert!(cleanup_old(&shots, at(i64::MIN), 1).is_empty());
}

#[test]
fn cleanup_compares_nanoseconds() {
    let shots = scan_all(&vec![Entry { name: bytes("a.png"), mtime: Some(Stamp { secs: 0, nanos: 4 }) }]);
    assert!(cleanup_old(&shots, Stamp { secs: 86_400, nanos: 4 }, 1).is_empty());
    assert_eq!(cleanup_old(&shots, Stamp { secs: 86_400, nanos: 5 }, 1).len(), 1);
}
