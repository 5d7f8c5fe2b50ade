use monado_frame::wrist::{is_link, notice, opening, Opening, Pending, Queue, WristClicks, WristGate, MAX_PENDING};

fn pending(n: usize) -> Pending {
    Pending { name: format!("{n}").into_bytes(), when: String::from("now"), code: None }
}

fn order(q: &Queue) -> Vec<String> {
    q.items.iter().map(|p| String::from_utf8(p.name.clone()).unwrap()).collect()
}

const OPEN: WristClicks = WristClicks { open: true, older: false, newer: false };
const OLDER: WristClicks = WristClicks { open: false, older: true, newer: false };
const NEWER: WristClicks = WristClicks { open: false, older: false, newer: true };

fn queue(n: usize) -> Queue {
    let mut q = Queue::new();
    q.announce((0..n).map(pending).collect(), n > 0);
    q
}

#[test]
fn newest_notifications_come_first() {
    let mut q = queue(3);
    assert_eq!(order(&q), ["2", "1", "0"]);
    q.click(OLDER);
    assert_eq!(q.at, 1);
    q.announce(vec![pending(3)], true);
    assert_eq!(order(&q), ["3", "2", "1", "0"]);
    assert_eq!(q.at, 0);
}

#[test]
fn no_more_than_six_wait() {
    let mut q = queue(9);
    assert_eq!(q.items.len(), MAX_PENDING);
    assert_eq!(order(&q), ["8", "7", "6", "5", "4", "3"]);
    q.announce(vec![pending(9)], true);
    assert_eq!(order(&q), ["9", "8", "7", "6", "5", "4"]);
}

#[test]
fn new_screenshots_without_preview_still_reset_the_card() {
    let mut q = queue(3);
    q.click(OLDER);
    q.announce(Vec::new(), true);
    assert_eq!((q.at, q.items.len()), (0, 3));
    q.click(OLDER);
    q.announce(Vec::new(), false);
    assert_eq!(q.at, 1);
}

#[test]
fn scrolling_stays_in_the_queue() {
    let mut q = queue(2);
    assert!(q.has_older());
    assert_eq!(q.place_label(), "1 / 2");
    q.click(NEWER);
    assert_eq!(q.at, 0);
    q.click(OLDER);
    q.click(OLDER);
    assert_eq!(q.at, 1);
    assert!(!q.has_older());
    assert_eq!(q.place_label(), "2 / 2");
    q.click(NEWER);
    assert_eq!(q.at, 0);
}

#[test]
fn opened_notifications_leave() {
    let mut q = queue(3);
    q.click(OLDER);
    q.click(OLDER);
    assert_eq!(q.click(OPEN).unwrap().name, b"0");
    assert_eq!((q.at, q.items.len()), (1, 2));
    assert_eq!(q.click(OPEN).unwrap().name, b"1");
    assert_eq!(q.click(OPEN).unwrap().name, b"2");
    assert_eq!((q.at, q.items.len()), (0, 0));
    assert!(q.click(OPEN).is_none());
}

#[test]
fn opening_in_the_middle_shows_the_next() {
    let mut q = queue(3);
    q.click(OLDER);
    assert_eq!(q.click(OPEN).unwrap().name, b"1");
    assert_eq!(q.at, 1);
    assert_eq!(order(&q), ["2", "0"]);
}

#[test]
fn scroll_buttons_win_over_the_preview() {
    let mut q = queue(3);
    assert!(q.click(WristClicks { open: true, older: true, newer: false }).is_none());
    assert_eq!(q.at, 1);
    assert!(q.click(WristClicks { open: true, older: true, newer: true }).is_none());
    assert_eq!(q.at, 0);
    let mut one = queue(1);
    assert!(one.click(WristClicks { open: true, older: true, newer: true }).is_some());
}

#[test]
fn codes_are_announced_when_asked_for() {
    let code = || Some(String::from("hi"));
    let n = notice(vec![1], String::from("w"), code(), true, true, false);
    assert!(!n.delete);
    assert_eq!(n.pending.unwrap().code, code());
    let n = notice(vec![1], String::from("w"), code(), false, true, true);
    assert!(n.delete && n.pending.is_some());
    let n = notice(vec![1], String::from("w"), code(), true, false, true);
    assert!(!n.delete);
    assert_eq!(n.pending.unwrap().code, None);
    let n = notice(vec![1], String::from("w"), None, true, true, true);
    assert!(!n.delete);
    let p = n.pending.unwrap();
    assert_eq!((p.name, p.when, p.code), (vec![1], String::from("w"), None));
    assert!(notice(vec![1], String::from("w"), None, false, true, true).pending.is_none());
}

#[test]
fn links() {
    assert!(is_link("https://example.com"));
    assert!(is_link("HTTP://EXAMPLE.COM"));
    assert!(!is_link("https:/example.com"));
    assert!(!is_link("http"));
    assert!(!is_link(" http://x"));
    assert!(!is_link("WIFI:S:net;;"));
}

#[test]
fn notifications_open_as_what_they_are() {
    let with = |code: Option<&str>| Pending { name: vec![7], when: String::from("w"), code: code.map(String::from) };
    assert!(matches!(opening(with(None)), Opening::Photo(n, w) if n == [7] && w == "w"));
    assert!(matches!(opening(with(Some("http://a"))), Opening::Link(l) if l == "http://a"));
    assert!(matches!(opening(with(Some("text"))), Opening::Text(t, w) if t == "text" && w == "w"));
}

#[test]
fn the_card_shows_while_it_faces_the_head() {
    let mut g = WristGate::new();
    assert!(!g.update(true, true, false, true));
    assert!(g.update(true, true, true, true));
    assert!(g.update(true, true, false, true));
    assert!(!g.update(true, true, false, false));
    assert!(!g.update(true, true, false, true));
    assert!(g.update(true, true, true, true));
    assert!(!g.update(true, false, true, true));
    assert!(!g.update(false, true, true, true));
    assert!(!g.shown);
}
