use monado_frame::photos::{photo_action, PhotoButtons, PhotoClicks, PhotoEffect, Photos, Services};
use monado_frame::shots::PhotoAction;

const BOTH: Services = Services { translate: true, share: true };
const NEITHER: Services = Services { translate: false, share: false };

fn name(s: &str) -> Vec<u8> {
    s.as_bytes().to_vec()
}

fn with_one() -> Photos {
    let mut p = Photos::new();
    assert_eq!(p.open_photo(&name("a.png"), "today", true), Some(0));
    p
}

fn no_clicks() -> PhotoClicks {
    PhotoClicks { copy: false, delete: false, translate: false, toggle: false, share: false, close: false }
}

#[test]
fn three_windows_and_the_first_is_reused() {
    let mut p = Photos::new();
    assert!(!p.any_open());
    for i in 0..3 {
        assert_eq!(p.open_photo(&name("x"), "", true), Some(i));
    }
    assert_eq!(p.slots.iter().filter(|s| s.open).count(), 3);
    assert_eq!(p.open_photo(&name("y"), "w", true), Some(0));
    assert_eq!(p.slots.len(), 3);
    assert_eq!(p.slots[0].name, Some(name("y")));
    assert_eq!(p.slots[0].when, "w");
    p.close_slot(1);
    assert_eq!(p.free_slot(), 1);
    assert!(p.any_open());
}

#[test]
fn a_photo_that_does_not_load_changes_nothing() {
    let mut p = with_one();
    assert_eq!(p.open_photo(&name("b.png"), "", false), None);
    assert!(!p.slots[1].open);
    assert_eq!(p.slots[0].name, Some(name("a.png")));
}

#[test]
fn closed_windows_hold_nothing() {
    let mut p = with_one();
    assert!(matches!(p.act(0, PhotoAction::Dismiss), PhotoEffect::Nothing));
    let s = &p.slots[0];
    assert!(!s.open && s.name.is_none() && s.when.is_empty() && s.text.is_none() && !s.show_text && s.job.is_none());
}

#[test]
fn copy_delete_and_share() {
    let mut p = with_one();
    assert!(matches!(p.act(0, PhotoAction::Nothing), PhotoEffect::Nothing));
    assert!(matches!(p.act(0, PhotoAction::Copy), PhotoEffect::CopyImage(n) if n == name("a.png")));
    assert!(matches!(p.act(0, PhotoAction::Share), PhotoEffect::Share(n) if n == name("a.png")));
    assert!(p.slots[0].open);
    assert!(matches!(p.act(0, PhotoAction::Delete), PhotoEffect::DeleteFile(n) if n == name("a.png")));
    assert!(!p.slots[0].open);
}

#[test]
fn texts_have_a_window_too() {
    let mut p = Photos::new();
    assert_eq!(p.open_text(String::from("hi"), String::from("w")), 0);
    assert!(p.slots[0].show_text);
    assert!(matches!(p.act(0, PhotoAction::Copy), PhotoEffect::CopyText(t) if t == "hi"));
    assert!(matches!(p.act(0, PhotoAction::Translate), PhotoEffect::Nothing));
    assert!(matches!(p.act(0, PhotoAction::Share), PhotoEffect::Nothing));
    let b = p.slots[0].buttons(BOTH);
    assert_eq!(b, PhotoButtons { delete: false, translate: false, toggle: false, share: false });
    assert!(matches!(p.act(0, PhotoAction::Delete), PhotoEffect::Nothing));
    assert!(!p.slots[0].open);
}

#[test]
fn translations_come_back_to_their_window() {
    let mut p = with_one();
    p.open_photo(&name("b.png"), "", true);
    assert!(matches!(p.act(0, PhotoAction::Translate), PhotoEffect::Translate(0, n) if n == name("a.png")));
    assert!(matches!(p.act(0, PhotoAction::Translate), PhotoEffect::Nothing));
    assert!(matches!(p.act(1, PhotoAction::Translate), PhotoEffect::Translate(1, n) if n == name("b.png")));
    assert_eq!(p.translated(1, Ok(String::from("two"))), Some(1));
    assert_eq!(p.slots[1].text.as_deref(), Some("two"));
    assert!(p.slots[1].show_text && p.slots[1].job.is_none());
    assert_eq!(p.translated(0, Err(String::from("request failed: x"))), Some(0));
    assert_eq!(p.slots[0].text.as_deref(), Some("request failed: x"));
    assert_eq!(p.translated(0, Ok(String::new())), None);
}

#[test]
fn a_failed_translation_can_be_tried_again() {
    let mut p = with_one();
    p.act(0, PhotoAction::Translate);
    assert!(!p.slots[0].buttons(BOTH).translate);
    p.translated(0, Err(String::from("request failed: x")));
    assert!(p.slots[0].buttons(BOTH).translate && p.slots[0].buttons(BOTH).toggle);
    assert!(matches!(p.act(0, PhotoAction::Translate), PhotoEffect::Translate(1, n) if n == name("a.png")));
    assert_eq!(p.translated(1, Ok(String::from("t"))), Some(0));
    assert_eq!(p.slots[0].text.as_deref(), Some("t"));
}

#[test]
fn a_translation_for_a_closed_window_is_dropped() {
    let mut p = with_one();
    p.act(0, PhotoAction::Translate);
    p.act(0, PhotoAction::Dismiss);
    p.open_photo(&name("b.png"), "", true);
    assert_eq!(p.translated(0, Ok(String::from("late"))), None);
    assert!(p.slots[0].text.is_none());
}

#[test]
fn views_toggle_back_and_forth() {
    let mut p = with_one();
    p.act(0, PhotoAction::ToggleView);
    assert!(!p.slots[0].show_text);
    p.act(0, PhotoAction::Translate);
    p.translated(0, Ok(String::from("t")));
    assert!(p.slots[0].buttons(NEITHER).toggle);
    p.act(0, PhotoAction::ToggleView);
    assert!(!p.slots[0].show_text);
    p.act(0, PhotoAction::ToggleView);
    assert!(p.slots[0].show_text);
}

#[test]
fn unconfigured_services_have_no_buttons() {
    let p = with_one();
    assert_eq!(p.slots[0].buttons(NEITHER), PhotoButtons { delete: true, translate: false, toggle: false, share: false });
    assert_eq!(p.slots[0].buttons(BOTH), PhotoButtons { delete: true, translate: true, toggle: false, share: true });
    let all = PhotoClicks { translate: true, share: true, ..no_clicks() };
    assert_eq!(photo_action(all, p.slots[0].buttons(NEITHER)), PhotoAction::Nothing);
}

#[test]
fn later_photo_buttons_win() {
    let b = PhotoButtons { delete: true, translate: true, toggle: true, share: true };
    let mut c = no_clicks();
    assert_eq!(photo_action(c, b), PhotoAction::Nothing);
    c.copy = true;
    assert_eq!(photo_action(c, b), PhotoAction::Copy);
    c.delete = true;
    assert_eq!(photo_action(c, b), PhotoAction::Delete);
    c.translate = true;
    assert_eq!(photo_action(c, b), PhotoAction::Translate);
    c.toggle = true;
    assert_eq!(photo_action(c, b), PhotoAction::ToggleView);
    c.share = true;
    assert_eq!(photo_action(c, b), PhotoAction::Share);
    c.close = true;
    assert_eq!(photo_action(c, b), PhotoAction::Dismiss);
}
