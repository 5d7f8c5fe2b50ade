use monado_frame::overlay::{autosave, wants_input, Drawn, Layer, Overlay, SettingsFrame, SystemButton, DOUBLE_PRESS};
use monado_frame::pointer::{Grab, Hand, HandAim, Hit, Target};
use monado_frame::wrist::Pending;

const HARD: u32 = 0x3e4c_cccd;

fn drawn() -> Drawn {
    Drawn { settings: false, gallery: false, photos: vec![false; 3], wrist: false, laser: false }
}

fn press(o: &mut Overlay, now: u64) -> Option<bool> {
    let r = o.system_button(true, now);
    o.system_button(false, now);
    r
}

#[test]
fn a_double_press_toggles_the_settings() {
    let mut o = Overlay::new();
    assert!(!o.settings_visible);
    assert_eq!(press(&mut o, 0), None);
    assert_eq!(press(&mut o, DOUBLE_PRESS - 1), Some(true));
    assert!(o.settings_visible);
    assert_eq!(press(&mut o, DOUBLE_PRESS), None);
    assert_eq!(press(&mut o, DOUBLE_PRESS + 5), Some(false));
    assert!(!o.settings_visible);
}

#[test]
fn slow_presses_do_not_toggle() {
    let mut o = Overlay::new();
    assert_eq!(press(&mut o, 0), None);
    assert_eq!(press(&mut o, DOUBLE_PRESS), None);
    assert_eq!(press(&mut o, 2 * DOUBLE_PRESS), None);
    assert_eq!(press(&mut o, 2 * DOUBLE_PRESS + 1), Some(true));
}

#[test]
fn no_press_counts_twice() {
    let mut o = Overlay::new();
    let shown: Vec<Option<bool>> = (0..5).map(|i| press(&mut o, i)).collect();
    assert_eq!(shown, [None, Some(true), None, Some(false), None]);
}

#[test]
fn a_held_button_counts_once() {
    let mut b = SystemButton::new();
    assert!(!b.update(true, 0));
    assert!(!b.update(true, 1));
    assert!(!b.update(false, 2));
    assert!(b.update(true, 3));
    assert!(!b.update(true, 4));
}

#[test]
fn changes_are_written_on_release() {
    let f = |changed, pressed| SettingsFrame { changed, pressed };
    assert_eq!(autosave(false, f(false, false)), (false, false));
    assert_eq!(autosave(false, f(true, true)), (false, true));
    assert_eq!(autosave(true, f(true, true)), (false, true));
    assert_eq!(autosave(true, f(false, true)), (false, true));
    assert_eq!(autosave(true, f(true, false)), (true, false));
    assert_eq!(autosave(false, f(true, false)), (false, true));
}

#[test]
fn targets_are_the_panels_that_are_up() {
    let mut o = Overlay::new();
    assert!(o.idle(false));
    assert!(!o.idle(true));
    assert_eq!(o.targets(false), []);
    o.settings_visible = true;
    o.gallery.open(Vec::new());
    o.photos.open_photo(&vec![1], "", true);
    o.photos.open_photo(&vec![2], "", true);
    o.photos.close_slot(0);
    assert_eq!(o.targets(true), [Target::Settings, Target::Gallery, Target::Photo(1), Target::Wrist]);
    assert!(!o.idle(false));
}

#[test]
fn a_panel_stays_held_while_it_is_gripped() {
    assert_eq!(f32::from_bits(HARD), 0.2);
    let mut o = Overlay::new();
    o.grab = Some(Grab { target: Target::Gallery, hand: 1 });
    for force in [0.9f32, 0.2, 0.151, 1.0] {
        assert_eq!(o.hold(true, force.to_bits()), Some(Target::Gallery));
        assert_eq!(o.grab, Some(Grab { target: Target::Gallery, hand: 1 }));
    }
    assert_eq!(o.hold(true, 0.149f32.to_bits()), None);
    assert_eq!(o.hold(true, 1.0f32.to_bits()), None);
}

#[test]
fn panels_are_held_until_the_hand_lets_go() {
    let mut o = Overlay::new();
    o.settings_visible = true;
    let hands = vec![
        Hand { located: true, hits: vec![Hit { target: Target::Settings, distance: 1 }], force: 0.5f32.to_bits() },
        Hand { located: true, hits: Vec::new(), force: 0.5f32.to_bits() },
    ];
    assert_eq!(o.hold(true, HARD), None);
    assert_eq!(o.point(&hands), [HandAim::Grabs(0), HandAim::Idle]);
    assert_eq!(o.grab, Some(Grab { target: Target::Settings, hand: 0 }));
    assert_eq!(o.hold(true, HARD), Some(Target::Settings));
    assert_eq!(o.hold(true, 0.15f32.to_bits()), None);
    assert_eq!(o.grab, None);
    o.point(&hands);
    assert_eq!(o.hold(false, HARD), None);
    assert_eq!(o.grab, None);
    o.point(&hands);
    press(&mut o, 0);
    assert!(o.grab.is_some());
    press(&mut o, 1);
    assert!(o.grab.is_none());
}

#[test]
fn layers_are_what_was_drawn_and_is_up() {
    let mut o = Overlay::new();
    o.photos.open_photo(&vec![1], "", true);
    o.photos.open_photo(&vec![2], "", true);
    let d = Drawn { settings: true, gallery: true, photos: vec![false, true, true], wrist: true, laser: true };
    assert_eq!(
        o.layers(&d),
        [Layer::Panel(Target::Settings), Layer::Panel(Target::Gallery), Layer::Panel(Target::Photo(1)), Layer::Laser]
    );
    o.queue.announce(vec![Pending { name: vec![1], when: String::new(), code: None }], true);
    assert_eq!(o.layers(&Drawn { wrist: true, ..drawn() }), [Layer::Panel(Target::Wrist)]);
    assert_eq!(o.layers(&drawn()), []);
}

#[test]
fn input_is_kept_while_pointing_or_holding() {
    assert!(!wants_input(false, &vec![HandAim::Idle, HandAim::Idle]));
    assert!(wants_input(false, &vec![HandAim::Idle, HandAim::Points(0)]));
    assert!(wants_input(false, &vec![HandAim::Grabs(1)]));
    assert!(wants_input(true, &Vec::new()));
}
