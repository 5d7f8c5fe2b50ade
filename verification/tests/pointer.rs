use monado_frame::pointer::{aim, begun, laser, nearest, pointer_on, presses, Grab, Hand, HandAim, Hit, PanelEvent, PanelPointer, Target, GRAB_RELEASE, GRAB_START, SELECT};

fn hit(target: Target, metres: f32) -> Hit {
    Hit { target, distance: metres.to_bits() }
}

fn hand(hits: Vec<Hit>, squeezes: bool) -> Hand {
    Hand { located: true, hits, force: if squeezes { 0.41f32.to_bits() } else { 0.40f32.to_bits() } }
}

#[test]
fn thresholds_are_the_bits_of_their_numbers() {
    assert_eq!(GRAB_START, 0.40f32.to_bits());
    assert_eq!(GRAB_RELEASE, 0.15f32.to_bits());
    assert_eq!(SELECT, 0.5f32.to_bits());
    assert!(!presses(0.5f32.to_bits()) && presses(0.51f32.to_bits()) && !presses(0));
}

#[test]
fn the_nearest_panel_counts() {
    let hits = vec![hit(Target::Settings, 1.5), hit(Target::Gallery, 0.25), hit(Target::Photo(1), 0.25), hit(Target::Wrist, 30.0)];
    assert_eq!(nearest(&hits), Some(1));
    assert_eq!(nearest(&Vec::new()), None);
}

#[test]
fn hands_point() {
    let hands = vec![hand(vec![hit(Target::Settings, 1.0)], false), hand(vec![hit(Target::Settings, 2.0)], false)];
    let aims = aim(&hands);
    assert_eq!(aims, [HandAim::Points(0), HandAim::Points(0)]);
    assert_eq!(pointer_on(&hands, &aims, Target::Settings), Some(1));
    assert_eq!(pointer_on(&hands, &aims, Target::Gallery), None);
    assert_eq!(laser(&aims), Some((1, 0)));
    assert_eq!(begun(&hands, &aims), None);
}

#[test]
fn the_first_squeeze_grabs_and_the_other_hand_points() {
    let hands = vec![
        hand(vec![hit(Target::Gallery, 2.0), hit(Target::Photo(2), 1.0)], true),
        hand(vec![hit(Target::Gallery, 1.0)], true),
    ];
    let aims = aim(&hands);
    assert_eq!(aims, [HandAim::Grabs(1), HandAim::Points(0)]);
    assert_eq!(begun(&hands, &aims), Some(Grab { target: Target::Photo(2), hand: 0 }));
    assert_eq!(laser(&aims), Some((1, 0)));
    assert_eq!(pointer_on(&hands, &aims, Target::Photo(2)), None);
    assert_eq!(pointer_on(&hands, &aims, Target::Gallery), Some(1));
}

#[test]
fn a_hand_that_grabs_has_no_laser() {
    let hands = vec![hand(vec![hit(Target::Settings, 1.0)], false), hand(vec![hit(Target::Settings, 1.0)], true)];
    let aims = aim(&hands);
    assert_eq!(aims, [HandAim::Points(0), HandAim::Grabs(0)]);
    assert_eq!(laser(&aims), None);
}

#[test]
fn the_wrist_card_is_not_grabbed() {
    let hands = vec![hand(vec![hit(Target::Wrist, 0.5), hit(Target::Settings, 1.0)], true)];
    let aims = aim(&hands);
    assert_eq!(aims, [HandAim::Points(0)]);
    assert_eq!(pointer_on(&hands, &aims, Target::Wrist), Some(0));
    assert_eq!(begun(&hands, &aims), None);
}

#[test]
fn lost_hands_do_nothing() {
    let lost = Hand { located: false, hits: vec![hit(Target::Settings, 1.0)], force: 1.0f32.to_bits() };
    let aims = aim(&vec![lost, hand(Vec::new(), true)]);
    assert_eq!(aims, [HandAim::Idle, HandAim::Idle]);
    assert_eq!(laser(&aims), None);
}

#[test]
fn a_click_is_told_in_order() {
    let mut p = PanelPointer::new();
    assert_eq!(p.update(None), []);
    assert_eq!(p.update(Some(false)), [PanelEvent::Moved]);
    assert_eq!(p.update(Some(true)), [PanelEvent::Moved, PanelEvent::Button(true)]);
    assert_eq!(p.update(Some(true)), [PanelEvent::Moved]);
    assert_eq!(p.update(Some(false)), [PanelEvent::Moved, PanelEvent::Button(false)]);
    assert_eq!(p.update(None), [PanelEvent::Gone]);
    assert_eq!(p.update(None), []);
}

#[test]
fn presses_and_releases_come_in_turn() {
    let mut p = PanelPointer::new();
    let mut heard = Vec::new();
    for pointer in [Some(true), Some(true), None, None, Some(false), Some(true), None, Some(true), Some(false)] {
        for e in p.update(pointer) {
            match e {
                PanelEvent::Button(d) | PanelEvent::ButtonAtLast(d) => heard.push(d),
                _ => {}
            }
        }
    }
    assert_eq!(heard, [true, false, true, false, true, false]);
}

#[test]
fn leaving_a_panel_releases_the_button() {
    let mut p = PanelPointer::new();
    assert_eq!(p.update(Some(true)), [PanelEvent::Moved, PanelEvent::Button(true)]);
    assert_eq!(p.update(None), [PanelEvent::Gone, PanelEvent::ButtonAtLast(false)]);
    assert_eq!(p, PanelPointer { on: false, down: false });
}
