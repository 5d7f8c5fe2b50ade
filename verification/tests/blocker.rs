use monado_frame::blocker::{Blocker, ClientFlags, Command};

fn client(active: bool, visible: bool, overlay: bool) -> Option<ClientFlags> {
    Some(ClientFlags { active, visible, overlay })
}

#[test]
fn input_blocks_need_a_recent_runtime() {
    assert!(Blocker::new(Some((1, 6, 0))).use_io_blocks);
    assert!(Blocker::new(Some((1, 7, 0))).use_io_blocks);
    assert!(Blocker::new(Some((2, 0, 0))).use_io_blocks);
    assert!(!Blocker::new(Some((1, 5, 99))).use_io_blocks);
    assert!(!Blocker::new(Some((0, 9, 9))).use_io_blocks);
    let off = Blocker::new(None);
    assert!(!off.connected && !off.use_io_blocks && !off.blocked);
}

#[test]
fn blocking_is_edge_triggered() {
    let mut b = Blocker::new(Some((1, 6, 0)));
    assert_eq!(b.set(false), None);
    assert_eq!(b.release(), None);
    assert_eq!(b.set(true), Some(true));
    assert_eq!(b.set(true), None);
    assert_eq!(b.release(), Some(false));
    assert_eq!(b.set(false), Some(false));
    assert_eq!(b.release(), None);
}

#[test]
fn the_runtime_is_told_in_turn() {
    let mut b = Blocker::new(Some((1, 6, 0)));
    let calls = [false, true, true, true, false, false, true, false];
    let told: Vec<bool> = calls.iter().filter_map(|c| b.set(*c)).collect();
    assert_eq!(told, [true, false, true, false]);
}

#[test]
fn only_the_game_is_blocked() {
    let clients = vec![client(true, true, false), client(true, true, true), client(true, false, false), client(false, true, false), None];
    let new = Blocker::new(Some((1, 6, 0)));
    assert_eq!(new.apply(true, &clients), vec![Some(Command::BlockInputs(true)), None, None, None, None]);
    assert_eq!(new.apply(false, &clients)[0], Some(Command::BlockInputs(false)));
    let old = Blocker::new(Some((1, 3, 0)));
    assert_eq!(old.apply(true, &clients)[0], Some(Command::IoActive(false)));
    assert_eq!(old.apply(false, &clients)[0], Some(Command::IoActive(true)));
    assert_eq!(Blocker::new(None).apply(true, &clients), vec![None; 5]);
}
