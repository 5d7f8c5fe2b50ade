use monado_frame::session::{
    choose_format, graphics_queue, is_srgb, missing_extension, Lifecycle, SessionEvent, SessionState, SessionStep,
    B8G8R8A8_SRGB, B8G8R8A8_UNORM, R8G8B8A8_SRGB, R8G8B8A8_UNORM,
};

#[test]
fn a_session_lives_and_ends() {
    let mut l = Lifecycle::new();
    assert_eq!(l.on_event(SessionEvent::Other), SessionStep::Nothing);
    assert_eq!(l.on_event(SessionEvent::StateChanged(SessionState::Ready)), SessionStep::Begin);
    assert!(l.running && !l.focused);
    assert_eq!(l.on_event(SessionEvent::StateChanged(SessionState::Focused)), SessionStep::Nothing);
    assert!(l.running && l.focused);
    assert_eq!(l.on_event(SessionEvent::Other), SessionStep::Nothing);
    assert!(l.focused);
    assert_eq!(l.on_event(SessionEvent::StateChanged(SessionState::Other)), SessionStep::Nothing);
    assert!(l.running && !l.focused);
    assert_eq!(l.on_event(SessionEvent::StateChanged(SessionState::Stopping)), SessionStep::End);
    assert!(!l.running && !l.focused);
    assert_eq!(l.on_event(SessionEvent::StateChanged(SessionState::Exiting)), SessionStep::Quit);
    assert_eq!(l.on_event(SessionEvent::StateChanged(SessionState::LossPending)), SessionStep::Quit);
    assert_eq!(l.on_event(SessionEvent::InstanceLossPending), SessionStep::Quit);
}

#[test]
fn needed_extensions() {
    assert_eq!(missing_extension(true, true), None);
    assert_eq!(missing_extension(false, false), Some(String::from("runtime is missing XR_KHR_vulkan_enable2")));
    assert_eq!(missing_extension(true, false), Some(String::from("runtime is missing XR_EXTX_overlay")));
}

#[test]
fn image_formats_by_preference() {
    assert_eq!(choose_format(&vec![37, 44, 43, 50]), B8G8R8A8_SRGB);
    assert_eq!(choose_format(&vec![37, 44, 43]), R8G8B8A8_SRGB);
    assert_eq!(choose_format(&vec![37, 44]), B8G8R8A8_UNORM);
    assert_eq!(choose_format(&vec![1, 37]), R8G8B8A8_UNORM);
    assert_eq!(choose_format(&vec![97]), B8G8R8A8_SRGB);
    assert!(is_srgb(50) && is_srgb(43) && !is_srgb(44) && !is_srgb(37));
}

#[test]
fn image_formats_have_the_numbers_of_vulkan() {
    assert_eq!(ash::vk::Format::B8G8R8A8_SRGB.as_raw() as i64, B8G8R8A8_SRGB);
    assert_eq!(ash::vk::Format::R8G8B8A8_SRGB.as_raw() as i64, R8G8B8A8_SRGB);
    assert_eq!(ash::vk::Format::B8G8R8A8_UNORM.as_raw() as i64, B8G8R8A8_UNORM);
    assert_eq!(ash::vk::Format::R8G8B8A8_UNORM.as_raw() as i64, R8G8B8A8_UNORM);
}

#[test]
fn the_first_queue_that_can_draw() {
    assert_eq!(graphics_queue(&vec![false, true, true]), Some(1));
    assert_eq!(graphics_queue(&vec![false]), None);
    assert_eq!(graphics_queue(&Vec::new()), None);
}
