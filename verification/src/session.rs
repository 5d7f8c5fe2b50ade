//! The overlay session: what it needs of the runtime and the graphics device, and how it
//! follows the runtime's states.

use vstd::prelude::*;

verus! {

/// The states that the runtime can put a session in.
#[derive(Clone, Copy, PartialEq, Eq, Debug, Structural)]
pub enum SessionState {
    Ready,
    Focused,
    Stopping,
    Exiting,
    LossPending,
    Other,
}

/// What the runtime reports.
#[derive(Clone, Copy, PartialEq, Eq, Debug, Structural)]
pub enum SessionEvent {
    StateChanged(SessionState),
    InstanceLossPending,
    Other,
}

/// What is to be done about a report.
#[derive(Clone, Copy, PartialEq, Eq, Debug, Structural)]
pub enum SessionStep {
    Nothing,
    Begin,
    End,
    Quit,
}

/// Whether frames are to be drawn, and whether the controllers are the overlay's to read.
#[derive(Clone, Copy, PartialEq, Eq, Debug, Structural)]
pub struct Lifecycle {
    pub running: bool,
    pub focused: bool,
}

/// What is to be done about a report.
pub open spec fn step_for(event: SessionEvent) -> SessionStep {
    match event {
        SessionEvent::StateChanged(SessionState::Ready) => SessionStep::Begin,
        SessionEvent::StateChanged(SessionState::Stopping) => SessionStep::End,
        SessionEvent::StateChanged(SessionState::Exiting) => SessionStep::Quit,
        SessionEvent::StateChanged(SessionState::LossPending) => SessionStep::Quit,
        SessionEvent::InstanceLossPending => SessionStep::Quit,
        _ => SessionStep::Nothing,
    }
}

/// The lifecycle after a report, and after what it asks for has been done.
pub open spec fn lifecycle_after(l: Lifecycle, event: SessionEvent) -> Lifecycle {
    Lifecycle {
        running: match step_for(event) {
            SessionStep::Begin => true,
            SessionStep::End => false,
            _ => l.running,
        },
        focused: match event {
            SessionEvent::StateChanged(s) => s == SessionState::Focused,
            _ => l.focused,
        },
    }
}

impl Lifecycle {
    pub fn new() -> (r: Lifecycle)
        ensures
            !r.running,
            !r.focused,
    {
        Lifecycle { running: false, focused: false }
    }

    /// Follows a report of the runtime.
    pub fn on_event(&mut self, event: SessionEvent) -> (r: SessionStep)
        ensures
            r == step_for(event),
            *final(self) == lifecycle_after(*old(self), event),
    {
        match event {
            SessionEvent::StateChanged(state) => {
                self.focused = state == SessionState::Focused;
                match state {
                    SessionState::Ready => {
                        self.running = true;
                        SessionStep::Begin
                    },
                    SessionState::Stopping => {
                        self.running = false;
                        SessionStep::End
                    },
                    SessionState::Exiting => SessionStep::Quit,
                    SessionState::LossPending => SessionStep::Quit,
                    _ => SessionStep::Nothing,
                }
            },
            SessionEvent::InstanceLossPending => SessionStep::Quit,
            SessionEvent::Other => SessionStep::Nothing,
        }
    }
}

/// The lifecycle after a number of reports.
pub open spec fn lifecycle_run(events: Seq<SessionEvent>) -> Lifecycle
    decreases events.len(),
{
    if events.len() == 0 {
        Lifecycle { running: false, focused: false }
    } else {
        lifecycle_after(lifecycle_run(events.drop_last()), events.last())
    }
}

/// A session that has been told to stop draws nothing and reads no controllers until it is
/// told to start again.
pub proof fn law_stopped_session_rests(events: Seq<SessionEvent>)
    requires
        events.len() > 0,
        events.last() == SessionEvent::StateChanged(SessionState::Stopping),
    ensures
        !lifecycle_run(events).running,
        !lifecycle_run(events).focused,
{
}

/// Why the overlay cannot run on a runtime, where it lacks something that is needed.
pub fn missing_extension(vulkan_enable2: bool, overlay: bool) -> (r: Option<String>)
    ensures
        match r {
            Some(why) => if !vulkan_enable2 {
                why@ == "runtime is missing XR_KHR_vulkan_enable2"@
            } else {
                !overlay && why@ == "runtime is missing XR_EXTX_overlay"@
            },
            None => vulkan_enable2 && overlay,
        },
{
    if !vulkan_enable2 {
        Some(String::from_str("runtime is missing XR_KHR_vulkan_enable2"))
    } else if !overlay {
        Some(String::from_str("runtime is missing XR_EXTX_overlay"))
    } else {
        None
    }
}

/// `VK_FORMAT_B8G8R8A8_SRGB`.
pub const B8G8R8A8_SRGB: i64 = 50;

/// `VK_FORMAT_R8G8B8A8_SRGB`.
pub const R8G8B8A8_SRGB: i64 = 43;

/// `VK_FORMAT_B8G8R8A8_UNORM`.
pub const B8G8R8A8_UNORM: i64 = 44;

/// `VK_FORMAT_R8G8B8A8_UNORM`.
pub const R8G8B8A8_UNORM: i64 = 37;

/// The image format to draw in: the most wanted one that is offered.
pub open spec fn wanted_format(offered: Seq<i64>) -> i64 {
    if offered.contains(B8G8R8A8_SRGB) {
        B8G8R8A8_SRGB
    } else if offered.contains(R8G8B8A8_SRGB) {
        R8G8B8A8_SRGB
    } else if offered.contains(B8G8R8A8_UNORM) {
        B8G8R8A8_UNORM
    } else if offered.contains(R8G8B8A8_UNORM) {
        R8G8B8A8_UNORM
    } else {
        B8G8R8A8_SRGB
    }
}

fn offers(offered: &Vec<i64>, format: i64) -> (r: bool)
    ensures
        r == offered@.contains(format),
{
    let mut i: usize = 0;
    while i < offered.len()
        invariant
            i <= offered@.len(),
            forall|k: int| 0 <= k < i ==> offered@[k] != format,
        decreases offered@.len() - i,
    {
        if offered[i] == format {
            return true;
        }
        i = i + 1;
    }
    false
}

/// The image format to draw in, from those that the runtime offers.
pub fn choose_format(offered: &Vec<i64>) -> (r: i64)
    ensures
        r == wanted_format(offered@),
{
    if offers(offered, B8G8R8A8_SRGB) {
        B8G8R8A8_SRGB
    } else if offers(offered, R8G8B8A8_SRGB) {
        R8G8B8A8_SRGB
    } else if offers(offered, B8G8R8A8_UNORM) {
        B8G8R8A8_UNORM
    } else if offers(offered, R8G8B8A8_UNORM) {
        R8G8B8A8_UNORM
    } else {
        B8G8R8A8_SRGB
    }
}

/// Whether the device converts to sRGB when it draws in a format.
pub fn is_srgb(format: i64) -> (r: bool)
    ensures
        r == (format == B8G8R8A8_SRGB || format == R8G8B8A8_SRGB),
{
    format == B8G8R8A8_SRGB || format == R8G8B8A8_SRGB
}

/// The first queue family that can draw, given which of them can.
pub fn graphics_queue(can_draw: &Vec<bool>) -> (r: Option<usize>)
    ensures
        match r {
            Some(i) => i < can_draw@.len() && can_draw@[i as int] && forall|k: int|
                0 <= k < i ==> !(#[trigger] can_draw@[k]),
            None => forall|k: int| 0 <= k < can_draw@.len() ==> !(#[trigger] can_draw@[k]),
        },
{
    let mut i: usize = 0;
    while i < can_draw.len()
        invariant
            i <= can_draw@.len(),
            forall|k: int| 0 <= k < i ==> !(#[trigger] can_draw@[k]),
        decreases can_draw@.len() - i,
    {
        if can_draw[i] {
            return Some(i);
        }
        i = i + 1;
    }
    None
}

/// The session begins when it is ready and at no other report, ends when it is stopping, and
/// quits when it or the runtime is about to go.
pub proof fn law_steps(event: SessionEvent)
    ensures
        step_for(event) is Begin <==> event == SessionEvent::StateChanged(SessionState::Ready),
        step_for(event) is End <==> event == SessionEvent::StateChanged(SessionState::Stopping),
        step_for(event) is Quit <==> event == SessionEvent::InstanceLossPending || event
            == SessionEvent::StateChanged(SessionState::Exiting) || event
            == SessionEvent::StateChanged(SessionState::LossPending),
{
}

/// The session draws frames exactly while it was last told to begin and not since to stop.
pub proof fn law_runs_since_ready(events: Seq<SessionEvent>, i: int)
    requires
        0 <= i < events.len(),
        events[i] == SessionEvent::StateChanged(SessionState::Ready) || events[i]
            == SessionEvent::StateChanged(SessionState::Stopping),
        forall|k: int|
            i < k < events.len() ==> #[trigger] events[k] != SessionEvent::StateChanged(
                SessionState::Ready,
            ) && events[k] != SessionEvent::StateChanged(SessionState::Stopping),
    ensures
        lifecycle_run(events).running <==> events[i] == SessionEvent::StateChanged(
            SessionState::Ready,
        ),
    decreases events.len(),
{
    if i < events.len() - 1 {
        law_runs_since_ready(events.drop_last(), i);
        assert(events[events.len() - 1] == events.last());
    }
}

/// The controllers are the overlay's exactly while the last state it was told is the focused
/// one; other reports make no difference.
pub proof fn law_focused_by_last_state(events: Seq<SessionEvent>, i: int, state: SessionState)
    requires
        0 <= i < events.len(),
        events[i] == SessionEvent::StateChanged(state),
        forall|k: int| i < k < events.len() ==> !((#[trigger] events[k]) is StateChanged),
    ensures
        lifecycle_run(events).focused <==> state == SessionState::Focused,
    decreases events.len(),
{
    if i < events.len() - 1 {
        law_focused_by_last_state(events.drop_last(), i, state);
        assert(events[events.len() - 1] == events.last());
    }
}

/// A session that was never told to begin draws nothing, and one that was never told a state
/// reads no controllers.
pub proof fn law_starts_at_rest(events: Seq<SessionEvent>)
    ensures
        (forall|k: int|
            0 <= k < events.len() ==> #[trigger] events[k] != SessionEvent::StateChanged(
                SessionState::Ready,
            )) ==> !lifecycle_run(events).running,
        (forall|k: int| 0 <= k < events.len() ==> !((#[trigger] events[k]) is StateChanged))
            ==> !lifecycle_run(events).focused,
    decreases events.len(),
{
    if events.len() > 0 {
        let front = events.drop_last();
        law_starts_at_rest(front);
        assert(forall|k: int| 0 <= k < front.len() ==> #[trigger] front[k] == events[k]);
        assert(events[events.len() - 1] == events.last());
    }
}

/// How much a format is wanted: sRGB before linear, and blue first before red first.
pub open spec fn format_rank(format: i64) -> int {
    if format == 50 {
        0
    } else if format == 43 {
        1
    } else if format == 44 {
        2
    } else if format == 37 {
        3
    } else {
        4
    }
}

/// Wherever one of the wanted formats is offered, the one chosen is offered too, and none that
/// is wanted more is.
pub proof fn law_best_format(offered: Seq<i64>, format: i64)
    requires
        offered.contains(format),
        format_rank(format) < 4,
    ensures
        offered.contains(wanted_format(offered)),
        format_rank(wanted_format(offered)) <= format_rank(format),
{
}

/// Where none of the wanted formats is offered, the most wanted one is tried.
pub proof fn law_no_wanted_format(offered: Seq<i64>)
    requires
        forall|i: int| 0 <= i < offered.len() ==> format_rank(#[trigger] offered[i]) == 4,
    ensures
        wanted_format(offered) == 50,
{
    assert(format_rank(50) == 0 && format_rank(43) == 1 && format_rank(44) == 2 && format_rank(37)
        == 3);
}

} // verus!
