//! Pointing, clicking and grabbing with the controllers.
//!
//! Poses and ray casts are geometry and are done elsewhere; here is decided what a hit
//! means. A distance, a force or the travel of a trigger is given by the bits of an `f32` that
//! is not negative, which order as it does.

use vstd::prelude::*;

verus! {

/// The force above which a squeeze begins a grab: 0.40.
pub const GRAB_START: u32 = 0x3ecc_cccd;

/// The force above which a grab goes on: 0.15.
pub const GRAB_RELEASE: u32 = 0x3e19_999a;

/// The travel of the trigger above which it is pressed: 0.5.
pub const SELECT: u32 = 0x3f00_0000;

/// Everything a controller can point at. Photo windows are told apart by their place.
#[derive(Clone, Copy, PartialEq, Eq, Debug, Structural)]
pub enum Target {
    Settings,
    Gallery,
    Wrist,
    Photo(usize),
}

/// A panel that a ray meets, and how far away.
#[derive(Clone, Copy, PartialEq, Eq, Debug, Structural)]
pub struct Hit {
    pub target: Target,
    pub distance: u32,
}

/// What a controller does in a frame: whether its pose is known, what its ray meets, and with
/// what force it is squeezed.
pub struct Hand {
    pub located: bool,
    pub hits: Vec<Hit>,
    pub force: u32,
}

/// A panel that is being moved, and the hand that moves it.
#[derive(Clone, Copy, PartialEq, Eq, Debug, Structural)]
pub struct Grab {
    pub target: Target,
    pub hand: usize,
}

/// What comes of a hand in a frame. Hits are counted in the hand's own list.
#[derive(Clone, Copy, PartialEq, Eq, Debug, Structural)]
pub enum HandAim {
    Idle,
    /// It points at the panel.
    Points(usize),
    /// It takes hold of the panel.
    Grabs(usize),
}

// ---------------------------------------------------------------------------
// The nearest panel
// ---------------------------------------------------------------------------

/// Whether the hit at `i` is the nearest: none is nearer, and none before it is as near.
pub open spec fn is_nearest(hits: Seq<Hit>, i: int) -> bool {
    &&& 0 <= i < hits.len()
    &&& forall|k: int| 0 <= k < hits.len() ==> hits[i].distance <= (#[trigger] hits[k]).distance
    &&& forall|k: int| 0 <= k < i ==> hits[i].distance < (#[trigger] hits[k]).distance
}

/// The place of the nearest hit.
pub open spec fn nearest_of(hits: Seq<Hit>) -> Option<usize> {
    if hits.len() == 0 {
        None
    } else {
        Some(choose|i: usize| is_nearest(hits, i as int))
    }
}

/// There is one nearest hit only.
pub proof fn law_nearest_unique(hits: Seq<Hit>, i: usize)
    requires
        is_nearest(hits, i as int),
    ensures
        nearest_of(hits) == Some(i),
{
    let j = choose|j: usize| is_nearest(hits, j as int);
    assert(is_nearest(hits, j as int));
    if j < i {
        assert(hits[i as int].distance < hits[j as int].distance);
    }
    if i < j {
        assert(hits[j as int].distance < hits[i as int].distance);
    }
}

/// The nearest of the panels that a ray meets; of two as near, the first.
pub fn nearest(hits: &Vec<Hit>) -> (r: Option<usize>)
    ensures
        r == nearest_of(hits@),
        match r {
            Some(i) => is_nearest(hits@, i as int),
            None => hits@.len() == 0,
        },
{
    if hits.len() == 0 {
        return None;
    }
    let mut best: usize = 0;
    let mut i: usize = 1;
    while i < hits.len()
        invariant
            best < i <= hits@.len(),
            forall|k: int|
                0 <= k < i ==> hits@[best as int].distance <= (#[trigger] hits@[k]).distance,
            forall|k: int|
                0 <= k < best ==> hits@[best as int].distance < (#[trigger] hits@[k]).distance,
        decreases hits@.len() - i,
    {
        if hits[i].distance < hits[best].distance {
            best = i;
        }
        i = i + 1;
    }
    proof {
        law_nearest_unique(hits@, best);
    }
    Some(best)
}

// ---------------------------------------------------------------------------
// What the hands do
// ---------------------------------------------------------------------------

/// The nearest panel that the hand meets.
pub open spec fn met(hand: Hand) -> Option<usize> {
    if hand.located {
        nearest_of(hand.hits@)
    } else {
        None
    }
}

/// Whether the hand squeezes at a panel that can be moved. The wrist card cannot: it is
/// locked to the hand.
pub open spec fn would_grab(hand: Hand) -> bool {
    hand.force > GRAB_START && met(hand) is Some && hand.hits@[met(hand)->0 as int].target != Target::Wrist
}

/// What comes of the hand at `i`: the first hand that would grab does, and every other that
/// meets a panel points at it.
pub open spec fn aim_of(hands: Seq<Hand>, i: int) -> HandAim {
    match met(hands[i]) {
        None => HandAim::Idle,
        Some(h) => if would_grab(hands[i]) && forall|k: int|
            0 <= k < i ==> !would_grab(#[trigger] hands[k]) {
            HandAim::Grabs(h)
        } else {
            HandAim::Points(h)
        },
    }
}

/// What comes of the hands while nothing is held.
pub fn aim(hands: &Vec<Hand>) -> (r: Vec<HandAim>)
    ensures
        r@.len() == hands@.len(),
        forall|i: int| 0 <= i < hands@.len() ==> #[trigger] r@[i] == aim_of(hands@, i),
{
    let mut out: Vec<HandAim> = Vec::new();
    let mut taken = false;
    let mut i: usize = 0;
    while i < hands.len()
        invariant
            i <= hands@.len(),
            out@.len() == i,
            taken <==> exists|k: int| 0 <= k < i && would_grab(#[trigger] hands@[k]),
            forall|k: int| 0 <= k < i ==> #[trigger] out@[k] == aim_of(hands@, k),
        decreases hands@.len() - i,
    {
        let hit = if hands[i].located {
            nearest(&hands[i].hits)
        } else {
            None
        };
        assert(hit == met(hands@[i as int]));
        let a = match hit {
            None => HandAim::Idle,
            Some(h) => {
                let movable = match hands[i].hits[h].target {
                    Target::Wrist => false,
                    _ => true,
                };
                if !taken && hands[i].force > GRAB_START && movable {
                    HandAim::Grabs(h)
                } else {
                    HandAim::Points(h)
                }
            },
        };
        assert(a == aim_of(hands@, i as int));
        taken = taken || (match a {
            HandAim::Grabs(_) => true,
            _ => false,
        });
        out.push(a);
        i = i + 1;
    }
    out
}

/// Whether the trigger is pressed, from its travel.
pub fn presses(travel: u32) -> (r: bool)
    ensures
        r == (travel > SELECT),
{
    travel > SELECT
}

/// The panel at which the hand points.
pub open spec fn pointed(hand: Hand, a: HandAim) -> Option<Target> {
    match a {
        HandAim::Points(h) => if h < hand.hits@.len() {
            Some(hand.hits@[h as int].target)
        } else {
            None
        },
        _ => None,
    }
}

/// Whether the hand at `i` is the last that points at `target`.
pub open spec fn last_pointing(hands: Seq<Hand>, aims: Seq<HandAim>, target: Target, i: int) -> bool {
    &&& 0 <= i < hands.len()
    &&& pointed(hands[i], aims[i]) == Some(target)
    &&& forall|k: int| i < k < hands.len() ==> pointed(hands[k], #[trigger] aims[k]) != Some(target)
}

/// The hand whose ray is the pointer on a panel: the last that points at it.
pub fn pointer_on(hands: &Vec<Hand>, aims: &Vec<HandAim>, target: Target) -> (r: Option<usize>)
    requires
        aims@.len() == hands@.len(),
    ensures
        match r {
            Some(i) => last_pointing(hands@, aims@, target, i as int),
            None => forall|k: int|
                0 <= k < hands@.len() ==> pointed(hands@[k], #[trigger] aims@[k]) != Some(target),
        },
{
    let mut i: usize = hands.len();
    while i > 0
        invariant
            i <= hands@.len(),
            aims@.len() == hands@.len(),
            forall|k: int|
                i <= k < hands@.len() ==> pointed(hands@[k], #[trigger] aims@[k]) != Some(target),
        decreases i,
    {
        i = i - 1;
        if let HandAim::Points(h) = aims[i] {
            if h < hands[i].hits.len() {
                if hands[i].hits[h].target == target {
                    return Some(i);
                }
            }
        }
    }
    None
}

/// The hand and the hit that the laser is drawn for.
pub open spec fn laser_of(aims: Seq<HandAim>) -> Option<(usize, usize)>
    decreases aims.len(),
{
    if aims.len() == 0 {
        None
    } else {
        match aims.last() {
            HandAim::Points(h) => Some(((aims.len() - 1) as usize, h)),
            HandAim::Grabs(_) => None,
            HandAim::Idle => laser_of(aims.drop_last()),
        }
    }
}

/// The hand and the hit that the laser is drawn for: the last hand that meets a panel, and
/// none where that one takes hold.
pub fn laser(aims: &Vec<HandAim>) -> (r: Option<(usize, usize)>)
    ensures
        r == laser_of(aims@),
{
    let mut i: usize = aims.len();
    assert(aims@.take(i as int) =~= aims@);
    while i > 0
        invariant
            i <= aims@.len(),
            laser_of(aims@) == laser_of(aims@.take(i as int)),
        decreases i,
    {
        assert(aims@.take(i as int).drop_last() =~= aims@.take(i - 1));
        i = i - 1;
        match aims[i] {
            HandAim::Points(h) => {
                return Some((i, h));
            },
            HandAim::Grabs(_) => {
                return None;
            },
            HandAim::Idle => {},
        }
    }
    None
}

/// The grab that the hands begin, with the hit that it takes hold at.
pub fn begun(hands: &Vec<Hand>, aims: &Vec<HandAim>) -> (r: Option<Grab>)
    requires
        aims@.len() == hands@.len(),
        forall|i: int| 0 <= i < hands@.len() ==> #[trigger] aims@[i] == aim_of(hands@, i),
    ensures
        match r {
            Some(g) => g.hand < hands@.len() && (aims@[g.hand as int] matches HandAim::Grabs(h)
                && h < hands@[g.hand as int].hits@.len() && g.target == hands@[g.hand as int].hits@[h as int].target) && g.target
                != Target::Wrist,
            None => forall|i: int| 0 <= i < hands@.len() ==> !would_grab(#[trigger] hands@[i]),
        },
{
    let mut i: usize = 0;
    while i < hands.len()
        invariant
            i <= hands@.len(),
            aims@.len() == hands@.len(),
            forall|k: int| 0 <= k < hands@.len() ==> #[trigger] aims@[k] == aim_of(hands@, k),
            forall|k: int| 0 <= k < i ==> !would_grab(#[trigger] hands@[k]),
        decreases hands@.len() - i,
    {
        assert(aims@[i as int] == aim_of(hands@, i as int));
        if let HandAim::Grabs(h) = aims[i] {
            proof {
                lemma_met_in_range(hands@[i as int]);
            }
            return Some(Grab { target: hands[i].hits[h].target, hand: i });
        }
        i = i + 1;
    }
    None
}

proof fn lemma_met_in_range(hand: Hand)
    requires
        met(hand) is Some,
    ensures
        met(hand)->0 < hand.hits@.len(),
{
    assert(hand.hits.len() <= usize::MAX);
    lemma_nearest_exists(hand.hits@);
}

proof fn lemma_nearest_exists(hits: Seq<Hit>)
    requires
        0 < hits.len() <= usize::MAX,
    ensures
        exists|i: usize| is_nearest(hits, i as int),
    decreases hits.len(),
{
    if hits.len() == 1 {
        assert(is_nearest(hits, 0usize as int));
    } else {
        let front = hits.drop_last();
        lemma_nearest_exists(front);
        let i = choose|i: usize| is_nearest(front, i as int);
        let last: usize = (hits.len() - 1) as usize;
        if hits[last as int].distance < front[i as int].distance {
            assert forall|k: int| 0 <= k < hits.len() implies hits[last as int].distance <= (
            #[trigger] hits[k]).distance by {
                if k < front.len() {
                    assert(front[i as int].distance <= front[k].distance);
                }
            }
            assert forall|k: int| 0 <= k < last implies hits[last as int].distance < (
            #[trigger] hits[k]).distance by {
                assert(front[i as int].distance <= front[k].distance);
            }
            assert(is_nearest(hits, last as int));
        } else {
            assert forall|k: int| 0 <= k < hits.len() implies hits[i as int].distance <= (
            #[trigger] hits[k]).distance by {
                if k < front.len() {
                    assert(front[i as int].distance <= front[k].distance);
                }
            }
            assert forall|k: int| 0 <= k < i implies hits[i as int].distance < (
            #[trigger] hits[k]).distance by {
                assert(front[i as int].distance < front[k].distance);
            }
            assert(is_nearest(hits, i as int));
        }
    }
}

/// A grab begins only above the force for it, and at the nearest panel that the hand meets,
/// which is not the wrist card.
pub proof fn law_grab_needs_force(hands: Seq<Hand>, i: int)
    requires
        0 <= i < hands.len(),
        aim_of(hands, i) is Grabs,
    ensures
        hands[i].located,
        hands[i].force > GRAB_START,
        aim_of(hands, i) == HandAim::Grabs(nearest_of(hands[i].hits@)->0),
        hands[i].hits@[nearest_of(hands[i].hits@)->0 as int].target != Target::Wrist,
{
}

/// At most one hand takes hold of a panel.
pub proof fn law_one_grab(hands: Seq<Hand>, i: int, j: int)
    requires
        0 <= i < j < hands.len(),
    ensures
        !(aim_of(hands, i) is Grabs && aim_of(hands, j) is Grabs),
{
}

/// The wrist card is never grabbed: a hand that meets it points at it, however it is squeezed.
pub proof fn law_wrist_not_grabbed(hands: Seq<Hand>, i: int)
    requires
        0 <= i < hands.len(),
        met(hands[i]) is Some,
        hands[i].hits@[met(hands[i])->0 as int].target == Target::Wrist,
    ensures
        aim_of(hands, i) is Points,
{
}

/// The laser is drawn only for a hand that points at a panel.
pub proof fn law_laser_points(aims: Seq<HandAim>)
    requires
        laser_of(aims) is Some,
        aims.len() <= usize::MAX,
    ensures
        (laser_of(aims)->0).0 < aims.len(),
        aims[(laser_of(aims)->0).0 as int] == HandAim::Points((laser_of(aims)->0).1),
    decreases aims.len(),
{
    if aims.len() > 0 && aims.last() is Idle {
        law_laser_points(aims.drop_last());
    }
}

// ---------------------------------------------------------------------------
// What a panel is told
// ---------------------------------------------------------------------------

/// What a panel was told last: whether the pointer is on it and whether it is pressed.
#[derive(Clone, Copy, PartialEq, Eq, Debug, Structural)]
pub struct PanelPointer {
    pub on: bool,
    pub down: bool,
}

/// What a panel is told of the pointer.
#[derive(Clone, Copy, PartialEq, Eq, Debug, Structural)]
pub enum PanelEvent {
    /// The pointer is at its present place.
    Moved,
    /// The pointer is no longer on the panel.
    Gone,
    /// The button was pressed or released, at the present place of the pointer.
    Button(bool),
    /// The button was pressed or released, at the last place of the pointer.
    ButtonAtLast(bool),
}

/// What a panel is told when the pointer on it, if any, is pressed or not.
pub open spec fn panel_news(before: PanelPointer, pointer: Option<bool>) -> Seq<PanelEvent> {
    let down = pointer == Some(true);
    let place = if pointer is Some {
        seq![PanelEvent::Moved]
    } else if before.on {
        seq![PanelEvent::Gone]
    } else {
        seq![]
    };
    let button = if down != before.down {
        if pointer is Some {
            seq![PanelEvent::Button(down)]
        } else if before.on {
            seq![PanelEvent::ButtonAtLast(down)]
        } else {
            seq![]
        }
    } else {
        seq![]
    };
    place + button
}

/// What a panel has been told, once it has been told of the pointer.
pub open spec fn panel_after(pointer: Option<bool>) -> PanelPointer {
    PanelPointer { on: pointer is Some, down: pointer == Some(true) }
}

impl PanelPointer {
    /// Only a pointer that is on the panel is pressed.
    pub open spec fn wf(&self) -> bool {
        self.down ==> self.on
    }

    pub fn new() -> (r: PanelPointer)
        ensures
            r.wf(),
            !r.on,
            !r.down,
    {
        PanelPointer { on: false, down: false }
    }

    /// What to tell the panel, given whether the pointer on it, if any, is pressed.
    pub fn update(&mut self, pointer: Option<bool>) -> (r: Vec<PanelEvent>)
        ensures
            r@ == panel_news(*old(self), pointer),
            *final(self) == panel_after(pointer),
            final(self).wf(),
    {
        let on = pointer.is_some();
        let down = match pointer {
            Some(d) => d,
            None => false,
        };
        let mut events: Vec<PanelEvent> = Vec::new();
        if on {
            events.push(PanelEvent::Moved);
        } else if self.on {
            events.push(PanelEvent::Gone);
        }
        if down != self.down {
            if on {
                events.push(PanelEvent::Button(down));
            } else if self.on {
                events.push(PanelEvent::ButtonAtLast(down));
            }
        }
        assert(events@ =~= panel_news(*old(self), pointer));
        self.on = on;
        self.down = down;
        events
    }
}

/// Whether an event says that the button is now `down`.
pub open spec fn says(e: PanelEvent, down: bool) -> bool {
    e == PanelEvent::Button(down) || e == PanelEvent::ButtonAtLast(down)
}

/// A panel hears of every press and every release, once: a press is never left without its
/// release when the pointer leaves the panel.
pub proof fn law_buttons_balance(before: PanelPointer, pointer: Option<bool>)
    requires
        before.wf(),
    ensures
        ({
            let now = panel_after(pointer);
            let news = panel_news(before, pointer);
            &&& now.wf()
            &&& now.down != before.down ==> news.len() > 0 && says(news.last(), now.down)
            &&& now.down == before.down ==> forall|i: int|
                0 <= i < news.len() ==> !says(#[trigger] news[i], true) && !says(news[i], false)
        }),
{
}

/// The presses and releases among what a panel is told.
pub open spec fn buttons_in(news: Seq<PanelEvent>) -> Seq<bool>
    decreases news.len(),
{
    if news.len() == 0 {
        Seq::empty()
    } else {
        let before = buttons_in(news.drop_last());
        match news.last() {
            PanelEvent::Button(down) => before.push(down),
            PanelEvent::ButtonAtLast(down) => before.push(down),
            _ => before,
        }
    }
}

/// What a panel has been told after a number of frames.
pub open spec fn panel_run(pointers: Seq<Option<bool>>) -> PanelPointer {
    if pointers.len() == 0 {
        PanelPointer { on: false, down: false }
    } else {
        panel_after(pointers.last())
    }
}

/// The presses and releases that a panel has been told of in a number of frames.
pub open spec fn buttons_run(pointers: Seq<Option<bool>>) -> Seq<bool>
    decreases pointers.len(),
{
    if pointers.len() == 0 {
        Seq::empty()
    } else {
        buttons_run(pointers.drop_last()) + buttons_in(
            panel_news(panel_run(pointers.drop_last()), pointers.last()),
        )
    }
}

proof fn lemma_buttons_in_frame(before: PanelPointer, pointer: Option<bool>)
    requires
        before.wf(),
    ensures
        buttons_in(panel_news(before, pointer)) == (if panel_after(pointer).down == before.down {
            Seq::<bool>::empty()
        } else {
            seq![panel_after(pointer).down]
        }),
{
    let news = panel_news(before, pointer);
    reveal_with_fuel(buttons_in, 3);
    if news.len() > 0 {
        assert(news.drop_last().len() <= 1);
        if news.len() == 2 {
            assert(news.drop_last()[0] == news[0]);
            assert(news.drop_last().drop_last() =~= Seq::empty());
        } else {
            assert(news.drop_last() =~= Seq::empty());
        }
    }
    assert(buttons_in(news) =~= (if panel_after(pointer).down == before.down {
        Seq::<bool>::empty()
    } else {
        seq![panel_after(pointer).down]
    }));
}

/// However the pointer moves on and off a panel, the panel hears of presses and releases in
/// turn, a press first, and the pointer is pressed exactly while a release is due.
pub proof fn law_press_and_release_in_turn(pointers: Seq<Option<bool>>)
    ensures
        panel_run(pointers).wf(),
        forall|i: int|
            0 <= i < buttons_run(pointers).len() ==> #[trigger] buttons_run(pointers)[i] == (i % 2
                == 0),
        panel_run(pointers).down <==> buttons_run(pointers).len() % 2 == 1,
    decreases pointers.len(),
{
    if pointers.len() > 0 {
        law_press_and_release_in_turn(pointers.drop_last());
        lemma_buttons_in_frame(panel_run(pointers.drop_last()), pointers.last());
    }
}

/// Whichever panel a hand points at or takes hold of, none that its ray meets is nearer, and
/// none as near comes before it.
pub proof fn law_nearest_panel_is_meant(hands: Seq<Hand>, i: int, k: int)
    requires
        0 <= i < hands.len(),
        0 <= k < hands[i].hits@.len(),
        hands[i].located,
    ensures
        match aim_of(hands, i) {
            HandAim::Idle => false,
            HandAim::Points(h) => h < hands[i].hits@.len() && (hands[i].hits@[h as int].distance
                < hands[i].hits@[k].distance || (hands[i].hits@[h as int].distance
                == hands[i].hits@[k].distance && h <= k)),
            HandAim::Grabs(h) => h < hands[i].hits@.len() && (hands[i].hits@[h as int].distance
                < hands[i].hits@[k].distance || (hands[i].hits@[h as int].distance
                == hands[i].hits@[k].distance && h <= k)),
        },
{
    let hits = hands[i].hits@;
    assert(hands[i].hits.len() <= usize::MAX);
    lemma_nearest_exists(hits);
    let h = choose|h: usize| is_nearest(hits, h as int);
    law_nearest_unique(hits, h);
    assert(hits[h as int].distance <= hits[k].distance);
}

/// A hand does something exactly where it is located and its ray meets a panel.
pub proof fn law_idle_hands(hands: Seq<Hand>, i: int)
    requires
        0 <= i < hands.len(),
    ensures
        aim_of(hands, i) is Idle <==> !hands[i].located || hands[i].hits@.len() == 0,
{
}

/// A hand that is not squeezed above the force for it takes hold of nothing, and one that is
/// takes hold of the panel that is meant, unless that is the wrist card or a hand before it
/// takes hold.
pub proof fn law_squeezing_grabs(hands: Seq<Hand>, i: int, h: usize)
    requires
        0 <= i < hands.len(),
        hands[i].located,
        is_nearest(hands[i].hits@, h as int),
    ensures
        hands[i].force <= GRAB_START ==> aim_of(hands, i) == HandAim::Points(h),
        hands[i].hits@[h as int].target == Target::Wrist ==> aim_of(hands, i) == HandAim::Points(h),
        hands[i].force > GRAB_START && hands[i].hits@[h as int].target != Target::Wrist && (forall|
            k: int,
        |
            0 <= k < i ==> !(#[trigger] aim_of(hands, k) is Grabs)) ==> aim_of(hands, i)
            == HandAim::Grabs(h),
        (exists|k: int| 0 <= k < i && #[trigger] aim_of(hands, k) is Grabs) ==> aim_of(hands, i)
            == HandAim::Points(h),
{
    law_nearest_unique(hands[i].hits@, h);
    if forall|k: int| 0 <= k < i ==> !(#[trigger] aim_of(hands, k) is Grabs) {
        assert forall|k: int| 0 <= k < i implies !would_grab(#[trigger] hands[k]) by {
            lemma_no_grab_before(hands, k);
        }
    }
}

proof fn lemma_no_grab_before(hands: Seq<Hand>, i: int)
    requires
        0 <= i < hands.len(),
        forall|k: int| 0 <= k <= i ==> !(#[trigger] aim_of(hands, k) is Grabs),
    ensures
        !would_grab(hands[i]),
    decreases i,
{
    assert forall|k: int| 0 <= k < i implies !would_grab(#[trigger] hands[k]) by {
        lemma_no_grab_before(hands, k);
    }
    assert(!(aim_of(hands, i) is Grabs));
}

/// The pointer on a panel is that of a hand that points at the panel, and of no hand before
/// another that does.
pub proof fn law_last_hand_has_the_pointer(
    hands: Seq<Hand>,
    aims: Seq<HandAim>,
    target: Target,
    i: int,
    k: int,
    h: usize,
)
    requires
        last_pointing(hands, aims, target, i),
        0 <= k < hands.len(),
        aims[k] == HandAim::Points(h),
        h < hands[k].hits@.len(),
        hands[k].hits@[h as int].target == target,
    ensures
        k <= i,
        aims[i] is Points && aims[i]->Points_0 < hands[i].hits@.len()
            && hands[i].hits@[aims[i]->Points_0 as int].target == target,
{
    assert(pointed(hands[k], aims[k]) == Some(target));
}

/// The hand at `k`, where it points at the target, can have the pointer.
pub proof fn law_pointing_hand_found(hand: Hand, h: usize)
    requires
        h < hand.hits@.len(),
    ensures
        pointed(hand, HandAim::Points(h)) == Some(hand.hits@[h as int].target),
        pointed(hand, HandAim::Grabs(h)) is None,
        pointed(hand, HandAim::Idle) is None,
{
}

/// The laser belongs to the last hand that does something: it is drawn to what that hand
/// points at, and not drawn where that hand takes hold or where no hand does anything.
pub proof fn law_laser_of_last_busy_hand(aims: Seq<HandAim>, i: int)
    requires
        0 <= i < aims.len() <= usize::MAX,
        !(aims[i] is Idle),
        forall|k: int| i < k < aims.len() ==> (#[trigger] aims[k]) is Idle,
    ensures
        match aims[i] {
            HandAim::Points(h) => laser_of(aims) == Some((i as usize, h)),
            _ => laser_of(aims) is None,
        },
    decreases aims.len(),
{
    if i < aims.len() - 1 {
        assert(aims[aims.len() - 1] is Idle);
        law_laser_of_last_busy_hand(aims.drop_last(), i);
    }
}

/// Where no hand does anything there is no laser.
pub proof fn law_no_laser_while_idle(aims: Seq<HandAim>)
    requires
        forall|k: int| 0 <= k < aims.len() ==> (#[trigger] aims[k]) is Idle,
    ensures
        laser_of(aims) is None,
    decreases aims.len(),
{
    if aims.len() > 0 {
        assert(aims[aims.len() - 1] is Idle);
        law_no_laser_while_idle(aims.drop_last());
    }
}

/// A panel hears where the pointer is whenever it is there, first of all; that it is gone once
/// it is no longer there; and of the button at the pointer's present place, or at its last
/// place where it has left. It hears nothing else.
pub proof fn law_panel_hears(before: PanelPointer, pointer: Option<bool>)
    requires
        before.wf(),
    ensures
        ({
            let news = panel_news(before, pointer);
            &&& pointer is Some ==> news.len() >= 1 && news[0] == PanelEvent::Moved
            &&& pointer is Some && pointer->0 == before.down ==> news.len() == 1
            &&& pointer is Some && pointer->0 != before.down ==> news.len() == 2 && news[1]
                == PanelEvent::Button(pointer->0)
            &&& pointer is None && !before.on ==> news.len() == 0
            &&& pointer is None && before.on ==> news.len() >= 1 && news[0] == PanelEvent::Gone
            &&& pointer is None && before.on && !before.down ==> news.len() == 1
            &&& pointer is None && before.down ==> news.len() == 2 && news[1]
                == PanelEvent::ButtonAtLast(false)
        }),
{
}

/// A pointer that leaves a panel is heard to go exactly where it was there the frame before,
/// and its press is heard to end where it was pressed.
pub proof fn law_leaving_is_heard(first: Option<bool>)
    ensures
        panel_after(first).wf(),
        panel_news(panel_after(first), None) == match first {
            None => Seq::<PanelEvent>::empty(),
            Some(false) => seq![PanelEvent::Gone],
            Some(true) => seq![PanelEvent::Gone, PanelEvent::ButtonAtLast(false)],
        },
{
    assert(panel_news(panel_after(first), None) =~= match first {
        None => Seq::<PanelEvent>::empty(),
        Some(false) => seq![PanelEvent::Gone],
        Some(true) => seq![PanelEvent::Gone, PanelEvent::ButtonAtLast(false)],
    });
}

} // verus!
