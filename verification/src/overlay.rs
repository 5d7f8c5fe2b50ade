//! The overlay as a whole: which panels are up, what is held, and what a frame consists of.

use vstd::prelude::*;
use crate::gallery::Gallery;
use crate::photos::{Photos, PHOTO_SLOTS};
use crate::pointer::{aim, aim_of, begun, would_grab, Grab, Hand, HandAim, Target, GRAB_RELEASE};
use crate::wrist::{Queue, WristGate};

verus! {

/// How far apart two presses of SYSTEM are at most to count as a double press, in
/// nanoseconds.
pub const DOUBLE_PRESS: u64 = 400_000_000;

/// How many controllers there are.
pub const HANDS: usize = 2;

/// The SYSTEM button: whether it was down, and when it was last pressed without that being
/// the second press of two.
#[derive(Clone, Copy, PartialEq, Eq, Debug, Structural)]
pub struct SystemButton {
    pub down: bool,
    pub last: Option<u64>,
}

/// The state of the overlay.
pub struct Overlay {
    pub settings_visible: bool,
    pub system: SystemButton,
    pub gallery: Gallery,
    pub photos: Photos,
    pub queue: Queue,
    pub gate: WristGate,
    pub grab: Option<Grab>,
}

/// Which panels were drawn in a frame, and whether the laser was.
pub struct Drawn {
    pub settings: bool,
    pub gallery: bool,
    pub photos: Vec<bool>,
    pub wrist: bool,
    pub laser: bool,
}

/// A layer of a frame.
#[derive(Clone, Copy, PartialEq, Eq, Debug, Structural)]
pub enum Layer {
    Panel(Target),
    Laser,
}

// ---------------------------------------------------------------------------
// The SYSTEM button
// ---------------------------------------------------------------------------

/// Whether the time since the last press makes a press now the second of two.
pub open spec fn second_press(last: Option<u64>, now: u64) -> bool {
    match last {
        Some(t) => now < t || now - t < DOUBLE_PRESS,
        None => false,
    }
}

/// The button after it was seen up or down.
pub open spec fn button_after(b: SystemButton, down: bool, now: u64) -> SystemButton {
    SystemButton {
        down,
        last: if down && !b.down {
            if second_press(b.last, now) {
                None
            } else {
                Some(now)
            }
        } else {
            b.last
        },
    }
}

/// Whether the button, seen up or down, completes a double press.
pub open spec fn completes(b: SystemButton, down: bool, now: u64) -> bool {
    down && !b.down && second_press(b.last, now)
}

impl SystemButton {
    pub fn new() -> (r: SystemButton)
        ensures
            r == (SystemButton { down: false, last: None }),
    {
        SystemButton { down: false, last: None }
    }

    /// Follows the button. The result says whether it completes a double press.
    pub fn update(&mut self, down: bool, now: u64) -> (r: bool)
        ensures
            r == completes(*old(self), down, now),
            *final(self) == button_after(*old(self), down, now),
    {
        let mut double = false;
        if down && !self.down {
            let second = match self.last {
                Some(t) => now < t || now - t < DOUBLE_PRESS,
                None => false,
            };
            if second {
                self.last = None;
                double = true;
            } else {
                self.last = Some(now);
            }
        }
        self.down = down;
        double
    }
}

/// The button after a press at `now` and a release.
pub open spec fn pressed_once(b: SystemButton, now: u64) -> SystemButton {
    button_after(button_after(b, true, now), false, now)
}

/// Two presses count as a double press exactly where less than the limit lies between them,
/// and the two are then used up: a third press begins anew.
pub proof fn law_double_press(first: u64, second: u64, third: u64)
    requires
        first <= second,
    ensures
        ({
            let start = SystemButton { down: false, last: None };
            let one = pressed_once(start, first);
            let two = pressed_once(one, second);
            &&& !completes(start, true, first)
            &&& completes(one, true, second) <==> second - first < DOUBLE_PRESS
            &&& completes(one, true, second) ==> !completes(two, true, third)
        }),
{
}

/// The button after presses at these times.
pub open spec fn pressed_at(times: Seq<u64>) -> SystemButton
    decreases times.len(),
{
    if times.len() == 0 {
        SystemButton { down: false, last: None }
    } else {
        pressed_once(pressed_at(times.drop_last()), times.last())
    }
}

/// How many double presses there are in presses at these times.
pub open spec fn doubles(times: Seq<u64>) -> nat
    decreases times.len(),
{
    if times.len() == 0 {
        0
    } else {
        doubles(times.drop_last()) + (if completes(
            pressed_at(times.drop_last()),
            true,
            times.last(),
        ) {
            1nat
        } else {
            0nat
        })
    }
}

/// However SYSTEM is pressed, no press belongs to two double presses.
pub proof fn law_presses_pair(times: Seq<u64>)
    ensures
        2 * doubles(times) <= times.len(),
        pressed_at(times).last is Some ==> 2 * doubles(times) < times.len(),
    decreases times.len(),
{
    if times.len() > 0 {
        law_presses_pair(times.drop_last());
    }
}

/// A button that is held does not count again.
pub proof fn law_held_button_counts_once(b: SystemButton, now: u64, later: u64)
    ensures
        !completes(button_after(b, true, now), true, later),
        button_after(button_after(b, true, now), true, later) == button_after(b, true, now),
{
}

// ---------------------------------------------------------------------------
// Settings that are changed by hand
// ---------------------------------------------------------------------------

/// What happens in a frame in which the settings are on display.
#[derive(Clone, Copy, PartialEq, Eq, Debug, Structural)]
pub struct SettingsFrame {
    /// A setting was changed.
    pub changed: bool,
    /// The pointer on the panel is pressed.
    pub pressed: bool,
}

/// Whether a change that waits is written in the frame.
pub open spec fn saves(dirty: bool, f: SettingsFrame) -> bool {
    dirty && !f.pressed
}

/// Whether a change waits after the frame.
pub open spec fn dirty_after(dirty: bool, f: SettingsFrame) -> bool {
    !saves(dirty, f) && (dirty || f.changed)
}

/// Whether a change waits after a number of frames.
pub open spec fn dirty_run(dirty: bool, frames: Seq<SettingsFrame>) -> bool
    decreases frames.len(),
{
    if frames.len() == 0 {
        dirty
    } else {
        dirty_after(dirty_run(dirty, frames.drop_last()), frames.last())
    }
}

/// Whether the settings are to be written now, and whether a change is left to write: a
/// change is written once the pointer is no longer pressed.
pub fn autosave(dirty: bool, f: SettingsFrame) -> (r: (bool, bool))
    ensures
        r.0 == saves(dirty, f),
        r.1 == dirty_after(dirty, f),
{
    if dirty && !f.pressed {
        (true, false)
    } else {
        (false, dirty || f.changed)
    }
}

/// No change is lost: where a setting is changed in the frame at `k` and the pointer is not
/// pressed in a later one at `j`, the settings are written in one of them or between.
pub proof fn law_change_is_written(dirty: bool, frames: Seq<SettingsFrame>, k: int, j: int)
    requires
        0 <= k < j < frames.len(),
        frames[k].changed,
        !frames[j].pressed,
    ensures
        exists|i: int|
            k <= i <= j && saves(dirty_run(dirty, frames.take(i)), #[trigger] frames[i]),
{
    if forall|i: int|
        k <= i < j ==> !saves(dirty_run(dirty, frames.take(i)), #[trigger] frames[i]) {
        lemma_stays_dirty(dirty, frames, k, j);
        assert(saves(dirty_run(dirty, frames.take(j)), frames[j]));
    }
}

proof fn lemma_stays_dirty(dirty: bool, frames: Seq<SettingsFrame>, k: int, j: int)
    requires
        0 <= k < j <= frames.len(),
        frames[k].changed,
        forall|i: int|
            k <= i < j ==> !saves(dirty_run(dirty, frames.take(i)), #[trigger] frames[i]),
    ensures
        dirty_run(dirty, frames.take(j)),
    decreases j - k,
{
    assert(frames.take(j).drop_last() =~= frames.take(j - 1));
    assert(frames.take(j).last() == frames[j - 1]);
    if j > k + 1 {
        lemma_stays_dirty(dirty, frames, k, j - 1);
    }
}

// ---------------------------------------------------------------------------
// The overlay
// ---------------------------------------------------------------------------

/// The panels of the photo windows that are open, in order, from the one at `from` on.
pub open spec fn open_photos(p: Photos, from: int) -> Seq<Target>
    decreases p.slots@.len() - from,
{
    if from >= p.slots@.len() || from < 0 {
        Seq::empty()
    } else if p.slots@[from].open {
        seq![Target::Photo(from as usize)] + open_photos(p, from + 1)
    } else {
        open_photos(p, from + 1)
    }
}

/// The panels of the photo windows that are open and were drawn, in order, from the one at
/// `from` on.
pub open spec fn drawn_photos(p: Photos, drawn: Seq<bool>, from: int) -> Seq<Layer>
    decreases p.slots@.len() - from,
{
    if from >= p.slots@.len() || from < 0 {
        Seq::empty()
    } else if p.slots@[from].open && drawn[from] {
        seq![Layer::Panel(Target::Photo(from as usize))] + drawn_photos(p, drawn, from + 1)
    } else {
        drawn_photos(p, drawn, from + 1)
    }
}

/// One item, or none.
pub open spec fn only_if<T>(present: bool, item: T) -> Seq<T> {
    if present {
        seq![item]
    } else {
        Seq::empty()
    }
}

impl Overlay {
    /// Every part is well formed, and what is held is a panel that can be held.
    pub open spec fn wf(&self) -> bool {
        &&& self.gallery.wf()
        &&& self.photos.wf()
        &&& self.queue.wf()
        &&& match self.grab {
            Some(g) => holdable(g.target) && g.hand < HANDS,
            None => true,
        }
    }

    /// An overlay that shows nothing.
    pub fn new() -> (r: Overlay)
        ensures
            r.wf(),
            !r.settings_visible,
            !r.gallery.visible,
            r.gallery.page == 0,
            r.gallery.items@.len() == 0,
            r.gallery.shown@.len() == 0,
            forall|i: int| 0 <= i < PHOTO_SLOTS ==> !(#[trigger] r.photos.slots@[i]).open,
            r.photos.next_job == 0,
            r.queue.items@.len() == 0,
            r.queue.at == 0,
            r.grab is None,
            r.system == (SystemButton { down: false, last: None }),
            !r.gate.shown,
    {
        Overlay {
            settings_visible: false,
            system: SystemButton::new(),
            gallery: Gallery::new(),
            photos: Photos::new(),
            queue: Queue::new(),
            gate: WristGate::new(),
            grab: None,
        }
    }

    /// Follows the SYSTEM button: a double press shows or hides the settings and lets go of
    /// what is held. The result says whether they are now shown, where that changed.
    pub fn system_button(&mut self, down: bool, now: u64) -> (r: Option<bool>)
        requires
            old(self).wf(),
        ensures
            final(self).wf(),
            final(self).system == button_after(old(self).system, down, now),
            final(self).gallery == old(self).gallery,
            final(self).photos == old(self).photos,
            final(self).queue == old(self).queue,
            final(self).gate == old(self).gate,
            if completes(old(self).system, down, now) {
                final(self).settings_visible == !old(self).settings_visible && final(self).grab
                    is None && r == Some(final(self).settings_visible)
            } else {
                final(self).settings_visible == old(self).settings_visible && final(self).grab
                    == old(self).grab && r is None
            },
    {
        if self.system.update(down, now) {
            self.settings_visible = !self.settings_visible;
            self.grab = None;
            Some(self.settings_visible)
        } else {
            None
        }
    }

    /// The panels that can be pointed at, given whether the wrist card is up.
    pub open spec fn target_list(&self, card: bool) -> Seq<Target> {
        only_if(self.settings_visible, Target::Settings) + only_if(
            self.gallery.visible,
            Target::Gallery,
        ) + open_photos(self.photos, 0) + only_if(card, Target::Wrist)
    }

    /// The panels that can be pointed at: settings, gallery, photo windows, wrist card.
    pub fn targets(&self, card: bool) -> (r: Vec<Target>)
        requires
            self.wf(),
        ensures
            r@ == self.target_list(card),
    {
        let mut out: Vec<Target> = Vec::new();
        if self.settings_visible {
            out.push(Target::Settings);
        }
        if self.gallery.visible {
            out.push(Target::Gallery);
        }
        let ghost head = out@;
        let mut i: usize = 0;
        while i < self.photos.slots.len()
            invariant
                i <= self.photos.slots@.len(),
                out@ + open_photos(self.photos, i as int) =~= head + open_photos(self.photos, 0),
            decreases self.photos.slots@.len() - i,
        {
            if self.photos.slots[i].open {
                out.push(Target::Photo(i));
            }
            i = i + 1;
        }
        if card {
            out.push(Target::Wrist);
        }
        assert(out@ =~= self.target_list(card));
        out
    }

    /// Whether there is nothing to draw.
    pub fn idle(&self, card: bool) -> (r: bool)
        requires
            self.wf(),
        ensures
            r <==> self.target_list(card).len() == 0,
    {
        let open = self.photos.any_open();
        proof {
            lemma_open_photos(self.photos, 0);
        }
        !self.settings_visible && !self.gallery.visible && !open && !card
    }

    /// Goes on with what is held, given whether the hand that holds it is located and with what
    /// force it is squeezed. The result is the panel that moves with it; where the hand lets go
    /// there is none, and no panel moves.
    pub fn hold(&mut self, located: bool, force: u32) -> (r: Option<Target>)
        requires
            old(self).wf(),
        ensures
            final(self).wf(),
            final(self).settings_visible == old(self).settings_visible,
            final(self).system == old(self).system,
            final(self).gallery == old(self).gallery,
            final(self).photos == old(self).photos,
            final(self).queue == old(self).queue,
            final(self).gate == old(self).gate,
            final(self).grab == held_after(old(self).grab, located, force),
            r == match final(self).grab {
                Some(g) => Some(g.target),
                None => None,
            },
    {
        match self.grab {
            Some(g) => if located && force > GRAB_RELEASE {
                Some(g.target)
            } else {
                self.grab = None;
                None
            },
            None => None,
        }
    }

    /// Follows the hands while nothing is held: what each of them points at, and what one of
    /// them takes hold of.
    pub fn point(&mut self, hands: &Vec<Hand>) -> (r: Vec<HandAim>)
        requires
            old(self).wf(),
            old(self).grab is None,
            hands@.len() == HANDS,
            forall|i: int, k: int|
                0 <= i < hands@.len() && 0 <= k < hands@[i].hits@.len() ==> in_place(
                    (#[trigger] hands@[i].hits@[k]).target,
                ),
        ensures
            final(self).wf(),
            final(self).settings_visible == old(self).settings_visible,
            final(self).system == old(self).system,
            final(self).gallery == old(self).gallery,
            final(self).photos == old(self).photos,
            final(self).queue == old(self).queue,
            final(self).gate == old(self).gate,
            r@.len() == hands@.len(),
            forall|i: int| 0 <= i < hands@.len() ==> #[trigger] r@[i] == aim_of(hands@, i),
            match final(self).grab {
                Some(g) => g.hand < hands@.len() && (r@[g.hand as int] matches HandAim::Grabs(h)
                    && g.target == hands@[g.hand as int].hits@[h as int].target),
                None => forall|i: int| 0 <= i < hands@.len() ==> !would_grab(#[trigger] hands@[i]),
            },
    {
        let aims = aim(hands);
        self.grab = begun(hands, &aims);
        aims
    }

    /// The layers of a frame.
    pub open spec fn layer_list(&self, drawn: Drawn) -> Seq<Layer> {
        only_if(drawn.settings, Layer::Panel(Target::Settings)) + only_if(
            drawn.gallery,
            Layer::Panel(Target::Gallery),
        ) + drawn_photos(self.photos, drawn.photos@, 0) + only_if(
            drawn.wrist && self.queue.items@.len() > 0,
            Layer::Panel(Target::Wrist),
        ) + only_if(drawn.laser, Layer::Laser)
    }

    /// The layers of a frame, from back to front: the panels that were drawn, without photo
    /// windows that have been closed since and without a wrist card that has run out of
    /// notifications, and the laser.
    pub fn layers(&self, drawn: &Drawn) -> (r: Vec<Layer>)
        requires
            self.wf(),
            drawn.photos@.len() == PHOTO_SLOTS,
        ensures
            r@ == self.layer_list(*drawn),
    {
        let mut out: Vec<Layer> = Vec::new();
        if drawn.settings {
            out.push(Layer::Panel(Target::Settings));
        }
        if drawn.gallery {
            out.push(Layer::Panel(Target::Gallery));
        }
        let ghost head = out@;
        let mut i: usize = 0;
        while i < self.photos.slots.len()
            invariant
                i <= self.photos.slots@.len(),
                self.photos.slots@.len() == drawn.photos@.len(),
                out@ + drawn_photos(self.photos, drawn.photos@, i as int) =~= head + drawn_photos(
                    self.photos,
                    drawn.photos@,
                    0,
                ),
            decreases self.photos.slots@.len() - i,
        {
            if self.photos.slots[i].open && drawn.photos[i] {
                out.push(Layer::Panel(Target::Photo(i)));
            }
            i = i + 1;
        }
        if drawn.wrist && self.queue.items.len() > 0 {
            out.push(Layer::Panel(Target::Wrist));
        }
        if drawn.laser {
            out.push(Layer::Laser);
        }
        assert(out@ =~= self.layer_list(*drawn));
        out
    }
}

/// What is held once the hand was seen with a force: what was held before, while the hand is
/// located and squeezed enough.
pub open spec fn held_after(grab: Option<Grab>, located: bool, force: u32) -> Option<Grab> {
    if located && force > GRAB_RELEASE {
        grab
    } else {
        None
    }
}

/// What is held after a number of frames.
pub open spec fn held_run(grab: Option<Grab>, frames: Seq<(bool, u32)>) -> Option<Grab>
    decreases frames.len(),
{
    if frames.len() == 0 {
        grab
    } else {
        held_after(held_run(grab, frames.drop_last()), frames.last().0, frames.last().1)
    }
}

/// A panel stays held, by the hand that took it, exactly as long as that hand is located and
/// squeezed enough in every frame.
pub proof fn law_grab_lasts(grab: Grab, frames: Seq<(bool, u32)>)
    ensures
        held_run(Some(grab), frames) == (if forall|k: int|
            0 <= k < frames.len() ==> (#[trigger] frames[k]).0 && frames[k].1 > GRAB_RELEASE {
            Some(grab)
        } else {
            None
        }),
    decreases frames.len(),
{
    if frames.len() > 0 {
        let front = frames.drop_last();
        law_grab_lasts(grab, front);
        assert(forall|k: int| 0 <= k < front.len() ==> #[trigger] front[k] == frames[k]);
        let last = frames[frames.len() - 1];
        if forall|k: int|
            0 <= k < front.len() ==> (#[trigger] front[k]).0 && front[k].1 > GRAB_RELEASE {
            assert forall|k: int|
                0 <= k < frames.len() && last.0 && last.1 > GRAB_RELEASE implies (
            #[trigger] frames[k]).0 && frames[k].1 > GRAB_RELEASE by {
                if k < front.len() {
                    assert(front[k] == frames[k]);
                }
            }
        } else {
            let k = choose|k: int|
                0 <= k < front.len() && !((#[trigger] front[k]).0 && front[k].1 > GRAB_RELEASE);
            assert(!(frames[k].0 && frames[k].1 > GRAB_RELEASE));
        }
    }
}

/// Whether a panel can be held: any but the wrist card, which is locked to the hand.
pub open spec fn holdable(t: Target) -> bool {
    t != Target::Wrist && in_place(t)
}

/// Whether a photo window is one of those there are.
pub open spec fn in_place(t: Target) -> bool {
    match t {
        Target::Photo(i) => i < PHOTO_SLOTS,
        _ => true,
    }
}

/// Whether the game must not get the controllers' input: something is held or pointed at.
pub fn wants_input(held: bool, aims: &Vec<HandAim>) -> (r: bool)
    ensures
        r <==> held || exists|i: int| 0 <= i < aims@.len() && !((#[trigger] aims@[i]) is Idle),
{
    if held {
        return true;
    }
    let mut i: usize = 0;
    while i < aims.len()
        invariant
            i <= aims@.len(),
            forall|k: int| 0 <= k < i ==> (#[trigger] aims@[k]) is Idle,
        decreases aims@.len() - i,
    {
        match aims[i] {
            HandAim::Idle => {},
            _ => {
                assert(!(aims@[i as int] is Idle));
                return true;
            },
        }
        i = i + 1;
    }
    false
}

proof fn lemma_open_photos(p: Photos, from: int)
    requires
        0 <= from <= p.slots@.len(),
    ensures
        open_photos(p, from).len() > 0 <==> exists|i: int|
            from <= i < p.slots@.len() && (#[trigger] p.slots@[i]).open,
        forall|t: Target|
            open_photos(p, from).contains(t) ==> t is Photo && from <= t->Photo_0 < p.slots@.len()
                && p.slots@[t->Photo_0 as int].open,
    decreases p.slots@.len() - from,
{
    assert(p.slots.len() <= usize::MAX);
    if from < p.slots@.len() {
        lemma_open_photos(p, from + 1);
        let rest = open_photos(p, from + 1);
        let all = open_photos(p, from);
        assert forall|t: Target| all.contains(t) implies t is Photo && from <= t->Photo_0
            < p.slots@.len() && p.slots@[t->Photo_0 as int].open by {
            let k = all.index_of(t);
            if p.slots@[from].open {
                if k > 0 {
                    assert(rest[k - 1] == t);
                    assert(rest.contains(t));
                }
            } else {
                assert(rest.contains(t));
            }
        }
    }
}

/// Only panels that are up can be pointed at, and so be clicked or taken hold of.
pub proof fn law_only_visible_targets(o: Overlay, card: bool, t: Target)
    requires
        o.wf(),
        o.target_list(card).contains(t),
    ensures
        in_place(t),
        match t {
            Target::Settings => o.settings_visible,
            Target::Gallery => o.gallery.visible,
            Target::Wrist => card,
            Target::Photo(i) => o.photos.slots@[i as int].open,
        },
{
    lemma_open_photos(o.photos, 0);
    let a = only_if(o.settings_visible, Target::Settings);
    let b = only_if(o.gallery.visible, Target::Gallery);
    let c = open_photos(o.photos, 0);
    let d = only_if(card, Target::Wrist);
    let all = o.target_list(card);
    let k = all.index_of(t);
    if k >= a.len() + b.len() && k < a.len() + b.len() + c.len() {
        assert(c[k - a.len() - b.len()] == t);
        assert(c.contains(t));
    }
}

proof fn lemma_drawn_photos(p: Photos, drawn: Seq<bool>, from: int, l: Layer)
    requires
        0 <= from <= p.slots@.len(),
        drawn_photos(p, drawn, from).contains(l),
    ensures
        l matches Layer::Panel(Target::Photo(i)) && from <= i < p.slots@.len()
            && p.slots@[i as int].open && drawn[i as int],
    decreases p.slots@.len() - from,
{
    assert(p.slots.len() <= usize::MAX);
    let all = drawn_photos(p, drawn, from);
    let k = all.index_of(l);
    if from < p.slots@.len() {
        let rest = drawn_photos(p, drawn, from + 1);
        if p.slots@[from].open && drawn[from] {
            if k > 0 {
                assert(rest[k - 1] == l);
                assert(rest.contains(l));
                lemma_drawn_photos(p, drawn, from + 1, l);
            }
        } else {
            assert(rest.contains(l));
            lemma_drawn_photos(p, drawn, from + 1, l);
        }
    }
}

/// A frame holds only panels that were drawn in it: the runtime refuses any other.
pub proof fn law_layers_were_drawn(o: Overlay, drawn: Drawn, l: Layer)
    requires
        o.wf(),
        drawn.photos@.len() == PHOTO_SLOTS,
        o.layer_list(drawn).contains(l),
    ensures
        match l {
            Layer::Panel(Target::Settings) => drawn.settings,
            Layer::Panel(Target::Gallery) => drawn.gallery,
            Layer::Panel(Target::Wrist) => drawn.wrist,
            Layer::Panel(Target::Photo(i)) => i < PHOTO_SLOTS && drawn.photos@[i as int],
            Layer::Laser => drawn.laser,
        },
{
    let a = only_if(drawn.settings, Layer::Panel(Target::Settings));
    let b = only_if(drawn.gallery, Layer::Panel(Target::Gallery));
    let c = drawn_photos(o.photos, drawn.photos@, 0);
    let all = o.layer_list(drawn);
    let k = all.index_of(l);
    if k >= a.len() + b.len() && k < a.len() + b.len() + c.len() {
        assert(c[k - a.len() - b.len()] == l);
        assert(c.contains(l));
        lemma_drawn_photos(o.photos, drawn.photos@, 0, l);
    }
}

// ---------------------------------------------------------------------------
// What is listed, and in what order
// ---------------------------------------------------------------------------

/// The place of a panel among the others: settings, gallery, photo windows, wrist card.
pub open spec fn rank(t: Target) -> int {
    match t {
        Target::Settings => 0,
        Target::Gallery => 1,
        Target::Photo(i) => 2 + i,
        Target::Wrist => 2 + PHOTO_SLOTS,
    }
}

/// The place of a layer among the others: that of its panel, and the laser in front.
pub open spec fn layer_rank(l: Layer) -> int {
    match l {
        Layer::Panel(t) => rank(t),
        Layer::Laser => 3 + PHOTO_SLOTS,
    }
}

proof fn lemma_open_photos_listed(p: Photos, from: int, i: int)
    requires
        0 <= from <= i < p.slots@.len(),
        p.slots@[i].open,
    ensures
        open_photos(p, from).contains(Target::Photo(i as usize)),
    decreases p.slots@.len() - from,
{
    let all = open_photos(p, from);
    if from == i {
        assert(all[0] == Target::Photo(i as usize));
    } else {
        lemma_open_photos_listed(p, from + 1, i);
        let rest = open_photos(p, from + 1);
        let k = rest.index_of(Target::Photo(i as usize));
        if p.slots@[from].open {
            assert(all[k + 1] == rest[k]);
        }
    }
}

proof fn lemma_drawn_photos_listed(p: Photos, drawn: Seq<bool>, from: int, i: int)
    requires
        0 <= from <= i < p.slots@.len(),
        p.slots@[i].open,
        drawn[i],
    ensures
        drawn_photos(p, drawn, from).contains(Layer::Panel(Target::Photo(i as usize))),
    decreases p.slots@.len() - from,
{
    let all = drawn_photos(p, drawn, from);
    if from == i {
        assert(all[0] == Layer::Panel(Target::Photo(i as usize)));
    } else {
        lemma_drawn_photos_listed(p, drawn, from + 1, i);
        let rest = drawn_photos(p, drawn, from + 1);
        let k = rest.index_of(Layer::Panel(Target::Photo(i as usize)));
        if p.slots@[from].open && drawn[from] {
            assert(all[k + 1] == rest[k]);
        }
    }
}

/// Every panel that is up can be pointed at.
pub proof fn law_every_visible_target(o: Overlay, card: bool, i: usize)
    requires
        o.wf(),
        i < PHOTO_SLOTS,
    ensures
        o.settings_visible ==> o.target_list(card).contains(Target::Settings),
        o.gallery.visible ==> o.target_list(card).contains(Target::Gallery),
        o.photos.slots@[i as int].open ==> o.target_list(card).contains(Target::Photo(i)),
        card ==> o.target_list(card).contains(Target::Wrist),
{
    let a = only_if(o.settings_visible, Target::Settings);
    let b = only_if(o.gallery.visible, Target::Gallery);
    let c = open_photos(o.photos, 0);
    let d = only_if(card, Target::Wrist);
    let all = o.target_list(card);
    if o.settings_visible {
        assert(all[0] == Target::Settings);
    }
    if o.gallery.visible {
        assert(all[a.len() as int] == Target::Gallery);
    }
    if o.photos.slots@[i as int].open {
        lemma_open_photos_listed(o.photos, 0, i as int);
        let k = c.index_of(Target::Photo(i));
        assert(all[a.len() + b.len() + k] == c[k]);
    }
    if card {
        assert(all[(a.len() + b.len() + c.len()) as int] == Target::Wrist);
    }
}

proof fn lemma_open_photos_ordered(p: Photos, from: int)
    requires
        0 <= from <= p.slots@.len(),
    ensures
        forall|j: int, k: int|
            0 <= j < k < open_photos(p, from).len() ==> rank(open_photos(p, from)[j]) < rank(
                open_photos(p, from)[k],
            ),
        forall|k: int|
            0 <= k < open_photos(p, from).len() ==> 2 + from <= rank(#[trigger] open_photos(p, from)[k])
                < 2 + p.slots@.len(),
    decreases p.slots@.len() - from,
{
    assert(p.slots.len() <= usize::MAX);
    if from < p.slots@.len() {
        lemma_open_photos_ordered(p, from + 1);
        let rest = open_photos(p, from + 1);
        let all = open_photos(p, from);
        if p.slots@[from].open {
            assert(forall|k: int| 0 < k < all.len() ==> #[trigger] all[k] == rest[k - 1]);
        }
    }
}

/// No panel is listed twice among those that can be pointed at, and they come in their order:
/// settings, gallery, photo windows, wrist card.
pub proof fn law_targets_in_order(o: Overlay, card: bool, j: int, k: int)
    requires
        o.wf(),
        0 <= j < k < o.target_list(card).len(),
    ensures
        rank(o.target_list(card)[j]) < rank(o.target_list(card)[k]),
{
    lemma_open_photos_ordered(o.photos, 0);
    let a = only_if(o.settings_visible, Target::Settings);
    let b = only_if(o.gallery.visible, Target::Gallery);
    let c = open_photos(o.photos, 0);
    let all = o.target_list(card);
    let start = a.len() + b.len();
    assert(forall|n: int|
        start <= n < start + c.len() ==> #[trigger] all[n] == c[n - start]);
}

proof fn lemma_drawn_photos_ordered(p: Photos, drawn: Seq<bool>, from: int)
    requires
        0 <= from <= p.slots@.len(),
    ensures
        forall|j: int, k: int|
            0 <= j < k < drawn_photos(p, drawn, from).len() ==> layer_rank(
                drawn_photos(p, drawn, from)[j],
            ) < layer_rank(drawn_photos(p, drawn, from)[k]),
        forall|k: int|
            0 <= k < drawn_photos(p, drawn, from).len() ==> 2 + from <= layer_rank(
                #[trigger] drawn_photos(p, drawn, from)[k],
            ) < 2 + p.slots@.len(),
    decreases p.slots@.len() - from,
{
    assert(p.slots.len() <= usize::MAX);
    if from < p.slots@.len() {
        lemma_drawn_photos_ordered(p, drawn, from + 1);
        let rest = drawn_photos(p, drawn, from + 1);
        let all = drawn_photos(p, drawn, from);
        if p.slots@[from].open && drawn[from] {
            assert(forall|k: int| 0 < k < all.len() ==> #[trigger] all[k] == rest[k - 1]);
        }
    }
}

/// A frame shows everything that was drawn: the settings, the gallery, each photo window that
/// is still open, the wrist card while notifications wait, and the laser.
pub proof fn law_frame_is_complete(o: Overlay, drawn: Drawn, i: usize)
    requires
        o.wf(),
        drawn.photos@.len() == PHOTO_SLOTS,
        i < PHOTO_SLOTS,
    ensures
        drawn.settings ==> o.layer_list(drawn).contains(Layer::Panel(Target::Settings)),
        drawn.gallery ==> o.layer_list(drawn).contains(Layer::Panel(Target::Gallery)),
        drawn.photos@[i as int] && o.photos.slots@[i as int].open ==> o.layer_list(drawn).contains(
            Layer::Panel(Target::Photo(i)),
        ),
        drawn.wrist && o.queue.items@.len() > 0 ==> o.layer_list(drawn).contains(
            Layer::Panel(Target::Wrist),
        ),
        drawn.laser ==> o.layer_list(drawn).contains(Layer::Laser),
{
    let a = only_if(drawn.settings, Layer::Panel(Target::Settings));
    let b = only_if(drawn.gallery, Layer::Panel(Target::Gallery));
    let c = drawn_photos(o.photos, drawn.photos@, 0);
    let d = only_if(drawn.wrist && o.queue.items@.len() > 0, Layer::Panel(Target::Wrist));
    let all = o.layer_list(drawn);
    if drawn.settings {
        assert(all[0] == Layer::Panel(Target::Settings));
    }
    if drawn.gallery {
        assert(all[a.len() as int] == Layer::Panel(Target::Gallery));
    }
    if drawn.photos@[i as int] && o.photos.slots@[i as int].open {
        lemma_drawn_photos_listed(o.photos, drawn.photos@, 0, i as int);
        let k = c.index_of(Layer::Panel(Target::Photo(i)));
        assert(all[a.len() + b.len() + k] == c[k]);
    }
    if drawn.wrist && o.queue.items@.len() > 0 {
        assert(all[(a.len() + b.len() + c.len()) as int] == Layer::Panel(Target::Wrist));
    }
    if drawn.laser {
        assert(all[(a.len() + b.len() + c.len() + d.len()) as int] == Layer::Laser);
    }
}

/// A frame shows no photo window that has been closed and no wrist card that has run out of
/// notifications.
pub proof fn law_frame_shows_nothing_closed(o: Overlay, drawn: Drawn, l: Layer)
    requires
        o.wf(),
        drawn.photos@.len() == PHOTO_SLOTS,
        o.layer_list(drawn).contains(l),
    ensures
        match l {
            Layer::Panel(Target::Photo(i)) => i < PHOTO_SLOTS && o.photos.slots@[i as int].open,
            Layer::Panel(Target::Wrist) => o.queue.items@.len() > 0,
            _ => true,
        },
{
    let a = only_if(drawn.settings, Layer::Panel(Target::Settings));
    let b = only_if(drawn.gallery, Layer::Panel(Target::Gallery));
    let c = drawn_photos(o.photos, drawn.photos@, 0);
    let all = o.layer_list(drawn);
    let k = all.index_of(l);
    if k >= a.len() + b.len() && k < a.len() + b.len() + c.len() {
        assert(c[k - a.len() - b.len()] == l);
        assert(c.contains(l));
        lemma_drawn_photos(o.photos, drawn.photos@, 0, l);
    }
}

/// No layer is in a frame twice, and they come from back to front: settings, gallery, photo
/// windows, wrist card, laser.
pub proof fn law_layers_in_order(o: Overlay, drawn: Drawn, j: int, k: int)
    requires
        o.wf(),
        drawn.photos@.len() == PHOTO_SLOTS,
        0 <= j < k < o.layer_list(drawn).len(),
    ensures
        layer_rank(o.layer_list(drawn)[j]) < layer_rank(o.layer_list(drawn)[k]),
{
    lemma_drawn_photos_ordered(o.photos, drawn.photos@, 0);
    let a = only_if(drawn.settings, Layer::Panel(Target::Settings));
    let b = only_if(drawn.gallery, Layer::Panel(Target::Gallery));
    let c = drawn_photos(o.photos, drawn.photos@, 0);
    let all = o.layer_list(drawn);
    let start = a.len() + b.len();
    assert(forall|n: int|
        start <= n < start + c.len() ==> #[trigger] all[n] == c[n - start]);
}

/// Settings are written only where a change waits and the pointer is up; a change that is not
/// written waits on; and where nothing changes there is nothing to write.
pub proof fn law_writes_only_changes(dirty: bool, f: SettingsFrame)
    ensures
        saves(dirty, f) ==> dirty && !f.pressed,
        dirty && !f.pressed ==> saves(dirty, f) && !dirty_after(dirty, f),
        dirty && f.pressed ==> dirty_after(dirty, f),
        !dirty ==> dirty_after(dirty, f) == f.changed,
{
}

/// Where no setting is ever changed, nothing is ever written.
pub proof fn law_no_change_no_write(frames: Seq<SettingsFrame>, j: int)
    requires
        0 <= j < frames.len(),
        forall|k: int| 0 <= k < frames.len() ==> !(#[trigger] frames[k]).changed,
    ensures
        !saves(dirty_run(false, frames.take(j)), frames[j]),
{
    lemma_stays_clean(frames, j);
}

proof fn lemma_stays_clean(frames: Seq<SettingsFrame>, j: int)
    requires
        0 <= j <= frames.len(),
        forall|k: int| 0 <= k < frames.len() ==> !(#[trigger] frames[k]).changed,
    ensures
        !dirty_run(false, frames.take(j)),
    decreases j,
{
    if j > 0 {
        lemma_stays_clean(frames, j - 1);
        assert(frames.take(j).drop_last() =~= frames.take(j - 1));
        assert(!frames[j - 1].changed);
    }
}

/// The panels that can be held are the settings, the gallery and the photo windows there are.
pub proof fn law_what_can_be_held(t: Target)
    ensures
        holdable(t) <==> t == Target::Settings || t == Target::Gallery || (t is Photo && t->Photo_0
            < 3),
{
}

/// A press counts as the second of two exactly where an unused press lies less than the limit
/// before it, whatever happened earlier; it uses both up, and any other press waits for a
/// second.
pub proof fn law_press(b: SystemButton, now: u64)
    requires
        !b.down,
        b.last is Some ==> b.last->0 <= now,
    ensures
        completes(b, true, now) <==> b.last is Some && now - b.last->0 < 400_000_000,
        pressed_once(b, now).last == (if completes(b, true, now) {
            None
        } else {
            Some(now)
        }),
        !pressed_once(b, now).down,
        !completes(b, false, now),
        button_after(b, false, now) == b,
{
}

} // verus!
