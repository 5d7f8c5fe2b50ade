//! The wrist card: a short queue of notifications for new screenshots, and when it shows.

use vstd::prelude::*;
use crate::text::{decimal, decimal_text};

verus! {

/// How many notifications wait at most.
pub const MAX_PENDING: usize = 6;

/// A notification: the screenshot, when it was taken, and the text of the QR code in it
/// where the notification is for that and not for the picture.
pub struct Pending {
    pub name: Vec<u8>,
    pub when: String,
    pub code: Option<String>,
}

/// What waits to be seen, newest first, and which of it the card shows.
pub struct Queue {
    pub items: Vec<Pending>,
    pub at: usize,
}

/// What was clicked on the card while it was drawn once.
#[derive(Clone, Copy, PartialEq, Eq, Debug, Structural)]
pub struct WristClicks {
    pub open: bool,
    pub older: bool,
    pub newer: bool,
}

/// What a click on the card asks for.
#[derive(Clone, Copy, PartialEq, Eq, Debug, Structural)]
pub enum WristAction {
    Nothing,
    Older,
    Newer,
    Open,
}

/// What to do with a notification that was opened.
pub enum Opening {
    /// Show the screenshot in a photo window.
    Photo(Vec<u8>, String),
    /// Hand the link to the desktop.
    Link(String),
    /// Show the text in a window.
    Text(String, String),
}

/// What a new screenshot leads to.
pub struct Notice {
    pub pending: Option<Pending>,
    /// Whether the file is to be removed.
    pub delete: bool,
}

/// Whether the wrist card is shown, which decides how far it may then turn away.
#[derive(Clone, Copy, PartialEq, Eq, Debug, Structural)]
pub struct WristGate {
    pub shown: bool,
}

/// What the clicks ask for: what is drawn later wins. The buttons for older and newer are
/// there only where more than one notification waits, and only where there is one that way.
pub open spec fn wrist_asked_for(clicks: WristClicks, at: int, total: int) -> WristAction {
    if clicks.newer && total > 1 && at > 0 {
        WristAction::Newer
    } else if clicks.older && total > 1 && at + 1 < total {
        WristAction::Older
    } else if clicks.open {
        WristAction::Open
    } else {
        WristAction::Nothing
    }
}

/// Which notification the card shows after scrolling.
pub open spec fn scrolled(action: WristAction, at: int) -> int {
    match action {
        WristAction::Older => at + 1,
        WristAction::Newer => at - 1,
        _ => at,
    }
}

/// The letter in lower case, for ASCII letters.
pub open spec fn lower_char(c: char) -> char {
    if 'A' <= c <= 'Z' {
        (c as u32 + 0x20) as char
    } else {
        c
    }
}

/// Whether `text` starts with `prefix`, which is in lower case, in any case.
pub open spec fn starts_with(text: Seq<char>, prefix: Seq<char>) -> bool {
    text.len() >= prefix.len() && forall|i: int|
        0 <= i < prefix.len() ==> lower_char(#[trigger] text[i]) == prefix[i]
}

/// Whether the text of a QR code is a link for the desktop to open.
pub open spec fn link_text(text: Seq<char>) -> bool {
    starts_with(text, "http://"@) || starts_with(text, "https://"@)
}

fn lower_of(c: char) -> (r: char)
    ensures
        r == lower_char(c),
{
    if 'A' <= c && c <= 'Z' {
        ((c as u8) + 0x20) as char
    } else {
        c
    }
}

fn has_prefix(text: &str, prefix: &str) -> (r: bool)
    ensures
        r == starts_with(text@, prefix@),
{
    let n: usize = prefix.unicode_len();
    if text.unicode_len() < n {
        return false;
    }
    let mut i: usize = 0;
    while i < n
        invariant
            n == prefix@.len(),
            n <= text@.len(),
            i <= n,
            forall|k: int| 0 <= k < i ==> lower_char(#[trigger] text@[k]) == prefix@[k],
        decreases n - i,
    {
        if lower_of(text.get_char(i)) != prefix.get_char(i) {
            assert(lower_char(text@[i as int]) != prefix@[i as int]);
            return false;
        }
        i = i + 1;
    }
    true
}

/// Whether the text of a QR code is a link.
pub fn is_link(text: &str) -> (r: bool)
    ensures
        r == link_text(text@),
{
    has_prefix(text, "http://") || has_prefix(text, "https://")
}

/// Whether `n` is what a new screenshot leads to.
pub open spec fn announces(
    n: Notice,
    name: Vec<u8>,
    when: String,
    code: Option<String>,
    thumb: bool,
    detect: bool,
    autodelete: bool,
) -> bool {
    &&& n.delete == (detect && code is Some && autodelete)
    &&& n.pending is Some <==> (detect && code is Some) || thumb
    &&& n.pending matches Some(p) ==> p.name == name && p.when == when && p.code == (if detect {
        code
    } else {
        None
    })
}

/// What a new screenshot leads to. With QR detection on, one that holds a code is announced
/// by its code, and removed if that was asked for; any other is announced by its preview, if
/// one could be made.
pub fn notice(
    name: Vec<u8>,
    when: String,
    code: Option<String>,
    thumb: bool,
    detect: bool,
    autodelete: bool,
) -> (r: Notice)
    ensures
        announces(r, name, when, code, thumb, detect, autodelete),
{
    if detect {
        if code.is_some() {
            return Notice { pending: Some(Pending { name, when, code }), delete: autodelete };
        }
    }
    if thumb {
        Notice { pending: Some(Pending { name, when, code: None }), delete: false }
    } else {
        Notice { pending: None, delete: false }
    }
}

/// What a notification opens as.
pub open spec fn opened_as(p: Pending) -> Opening {
    match p.code {
        None => Opening::Photo(p.name, p.when),
        Some(code) => if link_text(code@) {
            Opening::Link(code)
        } else {
            Opening::Text(code, p.when)
        },
    }
}

/// What to do with a notification that was opened: show its screenshot, or open its code as
/// a link or as text.
pub fn opening(p: Pending) -> (r: Opening)
    ensures
        r == opened_as(p),
{
    match p.code {
        None => Opening::Photo(p.name, p.when),
        Some(code) => if is_link(code.as_str()) {
            Opening::Link(code)
        } else {
            Opening::Text(code, p.when)
        },
    }
}

/// `items` without those past the limit.
pub open spec fn kept(items: Seq<Pending>) -> Seq<Pending> {
    if items.len() > MAX_PENDING {
        items.take(MAX_PENDING as int)
    } else {
        items
    }
}

/// Whether `after` is the queue once new notifications, oldest first, came ahead of it.
pub open spec fn announced(before: Queue, new: Seq<Pending>, any_new: bool, after: Queue) -> bool {
    &&& after.items@ == kept(new.reverse() + before.items@)
    &&& after.at == (if any_new {
        0
    } else {
        before.at
    })
}

/// Whether `after` is the queue once the card was clicked, and `r` what was opened.
pub open spec fn clicked(
    before: Queue,
    clicks: WristClicks,
    after: Queue,
    r: Option<Pending>,
) -> bool {
    match wrist_asked_for(clicks, before.at as int, before.items@.len() as int) {
        WristAction::Nothing => r is None && after == before,
        WristAction::Older => r is None && after.items == before.items && after.at == scrolled(
            WristAction::Older,
            before.at as int,
        ),
        WristAction::Newer => r is None && after.items == before.items && after.at == scrolled(
            WristAction::Newer,
            before.at as int,
        ),
        WristAction::Open => if before.items@.len() == 0 {
            r is None && after == before
        } else {
            &&& r == Some(before.items@[before.at as int])
            &&& after.items@ == before.items@.remove(before.at as int)
            &&& after.at == (if before.at + 1 < before.items@.len() || before.at == 0 {
                before.at as int
            } else {
                before.at - 1
            })
        },
    }
}

impl Queue {
    /// No more wait than the limit, and the card shows one of them if there is one.
    pub open spec fn wf(&self) -> bool {
        &&& self.items@.len() <= MAX_PENDING
        &&& self.at < self.items@.len() || (self.at == 0 && self.items@.len() == 0)
    }

    pub fn new() -> (r: Queue)
        ensures
            r.wf(),
            r.items@.len() == 0,
    {
        Queue { items: Vec::new(), at: 0 }
    }

    /// Puts the notifications for new screenshots, oldest first, ahead of the others. Where
    /// any screenshot was new, with a notification or not, the card goes to the newest.
    pub fn announce(&mut self, new: Vec<Pending>, any_new: bool)
        requires
            old(self).wf(),
            new@.len() > 0 ==> any_new,
        ensures
            final(self).wf(),
            announced(*old(self), new@, any_new, *final(self)),
    {
        if !any_new {
            assert(new@.reverse() + self.items@ =~= self.items@);
            return;
        }
        let ghost all = new@;
        let ghost waiting = self.items@;
        let mut rest = new;
        let mut items: Vec<Pending> = Vec::new();
        while items.len() < MAX_PENDING && rest.len() > 0
            invariant
                items@.len() <= MAX_PENDING,
                items@.len() + rest@.len() == all.len(),
                rest@ == all.take(rest@.len() as int),
                items@ =~= all.reverse().take(items@.len() as int),
            decreases rest@.len(),
        {
            let ghost left = rest@;
            if let Some(p) = rest.pop() {
                items.push(p);
                assert(rest@ =~= all.take(rest@.len() as int));
            }
        }
        let ghost goal = all.reverse() + waiting;
        assert(items@ =~= goal.take(items@.len() as int));
        while items.len() < MAX_PENDING && self.items.len() > 0
            invariant
                items@.len() <= MAX_PENDING,
                goal == all.reverse() + waiting,
                items@.len() <= goal.len(),
                items@ =~= goal.take(items@.len() as int),
                items@.len() < MAX_PENDING ==> items@.len() + self.items@.len() == goal.len(),
                items@.len() < MAX_PENDING ==> self.items@ =~= goal.skip(items@.len() as int),
            decreases self.items@.len(),
        {
            let p = self.items.remove(0);
            items.push(p);
        }
        assert(items@ =~= kept(goal));
        self.items = items;
        self.at = 0;
    }

    /// Whether the card can go on to an older notification.
    pub fn has_older(&self) -> (r: bool)
        requires
            self.wf(),
        ensures
            r == (self.at + 1 < self.items@.len()),
    {
        self.at + 1 < self.items.len()
    }

    /// The label that says which notification the card shows: its place and how many wait.
    pub fn place_label(&self) -> (r: String)
        requires
            self.wf(),
        ensures
            r@ == decimal((self.at + 1) as nat) + " / "@ + decimal(self.items@.len()),
    {
        let mut label = decimal_text((self.at + 1) as u64);
        label.append(" / ");
        label.append(decimal_text(self.items.len() as u64).as_str());
        label
    }

    /// Does what the clicks ask for. A notification that is opened leaves the queue, and the
    /// card goes to the one in its place, or to the last.
    pub fn click(&mut self, clicks: WristClicks) -> (r: Option<Pending>)
        requires
            old(self).wf(),
        ensures
            final(self).wf(),
            clicked(*old(self), clicks, *final(self), r),
    {
        let total: usize = self.items.len();
        if clicks.newer && total > 1 && self.at > 0 {
            self.at = self.at - 1;
            return None;
        }
        if clicks.older && total > 1 && self.at + 1 < total {
            self.at = self.at + 1;
            return None;
        }
        if clicks.open && total > 0 {
            let p = self.items.remove(self.at);
            if self.at >= self.items.len() && self.at > 0 {
                self.at = self.at - 1;
            }
            return Some(p);
        }
        None
    }
}

/// Whether the card is to be shown: notifications wait, hand and head are located, and its
/// face points near enough at the head, with some more leeway once it is shown.
pub open spec fn card_shows(
    shown: bool,
    waiting: bool,
    located: bool,
    within_reveal: bool,
    within_hide: bool,
) -> bool {
    waiting && located && (if shown {
        within_hide
    } else {
        within_reveal
    })
}

impl WristGate {
    pub fn new() -> (r: WristGate)
        ensures
            !r.shown,
    {
        WristGate { shown: false }
    }

    /// Decides for a frame whether the card is shown.
    pub fn update(
        &mut self,
        waiting: bool,
        located: bool,
        within_reveal: bool,
        within_hide: bool,
    ) -> (r: bool)
        ensures
            r == card_shows(old(self).shown, waiting, located, within_reveal, within_hide),
            final(self).shown == r,
    {
        let near = if self.shown {
            within_hide
        } else {
            within_reveal
        };
        self.shown = waiting && located && near;
        self.shown
    }
}

/// The card appears only while it faces the head within the reveal angle, and stays while it
/// does; between the two angles it keeps as it is.
pub proof fn law_card_hysteresis(shown: bool, within_reveal: bool, within_hide: bool)
    requires
        within_reveal ==> within_hide,
    ensures
        within_reveal ==> card_shows(shown, true, true, within_reveal, within_hide),
        !within_hide ==> !card_shows(shown, true, true, within_reveal, within_hide),
        !within_reveal && within_hide ==> card_shows(shown, true, true, within_reveal, within_hide)
            == shown,
{
}

/// Going to an older notification and back to a newer one ends where it began, wherever
/// there is an older one; and so does the other way round. Neither leaves the queue.
pub proof fn law_scroll_back(at: int, total: int)
    requires
        0 <= at < total,
    ensures
        ({
            let older = WristClicks { open: false, older: true, newer: false };
            let newer = WristClicks { open: false, older: false, newer: true };
            let back = scrolled(wrist_asked_for(older, at, total), at);
            let forth = scrolled(wrist_asked_for(newer, at, total), at);
            &&& 0 <= back < total && 0 <= forth < total
            &&& at + 1 < total ==> back == at + 1 && scrolled(
                wrist_asked_for(newer, back, total),
                back,
            ) == at
            &&& at > 0 ==> forth == at - 1 && scrolled(wrist_asked_for(older, forth, total), forth)
                == at
        }),
{
}

/// The newest notifications are the ones that stay: as long as fewer are new than the limit,
/// each of them waits, newest first.
pub proof fn law_newest_wait(new: Seq<Pending>, waiting: Seq<Pending>, i: int)
    requires
        0 <= i < new.len(),
        i < MAX_PENDING,
    ensures
        i < kept(new.reverse() + waiting).len(),
        kept(new.reverse() + waiting)[i] == new[new.len() - 1 - i],
{
}

/// A single click asks for what was clicked: the preview always, and a scroll button wherever
/// there is a notification that way. Without a click nothing is asked for.
pub proof fn law_card_click(clicks: WristClicks, at: int, total: int)
    requires
        0 <= at < total,
    ensures
        clicks.open && !clicks.older && !clicks.newer ==> wrist_asked_for(clicks, at, total)
            is Open,
        !clicks.open && clicks.older && !clicks.newer ==> wrist_asked_for(clicks, at, total) == (
        if at + 1 < total {
            WristAction::Older
        } else {
            WristAction::Nothing
        }),
        !clicks.open && !clicks.older && clicks.newer ==> wrist_asked_for(clicks, at, total) == (
        if at > 0 {
            WristAction::Newer
        } else {
            WristAction::Nothing
        }),
        !clicks.open && !clicks.older && !clicks.newer ==> wrist_asked_for(clicks, at, total)
            is Nothing,
{
}

/// What the card does was clicked, and where several things were, the scroll buttons win over
/// the preview and newer over older, as far as there is a notification that way.
pub proof fn law_card_later_wins(clicks: WristClicks, at: int, total: int)
    requires
        0 <= at < total,
    ensures
        match wrist_asked_for(clicks, at, total) {
            WristAction::Newer => clicks.newer && at > 0,
            WristAction::Older => clicks.older && at + 1 < total && !(clicks.newer && at > 0),
            WristAction::Open => clicks.open && !(clicks.newer && at > 0) && !(clicks.older && at
                + 1 < total),
            WristAction::Nothing => !clicks.open && !(clicks.newer && at > 0) && !(clicks.older
                && at + 1 < total),
        },
{
}

/// A text is a link where it begins with `http://` or `https://`, in capitals or not, and
/// nowhere else.
pub proof fn law_links(text: Seq<char>, rest: Seq<char>)
    ensures
        link_text("http://"@ + rest),
        link_text("https://"@ + rest),
        link_text("HTTP://"@ + rest),
        link_text("HTTPS://"@ + rest),
        link_text(text) ==> text.len() >= 7 && (text[0] == 'h' || text[0] == 'H') && (text[1] == 't'
            || text[1] == 'T') && (text[2] == 't' || text[2] == 'T') && (text[3] == 'p' || text[3]
            == 'P'),
        link_text(text) ==> (text[4] == ':' && text[5] == '/' && text[6] == '/') || ((text[4] == 's'
            || text[4] == 'S') && text.len() >= 8 && text[5] == ':' && text[6] == '/' && text[7]
            == '/'),
{
    reveal_strlit("http://");
    reveal_strlit("https://");
    reveal_strlit("HTTP://");
    reveal_strlit("HTTPS://");
    let plain = "http://"@;
    let secure = "https://"@;
    if starts_with(text, plain) {
        assert(lower_char(text[0]) == plain[0]);
        assert(lower_char(text[1]) == plain[1]);
        assert(lower_char(text[2]) == plain[2]);
        assert(lower_char(text[3]) == plain[3]);
        assert(lower_char(text[4]) == plain[4]);
        assert(lower_char(text[5]) == plain[5]);
        assert(lower_char(text[6]) == plain[6]);
    }
    if starts_with(text, secure) {
        assert(lower_char(text[0]) == secure[0]);
        assert(lower_char(text[1]) == secure[1]);
        assert(lower_char(text[2]) == secure[2]);
        assert(lower_char(text[3]) == secure[3]);
        assert(lower_char(text[4]) == secure[4]);
        assert(lower_char(text[5]) == secure[5]);
        assert(lower_char(text[6]) == secure[6]);
        assert(lower_char(text[7]) == secure[7]);
    }
    assert(starts_with(plain + rest, plain));
    assert(starts_with(secure + rest, secure));
    assert(starts_with("HTTP://"@ + rest, plain));
    assert(starts_with("HTTPS://"@ + rest, secure));
}

/// Whether a text is a link does not depend on the case of its letters.
pub proof fn law_links_in_any_case(a: Seq<char>, b: Seq<char>)
    requires
        a.len() == b.len(),
        forall|i: int|
            0 <= i < a.len() ==> #[trigger] a[i] == b[i] || ('A' <= b[i] <= 'Z' && a[i] as int
                == b[i] as int + 0x20),
    ensures
        link_text(a) == link_text(b),
{
    reveal_strlit("http://");
    reveal_strlit("https://");
    assert forall|i: int| 0 <= i < a.len() implies lower_char(#[trigger] a[i]) == lower_char(b[i]) by {
        if a[i] != b[i] {
            assert(lower_char(b[i]) as int == b[i] as int + 0x20);
        }
    }
    assert forall|p: Seq<char>| starts_with(a, p) == starts_with(b, p) by {
        if starts_with(a, p) {
            assert forall|i: int| 0 <= i < p.len() implies lower_char(#[trigger] b[i]) == p[i] by {
                assert(lower_char(a[i]) == p[i]);
            }
        }
        if starts_with(b, p) {
            assert forall|i: int| 0 <= i < p.len() implies lower_char(#[trigger] a[i]) == p[i] by {
                assert(lower_char(b[i]) == p[i]);
            }
        }
    }
}

/// Six notifications wait at most, and fewer only where there are no more; those that waited
/// before follow the new ones, in their order.
pub proof fn law_waiting_follow(new: Seq<Pending>, waiting: Seq<Pending>, j: int)
    requires
        0 <= j < waiting.len(),
        new.len() + j < 6,
    ensures
        kept(new.reverse() + waiting).len() == (if new.len() + waiting.len() > 6 {
            6
        } else {
            (new.len() + waiting.len()) as int
        }),
        kept(new.reverse() + waiting)[new.len() + j] == waiting[j],
{
}

/// However many notifications there are, six wait at most, and all where there are no more.
pub proof fn law_six_wait(items: Seq<Pending>)
    ensures
        kept(items).len() <= 6,
        items.len() <= 6 ==> kept(items) == items,
        items.len() > 6 ==> kept(items).len() == 6,
        forall|i: int| 0 <= i < kept(items).len() ==> #[trigger] kept(items)[i] == items[i],
{
}

/// Without a notification, or where hand or head are lost, no card is shown.
pub proof fn law_no_card(
    shown: bool,
    waiting: bool,
    located: bool,
    within_reveal: bool,
    within_hide: bool,
)
    ensures
        card_shows(shown, waiting, located, within_reveal, within_hide) ==> waiting && located,
{
}

/// A click on the preview, and on nothing else, opens the notification on the card, whichever
/// it is. That one leaves the queue and the others keep their order; the card goes to the next
/// older one, or to the oldest where there is none.
pub proof fn law_opened_leaves_the_queue(before: Queue, after: Queue, r: Option<Pending>, k: int)
    requires
        before.wf(),
        before.items@.len() > 0,
        clicked(before, WristClicks { open: true, older: false, newer: false }, after, r),
    ensures
        r == Some(before.items@[before.at as int]),
        after.items@.len() == before.items@.len() - 1,
        0 <= k < before.at ==> after.items@[k] == before.items@[k],
        before.at < k < before.items@.len() ==> after.items@[k - 1] == before.items@[k],
        before.at + 1 < before.items@.len() ==> after.items@[after.at as int]
            == before.items@[before.at + 1],
        before.at + 1 == before.items@.len() && before.at > 0 ==> after.at == before.at - 1,
        after.wf(),
{
}

/// A click on a scroll button, and on nothing else, opens nothing and loses nothing; the card
/// goes one older or one newer, as far as there is one.
pub proof fn law_scrolling_loses_nothing(
    before: Queue,
    after: Queue,
    older: bool,
    r: Option<Pending>,
)
    requires
        before.wf(),
        clicked(before, WristClicks { open: false, older, newer: !older }, after, r),
    ensures
        r is None,
        after.items == before.items,
        older ==> after.at == (if before.at + 1 < before.items@.len() {
            before.at + 1
        } else {
            before.at as int
        }),
        !older ==> after.at == (if before.at > 0 {
            before.at - 1
        } else {
            0
        }),
{
}

/// A new screenshot is on the card at once: the newest of them comes first and is shown. Where
/// none is new, the queue and the card stay as they are.
pub proof fn law_newest_on_the_card(before: Queue, new: Seq<Pending>, any_new: bool, after: Queue)
    requires
        before.wf(),
        new.len() > 0 ==> any_new,
        announced(before, new, any_new, after),
    ensures
        any_new ==> after.at == 0,
        new.len() > 0 ==> after.items@.len() > 0 && after.items@[0] == new.last(),
        new.len() == 0 ==> after.items@ == before.items@,
        !any_new ==> after.at == before.at,
        after.items@.len() <= 6,
{
    assert(new.len() == 0 ==> new.reverse() + before.items@ =~= before.items@);
}

/// With QR detection on, a screenshot that holds a code is announced by the code; its file is
/// removed only then, and only where that was asked for, so that nothing goes unannounced.
/// Without detection, or without a code, it is announced by its preview, and its file is kept.
pub proof fn law_notices(
    n: Notice,
    name: Vec<u8>,
    when: String,
    code: Option<String>,
    thumb: bool,
    detect: bool,
    autodelete: bool,
)
    requires
        announces(n, name, when, code, thumb, detect, autodelete),
    ensures
        n.delete ==> n.pending is Some && n.pending->0.code is Some && autodelete,
        detect && code is Some ==> n.pending is Some && n.pending->0.code == code && n.delete
            == autodelete,
        !detect || code is None ==> !n.delete && (n.pending is Some <==> thumb),
        (!detect || code is None) && thumb ==> n.pending->0.code is None,
        n.pending is Some ==> n.pending->0.name == name && n.pending->0.when == when,
{
}

/// A notification for a picture opens that picture with its date; one for a code opens the
/// code, as a link where it is one and otherwise as a text with its date.
pub proof fn law_what_opens(p: Pending)
    ensures
        p.code is None ==> opened_as(p) is Photo && opened_as(p)->Photo_0 == p.name && opened_as(
            p,
        )->Photo_1 == p.when,
        p.code is Some && link_text(p.code->0@) ==> opened_as(p) == Opening::Link(p.code->0),
        p.code is Some && !link_text(p.code->0@) ==> opened_as(p) is Text && opened_as(p)->Text_0
            == p.code->0 && opened_as(p)->Text_1 == p.when,
{
}

} // verus!
