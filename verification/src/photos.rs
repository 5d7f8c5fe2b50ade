//! The floating photo windows: a fixed pool of them, and what can be done in each.

use vstd::prelude::*;
use crate::shots::{copy_bytes, PhotoAction};

verus! {

/// How many photo windows there are.
pub const PHOTO_SLOTS: usize = 3;

/// A photo window. It shows a screenshot, or a text alone; a screenshot that was translated
/// has a text as well, and one of the two is on display.
pub struct PhotoSlot {
    pub open: bool,
    pub name: Option<Vec<u8>>,
    pub when: String,
    pub text: Option<String>,
    pub show_text: bool,
    /// The translation that was asked for and has not come back.
    pub job: Option<u64>,
}

/// All photo windows, and the number that the next translation gets.
pub struct Photos {
    pub slots: Vec<PhotoSlot>,
    pub next_job: u64,
}

/// Which services are configured.
#[derive(Clone, Copy, PartialEq, Eq, Debug, Structural)]
pub struct Services {
    pub translate: bool,
    pub share: bool,
}

/// What was clicked in a photo window while it was drawn once.
#[derive(Clone, Copy, PartialEq, Eq, Debug, Structural)]
pub struct PhotoClicks {
    pub copy: bool,
    pub delete: bool,
    pub translate: bool,
    pub toggle: bool,
    pub share: bool,
    pub close: bool,
}

/// Which buttons a photo window has.
#[derive(Clone, Copy, PartialEq, Eq, Debug, Structural)]
pub struct PhotoButtons {
    pub delete: bool,
    pub translate: bool,
    pub toggle: bool,
    pub share: bool,
}

/// What is left to do outside the windows.
pub enum PhotoEffect {
    Nothing,
    /// The screenshot goes to the clipboard.
    CopyImage(Vec<u8>),
    /// The text goes to the clipboard.
    CopyText(String),
    /// The file of the screenshot is to be removed.
    DeleteFile(Vec<u8>),
    /// The screenshot is to be translated, under that number.
    Translate(u64, Vec<u8>),
    /// The screenshot is to be uploaded.
    Share(Vec<u8>),
}

/// The place of the first closed window; the first window where none is.
pub open spec fn free_place(slots: Seq<PhotoSlot>) -> int {
    if first_closed(slots) < slots.len() {
        first_closed(slots)
    } else {
        0
    }
}

/// The place of the first closed window; behind the last where none is.
pub open spec fn first_closed(slots: Seq<PhotoSlot>) -> int
    decreases slots.len(),
{
    if slots.len() == 0 || !slots[0].open {
        0
    } else {
        1 + first_closed(slots.drop_first())
    }
}

/// How many windows are open.
pub open spec fn open_count(slots: Seq<PhotoSlot>) -> nat
    decreases slots.len(),
{
    if slots.len() == 0 {
        0
    } else {
        open_count(slots.drop_last()) + (if slots.last().open {
            1nat
        } else {
            0nat
        })
    }
}

/// The buttons of a window: a text alone can be neither deleted, translated nor shared;
/// what is not configured is not offered; and while a translation is under way no other is.
pub open spec fn offered(s: PhotoSlot, services: Services) -> PhotoButtons {
    PhotoButtons {
        delete: s.name is Some,
        translate: services.translate && s.name is Some && s.job is None,
        toggle: s.name is Some && s.text is Some,
        share: services.share && s.name is Some,
    }
}

/// What the clicks ask for: what is drawn later wins.
pub open spec fn photo_asked_for(clicks: PhotoClicks, b: PhotoButtons) -> PhotoAction {
    if clicks.close {
        PhotoAction::Dismiss
    } else if clicks.share && b.share {
        PhotoAction::Share
    } else if clicks.toggle && b.toggle {
        PhotoAction::ToggleView
    } else if clicks.translate && b.translate {
        PhotoAction::Translate
    } else if clicks.delete && b.delete {
        PhotoAction::Delete
    } else if clicks.copy {
        PhotoAction::Copy
    } else {
        PhotoAction::Nothing
    }
}

impl PhotoSlot {
    /// A closed window holds nothing; text is on display only where there is some; and only
    /// a screenshot is translated.
    pub open spec fn wf(&self) -> bool {
        &&& !self.open ==> self.empty()
        &&& self.show_text ==> self.text is Some
        &&& self.job is Some ==> self.name is Some
    }

    /// The window holds nothing.
    pub open spec fn empty(&self) -> bool {
        self.name is None && self.when@.len() == 0 && self.text is None && !self.show_text
            && self.job is None
    }

    fn closed() -> (r: PhotoSlot)
        ensures
            r.wf(),
            !r.open,
            r.empty(),
    {
        PhotoSlot {
            open: false,
            name: None,
            when: String::new(),
            text: None,
            show_text: false,
            job: None,
        }
    }

    /// Which buttons the window has.
    pub fn buttons(&self, services: Services) -> (r: PhotoButtons)
        ensures
            r == offered(*self, services),
    {
        let shot = self.name.is_some();
        PhotoButtons {
            delete: shot,
            translate: services.translate && shot && self.job.is_none(),
            toggle: shot && self.text.is_some(),
            share: services.share && shot,
        }
    }
}

/// What the clicks in a window ask for.
pub fn photo_action(clicks: PhotoClicks, b: PhotoButtons) -> (r: PhotoAction)
    ensures
        r == photo_asked_for(clicks, b),
{
    if clicks.close {
        PhotoAction::Dismiss
    } else if clicks.share && b.share {
        PhotoAction::Share
    } else if clicks.toggle && b.toggle {
        PhotoAction::ToggleView
    } else if clicks.translate && b.translate {
        PhotoAction::Translate
    } else if clicks.delete && b.delete {
        PhotoAction::Delete
    } else if clicks.copy {
        PhotoAction::Copy
    } else {
        PhotoAction::Nothing
    }
}

/// Whether the text is on display once the view was toggled: it changes where there is one.
pub open spec fn toggled(has_text: bool, shown: bool) -> bool {
    if has_text {
        !shown
    } else {
        shown
    }
}

/// All windows but the one at `i` are as they were.
pub open spec fn others_kept(after: Seq<PhotoSlot>, before: Seq<PhotoSlot>, i: int) -> bool {
    &&& after.len() == before.len()
    &&& forall|k: int| 0 <= k < before.len() && k != i ==> #[trigger] after[k] == before[k]
}

/// A window that shows the screenshot `name`.
pub open spec fn shows_shot(s: PhotoSlot, name: Seq<u8>, when: Seq<char>) -> bool {
    s.open && s.name is Some && s.name->0@ == name && s.when@ == when && s.text is None
        && !s.show_text && s.job is None
}

/// A window that shows a text alone.
pub open spec fn shows_text(s: PhotoSlot, text: Seq<char>, when: Seq<char>) -> bool {
    s.open && s.name is None && s.when@ == when && s.text is Some && s.text->0@ == text
        && s.show_text && s.job is None
}

/// A window with the text of a translation, or of what went wrong with it.
pub open spec fn translated_slot(before: PhotoSlot, after: PhotoSlot, text: Seq<char>) -> bool {
    after.open == before.open && after.name == before.name && after.when == before.when
        && after.text is Some && after.text->0@ == text && after.show_text && after.job is None
}

/// Whether `after` is what the windows are once the one at `i` did what was asked of it, and
/// `r` what is left to do.
pub open spec fn acted(
    before: Photos,
    i: int,
    action: PhotoAction,
    after: Photos,
    r: PhotoEffect,
) -> bool {
    let was = before.slots@[i];
    let now = after.slots@[i];
    let closed = !now.open && now.empty();
    &&& after.next_job != before.next_job ==> action is Translate
    &&& match action {
        PhotoAction::Nothing => r is Nothing && now == was,
        PhotoAction::Copy => now == was && match was.name {
            Some(name) => r matches PhotoEffect::CopyImage(n) && n@ == name@,
            None => match was.text {
                Some(text) => r matches PhotoEffect::CopyText(t) && t@ == text@,
                None => r is Nothing,
            },
        },
        PhotoAction::Delete => closed && match was.name {
            Some(name) => r matches PhotoEffect::DeleteFile(n) && n@ == name@,
            None => r is Nothing,
        },
        PhotoAction::Dismiss => closed && r is Nothing,
        PhotoAction::ToggleView => r is Nothing && now.open && now.name == was.name && now.when
            == was.when && now.text == was.text && now.job == was.job && now.show_text == toggled(
            was.text is Some,
            was.show_text,
        ),
        PhotoAction::Translate => match was.name {
            Some(name) => if was.job is None {
                &&& r matches PhotoEffect::Translate(job, n) && job == before.next_job && n@
                    == name@
                &&& now.job == Some(before.next_job)
                &&& after.next_job == next_number(before.next_job)
                &&& now.open && now.name == was.name && now.when == was.when && now.text == was.text
                    && now.show_text == was.show_text
            } else {
                r is Nothing && now == was && after.next_job == before.next_job
            },
            None => r is Nothing && now == was && after.next_job == before.next_job,
        },
        PhotoAction::Share => now == was && match was.name {
            Some(name) => r matches PhotoEffect::Share(n) && n@ == name@,
            None => r is Nothing,
        },
    }
}

impl Photos {
    /// There are as many windows as there are to be, and each is well formed.
    pub open spec fn wf(&self) -> bool {
        &&& self.slots@.len() == PHOTO_SLOTS
        &&& forall|i: int| 0 <= i < PHOTO_SLOTS ==> (#[trigger] self.slots@[i]).wf()
    }

    /// All windows closed.
    pub fn new() -> (r: Photos)
        ensures
            r.wf(),
            forall|i: int| 0 <= i < PHOTO_SLOTS ==> !(#[trigger] r.slots@[i]).open,
            r.next_job == 0,
    {
        let mut slots: Vec<PhotoSlot> = Vec::new();
        while slots.len() < PHOTO_SLOTS
            invariant
                slots@.len() <= PHOTO_SLOTS,
                forall|i: int|
                    0 <= i < slots@.len() ==> (#[trigger] slots@[i]).wf() && !slots@[i].open,
            decreases PHOTO_SLOTS - slots@.len(),
        {
            slots.push(PhotoSlot::closed());
        }
        Photos { slots, next_job: 0 }
    }

    /// The window that the next photo goes to: the first closed one, else the first.
    pub fn free_slot(&self) -> (r: usize)
        requires
            self.wf(),
        ensures
            r == free_place(self.slots@),
            r < PHOTO_SLOTS,
            self.slots@[r as int].open ==> forall|k: int|
                0 <= k < PHOTO_SLOTS ==> (#[trigger] self.slots@[k]).open,
    {
        let ghost all = self.slots@;
        let mut i: usize = 0;
        assert(all.skip(0) =~= all);
        while i < self.slots.len()
            invariant
                i <= self.slots@.len(),
                self.slots@.len() == PHOTO_SLOTS,
                all == self.slots@,
                first_closed(all) == i + first_closed(all.skip(i as int)),
                forall|k: int| 0 <= k < i ==> (#[trigger] self.slots@[k]).open,
            decreases self.slots@.len() - i,
        {
            assert(all.skip(i as int).drop_first() =~= all.skip(i + 1));
            assert(all.skip(i as int)[0] == all[i as int]);
            if !self.slots[i].open {
                return i;
            }
            i = i + 1;
        }
        0
    }

    /// Whether any window is open.
    pub fn any_open(&self) -> (r: bool)
        requires
            self.wf(),
        ensures
            r <==> exists|i: int| 0 <= i < PHOTO_SLOTS && (#[trigger] self.slots@[i]).open,
    {
        let mut i: usize = 0;
        while i < self.slots.len()
            invariant
                self.slots@.len() == PHOTO_SLOTS,
                i <= self.slots@.len(),
                forall|k: int| 0 <= k < i ==> !(#[trigger] self.slots@[k]).open,
            decreases self.slots@.len() - i,
        {
            if self.slots[i].open {
                return true;
            }
            i = i + 1;
        }
        false
    }

    /// Opens the screenshot `name` in a free window, or in the first where all are taken.
    /// Nothing changes where its picture could not be loaded. The result is the window.
    pub fn open_photo(&mut self, name: &Vec<u8>, when: &str, loaded: bool) -> (r: Option<usize>)
        requires
            old(self).wf(),
        ensures
            final(self).wf(),
            final(self).next_job == old(self).next_job,
            match r {
                Some(i) => loaded && i == free_place(old(self).slots@) && i < PHOTO_SLOTS
                    && others_kept(final(self).slots@, old(self).slots@, i as int) && shows_shot(
                    final(self).slots@[i as int],
                    name@,
                    when@,
                ),
                None => !loaded && *final(self) == *old(self),
            },
    {
        if !loaded {
            return None;
        }
        let i: usize = self.free_slot();
        let slot = PhotoSlot {
            open: true,
            name: Some(copy_bytes(name)),
            when: String::from_str(when),
            text: None,
            show_text: false,
            job: None,
        };
        self.slots.set(i, slot);
        Some(i)
    }

    /// Shows a text in a free window, or in the first where all are taken. The result is the
    /// window.
    pub fn open_text(&mut self, text: String, when: String) -> (r: usize)
        requires
            old(self).wf(),
        ensures
            final(self).wf(),
            final(self).next_job == old(self).next_job,
            r == free_place(old(self).slots@),
            r < PHOTO_SLOTS,
            others_kept(final(self).slots@, old(self).slots@, r as int),
            shows_text(final(self).slots@[r as int], text@, when@),
    {
        let i: usize = self.free_slot();
        let slot = PhotoSlot {
            open: true,
            name: None,
            when,
            text: Some(text),
            show_text: true,
            job: None,
        };
        self.slots.set(i, slot);
        i
    }

    /// Closes a window and empties it.
    pub fn close_slot(&mut self, i: usize)
        requires
            old(self).wf(),
            i < PHOTO_SLOTS,
        ensures
            final(self).wf(),
            final(self).next_job == old(self).next_job,
            others_kept(final(self).slots@, old(self).slots@, i as int),
            !final(self).slots@[i as int].open,
            final(self).slots@[i as int].empty(),
    {
        self.slots.set(i, PhotoSlot::closed());
    }

    /// Does what was asked for in an open window as far as it concerns the windows.
    pub fn act(&mut self, i: usize, action: PhotoAction) -> (r: PhotoEffect)
        requires
            old(self).wf(),
            i < PHOTO_SLOTS,
            old(self).slots@[i as int].open,
        ensures
            final(self).wf(),
            others_kept(final(self).slots@, old(self).slots@, i as int),
            acted(*old(self), i as int, action, *final(self), r),
    {
        let name: Option<Vec<u8>> = match &self.slots[i].name {
            Some(n) => Some(copy_bytes(n)),
            None => None,
        };
        match action {
            PhotoAction::Nothing => PhotoEffect::Nothing,
            PhotoAction::Copy => match name {
                Some(n) => PhotoEffect::CopyImage(n),
                None => match &self.slots[i].text {
                    Some(t) => PhotoEffect::CopyText(t.clone()),
                    None => PhotoEffect::Nothing,
                },
            },
            PhotoAction::Delete => {
                self.close_slot(i);
                match name {
                    Some(n) => PhotoEffect::DeleteFile(n),
                    None => PhotoEffect::Nothing,
                }
            },
            PhotoAction::Dismiss => {
                self.close_slot(i);
                PhotoEffect::Nothing
            },
            PhotoAction::ToggleView => {
                if self.slots[i].text.is_some() {
                    let shown = self.slots[i].show_text;
                    self.slots[i].show_text = !shown;
                }
                PhotoEffect::Nothing
            },
            PhotoAction::Translate => match name {
                Some(n) => if self.slots[i].job.is_none() {
                    let job: u64 = self.next_job;
                    self.next_job = if job < u64::MAX {
                        job + 1
                    } else {
                        0
                    };
                    self.slots[i].job = Some(job);
                    PhotoEffect::Translate(job, n)
                } else {
                    PhotoEffect::Nothing
                },
                None => PhotoEffect::Nothing,
            },
            PhotoAction::Share => match name {
                Some(n) => PhotoEffect::Share(n),
                None => PhotoEffect::Nothing,
            },
        }
    }

    /// The first window that waits for the translation; behind the last where none does.
    fn waiting_for(&self, job: u64) -> (r: usize)
        requires
            self.wf(),
        ensures
            r <= PHOTO_SLOTS,
            r < PHOTO_SLOTS ==> self.slots@[r as int].job == Some(job),
            forall|k: int| 0 <= k < r ==> (#[trigger] self.slots@[k]).job != Some(job),
    {
        let mut i: usize = 0;
        while i < self.slots.len()
            invariant
                self.slots@.len() == PHOTO_SLOTS,
                i <= self.slots@.len(),
                forall|k: int| 0 <= k < i ==> (#[trigger] self.slots@[k]).job != Some(job),
            decreases self.slots@.len() - i,
        {
            if let Some(j) = self.slots[i].job {
                if j == job {
                    return i;
                }
            }
            i = i + 1;
        }
        i
    }

    /// Takes over how a translation ended: the first window that waits for it shows the
    /// text, or what went wrong. A window that was closed or has moved on is left alone.
    pub fn translated(&mut self, job: u64, outcome: Result<String, String>) -> (r: Option<usize>)
        requires
            old(self).wf(),
        ensures
            final(self).wf(),
            final(self).next_job == old(self).next_job,
            match r {
                Some(i) => i < PHOTO_SLOTS && old(self).slots@[i as int].job == Some(job)
                    && (forall|k: int|
                    0 <= k < i ==> (#[trigger] old(self).slots@[k]).job != Some(job))
                    && others_kept(final(self).slots@, old(self).slots@, i as int)
                    && translated_slot(
                    old(self).slots@[i as int],
                    final(self).slots@[i as int],
                    match outcome {
                        Ok(t) => t@,
                        Err(e) => e@,
                    },
                ),
                None => *final(self) == *old(self) && forall|k: int|
                    0 <= k < PHOTO_SLOTS ==> (#[trigger] old(self).slots@[k]).job != Some(job),
            },
    {
        let text = match outcome {
            Ok(t) => t,
            Err(e) => e,
        };
        let i: usize = self.waiting_for(job);
        if i < self.slots.len() {
            self.slots[i].text = Some(text);
            self.slots[i].show_text = true;
            self.slots[i].job = None;
            Some(i)
        } else {
            None
        }
    }
}

/// The number after `n`, from the start again behind the last.
pub open spec fn next_number(n: u64) -> u64 {
    if n < u64::MAX {
        (n + 1) as u64
    } else {
        0
    }
}

proof fn lemma_open_count_bound(slots: Seq<PhotoSlot>)
    ensures
        open_count(slots) <= slots.len(),
    decreases slots.len(),
{
    if slots.len() > 0 {
        lemma_open_count_bound(slots.drop_last());
    }
}

/// No more photo windows are open than there are.
pub proof fn law_at_most_three_open(p: Photos)
    requires
        p.wf(),
    ensures
        open_count(p.slots@) <= 3,
{
    lemma_open_count_bound(p.slots@);
}

/// While a window is free, opening a photo takes no open window away.
pub proof fn law_open_windows_kept(slots: Seq<PhotoSlot>, k: int)
    requires
        0 <= k < slots.len(),
        !slots[k].open,
    ensures
        0 <= free_place(slots) < slots.len(),
        !slots[free_place(slots)].open,
        free_place(slots) <= k,
{
    lemma_first_closed(slots, k);
}

proof fn lemma_first_closed(slots: Seq<PhotoSlot>, k: int)
    requires
        0 <= k < slots.len(),
        !slots[k].open,
    ensures
        0 <= first_closed(slots) <= k,
        !slots[first_closed(slots)].open,
    decreases slots.len(),
{
    if slots[0].open {
        lemma_first_closed(slots.drop_first(), k - 1);
    }
}

/// A translated screenshot can be turned to the other view any time, and back again.
pub proof fn law_toggle_any_time(s: PhotoSlot, services: Services)
    requires
        s.name is Some,
        s.text is Some,
    ensures
        photo_asked_for(
            PhotoClicks {
                copy: false,
                delete: false,
                translate: false,
                toggle: true,
                share: false,
                close: false,
            },
            offered(s, services),
        ) is ToggleView,
        toggled(s.text is Some, s.show_text) == !s.show_text,
        toggled(s.text is Some, toggled(s.text is Some, s.show_text)) == s.show_text,
{
}

/// What is not configured cannot be asked for in any window.
pub proof fn law_unconfigured_not_offered(s: PhotoSlot, services: Services, clicks: PhotoClicks)
    ensures
        !services.translate ==> !(photo_asked_for(clicks, offered(s, services)) is Translate),
        !services.share ==> !(photo_asked_for(clicks, offered(s, services)) is Share),
{
}

/// Where every window is open, the next photo goes to the first.
pub proof fn law_first_window_reused(slots: Seq<PhotoSlot>)
    requires
        forall|k: int| 0 <= k < slots.len() ==> (#[trigger] slots[k]).open,
    ensures
        free_place(slots) == 0,
{
    lemma_all_open(slots);
}

proof fn lemma_all_open(slots: Seq<PhotoSlot>)
    requires
        forall|k: int| 0 <= k < slots.len() ==> (#[trigger] slots[k]).open,
    ensures
        first_closed(slots) == slots.len(),
    decreases slots.len(),
{
    if slots.len() > 0 {
        assert(slots[0].open);
        lemma_all_open(slots.drop_first());
    }
}

/// A screenshot can be deleted, and shared and translated where that is configured; while a
/// translation is under way no other is asked for. A text alone can be none of these.
pub proof fn law_offered(s: PhotoSlot, services: Services)
    ensures
        offered(s, services).delete <==> s.name is Some,
        offered(s, services).share <==> s.name is Some && services.share,
        offered(s, services).translate <==> s.name is Some && services.translate && s.job is None,
        offered(s, services).toggle <==> s.name is Some && s.text is Some,
{
}

/// A single click asks for what was clicked where that button is there: Copy and Close always
/// are. Without a click nothing is asked for.
pub proof fn law_photo_click(b: PhotoButtons)
    ensures
        ({
            let none = PhotoClicks {
                copy: false,
                delete: false,
                translate: false,
                toggle: false,
                share: false,
                close: false,
            };
            &&& photo_asked_for(none, b) is Nothing
            &&& photo_asked_for(PhotoClicks { copy: true, ..none }, b) is Copy
            &&& photo_asked_for(PhotoClicks { close: true, ..none }, b) is Dismiss
            &&& b.delete ==> photo_asked_for(PhotoClicks { delete: true, ..none }, b) is Delete
            &&& b.translate ==> photo_asked_for(PhotoClicks { translate: true, ..none }, b)
                is Translate
            &&& b.toggle ==> photo_asked_for(PhotoClicks { toggle: true, ..none }, b) is ToggleView
            &&& b.share ==> photo_asked_for(PhotoClicks { share: true, ..none }, b) is Share
        }),
{
}

/// A window does only what was clicked on a button that is there. Where several things were,
/// what is drawn later wins: copy, delete, translate, toggle, share, close.
pub proof fn law_photo_later_wins(c: PhotoClicks, b: PhotoButtons)
    ensures
        ({
            let delete = c.delete && b.delete;
            let translate = c.translate && b.translate;
            let toggle = c.toggle && b.toggle;
            let share = c.share && b.share;
            match photo_asked_for(c, b) {
                PhotoAction::Dismiss => c.close,
                PhotoAction::Share => share && !c.close,
                PhotoAction::ToggleView => toggle && !share && !c.close,
                PhotoAction::Translate => translate && !toggle && !share && !c.close,
                PhotoAction::Delete => delete && !translate && !toggle && !share && !c.close,
                PhotoAction::Copy => c.copy && !delete && !translate && !toggle && !share
                    && !c.close,
                PhotoAction::Nothing => !c.copy && !delete && !translate && !toggle && !share
                    && !c.close,
            }
        }),
{
}

/// A window that a photo was opened in is open and holds that photo with its date, shows the
/// picture, and waits for no translation.
pub proof fn law_opened_photo(s: PhotoSlot, name: Seq<u8>, when: Seq<char>)
    requires
        shows_shot(s, name, when),
    ensures
        s.open,
        s.name is Some && s.name->0@ == name,
        s.when@ == when,
        s.text is None,
        !s.show_text,
        s.job is None,
{
}

/// A window that a text was opened in is open, holds and shows that text with its date, and
/// holds no photo.
pub proof fn law_opened_text(s: PhotoSlot, text: Seq<char>, when: Seq<char>)
    requires
        shows_text(s, text, when),
    ensures
        s.open,
        s.name is None,
        s.when@ == when,
        s.text is Some && s.text->0@ == text,
        s.show_text,
        s.job is None,
{
}

/// A translation changes nothing of its window but the text, which is shown, and that it is no
/// longer waited for.
pub proof fn law_translated_window(before: PhotoSlot, after: PhotoSlot, text: Seq<char>)
    requires
        translated_slot(before, after, text),
    ensures
        after.open == before.open,
        after.name == before.name,
        after.when == before.when,
        after.text is Some && after.text->0@ == text,
        after.show_text,
        after.job is None,
{
}

/// What is done in one window leaves the others as they are.
pub proof fn law_other_windows_kept(after: Seq<PhotoSlot>, before: Seq<PhotoSlot>, i: int, k: int)
    requires
        others_kept(after, before, i),
        0 <= k < before.len(),
        k != i,
    ensures
        after.len() == before.len(),
        after[k] == before[k],
{
}

/// A closed window holds nothing: no photo, no date, no text and no translation to come.
pub proof fn law_closed_holds_nothing(p: Photos, i: int)
    requires
        p.wf(),
        0 <= i < 3,
        !p.slots@[i].open,
    ensures
        p.slots@[i].name is None,
        p.slots@[i].when@ == Seq::<char>::empty(),
        p.slots@[i].text is None,
        !p.slots@[i].show_text,
        p.slots@[i].job is None,
{
    assert(p.slots@[i].wf());
}

/// Translations that follow one another have different numbers.
pub proof fn law_numbers_differ(n: u64)
    ensures
        next_number(n) != n,
        n < u64::MAX ==> next_number(n) == n + 1,
{
}

/// What is deleted is the file that the window shows, and nothing else asks for a deletion: the
/// window closes with it, and a window with a text alone just closes.
pub proof fn law_delete(before: Photos, i: int, action: PhotoAction, after: Photos, r: PhotoEffect)
    requires
        acted(before, i, action, after, r),
    ensures
        r is DeleteFile ==> action is Delete && before.slots@[i].name is Some && r->DeleteFile_0@
            == before.slots@[i].name->0@,
        action is Delete && before.slots@[i].name is Some ==> r is DeleteFile,
        action is Delete ==> !after.slots@[i].open,
{
}

/// A window closes when it is dismissed or its file deleted, and otherwise stays open with its
/// screenshot, its date and its text.
pub proof fn law_window_stays(
    before: Photos,
    i: int,
    action: PhotoAction,
    after: Photos,
    r: PhotoEffect,
)
    requires
        before.slots@[i].open,
        acted(before, i, action, after, r),
    ensures
        !after.slots@[i].open <==> action is Delete || action is Dismiss,
        after.slots@[i].open ==> after.slots@[i].name == before.slots@[i].name
            && after.slots@[i].when == before.slots@[i].when && after.slots@[i].text
            == before.slots@[i].text,
        after.slots@[i].open && !(action is ToggleView) ==> after.slots@[i].show_text
            == before.slots@[i].show_text,
        !after.slots@[i].open ==> after.slots@[i].name is None && after.slots@[i].text is None
            && after.slots@[i].job is None,
{
}

/// Copying a window with a screenshot copies that picture, also where it has been translated;
/// only a window with a text alone gives its text. Sharing sends the screenshot's file.
pub proof fn law_copy_and_share(before: Photos, i: int, after: Photos, r: PhotoEffect)
    ensures
        acted(before, i, PhotoAction::Copy, after, r) && before.slots@[i].name is Some ==> r
            is CopyImage && r->CopyImage_0@ == before.slots@[i].name->0@,
        acted(before, i, PhotoAction::Copy, after, r) && before.slots@[i].name is None
            && before.slots@[i].text is Some ==> r is CopyText && r->CopyText_0@
            == before.slots@[i].text->0@,
        acted(before, i, PhotoAction::Share, after, r) && before.slots@[i].name is Some ==> r
            is Share && r->Share_0@ == before.slots@[i].name->0@,
{
}

/// A translation starts for the screenshot of the window, under a number that the window waits
/// for and that the next translation will not have; one that waits already starts no other.
pub proof fn law_one_translation(before: Photos, i: int, after: Photos, r: PhotoEffect)
    requires
        acted(before, i, PhotoAction::Translate, after, r),
    ensures
        before.slots@[i].name is Some && before.slots@[i].job is None ==> r is Translate
            && r->Translate_1@ == before.slots@[i].name->0@ && after.slots@[i].job == Some(
            r->Translate_0,
        ) && after.next_job != r->Translate_0,
        before.slots@[i].job is Some ==> r is Nothing && after.slots@[i].job
            == before.slots@[i].job,
{
}

/// Switching the view shows the text where the picture was, and the picture where the text was;
/// without a text there is nothing to switch to.
pub proof fn law_view_switches(before: Photos, i: int, after: Photos, r: PhotoEffect)
    requires
        acted(before, i, PhotoAction::ToggleView, after, r),
    ensures
        before.slots@[i].text is Some ==> after.slots@[i].show_text
            == !before.slots@[i].show_text,
        before.slots@[i].text is None ==> after.slots@[i].show_text
            == before.slots@[i].show_text,
        r is Nothing,
        after.slots@[i].job == before.slots@[i].job,
{
}

} // verus!
