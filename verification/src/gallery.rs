//! The gallery: every screenshot, newest first, in pages of thumbnails.

use vstd::prelude::*;
use crate::shots::copy_bytes;
use crate::text::{decimal, decimal_text};

verus! {

/// Thumbnails on a page.
pub const GALLERY_PER: usize = 12;

/// Thumbnails in a row.
pub const GALLERY_COLUMNS: usize = 4;

/// A screenshot in the gallery: its file name and when it was taken.
pub struct GalleryItem {
    pub name: Vec<u8>,
    pub when: String,
}

/// The gallery panel. `shown` holds, for each thumbnail on display, the position of its
/// screenshot in `items`; a file whose preview could not be made has none.
pub struct Gallery {
    pub visible: bool,
    pub page: usize,
    pub items: Vec<GalleryItem>,
    pub shown: Vec<usize>,
}

/// What was clicked in the gallery while it was drawn once. Of several thumbnails the last
/// counts.
pub struct GalleryClicks {
    pub close: bool,
    pub open: Option<usize>,
    pub delete: Option<usize>,
    pub prev: bool,
    pub next: bool,
}

/// What a click in the gallery asks for. Thumbnails are counted on the page.
#[derive(Clone, Copy, PartialEq, Eq, Debug, Structural)]
pub enum GalleryAction {
    Nothing,
    Close,
    Open(usize),
    Delete(usize),
    PrevPage,
    NextPage,
}

/// What is left to do outside the gallery. Screenshots are counted in the whole list.
#[derive(Clone, Copy, PartialEq, Eq, Debug, Structural)]
pub enum GalleryEffect {
    Nothing,
    /// The page has changed and its thumbnails are to be made.
    Reload,
    /// The screenshot is to be opened.
    Open(usize),
    /// The file of the screenshot is to be removed.
    Delete(usize),
}

/// How many pages a number of screenshots takes; an empty gallery has one.
pub open spec fn page_count(total: int) -> int {
    if total == 0 {
        1
    } else {
        (total + GALLERY_PER - 1) / (GALLERY_PER as int)
    }
}

/// The first screenshot on a page.
pub open spec fn page_start(page: int) -> int {
    page * GALLERY_PER
}

/// The screenshot behind the last one on a page.
pub open spec fn page_end(total: int, page: int) -> int {
    if page_start(page) + GALLERY_PER <= total {
        page_start(page) + GALLERY_PER
    } else {
        total
    }
}

/// `page`, or the last page where it is past that.
pub open spec fn clamped_page(page: int, total: int) -> int {
    if page < page_count(total) {
        page
    } else {
        page_count(total) - 1
    }
}

/// What the clicks ask for. What is drawn later wins over what is drawn before; an empty
/// gallery can only be closed, and a page can only be turned where there is another.
pub open spec fn asked_for(clicks: GalleryClicks, page: int, total: int) -> GalleryAction {
    if total > 0 && clicks.next && page + 1 < page_count(total) {
        GalleryAction::NextPage
    } else if total > 0 && clicks.prev && page > 0 {
        GalleryAction::PrevPage
    } else if total > 0 && clicks.delete is Some {
        GalleryAction::Delete(clicks.delete->0)
    } else if total > 0 && clicks.open is Some {
        GalleryAction::Open(clicks.open->0)
    } else if clicks.close {
        GalleryAction::Close
    } else {
        GalleryAction::Nothing
    }
}

/// How many pages a number of screenshots takes.
pub fn pages(total: usize) -> (r: usize)
    ensures
        r == page_count(total as int),
        r >= 1,
{
    if total == 0 {
        1
    } else {
        (total - 1) / GALLERY_PER + 1
    }
}

/// The label that says which page is on display.
pub fn page_label(page: usize, total: usize) -> (r: String)
    requires
        page < usize::MAX,
    ensures
        r@ == "Page "@ + decimal((page + 1) as nat) + " / "@ + decimal(
            page_count(total as int) as nat,
        ),
{
    let mut label = String::from_str("Page ");
    label.append(decimal_text((page + 1) as u64).as_str());
    label.append(" / ");
    label.append(decimal_text(pages(total) as u64).as_str());
    label
}

/// The label that says how many screenshots there are.
pub fn total_label(total: usize) -> (r: String)
    ensures
        r@ == decimal(total as nat) + " shots"@,
{
    let mut label = decimal_text(total as u64);
    label.append(" shots");
    label
}

/// Whether the thumbnail at `k` on a page is the last of its row.
pub fn ends_row(k: usize) -> (r: bool)
    requires
        k < usize::MAX,
    ensures
        r == ((k + 1) % GALLERY_COLUMNS as int == 0),
{
    (k + 1) % GALLERY_COLUMNS == 0
}

/// Whether `after` is the gallery once it was clicked, and `r` what is left to do.
pub open spec fn gallery_clicked(
    before: Gallery,
    clicks: GalleryClicks,
    after: Gallery,
    r: GalleryEffect,
) -> bool {
    match asked_for(clicks, before.page as int, before.items@.len() as int) {
        GalleryAction::Nothing => r == GalleryEffect::Nothing && after == before,
        GalleryAction::Close => r == GalleryEffect::Nothing && !after.visible && after.page
            == before.page && after.shown == before.shown,
        GalleryAction::PrevPage => r == GalleryEffect::Reload && after.page == before.page - 1
            && after.shown@.len() == 0 && after.visible == before.visible,
        GalleryAction::NextPage => r == GalleryEffect::Reload && after.page == before.page + 1
            && after.shown@.len() == 0 && after.visible == before.visible,
        GalleryAction::Open(k) => after == before && r == (if k < before.shown@.len() {
            GalleryEffect::Open(before.shown@[k as int])
        } else {
            GalleryEffect::Nothing
        }),
        GalleryAction::Delete(k) => after == before && r == (if k < before.shown@.len() {
            GalleryEffect::Delete(before.shown@[k as int])
        } else {
            GalleryEffect::Nothing
        }),
    }
}

impl Gallery {
    /// The page is one of those there are, and each thumbnail on display is of a
    /// screenshot on that page, in order.
    pub open spec fn wf(&self) -> bool {
        &&& 0 <= self.page < page_count(self.items@.len() as int)
        &&& forall|k: int|
            0 <= k < self.shown@.len() ==> page_start(self.page as int) <= #[trigger] self.shown@[k]
                < page_end(self.items@.len() as int, self.page as int)
        &&& forall|j: int, k: int| 0 <= j < k < self.shown@.len() ==> self.shown@[j] < self.shown@[k]
    }

    /// A hidden, empty gallery.
    pub fn new() -> (r: Gallery)
        ensures
            r.wf(),
            !r.visible,
            r.page == 0,
            r.items@.len() == 0,
            r.shown@.len() == 0,
    {
        Gallery { visible: false, page: 0, items: Vec::new(), shown: Vec::new() }
    }

    /// Shows the gallery with these screenshots, from the first page on.
    pub fn open(&mut self, items: Vec<GalleryItem>)
        ensures
            final(self).wf(),
            final(self).visible,
            final(self).page == 0,
            final(self).items == items,
            final(self).shown@.len() == 0,
    {
        self.visible = true;
        self.page = 0;
        self.items = items;
        self.shown = Vec::new();
    }

    /// Takes over a new list of screenshots, and stays on the page as far as it is left.
    pub fn refresh(&mut self, items: Vec<GalleryItem>)
        requires
            old(self).wf(),
        ensures
            final(self).wf(),
            final(self).visible == old(self).visible,
            final(self).items == items,
            final(self).page == clamped_page(old(self).page as int, items@.len() as int),
            final(self).shown@.len() == 0,
    {
        let last: usize = pages(items.len()) - 1;
        if self.page > last {
            self.page = last;
        }
        self.items = items;
        self.shown = Vec::new();
    }

    /// The positions of the screenshots on the page: from the first up to the second.
    pub fn page_range(&self) -> (r: (usize, usize))
        requires
            self.wf(),
        ensures
            r.0 == page_start(self.page as int),
            r.1 == page_end(self.items@.len() as int, self.page as int),
            r.0 <= r.1 <= self.items@.len(),
            r.1 - r.0 <= GALLERY_PER,
    {
        let total: usize = self.items.len();
        assert(self.page * GALLERY_PER <= total) by {
            lemma_page_start_within(total as int, self.page as int);
        }
        let start: usize = self.page * GALLERY_PER;
        let end: usize = if total - start >= GALLERY_PER {
            start + GALLERY_PER
        } else {
            total
        };
        (start, end)
    }

    /// Takes over for which screenshots of the page a thumbnail could be made: one answer
    /// for each, in order.
    pub fn show_thumbs(&mut self, made: &Vec<bool>)
        requires
            old(self).wf(),
            made@.len() == page_end(old(self).items@.len() as int, old(self).page as int)
                - page_start(old(self).page as int),
        ensures
            final(self).wf(),
            final(self).visible == old(self).visible,
            final(self).page == old(self).page,
            final(self).items == old(self).items,
            final(self).shown@ == made_positions(made@, page_start(old(self).page as int)),
    {
        let (start, end) = self.page_range();
        let mut shown: Vec<usize> = Vec::new();
        let mut i: usize = 0;
        assert(made@.take(0) =~= Seq::empty());
        while i < made.len()
            invariant
                i <= made@.len(),
                made@.len() == end - start,
                start <= end,
                shown@ == made_positions(made@.take(i as int), start as int),
                forall|k: int|
                    0 <= k < shown@.len() ==> start <= #[trigger] shown@[k] < start + i,
                forall|j: int, k: int| 0 <= j < k < shown@.len() ==> shown@[j] < shown@[k],
            decreases made@.len() - i,
        {
            assert(made@.take(i + 1).drop_last() =~= made@.take(i as int));
            if made[i] {
                shown.push(start + i);
            }
            i = i + 1;
        }
        assert(made@.take(i as int) =~= made@);
        self.shown = shown;
    }

    /// Does what the clicks ask for as far as it concerns the gallery itself.
    pub fn click(&mut self, clicks: &GalleryClicks) -> (r: GalleryEffect)
        requires
            old(self).wf(),
        ensures
            final(self).wf(),
            final(self).items == old(self).items,
            gallery_clicked(*old(self), *clicks, *final(self), r),
    {
        let total: usize = self.items.len();
        if total > 0 {
            if clicks.next && self.page + 1 < pages(total) {
                self.page = self.page + 1;
                self.shown = Vec::new();
                return GalleryEffect::Reload;
            }
            if clicks.prev && self.page > 0 {
                self.page = self.page - 1;
                self.shown = Vec::new();
                return GalleryEffect::Reload;
            }
            if let Some(k) = clicks.delete {
                return if k < self.shown.len() {
                    GalleryEffect::Delete(self.shown[k])
                } else {
                    GalleryEffect::Nothing
                };
            }
            if let Some(k) = clicks.open {
                return if k < self.shown.len() {
                    GalleryEffect::Open(self.shown[k])
                } else {
                    GalleryEffect::Nothing
                };
            }
        }
        if clicks.close {
            self.visible = false;
        }
        GalleryEffect::Nothing
    }

    /// The file name and the date of the screenshot at `i`.
    pub fn item(&self, i: usize) -> (r: Option<(Vec<u8>, String)>)
        ensures
            match r {
                Some((name, when)) => i < self.items@.len() && name@ == self.items@[i as int].name@
                    && when@ == self.items@[i as int].when@,
                None => i >= self.items@.len(),
            },
    {
        if i < self.items.len() {
            Some((copy_bytes(&self.items[i].name), self.items[i].when.clone()))
        } else {
            None
        }
    }
}

/// The positions, counted from `start`, at which a thumbnail was made.
pub open spec fn made_positions(made: Seq<bool>, start: int) -> Seq<usize>
    decreases made.len(),
{
    if made.len() == 0 {
        Seq::empty()
    } else {
        let before = made_positions(made.drop_last(), start);
        if made.last() {
            before.push((start + made.len() - 1) as usize)
        } else {
            before
        }
    }
}

proof fn lemma_page_start_within(total: int, page: int)
    requires
        total >= 0,
        0 <= page < page_count(total),
    ensures
        0 <= page_start(page) <= total,
{
}

/// Every screenshot is on one page, and on one only.
pub proof fn law_pages_partition(total: int, i: int, page: int)
    requires
        0 <= i < total,
        0 <= page,
    ensures
        ({
            let home = i / (GALLERY_PER as int);
            &&& 0 <= home < page_count(total)
            &&& page_start(home) <= i < page_end(total, home)
            &&& page_start(page) <= i < page_end(total, page) ==> page == home
        }),
{
}

/// No page holds more than its share, and every page before the last is full.
pub proof fn law_page_sizes(total: int, page: int)
    requires
        total >= 0,
        0 <= page < page_count(total),
    ensures
        0 <= page_end(total, page) - page_start(page) <= GALLERY_PER,
        page + 1 < page_count(total) ==> page_end(total, page) - page_start(page) == GALLERY_PER,
        total > 0 ==> page_start(page) < page_end(total, page),
{
}

/// Where every preview could be made, the thumbnail at `k` is the screenshot `k` places
/// behind the first of the page.
pub proof fn law_thumbnails_in_place(made: Seq<bool>, start: int, k: int)
    requires
        forall|i: int| 0 <= i < made.len() ==> made[i],
        0 <= k < made.len(),
        0 <= start,
        start + made.len() <= usize::MAX,
    ensures
        made_positions(made, start).len() == made.len(),
        made_positions(made, start)[k] == start + k,
    decreases made.len(),
{
    if made.len() == 1 {
        assert(made.drop_last() =~= Seq::empty());
        reveal_with_fuel(made_positions, 2);
    } else {
        let front = made.drop_last();
        law_thumbnails_in_place(front, start, if k < front.len() { k } else { 0 });
    }
}

/// A single click asks for what was clicked, wherever that button is there: Close always, a
/// thumbnail and its delete button where there are screenshots, and a page button where there
/// is a page that way.
pub proof fn law_gallery_click(clicks: GalleryClicks, page: int, total: int, k: usize)
    requires
        total >= 0,
        0 <= page < page_count(total),
    ensures
        clicks.close && clicks.open is None && clicks.delete is None && !clicks.prev && !clicks.next
            ==> asked_for(clicks, page, total) is Close,
        !clicks.close && clicks.open == Some(k) && clicks.delete is None && !clicks.prev
            && !clicks.next && total > 0 ==> asked_for(clicks, page, total) == GalleryAction::Open(
            k,
        ),
        !clicks.close && clicks.open is None && clicks.delete == Some(k) && !clicks.prev
            && !clicks.next && total > 0 ==> asked_for(clicks, page, total)
            == GalleryAction::Delete(k),
        !clicks.close && clicks.open is None && clicks.delete is None && clicks.prev && !clicks.next
            ==> asked_for(clicks, page, total) == (if page > 0 {
            GalleryAction::PrevPage
        } else {
            GalleryAction::Nothing
        }),
        !clicks.close && clicks.open is None && clicks.delete is None && !clicks.prev && clicks.next
            ==> asked_for(clicks, page, total) == (if 12 * (page + 1) < total {
            GalleryAction::NextPage
        } else {
            GalleryAction::Nothing
        }),
        !clicks.close && clicks.open is None && clicks.delete is None && !clicks.prev
            && !clicks.next ==> asked_for(clicks, page, total) is Nothing,
{
}

/// The gallery does only what was clicked. Where several things were, what is drawn later
/// wins: close, open, delete, previous page, next page.
pub proof fn law_gallery_later_wins(clicks: GalleryClicks, page: int, total: int)
    requires
        total > 0,
        0 <= page < page_count(total),
    ensures
        ({
            let next = clicks.next && 12 * (page + 1) < total;
            let prev = clicks.prev && page > 0;
            match asked_for(clicks, page, total) {
                GalleryAction::NextPage => next,
                GalleryAction::PrevPage => prev && !next,
                GalleryAction::Delete(k) => clicks.delete == Some(k) && !prev && !next,
                GalleryAction::Open(k) => clicks.open == Some(k) && clicks.delete is None && !prev
                    && !next,
                GalleryAction::Close => clicks.close && clicks.open is None && clicks.delete is None
                    && !prev && !next,
                GalleryAction::Nothing => !clicks.close && clicks.open is None && clicks.delete
                    is None && !prev && !next,
            }
        }),
{
}

/// An empty gallery can be closed, and nothing else.
pub proof fn law_empty_gallery(clicks: GalleryClicks)
    ensures
        asked_for(clicks, 0, 0) == (if clicks.close {
            GalleryAction::Close
        } else {
            GalleryAction::Nothing
        }),
        page_count(0) == 1,
{
}

/// A page can be turned forward and back again, and then it is the same page.
pub proof fn law_pages_turn_back(page: int, total: int)
    requires
        total >= 0,
        0 <= page < page_count(total),
    ensures
        ({
            let next = GalleryClicks {
                close: false,
                open: None,
                delete: None,
                prev: false,
                next: true,
            };
            let prev = GalleryClicks {
                close: false,
                open: None,
                delete: None,
                prev: true,
                next: false,
            };
            &&& asked_for(next, page, total) is NextPage ==> page + 1 < page_count(total)
                && asked_for(prev, page + 1, total) is PrevPage
            &&& asked_for(prev, page, total) is PrevPage ==> page - 1 >= 0 && asked_for(
                next,
                page - 1,
                total,
            ) is NextPage
        }),
{
}

/// There are as many pages as twelve on each take: one fewer would not do, and an empty
/// gallery has one.
pub proof fn law_page_count(total: int)
    requires
        total >= 0,
    ensures
        page_count(total) >= 1,
        12 * page_count(total) >= total,
        total > 0 ==> 12 * (page_count(total) - 1) < total,
        total == 0 ==> page_count(total) == 1,
{
}

/// A page starts where the ones before it end, with twelve on each, and ends with the
/// screenshots.
pub proof fn law_page_bounds(total: int, page: int)
    requires
        total >= 0,
        0 <= page < page_count(total),
    ensures
        page_start(page) == 12 * page,
        page_end(total, page) == (if 12 * page + 12 <= total {
            12 * page + 12
        } else {
            total
        }),
{
}

/// When screenshots go, the gallery stays on its page while that is left, and otherwise goes
/// to the last.
pub proof fn law_page_kept(page: int, total: int)
    requires
        page >= 0,
        total >= 0,
    ensures
        0 <= clamped_page(page, total) < page_count(total),
        page < page_count(total) ==> clamped_page(page, total) == page,
        page >= page_count(total) ==> clamped_page(page, total) == page_count(total) - 1,
{
}

/// The thumbnails on display are of exactly the screenshots of which one could be made, in
/// their order.
pub proof fn law_thumbnails_of_made(made: Seq<bool>, start: int)
    requires
        0 <= start,
        start + made.len() <= usize::MAX,
    ensures
        forall|k: int|
            0 <= k < made.len() ==> (made[k] <==> made_positions(made, start).contains(
                #[trigger] ((start + k) as usize),
            )),
        forall|j: int|
            0 <= j < made_positions(made, start).len() ==> start <= #[trigger] made_positions(
                made,
                start,
            )[j] < start + made.len(),
        forall|j: int, k: int|
            0 <= j < k < made_positions(made, start).len() ==> made_positions(made, start)[j]
                < made_positions(made, start)[k],
    decreases made.len(),
{
    if made.len() > 0 {
        let front = made.drop_last();
        law_thumbnails_of_made(front, start);
        let before = made_positions(front, start);
        let all = made_positions(made, start);
        let end = (start + made.len() - 1) as usize;
        assert forall|k: int| 0 <= k < made.len() implies (made[k] <==> all.contains(
            #[trigger] ((start + k) as usize),
        )) by {
            let at = (start + k) as usize;
            if k < front.len() {
                assert(front[k] == made[k]);
                if made[k] {
                    assert(before.contains((start + k) as usize));
                    let n = before.index_of(at);
                    assert(all[n] == at);
                } else if all.contains(at) {
                    let n = all.index_of(at);
                    assert(n < before.len());
                    assert(before[n] == at);
                    assert(before.contains((start + k) as usize));
                }
            } else {
                if made[k] {
                    assert(all[before.len() as int] == at);
                } else if all.contains(at) {
                    let n = all.index_of(at);
                    assert(before[n] == at);
                }
            }
        }
    }
}

/// A click on Close, and on nothing else, hides the gallery, however many screenshots it holds.
pub proof fn law_close_hides(before: Gallery, after: Gallery, r: GalleryEffect)
    requires
        before.wf(),
        gallery_clicked(
            before,
            GalleryClicks { close: true, open: None, delete: None, prev: false, next: false },
            after,
            r,
        ),
    ensures
        !after.visible,
        r == GalleryEffect::Nothing,
        after.page == before.page,
{
}

/// A click on a thumbnail, and on nothing else, opens the screenshot that it shows, and one on
/// its delete button deletes that; the gallery itself stays as it is.
pub proof fn law_thumbnail_click(
    before: Gallery,
    after: Gallery,
    k: usize,
    delete: bool,
    r: GalleryEffect,
)
    requires
        before.wf(),
        k < before.shown@.len(),
        gallery_clicked(
            before,
            GalleryClicks {
                close: false,
                open: if delete {
                    None
                } else {
                    Some(k)
                },
                delete: if delete {
                    Some(k)
                } else {
                    None
                },
                prev: false,
                next: false,
            },
            after,
            r,
        ),
    ensures
        after == before,
        before.shown@[k as int] < before.items@.len(),
        !delete ==> r == GalleryEffect::Open(before.shown@[k as int]),
        delete ==> r == GalleryEffect::Delete(before.shown@[k as int]),
{
    lemma_page_start_within(before.items@.len() as int, before.page as int);
    assert(page_start(before.page as int) <= before.shown@[k as int] < page_end(
        before.items@.len() as int,
        before.page as int,
    ));
}

/// A click on a page button, and on nothing else, goes one page that way where there is one,
/// with its thumbnails to be made, and otherwise changes nothing.
pub proof fn law_page_click(before: Gallery, after: Gallery, next: bool, r: GalleryEffect)
    requires
        before.wf(),
        gallery_clicked(
            before,
            GalleryClicks { close: false, open: None, delete: None, prev: !next, next },
            after,
            r,
        ),
    ensures
        after.visible == before.visible,
        next && 12 * (before.page + 1) < before.items@.len() ==> after.page == before.page + 1 && r
            == GalleryEffect::Reload,
        !next && before.page > 0 ==> after.page == before.page - 1 && r == GalleryEffect::Reload,
        next && 12 * (before.page + 1) >= before.items@.len() ==> after == before && r
            == GalleryEffect::Nothing,
        !next && before.page == 0 ==> after == before && r == GalleryEffect::Nothing,
{
}

} // verus!
