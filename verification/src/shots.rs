//! Screenshots: which files of a folder are ones, and in what order they are listed.

use vstd::prelude::*;

verus! {

/// A point in time: seconds since the Unix epoch and nanoseconds into that second.
#[derive(Clone, Copy, PartialEq, Eq, Debug, Structural)]
pub struct Stamp {
    pub secs: i64,
    pub nanos: u32,
}

/// A file in the screenshot folder, with its modification time where it is known.
pub struct Entry {
    pub name: Vec<u8>,
    pub mtime: Option<Stamp>,
}

/// A screenshot: its file name in the folder and its modification time.
pub struct Shot {
    pub name: Vec<u8>,
    pub mtime: Stamp,
}

/// What can be asked of an open photo window.
#[derive(Clone, Copy, PartialEq, Eq, Debug, Structural)]
pub enum PhotoAction {
    Nothing,
    Copy,
    Delete,
    Dismiss,
    Translate,
    ToggleView,
    Share,
}

impl View for Shot {
    type V = (Seq<u8>, Stamp);

    open spec fn view(&self) -> (Seq<u8>, Stamp) {
        (self.name@, self.mtime)
    }
}

/// The names and times of a listing.
pub open spec fn views(shots: Seq<Shot>) -> Seq<(Seq<u8>, Stamp)> {
    shots.map_values(|s: Shot| s@)
}

impl Stamp {
    /// Whether `self` is earlier than `other`.
    pub open spec fn earlier(self, other: Stamp) -> bool {
        self.secs < other.secs || (self.secs == other.secs && self.nanos < other.nanos)
    }

    pub fn is_earlier(&self, other: &Stamp) -> (r: bool)
        ensures
            r == self.earlier(*other),
    {
        self.secs < other.secs || (self.secs == other.secs && self.nanos < other.nanos)
    }
}

// ---------------------------------------------------------------------------
// File names
// ---------------------------------------------------------------------------

/// Where the last dot of `name` stands; -1 where it has none.
pub open spec fn last_dot(name: Seq<u8>) -> int
    decreases name.len(),
{
    if name.len() == 0 {
        -1
    } else if name.last() == 0x2e {
        name.len() - 1
    } else {
        last_dot(name.drop_last())
    }
}

/// What follows the last dot of a file name. A dot at the very start begins a hidden
/// name, not an extension.
pub open spec fn extension(name: Seq<u8>) -> Option<Seq<u8>> {
    if last_dot(name) > 0 {
        Some(name.skip(last_dot(name) + 1))
    } else {
        None
    }
}

/// A file name without its extension and the dot before it.
pub open spec fn stem(name: Seq<u8>) -> Seq<u8> {
    if last_dot(name) > 0 {
        name.take(last_dot(name))
    } else {
        name
    }
}

/// The ASCII letter in lower case; other bytes stay.
pub open spec fn lower(b: u8) -> u8 {
    if 0x41 <= b <= 0x5a {
        (b + 0x20) as u8
    } else {
        b
    }
}

/// Whether the extension is `png`, in any case.
pub open spec fn png_name(name: Seq<u8>) -> bool {
    match extension(name) {
        Some(e) => e.len() == 3 && lower(e[0]) == 0x70 && lower(e[1]) == 0x6e && lower(e[2]) == 0x67,
        None => false,
    }
}

fn find_last_dot(name: &Vec<u8>) -> (r: Option<usize>)
    ensures
        match r {
            Some(i) => last_dot(name@) == i && i < name@.len(),
            None => last_dot(name@) == -1,
        },
{
    let mut j: usize = name.len();
    assert(name@.take(j as int) =~= name@);
    while j > 0
        invariant
            j <= name@.len(),
            last_dot(name@) == last_dot(name@.take(j as int)),
        decreases j,
    {
        assert(name@.take(j as int).drop_last() =~= name@.take(j - 1));
        if name[j - 1] == 0x2e {
            return Some(j - 1);
        }
        j = j - 1;
    }
    None
}

fn to_lower(b: u8) -> (r: u8)
    ensures
        r == lower(b),
{
    if 0x41 <= b && b <= 0x5a {
        b + 0x20
    } else {
        b
    }
}

/// A file name without its extension and the dot before it.
pub fn file_stem(name: &Vec<u8>) -> (r: Vec<u8>)
    ensures
        r@ == stem(name@),
{
    let mut r = copy_bytes(name);
    if let Some(i) = find_last_dot(name) {
        if i > 0 {
            r.truncate(i);
            assert(r@ =~= name@.take(i as int));
        }
    }
    r
}

/// Whether a file name is that of a PNG.
pub fn is_png(name: &Vec<u8>) -> (r: bool)
    ensures
        r == png_name(name@),
{
    match find_last_dot(name) {
        Some(i) => i > 0 && name.len() - i == 4 && to_lower(name[i + 1]) == 0x70 && to_lower(
            name[i + 2],
        ) == 0x6e && to_lower(name[i + 3]) == 0x67,
        None => false,
    }
}

// ---------------------------------------------------------------------------
// Listing
// ---------------------------------------------------------------------------

/// `sorted` with `shot` put in behind every screenshot that is not older than it.
pub open spec fn put_in(sorted: Seq<(Seq<u8>, Stamp)>, shot: (Seq<u8>, Stamp)) -> Seq<(Seq<u8>, Stamp)>
    decreases sorted.len(),
{
    if sorted.len() > 0 && sorted.last().1.earlier(shot.1) {
        put_in(sorted.drop_last(), shot).push(sorted.last())
    } else {
        sorted.push(shot)
    }
}

/// The screenshots among the files of a folder, newest first; those of one time keep
/// the order of the folder.
pub open spec fn listing(entries: Seq<Entry>) -> Seq<(Seq<u8>, Stamp)>
    decreases entries.len(),
{
    if entries.len() == 0 {
        Seq::empty()
    } else {
        let before = listing(entries.drop_last());
        let e = entries.last();
        match e.mtime {
            Some(m) => if png_name(e.name@) {
                put_in(before, (e.name@, m))
            } else {
                before
            },
            None => before,
        }
    }
}

/// No screenshot is older than one that follows it.
pub open spec fn newest_first(shots: Seq<(Seq<u8>, Stamp)>) -> bool {
    forall|i: int, j: int| 0 <= i < j < shots.len() ==> !shots[i].1.earlier(shots[j].1)
}

proof fn lemma_put_in(sorted: Seq<(Seq<u8>, Stamp)>, shot: (Seq<u8>, Stamp))
    requires
        newest_first(sorted),
    ensures
        newest_first(put_in(sorted, shot)),
        put_in(sorted, shot).len() == sorted.len() + 1,
        put_in(sorted, shot).to_multiset() == sorted.to_multiset().insert(shot),
    decreases sorted.len(),
{
    broadcast use vstd::seq_lib::group_to_multiset_ensures;

    if sorted.len() > 0 && sorted.last().1.earlier(shot.1) {
        let front = sorted.drop_last();
        lemma_put_in(front, shot);
        let placed = put_in(front, shot);
        assert(sorted =~= front.push(sorted.last()));
        assert(placed.push(sorted.last()).to_multiset() =~= sorted.to_multiset().insert(shot));
        assert forall|i: int| 0 <= i < placed.len() implies !(#[trigger] placed[i]).1.earlier(
            sorted.last().1,
        ) by {
            assert(placed.to_multiset().count(placed[i]) > 0) by {
                assert(placed.contains(placed[i]));
            }
            if placed[i] != shot {
                assert(front.to_multiset().count(placed[i]) > 0);
                assert(front.contains(placed[i]));
                let k = front.index_of(placed[i]);
                assert(sorted[k] == placed[i]);
                assert(sorted[sorted.len() - 1] == sorted.last());
            }
        }
    } else {
        assert forall|i: int| 0 <= i < sorted.len() implies !(#[trigger] sorted[i]).1.earlier(
            shot.1,
        ) by {
            assert(sorted[sorted.len() - 1] == sorted.last());
            if i < sorted.len() - 1 {
                assert(!sorted[i].1.earlier(sorted[sorted.len() - 1].1));
            }
        }
    }
}

/// A listing is newest first.
pub proof fn law_listing_newest_first(entries: Seq<Entry>)
    ensures
        newest_first(listing(entries)),
    decreases entries.len(),
{
    if entries.len() > 0 {
        law_listing_newest_first(entries.drop_last());
        let e = entries.last();
        if e.mtime is Some && png_name(e.name@) {
            lemma_put_in(listing(entries.drop_last()), (e.name@, e.mtime->0));
        }
    }
}

/// Whether the entry is a screenshot that a listing holds.
pub open spec fn listed(e: Entry) -> bool {
    e.mtime is Some && png_name(e.name@)
}

/// A listing holds each PNG of known time in the folder once, and nothing else.
pub proof fn law_listing_complete(entries: Seq<Entry>)
    ensures
        listing(entries).to_multiset() == entries.filter(|e: Entry| listed(e)).map_values(
            |e: Entry| (e.name@, e.mtime->0),
        ).to_multiset(),
    decreases entries.len(),
{
    broadcast use vstd::seq_lib::group_to_multiset_ensures;

    let keep = |e: Entry| listed(e);
    let pair = |e: Entry| (e.name@, e.mtime->0);
    reveal(Seq::filter);
    if entries.len() > 0 {
        let front = entries.drop_last();
        let e = entries.last();
        law_listing_complete(front);
        law_listing_newest_first(front);
        if listed(e) {
            lemma_put_in(listing(front), (e.name@, e.mtime->0));
            assert(entries.filter(keep) =~= front.filter(keep).push(e));
            assert(entries.filter(keep).map_values(pair) =~= front.filter(keep).map_values(
                pair,
            ).push(pair(e)));
        } else {
            assert(entries.filter(keep) =~= front.filter(keep));
        }
    } else {
        assert(entries.filter(keep).map_values(pair) =~= listing(entries));
    }
}

pub(crate) fn copy_bytes(v: &Vec<u8>) -> (r: Vec<u8>)
    ensures
        r@ == v@,
{
    let r = v.clone();
    assert(r@ =~= v@);
    r
}

/// The screenshots among the files of a folder, newest first.
pub fn scan_all(entries: &Vec<Entry>) -> (r: Vec<Shot>)
    ensures
        views(r@) == listing(entries@),
        newest_first(views(r@)),
{
    let mut out: Vec<Shot> = Vec::new();
    let mut i: usize = 0;
    assert(views(out@) =~= listing(entries@.take(0)));
    while i < entries.len()
        invariant
            i <= entries@.len(),
            views(out@) == listing(entries@.take(i as int)),
        decreases entries@.len() - i,
    {
        assert(entries@.take(i + 1).drop_last() =~= entries@.take(i as int));
        if let Some(mtime) = entries[i].mtime {
            if is_png(&entries[i].name) {
                let shot = Shot { name: copy_bytes(&entries[i].name), mtime };
                insert_shot(&mut out, shot);
            }
        }
        i = i + 1;
    }
    assert(entries@.take(i as int) =~= entries@);
    proof {
        law_listing_newest_first(entries@);
    }
    out
}

fn insert_shot(sorted: &mut Vec<Shot>, shot: Shot)
    ensures
        views(final(sorted)@) == put_in(views(old(sorted)@), shot@),
{
    let mut at: usize = sorted.len();
    let ghost all = views(sorted@);
    assert(all.take(at as int) =~= all);
    assert(all.skip(at as int) =~= Seq::empty());
    while at > 0 && sorted[at - 1].mtime.is_earlier(&shot.mtime)
        invariant
            at <= sorted@.len(),
            all == views(sorted@),
            put_in(all, shot@) =~= put_in(all.take(at as int), shot@) + all.skip(at as int),
        decreases at,
    {
        assert(all.take(at as int).drop_last() =~= all.take(at - 1));
        assert(all.take(at as int).last() == all[at - 1]);
        assert(put_in(all.take(at - 1), shot@).push(all[at - 1]) + all.skip(at as int) =~= put_in(
            all.take(at - 1),
            shot@,
        ) + all.skip(at - 1));
        at = at - 1;
    }
    proof {
        if at > 0 {
            assert(all.take(at as int).last() == all[at - 1]);
        }
        assert(put_in(all.take(at as int), shot@) =~= all.take(at as int).push(shot@));
    }
    let ghost view = shot@;
    sorted.insert(at, shot);
    assert(views(sorted@) =~= all.take(at as int).push(view) + all.skip(at as int));
}

// ---------------------------------------------------------------------------
// What names and listings are made of
// ---------------------------------------------------------------------------

proof fn lemma_last_dot(name: Seq<u8>)
    ensures
        -1 <= last_dot(name) < name.len(),
        last_dot(name) >= 0 ==> name[last_dot(name)] == 0x2e,
        forall|i: int| last_dot(name) < i < name.len() ==> #[trigger] name[i] != 0x2e,
    decreases name.len(),
{
    if name.len() > 0 && name.last() != 0x2e {
        lemma_last_dot(name.drop_last());
        assert forall|i: int| last_dot(name) < i < name.len() implies #[trigger] name[i] != 0x2e by {
            if i < name.len() - 1 {
                assert(name.drop_last()[i] == name[i]);
            }
        }
    }
}

proof fn lemma_dot_at(name: Seq<u8>, at: int)
    requires
        0 <= at < name.len(),
        name[at] == 0x2e,
        forall|i: int| at < i < name.len() ==> #[trigger] name[i] != 0x2e,
    ensures
        last_dot(name) == at,
{
    lemma_last_dot(name);
    if last_dot(name) > at {
        assert(name[last_dot(name)] != 0x2e);
    }
}

/// A name is its stem, a dot and its extension, which has no dot in it, wherever something
/// stands before the last dot.
pub proof fn law_stem_and_extension(base: Seq<u8>, ext: Seq<u8>)
    requires
        base.len() > 0,
        !ext.contains(0x2e),
    ensures
        stem(base + seq![0x2eu8] + ext) == base,
        extension(base + seq![0x2eu8] + ext) == Some(ext),
{
    let name = base + seq![0x2eu8] + ext;
    assert forall|i: int| base.len() < i < name.len() implies #[trigger] name[i] != 0x2e by {
        assert(ext[i - base.len() - 1] == name[i]);
    }
    lemma_dot_at(name, base.len() as int);
    assert(name.take(base.len() as int) =~= base);
    assert(name.skip((base.len() + 1) as int) =~= ext);
}

/// A name without a dot, or with one at its start alone, has no extension and is its own stem.
pub proof fn law_no_extension(name: Seq<u8>)
    requires
        forall|i: int| 0 < i < name.len() ==> #[trigger] name[i] != 0x2e,
    ensures
        stem(name) == name,
        extension(name) is None,
        !png_name(name),
{
    lemma_last_dot(name);
    if last_dot(name) > 0 {
        assert(name[last_dot(name)] != 0x2e);
    }
}

/// A file is a screenshot exactly where its name ends in `.png`, in capitals or not, and is
/// more than that.
pub proof fn law_png_names(name: Seq<u8>)
    ensures
        png_name(name) <==> {
            let n = name.len();
            &&& n > 4
            &&& name[n - 4] == 0x2e
            &&& name[n - 3] == 0x70 || name[n - 3] == 0x50
            &&& name[n - 2] == 0x6e || name[n - 2] == 0x4e
            &&& name[n - 1] == 0x67 || name[n - 1] == 0x47
        },
{
    let n = name.len();
    lemma_last_dot(name);
    if n > 4 && name[n - 4] == 0x2e && (name[n - 3] == 0x70 || name[n - 3] == 0x50) && (name[n - 2]
        == 0x6e || name[n - 2] == 0x4e) && (name[n - 1] == 0x67 || name[n - 1] == 0x47) {
        lemma_dot_at(name, n - 4);
    }
}

/// Earlier is what has fewer nanoseconds since the epoch.
pub proof fn law_earlier(a: Stamp, b: Stamp)
    requires
        a.nanos < 1_000_000_000,
        b.nanos < 1_000_000_000,
    ensures
        a.earlier(b) <==> a.secs * 1_000_000_000 + a.nanos < b.secs * 1_000_000_000 + b.nanos,
{
}

proof fn lemma_put_in_place(sorted: Seq<(Seq<u8>, Stamp)>, shot: (Seq<u8>, Stamp)) -> (k: int)
    requires
        newest_first(sorted),
    ensures
        0 <= k <= sorted.len(),
        put_in(sorted, shot) == sorted.insert(k, shot),
        forall|i: int| 0 <= i < k ==> !(#[trigger] sorted[i]).1.earlier(shot.1),
        forall|i: int| k <= i < sorted.len() ==> (#[trigger] sorted[i]).1.earlier(shot.1),
    decreases sorted.len(),
{
    if sorted.len() > 0 && sorted.last().1.earlier(shot.1) {
        let front = sorted.drop_last();
        let k = lemma_put_in_place(front, shot);
        assert(put_in(sorted, shot) =~= sorted.insert(k, shot));
        assert forall|i: int| 0 <= i < k implies !(#[trigger] sorted[i]).1.earlier(shot.1) by {
            assert(front[i] == sorted[i]);
        }
        assert forall|i: int| k <= i < sorted.len() implies (#[trigger] sorted[i]).1.earlier(
            shot.1,
        ) by {
            if i < front.len() {
                assert(front[i] == sorted[i]);
            }
        }
        k
    } else {
        let k = sorted.len() as int;
        assert(put_in(sorted, shot) =~= sorted.insert(k, shot));
        assert forall|i: int| 0 <= i < k implies !(#[trigger] sorted[i]).1.earlier(shot.1) by {
            assert(!sorted[i].1.earlier(sorted[sorted.len() - 1].1) || i == sorted.len() - 1);
        }
        k
    }
}

/// One more PNG in the folder is put into the listing behind those that are not older and
/// ahead of those that are, and changes nothing else of it; anything else in the folder
/// changes nothing.
pub proof fn law_listing_grows(entries: Seq<Entry>, e: Entry)
    ensures
        e.mtime is None || !png_name(e.name@) ==> listing(entries.push(e)) == listing(entries),
        e.mtime is Some && png_name(e.name@) ==> exists|k: int|
            {
                &&& 0 <= k <= listing(entries).len()
                &&& listing(entries.push(e)) == #[trigger] listing(entries).insert(
                    k,
                    (e.name@, e.mtime->0),
                )
                &&& forall|i: int|
                    0 <= i < k ==> !(#[trigger] listing(entries)[i]).1.earlier(e.mtime->0)
                &&& forall|i: int|
                    k <= i < listing(entries).len() ==> (#[trigger] listing(entries)[i]).1.earlier(
                        e.mtime->0,
                    )
            },
{
    assert(entries.push(e).drop_last() =~= entries);
    assert(entries.push(e).last() == e);
    law_listing_newest_first(entries);
    if e.mtime is Some && png_name(e.name@) {
        let k = lemma_put_in_place(listing(entries), (e.name@, e.mtime->0));
        assert(listing(entries.push(e)) == listing(entries).insert(k, (e.name@, e.mtime->0)));
    }
}

} // verus!
