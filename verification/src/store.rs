//! The local store of downloaded images: what it loads from the storage
//! directory, which images it gives up when it is over its limit, and which
//! image it offers as the next wallpaper.
use vstd::prelude::*;
use vstd::string::*;

use crate::model::ImageStoreItem;
use crate::order::{
    created_at, created_sorted, lemma_sorted_by_created, lemma_sorted_by_created_of_sorted,
    sort_by_created, sorted_by_created,
};

verus! {

/// What a listing of the storage directory tells of one entry.
pub struct DirEntryInfo {
    /// The entry's full path.
    pub path: String,
    /// The last component of `path`.
    pub file_name: String,
    /// Whether the path names a regular file (following symbolic links).
    pub is_file: bool,
    /// The entry's modification time (nanoseconds relative to the Unix epoch),
    /// when it could be read.
    pub modified: Option<i128>,
}

/// `name` has the extension `jpg`: it ends in `.jpg` and something comes before that dot.
pub open spec fn is_jpg_name(name: Seq<char>) -> bool {
    &&& name.len() > 4
    &&& name.subrange(name.len() - 4, name.len() as int) == seq!['.', 'j', 'p', 'g']
}

/// A directory entry that the store takes in: a regular file with extension `jpg`.
pub open spec fn is_stored_image(e: DirEntryInfo) -> bool {
    e.is_file && is_jpg_name(e.file_name@)
}

/// The store item for an entry with no known time: it is stamped `now`.
pub open spec fn untimed_image(e: DirEntryInfo, now: i128) -> Option<ImageStoreItem> {
    if is_stored_image(e) && e.modified is None {
        Some(ImageStoreItem { path: e.path, file_created: now })
    } else {
        None
    }
}

/// The store item for an entry with a known time.
pub open spec fn timed_image(e: DirEntryInfo) -> Option<ImageStoreItem> {
    if is_stored_image(e) && e.modified is Some {
        Some(ImageStoreItem { path: e.path, file_created: e.modified->0 })
    } else {
        None
    }
}

/// The items that loading the listing `es` adds to the store, in order: the
/// entries are ordered by time, entries without a time first and equal times
/// keeping the listing's order, and the `jpg` files among them are taken, an
/// unknown time being replaced by `now`.
pub open spec fn loaded_images(es: Seq<DirEntryInfo>, now: i128) -> Seq<ImageStoreItem> {
    es.filter_map(|e: DirEntryInfo| untimed_image(e, now)) + sorted_by_created(
        es.filter_map(|e: DirEntryInfo| timed_image(e)),
    )
}

/// How many of `len` images are given up to keep at most `max_images`.
pub open spec fn excess_count(len: nat, max_images: nat) -> nat {
    if len > max_images {
        (len - max_images) as nat
    } else {
        0
    }
}

/// The images that maintenance gives up: the oldest ones.
pub open spec fn maintain_removed(s: Seq<ImageStoreItem>, max_images: nat) -> Seq<ImageStoreItem> {
    sorted_by_created(s).take(excess_count(s.len(), max_images) as int)
}

/// The images that maintenance keeps: the newest ones, oldest first.
pub open spec fn maintain_kept(s: Seq<ImageStoreItem>, max_images: nat) -> Seq<ImageStoreItem> {
    sorted_by_created(s).skip(excess_count(s.len(), max_images) as int)
}

/// The wallpaper that a random draw `random` picks among `len` images.
pub open spec fn wallpaper_pick(random: u64, len: nat) -> int {
    (random as usize) as int % (len as int)
}

/// Maintenance gives up only images that are no newer than every image it keeps,
/// and keeps no more than `max_images`.
pub proof fn lemma_maintain_keeps_newest(s: Seq<ImageStoreItem>, max_images: nat)
    ensures
        maintain_kept(s, max_images).len() <= max_images,
        maintain_kept(s, max_images).len() + maintain_removed(s, max_images).len() == s.len(),
        forall|i: int, j: int|
            0 <= i < maintain_removed(s, max_images).len() && 0 <= j < maintain_kept(
                s,
                max_images,
            ).len() ==> #[trigger] maintain_removed(s, max_images)[i].file_created
                <= #[trigger] maintain_kept(s, max_images)[j].file_created,
{
    lemma_sorted_by_created(s);
    let r = sorted_by_created(s);
    let e = excess_count(s.len(), max_images) as int;
    assert forall|i: int, j: int|
        0 <= i < maintain_removed(s, max_images).len() && 0 <= j < maintain_kept(
            s,
            max_images,
        ).len() implies #[trigger] maintain_removed(s, max_images)[i].file_created
        <= #[trigger] maintain_kept(s, max_images)[j].file_created by {
        assert(maintain_removed(s, max_images)[i] == r[i]);
        assert(maintain_kept(s, max_images)[j] == r[e + j]);
    }
}

/// Maintenance loses no image and invents none: what it gives up and what it
/// keeps hold, at every time, exactly the images the store held at that time.
pub proof fn lemma_maintain_preserves_images(s: Seq<ImageStoreItem>, max_images: nat)
    ensures
        forall|t: i128| #[trigger]
            created_at(maintain_removed(s, max_images) + maintain_kept(s, max_images), t)
                == created_at(s, t),
{
    lemma_sorted_by_created(s);
    let e = excess_count(s.len(), max_images) as int;
    assert(maintain_removed(s, max_images) + maintain_kept(s, max_images) =~= sorted_by_created(
        s,
    ));
}

/// Maintaining a store that was just maintained with the same limit gives up
/// nothing and changes nothing.
pub proof fn lemma_maintain_idempotent(s: Seq<ImageStoreItem>, max_images: nat)
    ensures
        maintain_removed(maintain_kept(s, max_images), max_images) == Seq::<
            ImageStoreItem,
        >::empty(),
        maintain_kept(maintain_kept(s, max_images), max_images) == maintain_kept(s, max_images),
{
    lemma_sorted_by_created(s);
    let r = sorted_by_created(s);
    let e = excess_count(s.len(), max_images) as int;
    let k = maintain_kept(s, max_images);
    assert(created_sorted(k)) by {
        assert forall|i: int, j: int| 0 <= i <= j < k.len() implies k[i].file_created
            <= k[j].file_created by {
            assert(k[i] == r[e + i] && k[j] == r[e + j]);
        }
    }
    lemma_sorted_by_created_of_sorted(k);
    assert(excess_count(k.len(), max_images) == 0);
    assert(maintain_removed(k, max_images) =~= Seq::<ImageStoreItem>::empty());
    assert(maintain_kept(k, max_images) =~= k);
}

/// `path` is the path of a regular `jpg` file of the listing `es`.
pub open spec fn listed_jpg_file(es: Seq<DirEntryInfo>, path: String) -> bool {
    exists|j: int| 0 <= j < es.len() && is_stored_image(es[j]) && es[j].path == path
}

/// Loading takes in nothing but the regular `jpg` files of the listing: every
/// loaded image carries the path of such an entry.
pub proof fn lemma_loaded_images_are_jpg_files(es: Seq<DirEntryInfo>, now: i128)
    ensures
        forall|i: int|
            0 <= i < loaded_images(es, now).len() ==> listed_jpg_file(
                es,
                #[trigger] loaded_images(es, now)[i].path,
            ),
{
    broadcast use Seq::lemma_filter_map_contains, Seq::lemma_filter_contains_rev;
    broadcast use vstd::seq_lib::group_filter_ensures;

    let fu = |e: DirEntryInfo| untimed_image(e, now);
    let ft = |e: DirEntryInfo| timed_image(e);
    let u = es.filter_map(fu);
    let tm = es.filter_map(ft);
    let r = sorted_by_created(tm);
    let l = loaded_images(es, now);
    lemma_sorted_by_created(tm);
    assert(l == u + r);
    assert forall|i: int| 0 <= i < loaded_images(es, now).len() implies listed_jpg_file(
        es,
        #[trigger] loaded_images(es, now)[i].path,
    ) by {
        if i < u.len() {
            let x = u[i];
            assert(l[i] == x);
            assert(u.contains(x));
            let e = choose|e: DirEntryInfo| #[trigger] es.contains(e) && fu(e) == Some(x);
            let j = choose|j: int| 0 <= j < es.len() && es[j] == e;
            assert(is_stored_image(es[j]) && es[j].path == x.path);
        } else {
            let x = r[i - u.len()];
            assert(l[i] == x);
            assert(created_at(r, x.file_created).contains(r[i - u.len()]));
            assert(created_at(tm, x.file_created).contains(x));
            assert(tm.contains(x));
            let e = choose|e: DirEntryInfo| #[trigger] es.contains(e) && ft(e) == Some(x);
            let j = choose|j: int| 0 <= j < es.len() && es[j] == e;
            assert(is_stored_image(es[j]) && es[j].path == x.path);
        }
    }
}

/// Every image of a non-empty store is picked by some draw: the draw `i`
/// picks the image at index `i`.
pub proof fn lemma_every_wallpaper_reachable(len: usize, i: usize)
    requires
        i < len,
    ensures
        wallpaper_pick(i as u64, len as nat) == i,
        ((i as u64) as usize) as int % (len as int) == i,
{
    assert(((i as u64) as usize) == i) by (bit_vector);
    vstd::arithmetic::div_mod::lemma_small_mod(i as nat, len as nat);
}

/// Whatever `f` keeps of an element is in `s.filter_map(f)`.
proof fn lemma_filter_map_keeps<A, B>(s: Seq<A>, f: spec_fn(A) -> Option<B>, j: int)
    requires
        0 <= j < s.len(),
        f(s[j]) is Some,
    ensures
        s.filter_map(f).contains(f(s[j])->0),
    decreases s.len(),
{
    let r = s.filter_map(f);
    let rest = s.drop_last();
    if j == s.len() - 1 {
        assert(r[r.len() - 1] == f(s[j])->0);
    } else {
        assert(rest[j] == s[j]);
        lemma_filter_map_keeps(rest, f, j);
        let rr = rest.filter_map(f);
        let k = choose|k: int| 0 <= k < rr.len() && rr[k] == f(s[j])->0;
        assert(r[k] == rr[k]);
    }
}

/// Every regular file of the listing whose name is a non-empty stem followed by
/// `.jpg` is loaded: the store gains an image with its path and its time (or
/// `now` when its time is unknown).
pub proof fn lemma_listed_jpg_file_is_loaded(
    es: Seq<DirEntryInfo>,
    now: i128,
    j: int,
    stem: Seq<char>,
)
    requires
        0 <= j < es.len(),
        es[j].is_file,
        stem.len() > 0,
        es[j].file_name@ == stem + seq!['.', 'j', 'p', 'g'],
    ensures
        loaded_images(es, now).contains(
            ImageStoreItem {
                path: es[j].path,
                file_created: match es[j].modified {
                    Some(t) => t,
                    None => now,
                },
            },
        ),
{
    broadcast use Seq::lemma_filter_contains_rev;
    broadcast use vstd::seq_lib::group_filter_ensures;

    lemma_stem_jpg_is_jpg(stem);
    let e = es[j];
    let x = ImageStoreItem {
        path: e.path,
        file_created: match e.modified {
            Some(t) => t,
            None => now,
        },
    };
    let fu = |e: DirEntryInfo| untimed_image(e, now);
    let ft = |e: DirEntryInfo| timed_image(e);
    let u = es.filter_map(fu);
    let tm = es.filter_map(ft);
    let r = sorted_by_created(tm);
    let l = loaded_images(es, now);
    assert(l == u + r);
    if e.modified is None {
        lemma_filter_map_keeps(es, fu, j);
        let k = choose|k: int| 0 <= k < u.len() && u[k] == x;
        assert(l[k] == x);
    } else {
        lemma_filter_map_keeps(es, ft, j);
        let k = choose|k: int| 0 <= k < tm.len() && tm[k] == x;
        lemma_sorted_by_created(tm);
        assert(created_at(tm, x.file_created).contains(tm[k]));
        assert(created_at(r, x.file_created).contains(x));
        assert(r.contains(x));
        let m = choose|m: int| 0 <= m < r.len() && r[m] == x;
        assert(l[u.len() + m] == x);
    }
}

/// A name has the extension `jpg` exactly when it is a non-empty stem followed
/// by `.jpg`, whatever the stem and its length.
pub proof fn lemma_jpg_name(name: Seq<char>)
    ensures
        is_jpg_name(name) <==> exists|stem: Seq<char>| stem.len() > 0 && name == stem + seq![
            '.',
            'j',
            'p',
            'g',
        ],
{
    let suffix = seq!['.', 'j', 'p', 'g'];
    if is_jpg_name(name) {
        let stem = name.subrange(0, name.len() - 4);
        assert(name =~= stem + suffix);
    }
    if exists|stem: Seq<char>| stem.len() > 0 && name == stem + suffix {
        let stem = choose|stem: Seq<char>| stem.len() > 0 && name == stem + suffix;
        assert(name.subrange(name.len() - 4, name.len() as int) =~= suffix);
    }
}

/// Every non-empty stem followed by `.jpg` has the extension `jpg`.
pub proof fn lemma_stem_jpg_is_jpg(stem: Seq<char>)
    requires
        stem.len() > 0,
    ensures
        is_jpg_name(stem + seq!['.', 'j', 'p', 'g']),
{
    lemma_jpg_name(stem + seq!['.', 'j', 'p', 'g']);
}

/// Whether `name` has the extension `jpg` (as `Path::extension` sees it).
pub fn is_jpg_file_name(name: &str) -> (b: bool)
    ensures
        b == is_jpg_name(name@),
        b <==> exists|stem: Seq<char>| stem.len() > 0 && name@ == stem + seq!['.', 'j', 'p', 'g'],
{
    proof {
        lemma_jpg_name(name@);
    }
    let n = name.unicode_len();
    if n <= 4 {
        return false;
    }
    let b = name.get_char(n - 4) == '.' && name.get_char(n - 3) == 'j' && name.get_char(n - 2)
        == 'p' && name.get_char(n - 1) == 'g';
    proof {
        let tail = name@.subrange(n - 4, n as int);
        if b {
            assert(tail =~= seq!['.', 'j', 'p', 'g']);
        } else {
            if tail == seq!['.', 'j', 'p', 'g'] {
                assert(tail[0] == name@[n - 4]);
                assert(tail[1] == name@[n - 3]);
                assert(tail[2] == name@[n - 2]);
                assert(tail[3] == name@[n - 1]);
            }
        }
    }
    b
}

/// Index of the wallpaper that the draw `random` picks among `len` images.
pub fn wallpaper_index(random: u64, len: usize) -> (i: usize)
    requires
        len > 0,
    ensures
        i == wallpaper_pick(random, len as nat),
        i as int == (random as usize) as int % (len as int),
        i < len,
{
    (random as usize) % len
}

/// Draws a value from `rand::random::<u64>()`, the thread-local generator.
/// Any value may come back; nothing is claimed of it. (The generator panics
/// only when the operating system cannot seed it.)
#[verifier::external_body]
fn random_u64() -> u64 {
    rand::random::<u64>()
}

/// The images that are kept on disk, in the order in which they were added
/// (ordered by time after each maintenance).
pub struct FileStore {
    pub items: Vec<ImageStoreItem>,
}

impl FileStore {
    /// An empty store.
    pub fn new() -> (s: FileStore)
        ensures
            s.items@ == Seq::<ImageStoreItem>::empty(),
    {
        FileStore { items: Vec::new() }
    }

    /// Number of images in the store.
    pub fn len(&self) -> (n: usize)
        ensures
            n == self.items@.len(),
    {
        self.items.len()
    }

    /// Whether the store holds no image.
    pub fn is_empty(&self) -> (b: bool)
        ensures
            b == (self.items@.len() == 0),
    {
        self.items.len() == 0
    }

    /// The image at `index`.
    pub fn get(&self, index: usize) -> (item: &ImageStoreItem)
        requires
            index < self.items@.len(),
        ensures
            *item == self.items@[index as int],
    {
        &self.items[index]
    }

    /// Adds a freshly downloaded image at the end.
    pub fn push(&mut self, item: ImageStoreItem)
        ensures
            final(self).items@ == old(self).items@.push(item),
    {
        self.items.push(item);
    }

    /// Appends the images found in a listing `entries` of the storage directory:
    /// the regular files with extension `jpg`, ordered by time (entries whose
    /// time is unknown first, stamped `now`; equal times in listing order).
    pub fn load_existing(&mut self, entries: Vec<DirEntryInfo>, now: i128)
        ensures
            final(self).items@ == old(self).items@ + loaded_images(entries@, now),
    {
        broadcast use Seq::lemma_filter_map_take_succ;

        let ghost es = entries@;
        assert(es.len() == entries.len());
        let ghost fu = |e: DirEntryInfo| untimed_image(e, now);
        let ghost ft = |e: DirEntryInfo| timed_image(e);
        let mut rest = entries;
        let mut untimed: Vec<ImageStoreItem> = Vec::new();
        let mut timed: Vec<ImageStoreItem> = Vec::new();
        let mut k: usize = 0;
        proof {
            assert(es.skip(0) =~= es);
            assert(es.take(0).filter_map(fu) =~= untimed@) by {
                reveal_with_fuel(Seq::filter_map, 1);
            }
            assert(es.take(0).filter_map(ft) =~= timed@) by {
                reveal_with_fuel(Seq::filter_map, 1);
            }
        }
        while rest.len() > 0
            invariant
                k + rest.len() == es.len(),
                es.len() <= usize::MAX,
                rest@ == es.skip(k as int),
                untimed@ == es.take(k as int).filter_map(fu),
                timed@ == es.take(k as int).filter_map(ft),
                fu == (|e: DirEntryInfo| untimed_image(e, now)),
                ft == (|e: DirEntryInfo| timed_image(e)),
            decreases rest.len(),
        {
            assert(rest@[0] == es[k as int]);
            let e = rest.remove(0);
            proof {
                assert(rest@ =~= es.skip(k + 1));
                es.lemma_filter_map_take_succ(fu, k as int);
                es.lemma_filter_map_take_succ(ft, k as int);
            }
            let keep = e.is_file && is_jpg_file_name(e.file_name.as_str());
            if keep {
                match e.modified {
                    None => {
                        untimed.push(ImageStoreItem { path: e.path, file_created: now });
                    },
                    Some(t) => {
                        timed.push(ImageStoreItem { path: e.path, file_created: t });
                    },
                }
            }
            k = k + 1;
        }
        proof {
            assert(es.take(k as int) =~= es);
        }
        let mut sorted = sort_by_created(timed);
        self.items.append(&mut untimed);
        self.items.append(&mut sorted);
    }

    /// Keeps at most `max_images` images: the store is ordered by time (equal
    /// times keeping their order) and the oldest images beyond the limit are
    /// taken out and returned, oldest first, so that their files can be removed.
    pub fn maintain(&mut self, max_images: usize) -> (removed: Vec<ImageStoreItem>)
        ensures
            removed@ == maintain_removed(old(self).items@, max_images as nat),
            final(self).items@ == maintain_kept(old(self).items@, max_images as nat),
            removed@ + final(self).items@ == sorted_by_created(old(self).items@),
            final(self).items@.len() == if old(self).items@.len() > max_images {
                max_images as nat
            } else {
                old(self).items@.len()
            },
    {
        let ghost s = self.items@;
        let mut sorted = Vec::new();
        std::mem::swap(&mut sorted, &mut self.items);
        let mut sorted = sort_by_created(sorted);
        let len = sorted.len();
        if len > max_images {
            let excess = len - max_images;
            let kept = sorted.split_off(excess);
            self.items = kept;
            assert(sorted@ =~= sorted_by_created(s).take(excess as int));
            assert(self.items@ =~= sorted_by_created(s).skip(excess as int));
            assert(sorted@ + self.items@ =~= sorted_by_created(s));
            sorted
        } else {
            self.items = sorted;
            let removed = Vec::new();
            assert(self.items@ =~= sorted_by_created(s).skip(0));
            assert(removed@ =~= sorted_by_created(s).take(0));
            assert(removed@ + self.items@ =~= sorted_by_created(s));
            removed
        }
    }

    /// The wallpaper that the draw `draw` selects: `None` when the store is
    /// empty, else the draw modulo the number of images.
    pub fn pick_wallpaper_from(&self, draw: u64) -> (pick: Option<usize>)
        ensures
            pick is None <==> self.items@.len() == 0,
            pick matches Some(i) ==> i < self.items@.len() && i as int == (draw as usize) as int
                % (self.items@.len() as int),
    {
        if self.items.len() == 0 {
            return None;
        }
        Some(wallpaper_index(draw, self.items.len()))
    }

    /// Picks the next wallpaper at random: `None` when the store is empty,
    /// else the index that a draw of `rand::random::<u64>()` selects
    /// (see [`FileStore::pick_wallpaper_from`]).
    pub fn pick_wallpaper(&self) -> (pick: Option<usize>)
        ensures
            pick is None <==> self.items@.len() == 0,
            pick matches Some(i) ==> i < self.items@.len(),
    {
        if self.items.len() == 0 {
            return None;
        }
        self.pick_wallpaper_from(random_u64())
    }
}

} // verus!
