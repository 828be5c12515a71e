//! Ordering of stored images by their time: a stable sort, its specification
//! and the facts about it that the store relies on.
use vstd::prelude::*;

use crate::model::ImageStoreItem;

verus! {

/// The times never decrease along `s`.
pub open spec fn created_sorted(s: Seq<ImageStoreItem>) -> bool {
    forall|i: int, j: int| 0 <= i <= j < s.len() ==> s[i].file_created <= s[j].file_created
}

/// The items of `s` with time `t`, in the order in which they occur in `s`.
pub open spec fn created_at(s: Seq<ImageStoreItem>, t: i128) -> Seq<ImageStoreItem> {
    s.filter(|x: ImageStoreItem| x.file_created == t)
}

/// `r` is `s` ordered by time, where items with equal times keep their relative order.
pub open spec fn is_stable_sort_of(r: Seq<ImageStoreItem>, s: Seq<ImageStoreItem>) -> bool {
    &&& created_sorted(r)
    &&& forall|t: i128| #[trigger] created_at(r, t) == created_at(s, t)
}

/// The stable ordering of `s` by time (it exists and is unique: see
/// [`lemma_sorted_by_created`]).
pub open spec fn sorted_by_created(s: Seq<ImageStoreItem>) -> Seq<ImageStoreItem> {
    choose|r: Seq<ImageStoreItem>| is_stable_sort_of(r, s)
}

/// Where an item of time `t` goes in a sorted `r`: after every item of time at most `t`.
spec fn insert_pos(r: Seq<ImageStoreItem>, t: i128) -> int
    decreases r.len(),
{
    if r.len() == 0 || r.last().file_created <= t {
        r.len() as int
    } else {
        insert_pos(r.drop_last(), t)
    }
}

/// `x` put into `r` at `p`.
spec fn inserted(r: Seq<ImageStoreItem>, p: int, x: ImageStoreItem) -> Seq<ImageStoreItem> {
    r.subrange(0, p).push(x) + r.subrange(p, r.len() as int)
}

/// Insertion sort, as a witness that a stable ordering exists.
spec fn insertion_sorted(s: Seq<ImageStoreItem>) -> Seq<ImageStoreItem>
    decreases s.len(),
{
    if s.len() == 0 {
        s
    } else {
        let r = insertion_sorted(s.drop_last());
        inserted(r, insert_pos(r, s.last().file_created), s.last())
    }
}

proof fn lemma_insert_pos(r: Seq<ImageStoreItem>, t: i128)
    requires
        created_sorted(r),
    ensures
        0 <= insert_pos(r, t) <= r.len(),
        forall|i: int| 0 <= i < insert_pos(r, t) ==> r[i].file_created <= t,
        forall|i: int| insert_pos(r, t) <= i < r.len() ==> r[i].file_created > t,
    decreases r.len(),
{
    if r.len() == 0 {
    } else if r.last().file_created <= t {
        assert forall|i: int| 0 <= i < r.len() implies r[i].file_created <= t by {
            assert(r[i].file_created <= r[r.len() - 1].file_created);
        }
    } else {
        let d = r.drop_last();
        assert(created_sorted(d)) by {
            assert forall|i: int, j: int| 0 <= i <= j < d.len() implies d[i].file_created
                <= d[j].file_created by {
                assert(d[i] == r[i] && d[j] == r[j]);
            }
        }
        lemma_insert_pos(d, t);
        assert forall|i: int| insert_pos(r, t) <= i < r.len() implies r[i].file_created > t by {
            if i < r.len() - 1 {
                assert(d[i] == r[i]);
            }
        }
        assert forall|i: int| 0 <= i < insert_pos(r, t) implies r[i].file_created <= t by {
            assert(d[i] == r[i]);
        }
    }
}

proof fn lemma_created_at_single(x: ImageStoreItem, t: i128)
    ensures
        created_at(seq![x], t) == (if x.file_created == t {
            seq![x]
        } else {
            Seq::<ImageStoreItem>::empty()
        }),
{
    reveal_with_fuel(Seq::filter, 2);
    assert(seq![x].drop_last() =~= Seq::<ImageStoreItem>::empty());
}

proof fn lemma_created_at_none(s: Seq<ImageStoreItem>, t: i128)
    requires
        forall|i: int| 0 <= i < s.len() ==> s[i].file_created != t,
    ensures
        created_at(s, t) == Seq::<ImageStoreItem>::empty(),
    decreases s.len(),
{
    reveal(Seq::filter);
    if s.len() > 0 {
        let d = s.drop_last();
        assert forall|i: int| 0 <= i < d.len() implies d[i].file_created != t by {
            assert(d[i] == s[i]);
        }
        lemma_created_at_none(d, t);
    }
    assert(created_at(s, t) =~= Seq::<ImageStoreItem>::empty());
}

proof fn lemma_inserted(r: Seq<ImageStoreItem>, p: int, x: ImageStoreItem)
    requires
        created_sorted(r),
        0 <= p <= r.len(),
        forall|i: int| 0 <= i < p ==> r[i].file_created <= x.file_created,
        forall|i: int| p <= i < r.len() ==> r[i].file_created > x.file_created,
    ensures
        inserted(r, p, x).len() == r.len() + 1,
        created_sorted(inserted(r, p, x)),
        forall|t: i128| #[trigger]
            created_at(inserted(r, p, x), t) == created_at(r, t) + created_at(seq![x], t),
{
    broadcast use Seq::filter_distributes_over_add;

    let a = r.subrange(0, p);
    let b = r.subrange(p, r.len() as int);
    let r2 = inserted(r, p, x);
    assert(r =~= a + b);
    assert(a.push(x) =~= a + seq![x]);
    assert forall|k: int| 0 <= k < r2.len() implies #[trigger] r2[k] == (if k < p {
        r[k]
    } else if k == p {
        x
    } else {
        r[k - 1]
    }) by {}
    assert forall|i: int, j: int| 0 <= i <= j < r2.len() implies r2[i].file_created
        <= r2[j].file_created by {
        assert(r2[i] == (if i < p {
            r[i]
        } else if i == p {
            x
        } else {
            r[i - 1]
        }));
        assert(r2[j] == (if j < p {
            r[j]
        } else if j == p {
            x
        } else {
            r[j - 1]
        }));
    }
    assert forall|t: i128| #[trigger]
        created_at(r2, t) == created_at(r, t) + created_at(seq![x], t) by {
        assert(created_at(r2, t) == created_at(a, t) + created_at(seq![x], t) + created_at(b, t));
        assert(created_at(r, t) == created_at(a, t) + created_at(b, t));
        lemma_created_at_single(x, t);
        if t == x.file_created {
            assert forall|i: int| 0 <= i < b.len() implies b[i].file_created != t by {
                assert(b[i] == r[p + i]);
            }
            lemma_created_at_none(b, t);
            assert(created_at(r2, t) =~= created_at(r, t) + created_at(seq![x], t));
        } else {
            assert(created_at(r2, t) =~= created_at(r, t) + created_at(seq![x], t));
        }
    }
}

proof fn lemma_insertion_sorted(s: Seq<ImageStoreItem>)
    ensures
        is_stable_sort_of(insertion_sorted(s), s),
        insertion_sorted(s).len() == s.len(),
    decreases s.len(),
{
    broadcast use Seq::filter_distributes_over_add;

    if s.len() > 0 {
        let d = s.drop_last();
        let x = s.last();
        let r = insertion_sorted(d);
        lemma_insertion_sorted(d);
        let p = insert_pos(r, x.file_created);
        lemma_insert_pos(r, x.file_created);
        lemma_inserted(r, p, x);
        assert(s =~= d + seq![x]);
        assert forall|t: i128| #[trigger]
            created_at(insertion_sorted(s), t) == created_at(s, t) by {
            assert(created_at(s, t) == created_at(d, t) + created_at(seq![x], t));
            assert(created_at(inserted(r, p, x), t) == created_at(r, t) + created_at(seq![x], t));
        }
    }
}

/// The last item of `s`, if its time is `t`, is the last item of `created_at(s, t)`,
/// and the rest of that class is the class of `s.drop_last()`.
proof fn lemma_created_at_drop_last(s: Seq<ImageStoreItem>, t: i128)
    requires
        s.len() > 0,
    ensures
        s.last().file_created == t ==> created_at(s, t) == created_at(s.drop_last(), t).push(
            s.last(),
        ),
        s.last().file_created != t ==> created_at(s, t) == created_at(s.drop_last(), t),
{
    reveal_with_fuel(Seq::filter, 1);
}

/// Two sorted sequences with the same items at every time are equal.
proof fn lemma_stable_sort_unique(a: Seq<ImageStoreItem>, b: Seq<ImageStoreItem>)
    requires
        created_sorted(a),
        created_sorted(b),
        forall|t: i128| #[trigger] created_at(a, t) == created_at(b, t),
    ensures
        a == b,
    decreases a.len(),
{
    broadcast use vstd::seq_lib::group_filter_ensures, Seq::lemma_filter_contains_rev;

    if a.len() == 0 || b.len() == 0 {
        if b.len() > 0 {
            let t = b[0].file_created;
            assert(created_at(b, t).contains(b[0]));
            assert(created_at(a, t).len() <= a.len());
        }
        if a.len() > 0 {
            let t = a[0].file_created;
            assert(created_at(a, t).contains(a[0]));
            assert(created_at(b, t).len() <= b.len());
        }
        assert(a =~= b);
    } else {
        let ta = a.last().file_created;
        let tb = b.last().file_created;
        assert(created_at(a, ta).contains(a[a.len() - 1]));
        assert(created_at(b, ta).contains(a.last()));
        assert(b.contains(a.last()));
        let kb = choose|k: int| 0 <= k < b.len() && b[k] == a.last();
        assert(b[kb].file_created <= b[b.len() - 1].file_created);
        assert(created_at(b, tb).contains(b[b.len() - 1]));
        assert(created_at(a, tb).contains(b.last()));
        assert(a.contains(b.last()));
        let ka = choose|k: int| 0 <= k < a.len() && a[k] == b.last();
        assert(a[ka].file_created <= a[a.len() - 1].file_created);
        assert(ta == tb);
        lemma_created_at_drop_last(a, ta);
        lemma_created_at_drop_last(b, ta);
        assert(created_at(a, ta).last() == a.last());
        assert(created_at(b, ta).last() == b.last());
        assert(a.last() == b.last());
        let da = a.drop_last();
        let db = b.drop_last();
        assert forall|t: i128| #[trigger] created_at(da, t) == created_at(db, t) by {
            lemma_created_at_drop_last(a, t);
            lemma_created_at_drop_last(b, t);
            if t == ta {
                assert(created_at(da, t) =~= created_at(a, t).drop_last());
                assert(created_at(db, t) =~= created_at(b, t).drop_last());
            }
        }
        assert(created_sorted(da)) by {
            assert forall|i: int, j: int| 0 <= i <= j < da.len() implies da[i].file_created
                <= da[j].file_created by {
                assert(da[i] == a[i] && da[j] == a[j]);
            }
        }
        assert(created_sorted(db)) by {
            assert forall|i: int, j: int| 0 <= i <= j < db.len() implies db[i].file_created
                <= db[j].file_created by {
                assert(db[i] == b[i] && db[j] == b[j]);
            }
        }
        lemma_stable_sort_unique(da, db);
        assert(a =~= da.push(a.last()));
        assert(b =~= db.push(b.last()));
    }
}

/// `sorted_by_created(s)` is a stable ordering of `s` by time, and the only one.
pub proof fn lemma_sorted_by_created(s: Seq<ImageStoreItem>)
    ensures
        is_stable_sort_of(sorted_by_created(s), s),
        sorted_by_created(s).len() == s.len(),
        forall|r: Seq<ImageStoreItem>| is_stable_sort_of(r, s) ==> r == sorted_by_created(s),
{
    lemma_insertion_sorted(s);
    let w = sorted_by_created(s);
    assert(is_stable_sort_of(w, s));
    assert forall|r: Seq<ImageStoreItem>| is_stable_sort_of(r, s) implies r == w by {
        assert forall|t: i128| #[trigger] created_at(r, t) == created_at(w, t) by {
            assert(created_at(r, t) == created_at(s, t));
            assert(created_at(w, t) == created_at(s, t));
        }
        lemma_stable_sort_unique(r, w);
    }
    assert(insertion_sorted(s) == w);
}

/// Ordering by time keeps exactly the items of the sequence: an item occurs in
/// the ordered sequence exactly when it occurs in `s`, and the lengths agree.
pub proof fn lemma_sorted_by_created_contains(s: Seq<ImageStoreItem>, x: ImageStoreItem)
    ensures
        sorted_by_created(s).contains(x) <==> s.contains(x),
        sorted_by_created(s).len() == s.len(),
{
    broadcast use Seq::lemma_filter_contains_rev;
    broadcast use vstd::seq_lib::group_filter_ensures;

    lemma_sorted_by_created(s);
    let r = sorted_by_created(s);
    if s.contains(x) {
        let k = choose|k: int| 0 <= k < s.len() && s[k] == x;
        assert(created_at(s, x.file_created).contains(s[k]));
        assert(created_at(r, x.file_created).contains(x));
    }
    if r.contains(x) {
        let k = choose|k: int| 0 <= k < r.len() && r[k] == x;
        assert(created_at(r, x.file_created).contains(r[k]));
        assert(created_at(s, x.file_created).contains(x));
    }
}

/// Ordering a sequence that is already ordered by time leaves it as it is.
pub proof fn lemma_sorted_by_created_of_sorted(s: Seq<ImageStoreItem>)
    requires
        created_sorted(s),
    ensures
        sorted_by_created(s) == s,
{
    lemma_sorted_by_created(s);
    assert(is_stable_sort_of(s, s));
}

/// Orders `items` by time; items with equal times keep their order.
pub fn sort_by_created(items: Vec<ImageStoreItem>) -> (sorted: Vec<ImageStoreItem>)
    ensures
        sorted@ == sorted_by_created(items@),
        sorted@.len() == items@.len(),
        is_stable_sort_of(sorted@, items@),
{
    broadcast use Seq::filter_distributes_over_add;

    let ghost s = items@;
    let mut rest = items;
    let mut out: Vec<ImageStoreItem> = Vec::new();
    proof {
        assert(s.skip(0) =~= s);
        assert(s.take(0) =~= out@);
    }
    while rest.len() > 0
        invariant
            s.len() == out.len() + rest.len(),
            rest@ == s.skip(out.len() as int),
            is_stable_sort_of(out@, s.take(out.len() as int)),
        decreases rest.len(),
    {
        let ghost k = out.len() as int;
        let ghost old_out = out@;
        assert(rest@[0] == s[k]);
        let x = rest.remove(0);
        let t = x.file_created;
        let mut p = out.len();
        while p > 0 && out[p - 1].file_created > t
            invariant
                p <= out.len(),
                forall|i: int| p <= i < out.len() ==> out@[i].file_created > t,
            decreases p,
        {
            p = p - 1;
        }
        proof {
            assert forall|i: int| 0 <= i < p implies old_out[i].file_created <= t by {
                assert(old_out[i].file_created <= old_out[p - 1].file_created);
            }
            lemma_inserted(old_out, p as int, x);
            assert(s.take(k + 1) =~= s.take(k) + seq![x]);
            assert(rest@ =~= s.skip(k + 1));
        }
        out.insert(p, x);
        proof {
            assert(out@ =~= inserted(old_out, p as int, x));
            assert forall|t2: i128| #[trigger]
                created_at(out@, t2) == created_at(s.take(k + 1), t2) by {
                assert(created_at(s.take(k + 1), t2) == created_at(s.take(k), t2) + created_at(
                    seq![x],
                    t2,
                ));
            }
        }
    }
    proof {
        assert(s.take(s.len() as int) =~= s);
        lemma_sorted_by_created(s);
    }
    out
}

} // verus!
