//! The order of the history and its retention rule, as mathematical
//! functions over item values, with the facts the history operations rely on.
//!
//! Items are ordered pinned first, then by last-used sequence descending, then
//! by identifier descending.
use vstd::prelude::*;

use super::model::{holds_text, ItemView, PayloadView};

verus! {

broadcast use {vstd::seq_lib::group_to_multiset_ensures, vstd::multiset::group_multiset_axioms};

/// `a` sorts strictly before `b`.
pub open spec fn precedes(a: ItemView, b: ItemView) -> bool {
    ||| a.pinned && !b.pinned
    ||| a.pinned == b.pinned && a.last_used_sequence > b.last_used_sequence
    ||| a.pinned == b.pinned && a.last_used_sequence == b.last_used_sequence && a.id > b.id
}

/// The sequence is in history order: no item sorts strictly before an earlier one.
pub open spec fn history_order(s: Seq<ItemView>) -> bool {
    forall|i: int, j: int| 0 <= i < j < s.len() ==> !precedes(#[trigger] s[j], #[trigger] s[i])
}

/// Where `x` goes in an ordered sequence: after every item it does not
/// sort strictly before.
pub open spec fn placement(s: Seq<ItemView>, x: ItemView) -> int
    decreases s.len(),
{
    if s.len() == 0 {
        0
    } else if precedes(x, s[0]) {
        0
    } else {
        1 + placement(s.drop_first(), x)
    }
}

/// `s` with `x` inserted at its place in the order.
pub open spec fn place(s: Seq<ItemView>, x: ItemView) -> Seq<ItemView> {
    s.insert(placement(s, x), x)
}

/// Where `x` goes when it must come before every item that does not sort
/// strictly before it.
pub open spec fn front_placement(s: Seq<ItemView>, x: ItemView) -> int
    decreases s.len(),
{
    if s.len() == 0 {
        0
    } else if !precedes(s[0], x) {
        0
    } else {
        1 + front_placement(s.drop_first(), x)
    }
}

/// The stable sort of `s` into history order: items that compare equal keep
/// their relative order.
pub open spec fn sort_history(s: Seq<ItemView>) -> Seq<ItemView>
    decreases s.len(),
{
    if s.len() == 0 {
        s
    } else {
        let t = sort_history(s.drop_first());
        t.insert(front_placement(t, s[0]), s[0])
    }
}

/// Number of unpinned items.
pub open spec fn unpinned_count(s: Seq<ItemView>) -> nat
    decreases s.len(),
{
    if s.len() == 0 {
        0
    } else {
        unpinned_count(s.drop_last()) + if s.last().pinned {
            0nat
        } else {
            1nat
        }
    }
}

/// The items kept by retention: every pinned item, and the first `limit`
/// unpinned ones.
pub open spec fn retained(s: Seq<ItemView>, limit: nat) -> Seq<ItemView>
    decreases s.len(),
{
    if s.len() == 0 {
        s
    } else {
        let p = s.drop_last();
        if s.last().pinned || unpinned_count(p) < limit {
            retained(p, limit).push(s.last())
        } else {
            retained(p, limit)
        }
    }
}

/// The items retention removes, in order.
pub open spec fn evicted(s: Seq<ItemView>, limit: nat) -> Seq<ItemView>
    decreases s.len(),
{
    if s.len() == 0 {
        s
    } else {
        let p = s.drop_last();
        if s.last().pinned || unpinned_count(p) < limit {
            evicted(p, limit)
        } else {
            evicted(p, limit).push(s.last())
        }
    }
}

/// The pinned items, in order.
pub open spec fn pinned_items(s: Seq<ItemView>) -> Seq<ItemView>
    decreases s.len(),
{
    if s.len() == 0 {
        s
    } else if s.last().pinned {
        pinned_items(s.drop_last()).push(s.last())
    } else {
        pinned_items(s.drop_last())
    }
}

/// The identifiers of `s`, in order.
pub open spec fn ids_of(s: Seq<ItemView>) -> Seq<i64> {
    s.map_values(|x: ItemView| x.id)
}

/// Identifiers of the evicted items, last one first.
pub open spec fn evicted_ids(s: Seq<ItemView>, limit: nat) -> Seq<i64> {
    ids_of(evicted(s, limit)).reverse()
}

/// Index of the first item satisfying `pred`, or -1.
pub open spec fn first_index(s: Seq<ItemView>, pred: spec_fn(ItemView) -> bool) -> int
    decreases s.len(),
{
    if s.len() == 0 {
        -1
    } else if pred(s[0]) {
        0
    } else {
        let r = first_index(s.drop_first(), pred);
        if r < 0 {
            -1
        } else {
            r + 1
        }
    }
}

pub open spec fn id_is(id: i64) -> spec_fn(ItemView) -> bool {
    |x: ItemView| x.id == id
}

/// Matches a text entry holding exactly `text`; image entries never match.
pub open spec fn text_is(text: Seq<char>) -> spec_fn(ItemView) -> bool {
    |x: ItemView| holds_text(x, text)
}

/// Matches an image item with this content hash.
pub open spec fn image_hash_is(hash: Seq<char>) -> spec_fn(ItemView) -> bool {
    |x: ItemView|
        match x.payload {
            PayloadView::Image(image) => image.content_hash == hash,
            PayloadView::Text(_) => false,
        }
}

/// Largest last-used sequence, or `i64::MIN` for no items.
pub open spec fn newest(s: Seq<ItemView>) -> int
    decreases s.len(),
{
    if s.len() == 0 {
        i64::MIN as int
    } else {
        let m = newest(s.drop_last());
        if s.last().last_used_sequence > m {
            s.last().last_used_sequence as int
        } else {
            m
        }
    }
}

/// Largest identifier, or `i64::MIN` for no items.
pub open spec fn max_id(s: Seq<ItemView>) -> int
    decreases s.len(),
{
    if s.len() == 0 {
        i64::MIN as int
    } else {
        let m = max_id(s.drop_last());
        if s.last().id > m {
            s.last().id as int
        } else {
            m
        }
    }
}

/// The counter value after handing out `next`.
pub open spec fn advance(next: Option<i64>) -> Option<i64> {
    match next {
        Some(value) => if value < i64::MAX {
            Some((value + 1) as i64)
        } else {
            None
        },
        None => None,
    }
}

/// The next free value above `max` in a collection of `len` values.
pub open spec fn next_after(len: nat, max: int) -> Option<i64> {
    if len == 0 {
        Some(0)
    } else if max < i64::MAX {
        Some((max + 1) as i64)
    } else {
        None
    }
}

// ---------------------------------------------------------------------------
// Facts about the definitions above.
pub proof fn lemma_first_index(s: Seq<ItemView>, pred: spec_fn(ItemView) -> bool, i: int)
    requires
        0 <= i <= s.len(),
        forall|k: int| 0 <= k < i ==> !pred(#[trigger] s[k]),
        i == s.len() || pred(s[i]),
    ensures
        first_index(s, pred) == (if i == s.len() {
            -1
        } else {
            i
        }),
    decreases s.len(),
{
    if s.len() > 0 && i > 0 {
        let t = s.drop_first();
        assert(!pred(s[0]));
        assert forall|k: int| 0 <= k < i - 1 implies !pred(#[trigger] t[k]) by {
            assert(t[k] == s[k + 1]);
        }
        if i < s.len() {
            assert(t[i - 1] == s[i]);
        }
        lemma_first_index(t, pred, i - 1);
    }
}

pub proof fn lemma_first_index_bounds(s: Seq<ItemView>, pred: spec_fn(ItemView) -> bool)
    ensures
        -1 <= first_index(s, pred) < s.len(),
        first_index(s, pred) >= 0 ==> pred(s[first_index(s, pred)]),
        forall|k: int|
            0 <= k < s.len() && (first_index(s, pred) < 0 || k < first_index(s, pred)) ==> !pred(
                #[trigger] s[k],
            ),
    decreases s.len(),
{
    if s.len() > 0 {
        let t = s.drop_first();
        lemma_first_index_bounds(t, pred);
        assert forall|k: int|
            0 <= k < s.len() && (first_index(s, pred) < 0 || k < first_index(s, pred)) implies !pred(
            #[trigger] s[k],
        ) by {
            if k > 0 {
                assert(s[k] == t[k - 1]);
            }
        }
    }
}

pub proof fn lemma_placement(s: Seq<ItemView>, x: ItemView, i: int)
    requires
        0 <= i <= s.len(),
        forall|k: int| 0 <= k < i ==> !precedes(x, #[trigger] s[k]),
        i == s.len() || precedes(x, s[i]),
    ensures
        placement(s, x) == i,
    decreases s.len(),
{
    if s.len() > 0 && i > 0 {
        let t = s.drop_first();
        assert(!precedes(x, s[0]));
        assert forall|k: int| 0 <= k < i - 1 implies !precedes(x, #[trigger] t[k]) by {
            assert(t[k] == s[k + 1]);
        }
        if i < s.len() {
            assert(t[i - 1] == s[i]);
        }
        lemma_placement(t, x, i - 1);
    }
}

pub proof fn lemma_placement_bounds(s: Seq<ItemView>, x: ItemView)
    ensures
        0 <= placement(s, x) <= s.len(),
        forall|k: int| 0 <= k < placement(s, x) ==> !precedes(x, #[trigger] s[k]),
        placement(s, x) < s.len() ==> precedes(x, s[placement(s, x)]),
    decreases s.len(),
{
    if s.len() > 0 {
        let t = s.drop_first();
        lemma_placement_bounds(t, x);
        assert forall|k: int| 0 <= k < placement(s, x) implies !precedes(x, #[trigger] s[k]) by {
            if k > 0 {
                assert(s[k] == t[k - 1]);
            }
        }
    }
}

pub proof fn lemma_front_placement(s: Seq<ItemView>, x: ItemView, i: int)
    requires
        0 <= i <= s.len(),
        forall|k: int| 0 <= k < i ==> precedes(#[trigger] s[k], x),
        i == s.len() || !precedes(s[i], x),
    ensures
        front_placement(s, x) == i,
    decreases s.len(),
{
    if s.len() > 0 && i > 0 {
        let t = s.drop_first();
        assert(precedes(s[0], x));
        assert forall|k: int| 0 <= k < i - 1 implies precedes(#[trigger] t[k], x) by {
            assert(t[k] == s[k + 1]);
        }
        if i < s.len() {
            assert(t[i - 1] == s[i]);
        }
        lemma_front_placement(t, x, i - 1);
    }
}

pub proof fn lemma_front_placement_bounds(s: Seq<ItemView>, x: ItemView)
    ensures
        0 <= front_placement(s, x) <= s.len(),
        forall|k: int| 0 <= k < front_placement(s, x) ==> precedes(#[trigger] s[k], x),
        front_placement(s, x) < s.len() ==> !precedes(s[front_placement(s, x)], x),
    decreases s.len(),
{
    if s.len() > 0 {
        let t = s.drop_first();
        lemma_front_placement_bounds(t, x);
        assert forall|k: int| 0 <= k < front_placement(s, x) implies precedes(
            #[trigger] s[k],
            x,
        ) by {
            if k > 0 {
                assert(s[k] == t[k - 1]);
            }
        }
    }
}

/// Inserting at `placement` keeps the order.
pub proof fn lemma_place_ordered(s: Seq<ItemView>, x: ItemView)
    requires
        history_order(s),
    ensures
        history_order(place(s, x)),
        place(s, x).to_multiset() == s.to_multiset().insert(x),
        place(s, x).len() == s.len() + 1,
{
    lemma_placement_bounds(s, x);
    let p = placement(s, x);
    let r = place(s, x);
    s.insert_ensures(p, x);
    assert forall|i: int, j: int| 0 <= i < j < r.len() implies !precedes(
        #[trigger] r[j],
        #[trigger] r[i],
    ) by {
        if j < p {
            assert(r[i] == s[i] && r[j] == s[j]);
        } else if j == p {
            assert(r[i] == s[i]);
        } else if i == p {
            assert(r[j] == s[j - 1]);
            assert(precedes(x, s[p]));
            if j - 1 > p {
                assert(!precedes(s[j - 1], s[p]));
            }
        } else if i < p {
            assert(r[i] == s[i] && r[j] == s[j - 1]);
        } else {
            assert(r[i] == s[i - 1] && r[j] == s[j - 1]);
        }
    }
}

/// Inserting at `front_placement` keeps the order.
pub proof fn lemma_front_place_ordered(s: Seq<ItemView>, x: ItemView)
    requires
        history_order(s),
    ensures
        history_order(s.insert(front_placement(s, x), x)),
{
    lemma_front_placement_bounds(s, x);
    let p = front_placement(s, x);
    let r = s.insert(p, x);
    s.insert_ensures(p, x);
    assert forall|i: int, j: int| 0 <= i < j < r.len() implies !precedes(
        #[trigger] r[j],
        #[trigger] r[i],
    ) by {
        if j < p {
            assert(r[i] == s[i] && r[j] == s[j]);
        } else if j == p {
            assert(r[i] == s[i]);
            assert(precedes(s[i], x));
        } else if i == p {
            assert(r[j] == s[j - 1]);
            assert(!precedes(s[p], x));
            if j - 1 > p {
                assert(!precedes(s[j - 1], s[p]));
            }
        } else if i < p {
            assert(r[i] == s[i] && r[j] == s[j - 1]);
        } else {
            assert(r[i] == s[i - 1] && r[j] == s[j - 1]);
        }
    }
}

/// The sort orders its input and keeps exactly its items.
pub proof fn lemma_sort_history(s: Seq<ItemView>)
    ensures
        history_order(sort_history(s)),
        sort_history(s).to_multiset() == s.to_multiset(),
        sort_history(s).len() == s.len(),
    decreases s.len(),
{
    if s.len() > 0 {
        let t = sort_history(s.drop_first());
        lemma_sort_history(s.drop_first());
        lemma_front_place_ordered(t, s[0]);
        lemma_front_placement_bounds(t, s[0]);
        assert(s.drop_first() =~= s.remove(0));
        assert(s.to_multiset().remove(s[0]).insert(s[0]) =~= s.to_multiset()) by {
            assert(s.to_multiset().count(s[0]) > 0) by {
                assert(s.contains(s[0]));
            }
        }
    }
}

/// The sort leaves an already ordered sequence as it is.
pub proof fn lemma_sort_of_ordered(s: Seq<ItemView>)
    requires
        history_order(s),
    ensures
        sort_history(s) == s,
    decreases s.len(),
{
    if s.len() > 0 {
        let t = s.drop_first();
        assert(history_order(t)) by {
            assert forall|i: int, j: int| 0 <= i < j < t.len() implies !precedes(
                #[trigger] t[j],
                #[trigger] t[i],
            ) by {
                assert(t[i] == s[i + 1] && t[j] == s[j + 1]);
            }
        }
        lemma_sort_of_ordered(t);
        if t.len() > 0 {
            assert(!precedes(t[0], s[0])) by {
                assert(t[0] == s[1]);
            }
        }
        lemma_front_placement(t, s[0], 0);
        assert(t.insert(0, s[0]) =~= s);
    }
}

pub proof fn lemma_unpinned_count_add(a: Seq<ItemView>, b: Seq<ItemView>)
    ensures
        unpinned_count(a + b) == unpinned_count(a) + unpinned_count(b),
    decreases b.len(),
{
    if b.len() == 0 {
        assert(a + b =~= a);
    } else {
        assert((a + b).drop_last() =~= a + b.drop_last());
        assert((a + b).last() == b.last());
        lemma_unpinned_count_add(a, b.drop_last());
    }
}

pub proof fn lemma_unpinned_count_single(x: ItemView)
    ensures
        unpinned_count(seq![x]) == if x.pinned {
            0nat
        } else {
            1nat
        },
{
    reveal_with_fuel(unpinned_count, 2);
    assert(seq![x].drop_last() =~= Seq::<ItemView>::empty());
    assert(seq![x].last() == x);
}

pub proof fn lemma_unpinned_count_insert(s: Seq<ItemView>, i: int, x: ItemView)
    requires
        0 <= i <= s.len(),
    ensures
        unpinned_count(s.insert(i, x)) == unpinned_count(s) + if x.pinned {
            0nat
        } else {
            1nat
        },
{
    let a = s.subrange(0, i);
    let b = s.subrange(i, s.len() as int);
    assert(s.insert(i, x) =~= a + (seq![x] + b));
    assert(s =~= a + b);
    lemma_unpinned_count_add(a, seq![x] + b);
    lemma_unpinned_count_add(seq![x], b);
    lemma_unpinned_count_add(a, b);
    lemma_unpinned_count_single(x);
}

pub proof fn lemma_unpinned_count_remove(s: Seq<ItemView>, i: int)
    requires
        0 <= i < s.len(),
    ensures
        unpinned_count(s.remove(i)) + (if s[i].pinned {
            0nat
        } else {
            1nat
        }) == unpinned_count(s),
{
    let r = s.remove(i);
    assert(r.insert(i, s[i]) =~= s);
    lemma_unpinned_count_insert(r, i, s[i]);
}

/// Retention keeps every pinned item and at most `limit` unpinned ones, in
/// order, and the evicted items are the rest.
pub proof fn lemma_retained(s: Seq<ItemView>, limit: nat)
    ensures
        unpinned_count(retained(s, limit)) == if unpinned_count(s) < limit {
            unpinned_count(s)
        } else {
            limit
        },
        forall|y: ItemView| retained(s, limit).contains(y) ==> s.contains(y),
        history_order(s) ==> history_order(retained(s, limit)),
        retained(s, limit).len() + evicted(s, limit).len() == s.len(),
        unpinned_count(s) <= limit ==> retained(s, limit) == s,
    decreases s.len(),
{
    if s.len() > 0 {
        let p = s.drop_last();
        let y = s.last();
        lemma_retained(p, limit);
        let r = retained(p, limit);
        assert(r.push(y).drop_last() =~= r);
        assert(r.push(y).last() == y);
        assert forall|z: ItemView| retained(s, limit).contains(z) implies s.contains(z) by {
            if r.contains(z) {
                assert(p.contains(z));
                let k2 = choose|k2: int| 0 <= k2 < p.len() && p[k2] == z;
                assert(s[k2] == z);
            } else {
                assert(z == y);
                assert(s[s.len() - 1] == z);
            }
        }
        if history_order(s) {
            assert(history_order(p)) by {
                assert forall|i: int, j: int| 0 <= i < j < p.len() implies !precedes(
                    #[trigger] p[j],
                    #[trigger] p[i],
                ) by {
                    assert(p[i] == s[i] && p[j] == s[j]);
                }
            }
            if y.pinned || unpinned_count(p) < limit {
                let r2 = r.push(y);
                assert forall|i: int, j: int| 0 <= i < j < r2.len() implies !precedes(
                    #[trigger] r2[j],
                    #[trigger] r2[i],
                ) by {
                    if j == r.len() {
                        assert(r.contains(r[i]));
                        assert(p.contains(r[i]));
                        let k = choose|k: int| 0 <= k < p.len() && p[k] == r[i];
                        assert(s[k] == r[i]);
                        assert(s[s.len() - 1] == y);
                        assert(r2[j] == y);
                    } else {
                        assert(r2[i] == r[i] && r2[j] == r[j]);
                    }
                }
            }
        }
        if unpinned_count(s) <= limit {
            assert(unpinned_count(p) <= limit);
            assert(s =~= p.push(y));
        }
    }
}

/// Removing one item keeps the order.
pub proof fn lemma_remove_ordered(s: Seq<ItemView>, i: int)
    requires
        history_order(s),
        0 <= i < s.len(),
    ensures
        history_order(s.remove(i)),
        forall|y: ItemView| s.remove(i).contains(y) ==> s.contains(y),
{
    let r = s.remove(i);
    s.remove_ensures(i);
    assert forall|a: int, b: int| 0 <= a < b < r.len() implies !precedes(
        #[trigger] r[b],
        #[trigger] r[a],
    ) by {
        let a2 = if a < i {
            a
        } else {
            a + 1
        };
        let b2 = if b < i {
            b
        } else {
            b + 1
        };
        assert(r[a] == s[a2] && r[b] == s[b2]);
    }
    assert forall|y: ItemView| r.contains(y) implies s.contains(y) by {
        let k = choose|k: int| 0 <= k < r.len() && r[k] == y;
        if k < i {
            assert(s[k] == y);
        } else {
            assert(s[k + 1] == y);
        }
    }
}

/// Keeping the pinned items alone keeps the order and leaves no unpinned item.
pub proof fn lemma_pinned_items(s: Seq<ItemView>)
    ensures
        history_order(s) ==> history_order(pinned_items(s)),
        unpinned_count(pinned_items(s)) == 0,
        forall|y: ItemView| pinned_items(s).contains(y) ==> s.contains(y),
    decreases s.len(),
{
    if s.len() > 0 {
        let p = s.drop_last();
        let y = s.last();
        lemma_pinned_items(p);
        let r = pinned_items(p);
        assert(r.push(y).drop_last() =~= r);
        assert(r.push(y).last() == y);
        assert forall|z: ItemView| pinned_items(s).contains(z) implies s.contains(z) by {
            if r.contains(z) {
                assert(p.contains(z));
                let k = choose|k: int| 0 <= k < p.len() && p[k] == z;
                assert(s[k] == z);
            } else {
                assert(s[s.len() - 1] == z);
            }
        }
        if history_order(s) {
            assert(history_order(p)) by {
                assert forall|i: int, j: int| 0 <= i < j < p.len() implies !precedes(
                    #[trigger] p[j],
                    #[trigger] p[i],
                ) by {
                    assert(p[i] == s[i] && p[j] == s[j]);
                }
            }
            if y.pinned {
                let r2 = r.push(y);
                assert forall|i: int, j: int| 0 <= i < j < r2.len() implies !precedes(
                    #[trigger] r2[j],
                    #[trigger] r2[i],
                ) by {
                    if j == r.len() {
                        assert(r.contains(r[i]));
                        assert(p.contains(r[i]));
                        let k = choose|k: int| 0 <= k < p.len() && p[k] == r[i];
                        assert(s[k] == r[i]);
                        assert(s[s.len() - 1] == y);
                        assert(r2[j] == y);
                    } else {
                        assert(r2[i] == r[i] && r2[j] == r[j]);
                    }
                }
            }
        }
    }
}

pub proof fn lemma_newest(s: Seq<ItemView>)
    ensures
        forall|i: int| 0 <= i < s.len() ==> #[trigger] s[i].last_used_sequence <= newest(s),
        s.len() > 0 ==> exists|i: int| 0 <= i < s.len() && #[trigger] s[i].last_used_sequence == newest(s),
        i64::MIN <= newest(s) <= i64::MAX,
    decreases s.len(),
{
    if s.len() > 0 {
        let p = s.drop_last();
        lemma_newest(p);
        assert forall|i: int| 0 <= i < s.len() implies #[trigger] s[i].last_used_sequence <= newest(s) by {
            if i < p.len() {
                assert(s[i] == p[i]);
            }
        }
        if s.last().last_used_sequence > newest(p) || p.len() == 0 {
            if p.len() == 0 {
                assert(s[0].last_used_sequence >= i64::MIN);
            }
            assert(s[s.len() - 1].last_used_sequence == newest(s));
        } else {
            let k = choose|k: int| 0 <= k < p.len() && #[trigger] p[k].last_used_sequence == newest(p);
            assert(s[k] == p[k]);
        }
    }
}

pub proof fn lemma_max_id(s: Seq<ItemView>)
    ensures
        forall|i: int| 0 <= i < s.len() ==> #[trigger] s[i].id <= max_id(s),
        i64::MIN <= max_id(s) <= i64::MAX,
    decreases s.len(),
{
    if s.len() > 0 {
        let p = s.drop_last();
        lemma_max_id(p);
        assert forall|i: int| 0 <= i < s.len() implies #[trigger] s[i].id <= max_id(s) by {
            if i < p.len() {
                assert(s[i] == p[i]);
            }
        }
    }
}

/// Retention never removes a pinned item.
pub proof fn lemma_retained_keeps_pinned(s: Seq<ItemView>, limit: nat)
    ensures
        forall|y: ItemView| s.contains(y) && y.pinned ==> retained(s, limit).contains(y),
    decreases s.len(),
{
    if s.len() > 0 {
        let p = s.drop_last();
        lemma_retained_keeps_pinned(p, limit);
        let r = retained(p, limit);
        assert forall|y: ItemView| s.contains(y) && y.pinned implies retained(s, limit).contains(y) by {
            let k = choose|k: int| 0 <= k < s.len() && s[k] == y;
            if k < p.len() {
                assert(p[k] == y);
                assert(p.contains(y));
                assert(r.contains(y));
                let t = choose|t: int| 0 <= t < r.len() && r[t] == y;
                if s.last().pinned || unpinned_count(p) < limit {
                    assert(r.push(s.last())[t] == y);
                }
            } else {
                assert(r.push(s.last())[r.len() as int] == y);
            }
        }
    }
}

/// Keeping the pinned items keeps every one of them.
pub proof fn lemma_pinned_items_complete(s: Seq<ItemView>)
    ensures
        forall|y: ItemView| s.contains(y) && y.pinned ==> pinned_items(s).contains(y),
    decreases s.len(),
{
    if s.len() > 0 {
        let p = s.drop_last();
        lemma_pinned_items_complete(p);
        let r = pinned_items(p);
        assert forall|y: ItemView| s.contains(y) && y.pinned implies pinned_items(s).contains(y) by {
            let k = choose|k: int| 0 <= k < s.len() && s[k] == y;
            if k < p.len() {
                assert(p[k] == y);
                assert(p.contains(y));
                assert(r.contains(y));
                let t = choose|t: int| 0 <= t < r.len() && r[t] == y;
                if s.last().pinned {
                    assert(r.push(s.last())[t] == y);
                }
            } else {
                assert(r.push(s.last())[r.len() as int] == y);
            }
        }
    }
}

/// What retention keeps of a prefix is a prefix of what it keeps of the whole.
pub proof fn lemma_retained_prefix(s: Seq<ItemView>, j: int, limit: nat)
    requires
        0 <= j <= s.len(),
    ensures
        retained(s.take(j), limit).len() <= retained(s, limit).len(),
        retained(s, limit).take(retained(s.take(j), limit).len() as int) == retained(s.take(j), limit),
    decreases s.len(),
{
    if j == s.len() {
        assert(s.take(j) =~= s);
        assert(retained(s, limit).take(retained(s, limit).len() as int) =~= retained(s, limit));
    } else {
        let p = s.drop_last();
        assert(p.take(j) =~= s.take(j));
        lemma_retained_prefix(p, j, limit);
        let a = retained(s.take(j), limit);
        let r = retained(p, limit);
        if s.last().pinned || unpinned_count(p) < limit {
            assert(r.push(s.last()).take(a.len() as int) =~= r.take(a.len() as int));
        }
    }
}

/// No unpinned item is the same as every item being pinned.
pub proof fn lemma_unpinned_count_zero(s: Seq<ItemView>)
    ensures
        unpinned_count(s) == 0 <==> forall|j: int| 0 <= j < s.len() ==> #[trigger] s[j].pinned,
    decreases s.len(),
{
    if s.len() > 0 {
        let p = s.drop_last();
        lemma_unpinned_count_zero(p);
        if unpinned_count(s) == 0 {
            assert forall|j: int| 0 <= j < s.len() implies #[trigger] s[j].pinned by {
                if j < p.len() {
                    assert(p[j] == s[j]);
                }
            }
        }
        if forall|j: int| 0 <= j < s.len() ==> #[trigger] s[j].pinned {
            assert forall|j: int| 0 <= j < p.len() implies #[trigger] p[j].pinned by {
                assert(p[j] == s[j]);
            }
            assert(s[s.len() - 1].pinned);
        }
    }
}

/// Placing an item keeps every item already there.
pub proof fn lemma_contains_after_place(s: Seq<ItemView>, x: ItemView, y: ItemView)
    requires
        s.contains(y),
    ensures
        place(s, x).contains(y),
{
    lemma_placement_bounds(s, x);
    let p = placement(s, x);
    let k = choose|k: int| 0 <= k < s.len() && s[k] == y;
    if k < p {
        assert(place(s, x)[k] == y);
    } else {
        assert(place(s, x)[k + 1] == y);
    }
}

} // verus!
