//! Properties of the history that span its operations, stated over the
//! outcome functions the operations' contracts use.
use vstd::prelude::*;

use super::model::{holds_text, ItemView, PayloadView};
use super::order::{
    first_index, ids_of, history_order, id_is, image_hash_is, lemma_contains_after_place,
    lemma_first_index, lemma_first_index_bounds, lemma_pinned_items, lemma_pinned_items_complete,
    lemma_placement, lemma_unpinned_count_insert, lemma_unpinned_count_remove,
    lemma_placement_bounds, lemma_retained, lemma_retained_keeps_pinned, lemma_retained_prefix,
    lemma_newest, lemma_unpinned_count_zero, newest, pinned_items, place, placement, precedes,
    retained,
    text_is, unpinned_count,
};
use super::service::{
    lemma_capture_wf, lemma_set_pinned_wf,
    capture_outcome, clear_all_outcome, clear_unpinned_outcome, delete_outcome,
    history_wf,
    record_image_outcome, record_outcome, set_limit_outcome, set_pinned_outcome, HistoryChange,
    HistoryView,
};

verus! {

broadcast use {vstd::seq_lib::group_to_multiset_ensures, vstd::multiset::group_multiset_axioms};

/// Entry `i` is first in its group and holds the newest sequence: every
/// entry before it is pinned while it is not, and no entry was used later.
pub open spec fn leads_its_group(s: Seq<ItemView>, i: int) -> bool {
    &&& 0 <= i < s.len()
    &&& forall|j: int| 0 <= j < i ==> #[trigger] s[j].pinned && !s[i].pinned
    &&& forall|j: int| 0 <= j < s.len() ==> #[trigger] s[j].last_used_sequence <= s[i].last_used_sequence
}

/// No two entries share an identifier.
pub open spec fn unique_ids(s: Seq<ItemView>) -> bool {
    forall|i: int, j: int| 0 <= i < j < s.len() ==> #[trigger] s[i].id != #[trigger] s[j].id
}

/// An item with a sequence above every other sorts into a place where
/// only pinned items precede it, and only when it is unpinned.
proof fn lemma_fresh_leads(s: Seq<ItemView>, x: ItemView)
    requires
        forall|j: int| 0 <= j < s.len() ==> #[trigger] s[j].last_used_sequence < x.last_used_sequence,
    ensures
        leads_its_group(place(s, x), placement(s, x)),
        place(s, x)[placement(s, x)] == x,
{
    lemma_placement_bounds(s, x);
    let i = placement(s, x);
    let t = place(s, x);
    assert forall|j: int| 0 <= j < i implies #[trigger] t[j].pinned && !t[i].pinned by {
        assert(t[j] == s[j]);
        assert(!precedes(x, s[j]));
    }
    assert forall|j: int| 0 <= j < t.len() implies #[trigger] t[j].last_used_sequence
        <= t[i].last_used_sequence by {
        if j < i {
            assert(t[j] == s[j]);
        } else if j > i {
            assert(t[j] == s[j - 1]);
        }
    }
}

/// What capturing a payload guarantees of the entry it touched.
proof fn lemma_capture_leads(v: HistoryView, matches: spec_fn(ItemView) -> bool, payload: PayloadView)
    requires
        history_wf(v),
        v.unpinned_limit > 0,
    ensures
        ({
            let (w, u) = capture_outcome(v, matches, payload);
            let m = first_index(v.items, matches);
            !(u is Unchanged) ==> exists|i: int|
                #![trigger w.items[i]]
                leads_its_group(w.items, i) && (if m >= 0 {
                    w.items[i] == (ItemView {
                        last_used_sequence: v.next_sequence->0,
                        ..v.items[m]
                    })
                } else {
                    w.items[i] == (ItemView {
                        id: v.next_id->0,
                        payload,
                        created_sequence: v.next_sequence->0,
                        last_used_sequence: v.next_sequence->0,
                        pinned: false,
                    })
                })
        }),
{
    let s = v.items;
    let (w, u) = capture_outcome(v, matches, payload);
    let m = first_index(v.items, matches);
    lemma_first_index_bounds(s, matches);
    if !(u is Unchanged) {
        if m >= 0 {
            let q = v.next_sequence->0;
            let moved = ItemView { last_used_sequence: q, ..s[m] };
            let rest = s.remove(m);
            assert forall|j: int| 0 <= j < rest.len() implies #[trigger] rest[j].last_used_sequence
                < moved.last_used_sequence by {
                if j < m {
                    assert(rest[j] == s[j]);
                } else {
                    assert(rest[j] == s[j + 1]);
                }
            }
            lemma_fresh_leads(rest, moved);
            let i = placement(rest, moved);
            assert(w.items[i] == moved);
        } else {
            let id = v.next_id->0;
            let q = v.next_sequence->0;
            let item = ItemView {
                id,
                payload,
                created_sequence: q,
                last_used_sequence: q,
                pinned: false,
            };
            lemma_fresh_leads(s, item);
            let placed = place(s, item);
            let i = placement(s, item);
            lemma_placement_bounds(s, item);
            let head = placed.take(i + 1);
            assert(head.take(i) =~= placed.take(i));
            assert forall|j: int| 0 <= j < head.drop_last().len() implies #[trigger] head.drop_last()[j].pinned by {
                assert(head.drop_last()[j] == placed[j]);
            }
            lemma_unpinned_count_zero(head.drop_last());
            assert(head.last() == item);
            assert(unpinned_count(head) == 1);
            lemma_retained(head, v.unpinned_limit);
            lemma_retained_prefix(placed, i + 1, v.unpinned_limit);
            let r = retained(placed, v.unpinned_limit);
            assert(r.take(i + 1) == head);
            assert(r[i] == item) by {
                assert(r.take(i + 1)[i] == head[i]);
            }
            lemma_retained(placed, v.unpinned_limit);
            assert forall|j: int| 0 <= j < r.len() implies #[trigger] r[j].last_used_sequence
                <= r[i].last_used_sequence by {
                assert(r.contains(r[j]));
                assert(placed.contains(r[j]));
                let k = choose|k: int| 0 <= k < placed.len() && placed[k] == r[j];
                assert(placed[k].last_used_sequence <= placed[i].last_used_sequence);
            }
            assert forall|j: int| 0 <= j < i implies #[trigger] r[j].pinned && !r[i].pinned by {
                assert(r.take(i + 1)[j] == head[j]);
                assert(head[j] == placed[j]);
            }
            assert(leads_its_group(w.items, i));
        }
    }
}

/// Recording copied text that is new, or not already the newest entry,
/// leaves an entry with that text first in its group and holding the newest
/// sequence: every entry before it is pinned while it is not. (With an
/// unpinned limit of zero a new entry is dropped at once, so that limit is
/// left out.)
pub proof fn law_record_leads_its_group(v: HistoryView, text: Seq<char>)
    requires
        history_wf(v),
        v.unpinned_limit > 0,
    ensures
        ({
            let (w, u) = record_outcome(v, text);
            !(u is Unchanged) ==> exists|i: int|
                #![trigger w.items[i]]
                leads_its_group(w.items, i) && holds_text(w.items[i], text)
        }),
{
    let (w, u) = record_outcome(v, text);
    lemma_capture_leads(v, text_is(text), PayloadView::Text(text));
    lemma_first_index_bounds(v.items, text_is(text));
    if !(u is Unchanged) {
        let m = first_index(v.items, text_is(text));
        let i = choose|i: int|
            #![trigger w.items[i]]
            leads_its_group(w.items, i) && (if m >= 0 {
                w.items[i].payload == v.items[m].payload
            } else {
                w.items[i].payload == PayloadView::Text(text)
            });
        assert(holds_text(w.items[i], text));
    }
}

/// Recording a copied image that is new, or not already the newest entry,
/// leaves an entry with that image's content hash first in its group and
/// holding the newest sequence. (An unpinned limit of zero is left out.)
pub proof fn law_record_image_leads_its_group(v: HistoryView, image: super::model::ImageView)
    requires
        history_wf(v),
        v.unpinned_limit > 0,
    ensures
        ({
            let (w, u) = record_image_outcome(v, image);
            !(u is Unchanged) ==> exists|i: int|
                #![trigger w.items[i]]
                leads_its_group(w.items, i) && (image_hash_is(image.content_hash))(w.items[i])
        }),
{
    let (w, u) = record_image_outcome(v, image);
    lemma_capture_leads(v, image_hash_is(image.content_hash), PayloadView::Image(image));
    lemma_first_index_bounds(v.items, image_hash_is(image.content_hash));
    if !(u is Unchanged) {
        let m = first_index(v.items, image_hash_is(image.content_hash));
        let i = choose|i: int|
            #![trigger w.items[i]]
            leads_its_group(w.items, i) && (if m >= 0 {
                w.items[i].payload == v.items[m].payload
            } else {
                w.items[i].payload == PayloadView::Image(image)
            });
        assert((image_hash_is(image.content_hash))(w.items[i]));
    }
}

/// Capturing keeps every pinned entry that the payload does not match.
proof fn lemma_capture_keeps_pinned(
    v: HistoryView,
    matches: spec_fn(ItemView) -> bool,
    payload: PayloadView,
)
    requires
        history_wf(v),
    ensures
        forall|y: ItemView|
            v.items.contains(y) && y.pinned && !matches(y) ==> capture_outcome(
                v,
                matches,
                payload,
            ).0.items.contains(y),
{
    let s = v.items;
    let (w, u) = capture_outcome(v, matches, payload);
    let m = first_index(s, matches);
    lemma_first_index_bounds(s, matches);
    assert forall|y: ItemView| s.contains(y) && y.pinned && !matches(y) implies w.items.contains(
        y,
    ) by {
        let k = choose|k: int| 0 <= k < s.len() && s[k] == y;
        if m >= 0 {
            if !(u is Unchanged) {
                let q = v.next_sequence->0;
                let moved = ItemView { last_used_sequence: q, ..s[m] };
                let rest = s.remove(m);
                assert(k != m);
                if k < m {
                    assert(rest[k] == y);
                } else {
                    assert(rest[k - 1] == y);
                }
                lemma_contains_after_place(rest, moved, y);
            }
        } else if !(u is Unchanged) {
            let item = ItemView {
                id: v.next_id->0,
                payload,
                created_sequence: v.next_sequence->0,
                last_used_sequence: v.next_sequence->0,
                pinned: false,
            };
            lemma_contains_after_place(s, item, y);
            lemma_retained_keeps_pinned(place(s, item), v.unpinned_limit);
        }
    }
}

/// Recording copied text never drops a pinned entry, other than moving the
/// entry with that text to the front of the pinned group.
pub proof fn law_record_keeps_pinned(v: HistoryView, text: Seq<char>)
    requires
        history_wf(v),
    ensures
        forall|y: ItemView|
            v.items.contains(y) && y.pinned && !holds_text(y, text) ==> record_outcome(
                v,
                text,
            ).0.items.contains(y),
{
    lemma_capture_keeps_pinned(v, text_is(text), PayloadView::Text(text));
}

/// Recording a copied image never drops a pinned entry, other than moving
/// the entry with that image to the front of the pinned group.
pub proof fn law_record_image_keeps_pinned(v: HistoryView, image: super::model::ImageView)
    requires
        history_wf(v),
    ensures
        forall|y: ItemView|
            v.items.contains(y) && y.pinned && !(image_hash_is(image.content_hash))(y)
                ==> record_image_outcome(v, image).0.items.contains(y),
{
    lemma_capture_keeps_pinned(v, image_hash_is(image.content_hash), PayloadView::Image(image));
}

/// Deleting an identifier that is present removes that entry and keeps every
/// other one; deleting an unknown identifier changes nothing. (With
/// identifiers shared between entries only the first would go, so they are
/// required unique.)
pub proof fn law_delete_removes_only_that_entry(v: HistoryView, id: i64)
    requires
        history_wf(v),
        unique_ids(v.items),
    ensures
        ({
            let (w, c) = delete_outcome(v, id);
            &&& c is Applied ==> first_index(w.items, id_is(id)) < 0
            &&& c is Applied ==> forall|y: ItemView|
                v.items.contains(y) && y.id != id ==> #[trigger] w.items.contains(y)
            &&& c is Rejected ==> w == v && forall|y: ItemView|
                v.items.contains(y) ==> y.id != id
        }),
{
    let s = v.items;
    let (w, c) = delete_outcome(v, id);
    let m = first_index(s, id_is(id));
    lemma_first_index_bounds(s, id_is(id));
    if c is Applied {
        let r = s.remove(m);
        assert forall|k: int| 0 <= k < r.len() implies !(id_is(id))(#[trigger] r[k]) by {
            if k < m {
                assert(r[k] == s[k]);
            } else {
                assert(r[k] == s[k + 1]);
            }
        }
        lemma_first_index(r, id_is(id), r.len() as int);
        assert forall|y: ItemView| s.contains(y) && y.id != id implies #[trigger] w.items.contains(
            y,
        ) by {
            let k = choose|k: int| 0 <= k < s.len() && s[k] == y;
            if k < m {
                assert(r[k] == y);
            } else {
                assert(k != m);
                assert(r[k - 1] == y);
            }
        }
    } else {
        assert forall|y: ItemView| s.contains(y) implies y.id != id by {
            let k = choose|k: int| 0 <= k < s.len() && s[k] == y;
            assert(!(id_is(id))(s[k]));
        }
    }
}

/// Clearing the unpinned entries keeps exactly the pinned ones, in order;
/// when there is nothing unpinned it changes nothing.
pub proof fn law_clear_unpinned_keeps_exactly_pinned(v: HistoryView)
    requires
        history_wf(v),
    ensures
        ({
            let (w, c) = clear_unpinned_outcome(v);
            &&& forall|y: ItemView| #[trigger]
                w.items.contains(y) <==> v.items.contains(y) && y.pinned
            &&& history_order(w.items)
            &&& c is Rejected ==> w == v
        }),
{
    let s = v.items;
    let (w, c) = clear_unpinned_outcome(v);
    lemma_pinned_items(s);
    lemma_pinned_items_complete(s);
    lemma_unpinned_count_zero(s);
    lemma_unpinned_count_zero(pinned_items(s));
    assert forall|y: ItemView| #[trigger] w.items.contains(y) implies v.items.contains(y) && y.pinned by {
        let k = choose|k: int| 0 <= k < w.items.len() && w.items[k] == y;
        if c is Rejected {
            assert(s[k].pinned);
        } else {
            assert(pinned_items(s)[k].pinned);
        }
    }
    if c is Rejected {
        assert forall|y: ItemView| v.items.contains(y) && y.pinned implies #[trigger] w.items.contains(y) by {}
    }
}

/// Changing the unpinned limit keeps every pinned entry, keeps the order,
/// and leaves at most the new limit of unpinned entries.
pub proof fn law_set_limit_keeps_pinned(v: HistoryView, limit: nat)
    requires
        history_wf(v),
    ensures
        ({
            let w = set_limit_outcome(v, limit);
            &&& history_wf(w)
            &&& forall|y: ItemView| v.items.contains(y) && y.pinned ==> #[trigger] w.items.contains(y)
            &&& forall|y: ItemView| #[trigger] w.items.contains(y) ==> v.items.contains(y)
        }),
{
    let s = v.items;
    lemma_retained(s, limit);
    lemma_retained_keeps_pinned(s, limit);
    let w = set_limit_outcome(v, limit);
    assert forall|i: int| #![trigger w.items[i]] 0 <= i < w.items.len() implies {
        &&& (w.next_sequence matches Some(n) ==> w.items[i].last_used_sequence < n)
        &&& (w.next_id matches Some(n) ==> w.items[i].id < n)
    } by {
        assert(w.items.contains(w.items[i]));
        assert(s.contains(w.items[i]));
        let k = choose|k: int| 0 <= k < s.len() && s[k] == w.items[i];
        assert(s[k] == w.items[i]);
    }
}

/// With unique identifiers the history order is strict: every entry sorts
/// strictly before each later one.
proof fn lemma_strict_order(s: Seq<ItemView>)
    requires
        history_order(s),
        unique_ids(s),
    ensures
        forall|i: int, j: int| 0 <= i < j < s.len() ==> precedes(#[trigger] s[i], #[trigger] s[j]),
{
    assert forall|i: int, j: int| 0 <= i < j < s.len() implies precedes(
        #[trigger] s[i],
        #[trigger] s[j],
    ) by {
        assert(!precedes(s[j], s[i]));
        assert(s[i].id != s[j].id);
    }
}

/// Taking an entry out and placing it again gives back the same sequence.
proof fn lemma_place_back(s: Seq<ItemView>, m: int)
    requires
        history_order(s),
        unique_ids(s),
        0 <= m < s.len(),
    ensures
        place(s.remove(m), s[m]) == s,
{
    lemma_strict_order(s);
    let r = s.remove(m);
    assert forall|k: int| 0 <= k < m implies !precedes(s[m], #[trigger] r[k]) by {
        assert(r[k] == s[k]);
    }
    if m < r.len() {
        assert(r[m] == s[m + 1]);
    }
    lemma_placement(r, s[m], m);
    assert(r.insert(m, s[m]) =~= s);
}

/// Pinning an unpinned entry and unpinning it again gives back exactly the
/// entries there were, in the same order; both requests are applied. (With
/// identifiers shared between entries the request could reach another
/// entry, so they are required unique.)
pub proof fn law_pin_then_unpin_restores(v: HistoryView, id: i64)
    requires
        history_wf(v),
        unique_ids(v.items),
        first_index(v.items, id_is(id)) >= 0,
        !v.items[first_index(v.items, id_is(id))].pinned,
    ensures
        ({
            let (w, pinned) = set_pinned_outcome(v, id, true);
            let (x, unpinned) = set_pinned_outcome(w, id, false);
            &&& pinned is Applied
            &&& unpinned is Applied
            &&& x.items == v.items
        }),
{
    let s = v.items;
    let m = first_index(s, id_is(id));
    lemma_first_index_bounds(s, id_is(id));
    let changed = ItemView { pinned: true, ..s[m] };
    let rest = s.remove(m);
    let p = placement(rest, changed);
    let placed = place(rest, changed);
    lemma_placement_bounds(rest, changed);
    lemma_unpinned_count_remove(s, m);
    lemma_unpinned_count_insert(rest, p, changed);
    lemma_retained(placed, v.unpinned_limit);
    let (w, pinned) = set_pinned_outcome(v, id, true);
    assert(w.items == placed);
    assert forall|k: int| 0 <= k < p implies !(id_is(id))(#[trigger] placed[k]) by {
        assert(placed[k] == rest[k]);
        if k < m {
            assert(rest[k] == s[k]);
        } else {
            assert(rest[k] == s[k + 1]);
        }
    }
    assert(placed[p] == changed);
    lemma_first_index(placed, id_is(id), p);
    let back = ItemView { pinned: false, ..placed[p] };
    assert(back == s[m]);
    assert(placed.remove(p) =~= rest);
    lemma_place_back(s, m);
    lemma_retained(s, v.unpinned_limit);
}

/// At most one entry satisfies `pred`.
pub open spec fn at_most_one(s: Seq<ItemView>, pred: spec_fn(ItemView) -> bool) -> bool {
    forall|i: int, j: int| 0 <= i < j < s.len() ==> !(pred(#[trigger] s[i]) && pred(#[trigger] s[j]))
}

proof fn lemma_newest_is(s: Seq<ItemView>, i: int)
    requires
        0 <= i < s.len(),
        forall|j: int| 0 <= j < s.len() ==> #[trigger] s[j].last_used_sequence <= s[i].last_used_sequence,
    ensures
        newest(s) == s[i].last_used_sequence,
{
    lemma_newest(s);
    let k = choose|k: int| 0 <= k < s.len() && #[trigger] s[k].last_used_sequence == newest(s);
    assert(s[k].last_used_sequence <= s[i].last_used_sequence);
    assert(s[i].last_used_sequence <= newest(s));
}

/// Recording text that at most one entry holds: when something changed, the
/// entry with that text is the first one with it and holds the newest
/// sequence, so recording the same text again changes nothing more.
/// (An unpinned limit of zero drops a new entry at once, so it is left out.)
pub proof fn law_recording_again_changes_nothing(v: HistoryView, text: Seq<char>)
    requires
        history_wf(v),
        v.unpinned_limit > 0,
        at_most_one(v.items, text_is(text)),
    ensures
        ({
            let (w, first) = record_outcome(v, text);
            let (x, second) = record_outcome(w, text);
            !(first is Unchanged) ==> second is Unchanged && x == w
        }),
{
    let s = v.items;
    let pred = text_is(text);
    let (w, first) = record_outcome(v, text);
    let m = first_index(s, pred);
    lemma_first_index_bounds(s, pred);
    if !(first is Unchanged) {
        let i: int;
        if m >= 0 {
            let q = v.next_sequence->0;
            let moved = ItemView { last_used_sequence: q, ..s[m] };
            let rest = s.remove(m);
            assert forall|j: int| 0 <= j < rest.len() implies #[trigger] rest[j].last_used_sequence
                < moved.last_used_sequence && !pred(rest[j]) by {
                if j < m {
                    assert(rest[j] == s[j]);
                    assert(!(pred(s[j]) && pred(s[m])));
                } else {
                    assert(rest[j] == s[j + 1]);
                    assert(!(pred(s[m]) && pred(s[j + 1])));
                }
            }
            lemma_fresh_leads(rest, moved);
            i = placement(rest, moved);
            lemma_placement_bounds(rest, moved);
            assert(w.items == place(rest, moved));
            assert forall|k: int| 0 <= k < i implies !pred(#[trigger] w.items[k]) by {
                assert(w.items[k] == rest[k]);
            }
            assert(pred(w.items[i]));
        } else {
            let q = v.next_sequence->0;
            let item = ItemView {
                id: v.next_id->0,
                payload: PayloadView::Text(text),
                created_sequence: q,
                last_used_sequence: q,
                pinned: false,
            };
            assert forall|j: int| 0 <= j < s.len() implies #[trigger] s[j].last_used_sequence
                < item.last_used_sequence by {}
            lemma_fresh_leads(s, item);
            let placed = place(s, item);
            i = placement(s, item);
            lemma_placement_bounds(s, item);
            let head = placed.take(i + 1);
            assert forall|j: int| 0 <= j < head.drop_last().len() implies #[trigger] head.drop_last()[j].pinned by {
                assert(head.drop_last()[j] == placed[j]);
            }
            lemma_unpinned_count_zero(head.drop_last());
            assert(head.last() == item);
            assert(unpinned_count(head) == 1);
            lemma_retained(head, v.unpinned_limit);
            lemma_retained_prefix(placed, i + 1, v.unpinned_limit);
            lemma_retained(placed, v.unpinned_limit);
            let r = retained(placed, v.unpinned_limit);
            assert(r.take(i + 1) == head);
            assert forall|k: int| 0 <= k <= i implies #[trigger] r[k] == placed[k] by {
                assert(r.take(i + 1)[k] == head[k]);
            }
            assert forall|k: int| 0 <= k < i implies !pred(#[trigger] r[k]) by {
                assert(r[k] == placed[k]);
                assert(placed[k] == s[k]);
            }
            assert(r[i] == item);
            assert forall|j: int| 0 <= j < r.len() implies #[trigger] r[j].last_used_sequence
                <= r[i].last_used_sequence by {
                assert(r.contains(r[j]));
                assert(placed.contains(r[j]));
                let k = choose|k: int| 0 <= k < placed.len() && placed[k] == r[j];
                assert(placed[k].last_used_sequence <= placed[i].last_used_sequence);
            }
            assert(pred(r[i]));
            assert(w.items == r);
        }
        lemma_first_index(w.items, pred, i);
        lemma_newest_is(w.items, i);
    }
}

/// A new entry gets an identifier no entry had, and the counter moves past
/// it, so identifiers are never handed out twice.
pub proof fn law_new_entries_get_fresh_identifiers(v: HistoryView, text: Seq<char>)
    requires
        history_wf(v),
    ensures
        ({
            let (w, u) = record_outcome(v, text);
            u is Inserted ==> {
                &&& v.next_id is Some
                &&& forall|i: int| 0 <= i < v.items.len() ==> #[trigger] v.items[i].id != v.next_id->0
                &&& w.next_id == (if v.next_id->0 < i64::MAX {
                    Some((v.next_id->0 + 1) as i64)
                } else {
                    None
                })
                &&& forall|i: int| 0 <= i < w.items.len() ==> #[trigger] w.items[i].id <= v.next_id->0
            }
        }),
{
    let s = v.items;
    let (w, u) = record_outcome(v, text);
    lemma_first_index_bounds(s, text_is(text));
    if u is Inserted {
        let q = v.next_sequence->0;
        let item = ItemView {
            id: v.next_id->0,
            payload: PayloadView::Text(text),
            created_sequence: q,
            last_used_sequence: q,
            pinned: false,
        };
        let placed = place(s, item);
        lemma_placement_bounds(s, item);
        lemma_retained(placed, v.unpinned_limit);
        assert forall|i: int| 0 <= i < w.items.len() implies #[trigger] w.items[i].id <= v.next_id->0 by {
            assert(w.items.contains(w.items[i]));
            assert(placed.contains(w.items[i]));
            let k = choose|k: int| 0 <= k < placed.len() && placed[k] == w.items[i];
            if k < placement(s, item) {
                assert(placed[k] == s[k]);
            } else if k > placement(s, item) {
                assert(placed[k] == s[k - 1]);
            }
        }
    }
}

/// A pin, unpin, delete or clear that is refused changes nothing and queues
/// nothing for the database; one that is applied to a persistent history
/// queues exactly one change, after those already queued.
pub proof fn law_refused_requests_change_nothing(v: HistoryView, id: i64, pinned: bool)
    ensures
        ({
            let (after, change) = set_pinned_outcome(v, id, pinned);
            &&& change == HistoryChange::Rejected ==> after == v
            &&& change == HistoryChange::Applied && v.persistent ==> after.pending.len()
                == v.pending.len() + 1 && after.pending.take(v.pending.len() as int) == v.pending
        }),
        ({
            let (after, change) = delete_outcome(v, id);
            &&& change == HistoryChange::Rejected ==> after == v
            &&& change == HistoryChange::Applied && v.persistent ==> after.pending.len()
                == v.pending.len() + 1 && after.pending.take(v.pending.len() as int) == v.pending
        }),
        ({
            let (after, change) = clear_unpinned_outcome(v);
            &&& change == HistoryChange::Rejected ==> after == v
            &&& change == HistoryChange::Applied && v.persistent ==> after.pending.len()
                == v.pending.len() + 1 && after.pending.take(v.pending.len() as int) == v.pending
        }),
        ({
            let (after, change) = clear_all_outcome(v);
            &&& change == HistoryChange::Rejected ==> after == v
            &&& change == HistoryChange::Applied && v.persistent ==> after.pending.len()
                == v.pending.len() + 1 && after.pending.take(v.pending.len() as int) == v.pending
        }),
{
    let n = v.pending.len() as int;
    let (a, _) = set_pinned_outcome(v, id, pinned);
    let (b, _) = delete_outcome(v, id);
    let (c, _) = clear_unpinned_outcome(v);
    let (d, _) = clear_all_outcome(v);
    if v.persistent {
        assert(a.pending.take(n) =~= v.pending);
        assert(b.pending.take(n) =~= v.pending);
        assert(c.pending.take(n) =~= v.pending);
        assert(d.pending.take(n) =~= v.pending);
    }
}

/// Capturing content an entry already holds keeps the entries' count and
/// identifiers.
proof fn lemma_capture_known_keeps_entries(
    v: HistoryView,
    matches: spec_fn(ItemView) -> bool,
    payload: PayloadView,
)
    requires
        first_index(v.items, matches) >= 0,
    ensures
        capture_outcome(v, matches, payload).0.items.len() == v.items.len(),
        ids_of(capture_outcome(v, matches, payload).0.items).to_multiset() == ids_of(
            v.items,
        ).to_multiset(),
{
    let s = v.items;
    let m = first_index(s, matches);
    lemma_first_index_bounds(s, matches);
    if s[m].last_used_sequence != newest(s) {
        if let Some(q) = v.next_sequence {
            let moved = ItemView { last_used_sequence: q, ..s[m] };
            let r = s.remove(m);
            lemma_placement_bounds(r, moved);
            let p = placement(r, moved);
            assert(ids_of(r.insert(p, moved)) =~= ids_of(r).insert(p, moved.id));
            assert(ids_of(r) =~= ids_of(s).remove(m));
            assert(ids_of(s)[m] == moved.id);
            assert(ids_of(s).remove(m).insert(p, moved.id).to_multiset() == ids_of(s).remove(
                m,
            ).to_multiset().insert(moved.id));
            assert(ids_of(s).remove(m).to_multiset() == ids_of(s).to_multiset().remove(moved.id));
            assert(ids_of(s).to_multiset().count(moved.id) > 0);
            assert(ids_of(s).to_multiset().remove(moved.id).insert(moved.id) =~= ids_of(
                s,
            ).to_multiset());
        }
    }
}

/// Copying again what the history already holds adds no entry: re-copied
/// text, or an image with a content hash already there, keeps the number of
/// entries and their identifiers, each as often as before.
pub proof fn law_recopying_adds_no_entry(
    v: HistoryView,
    text: Seq<char>,
    image: super::model::ImageView,
)
    ensures
        first_index(v.items, text_is(text)) >= 0 ==> {
            let after = record_outcome(v, text).0;
            &&& after.items.len() == v.items.len()
            &&& ids_of(after.items).to_multiset() == ids_of(v.items).to_multiset()
        },
        first_index(v.items, image_hash_is(image.content_hash)) >= 0 ==> {
            let after = record_image_outcome(v, image).0;
            &&& after.items.len() == v.items.len()
            &&& ids_of(after.items).to_multiset() == ids_of(v.items).to_multiset()
        },
{
    if first_index(v.items, text_is(text)) >= 0 {
        lemma_capture_known_keeps_entries(v, text_is(text), PayloadView::Text(text));
    }
    if first_index(v.items, image_hash_is(image.content_hash)) >= 0 {
        lemma_capture_known_keeps_entries(
            v,
            image_hash_is(image.content_hash),
            PayloadView::Image(image),
        );
    }
}

/// The contents of the entries, in order.
pub open spec fn payloads(s: Seq<ItemView>) -> Seq<PayloadView> {
    s.map_values(|x: ItemView| x.payload)
}

/// How many entries hold exactly the text `t`.
pub open spec fn text_copies(s: Seq<ItemView>, t: Seq<char>) -> nat {
    payloads(s).to_multiset().count(PayloadView::Text(t))
}

/// No text is held by two entries.
pub open spec fn texts_distinct(s: Seq<ItemView>) -> bool {
    forall|t: Seq<char>| #[trigger] text_copies(s, t) <= 1
}

/// Retention keeps a subsequence, so no content is held more often after it.
proof fn lemma_retained_payloads(s: Seq<ItemView>, limit: nat, c: PayloadView)
    ensures
        payloads(retained(s, limit)).to_multiset().count(c) <= payloads(s).to_multiset().count(c),
    decreases s.len(),
{
    if s.len() > 0 {
        let p = s.drop_last();
        let y = s.last();
        lemma_retained_payloads(p, limit, c);
        assert(s =~= p.push(y));
        assert(payloads(p.push(y)) =~= payloads(p).push(y.payload));
        let r = retained(p, limit);
        assert(payloads(r.push(y)) =~= payloads(r).push(y.payload));
    }
}

/// An entry holding content `c` makes it counted.
proof fn lemma_payload_present(s: Seq<ItemView>, i: int)
    requires
        0 <= i < s.len(),
    ensures
        payloads(s).to_multiset().count(s[i].payload) > 0,
{
    assert(payloads(s)[i] == s[i].payload);
    assert(payloads(s).contains(s[i].payload));
}

/// Taking entry `m` out and placing `x` with the same content keeps how
/// often each content is held.
proof fn lemma_replace_payloads(s: Seq<ItemView>, m: int, x: ItemView)
    requires
        0 <= m < s.len(),
        x.payload == s[m].payload,
    ensures
        payloads(place(s.remove(m), x)).to_multiset() =~= payloads(s).to_multiset(),
        place(s.remove(m), x).len() == s.len(),
{
    let r = s.remove(m);
    lemma_placement_bounds(r, x);
    let p = placement(r, x);
    assert(payloads(r.insert(p, x)) =~= payloads(r).insert(p, x.payload));
    assert(payloads(r) =~= payloads(s).remove(m));
    assert(payloads(s)[m] == x.payload);
    lemma_payload_present(s, m);
}

/// With no two entries holding the same text, recording text leaves
/// exactly one entry holding it and still no text held twice. (An unpinned
/// limit of zero drops a new entry at once, and exhausted identifier or
/// sequence counters insert nothing, so those are left out.)
pub proof fn law_record_keeps_one_entry_per_text(v: HistoryView, text: Seq<char>)
    requires
        history_wf(v),
        v.unpinned_limit > 0,
        v.next_id is Some,
        v.next_sequence is Some,
        texts_distinct(v.items),
    ensures
        texts_distinct(record_outcome(v, text).0.items),
        text_copies(record_outcome(v, text).0.items, text) == 1,
{
    let s = v.items;
    let (w, u) = record_outcome(v, text);
    let c = PayloadView::Text(text);
    let m = first_index(s, text_is(text));
    lemma_first_index_bounds(s, text_is(text));
    if m >= 0 {
        assert(s[m].payload == c);
        lemma_payload_present(s, m);
        if s[m].last_used_sequence != newest(s) {
            let q = v.next_sequence->0;
            let moved = ItemView { last_used_sequence: q, ..s[m] };
            lemma_replace_payloads(s, m, moved);
            assert forall|t: Seq<char>| #[trigger] text_copies(w.items, t) <= 1 by {
                assert(text_copies(w.items, t) == text_copies(s, t));
            }
        }
        assert(text_copies(w.items, text) == text_copies(s, text));
    } else {
        let id = v.next_id->0;
        let q = v.next_sequence->0;
        let item = ItemView {
            id,
            payload: c,
            created_sequence: q,
            last_used_sequence: q,
            pinned: false,
        };
        let placed = place(s, item);
        lemma_placement_bounds(s, item);
        assert(placed =~= s.insert(placement(s, item), item));
        assert(payloads(placed) =~= payloads(s).insert(placement(s, item), c));
        assert(text_copies(s, text) == 0) by {
            if payloads(s).contains(c) {
                let k = choose|k: int| 0 <= k < payloads(s).len() && payloads(s)[k] == c;
                assert(s[k].payload == c);
                assert(text_is(text)(s[k]));
            }
        }
        assert(payloads(placed).to_multiset() =~= payloads(s).to_multiset().insert(c));
        assert(w.items == retained(placed, v.unpinned_limit));
        assert forall|t: Seq<char>| #[trigger] text_copies(w.items, t) <= 1 by {
            lemma_retained_payloads(placed, v.unpinned_limit, PayloadView::Text(t));
            assert(text_copies(s, t) <= 1);
            if t != text {
                assert(PayloadView::Text(t) != c);
            }
        }
        law_record_leads_its_group(v, text);
        let i = choose|i: int|
            #![trigger w.items[i]]
            leads_its_group(w.items, i) && holds_text(w.items[i], text);
        lemma_payload_present(w.items, i);
    }
}

/// Pinning never loses an entry. A request for an unknown or already pinned
/// identifier is refused and changes nothing; otherwise the history keeps
/// the same number of entries and the same identifiers, and the entry is
/// there pinned, with its content and recency as they were. The history
/// stays well formed, and with unique identifiers they stay unique and the
/// identifier finds that pinned entry.
pub proof fn law_pin_keeps_every_entry(v: HistoryView, id: i64)
    requires
        history_wf(v),
    ensures
        ({
            let s = v.items;
            let m = first_index(s, id_is(id));
            let (w, change) = set_pinned_outcome(v, id, true);
            &&& (change == HistoryChange::Rejected <==> (m < 0 || s[m].pinned))
            &&& change == HistoryChange::Rejected ==> w == v
            &&& change == HistoryChange::Applied ==> {
                &&& w.items.len() == s.len()
                &&& ids_of(w.items).to_multiset() == ids_of(s).to_multiset()
                &&& w.items.contains(ItemView { pinned: true, ..s[m] })
            }
            &&& history_wf(w)
            &&& change == HistoryChange::Applied && unique_ids(s) ==> {
                let k = first_index(w.items, id_is(id));
                &&& unique_ids(w.items)
                &&& k >= 0
                &&& w.items[k] == (ItemView { pinned: true, ..s[m] })
            }
        }),
{
    lemma_set_pinned_wf(v, id, true);
    let s = v.items;
    let m = first_index(s, id_is(id));
    lemma_first_index_bounds(s, id_is(id));
    if m >= 0 && !s[m].pinned {
        let changed = ItemView { pinned: true, ..s[m] };
        let r = s.remove(m);
        lemma_placement_bounds(r, changed);
        let p = placement(r, changed);
        let placed = place(r, changed);
        assert(placed =~= r.insert(p, changed));
        lemma_unpinned_count_remove(s, m);
        lemma_unpinned_count_insert(r, p, changed);
        lemma_retained(placed, v.unpinned_limit);
        assert(retained(placed, v.unpinned_limit) == placed);
        assert(ids_of(r.insert(p, changed)) =~= ids_of(r).insert(p, changed.id));
        assert(ids_of(r) =~= ids_of(s).remove(m));
        assert(ids_of(s)[m] == changed.id);
        assert(ids_of(s).to_multiset().count(changed.id) > 0) by {
            assert(ids_of(s).contains(changed.id));
        }
        assert(ids_of(s).to_multiset().remove(changed.id).insert(changed.id) =~= ids_of(
            s,
        ).to_multiset());
        assert(placed[p] == changed);
        if unique_ids(s) {
            lemma_unique_remove(s, m);
            lemma_unique_place(r, changed);
            assert forall|k: int| 0 <= k < p implies !id_is(id)(#[trigger] placed[k]) by {
                assert(placed[k].id != placed[p].id);
            }
            lemma_first_index(placed, id_is(id), p);
        }
    }
}

proof fn lemma_unique_remove(s: Seq<ItemView>, m: int)
    requires
        unique_ids(s),
        0 <= m < s.len(),
    ensures
        unique_ids(s.remove(m)),
        forall|k: int| 0 <= k < s.remove(m).len() ==> #[trigger] s.remove(m)[k].id != s[m].id,
{
    let r = s.remove(m);
    assert forall|i: int, j: int| 0 <= i < j < r.len() implies #[trigger] r[i].id != #[trigger] r[j].id by {
        let a = if i < m { i } else { i + 1 };
        let b = if j < m { j } else { j + 1 };
        assert(r[i] == s[a] && r[j] == s[b]);
    }
    assert forall|k: int| 0 <= k < r.len() implies #[trigger] r[k].id != s[m].id by {
        if k < m {
            assert(r[k] == s[k]);
        } else {
            assert(r[k] == s[k + 1]);
        }
    }
}

proof fn lemma_unique_place(r: Seq<ItemView>, x: ItemView)
    requires
        unique_ids(r),
        forall|k: int| 0 <= k < r.len() ==> #[trigger] r[k].id != x.id,
    ensures
        unique_ids(place(r, x)),
{
    lemma_placement_bounds(r, x);
    let p = placement(r, x);
    let t = place(r, x);
    assert forall|i: int, j: int| 0 <= i < j < t.len() implies #[trigger] t[i].id != #[trigger] t[j].id by {
        if i == p {
            assert(t[j] == r[j - 1]);
        } else if j == p {
            assert(t[i] == r[i]);
        } else {
            let a = if i < p { i } else { i - 1 };
            let b = if j < p { j } else { j - 1 };
            assert(t[i] == r[a] && t[j] == r[b]);
        }
    }
}

proof fn lemma_unique_retained(s: Seq<ItemView>, limit: nat)
    requires
        unique_ids(s),
    ensures
        unique_ids(retained(s, limit)),
    decreases s.len(),
{
    if s.len() > 0 {
        let p = s.drop_last();
        let y = s.last();
        assert(unique_ids(p)) by {
            assert forall|i: int, j: int| 0 <= i < j < p.len() implies #[trigger] p[i].id
                != #[trigger] p[j].id by {
                assert(p[i] == s[i] && p[j] == s[j]);
            }
        }
        lemma_unique_retained(p, limit);
        lemma_retained(p, limit);
        let r = retained(p, limit);
        if y.pinned || unpinned_count(p) < limit {
            let t = r.push(y);
            assert forall|i: int, j: int| 0 <= i < j < t.len() implies #[trigger] t[i].id
                != #[trigger] t[j].id by {
                if j == r.len() {
                    assert(t[j] == y);
                    assert(t[i] == r[i]);
                    assert(r.contains(r[i]));
                    assert(p.contains(r[i]));
                    let k = choose|k: int| 0 <= k < p.len() && p[k] == r[i];
                    assert(s[k] == p[k]);
                    assert(s[s.len() - 1] == y);
                    assert(s[k].id != s[s.len() - 1].id);
                } else {
                    assert(t[i] == r[i] && t[j] == r[j]);
                }
            }
        }
    }
}

/// Recording text into a sound history keeps it sound: still in history
/// order within the limits and counters, no identifier or text held twice,
/// and exactly one entry holding the recorded text. A new entry gets a
/// fresh identifier, is unpinned and leads the unpinned entries; an entry
/// moved to the front keeps its identifier, content and pin state, leads
/// its group and no entry is removed; an unchanged history is the same
/// history. (An unpinned limit of zero drops a new entry at once, and
/// exhausted counters insert nothing, so those are left out.)
pub proof fn law_record_keeps_the_history_sound(v: HistoryView, text: Seq<char>)
    requires
        history_wf(v),
        v.unpinned_limit > 0,
        v.next_id is Some,
        v.next_sequence is Some,
        unique_ids(v.items),
        texts_distinct(v.items),
    ensures
        ({
            let s = v.items;
            let m = first_index(s, text_is(text));
            let (w, u) = record_outcome(v, text);
            &&& history_wf(w)
            &&& unique_ids(w.items)
            &&& texts_distinct(w.items)
            &&& text_copies(w.items, text) == 1
            &&& u is Inserted ==> m < 0 && (forall|j: int| 0 <= j < s.len() ==> #[trigger] s[j].id
                != v.next_id->0) && exists|i: int|
                #![trigger w.items[i]]
                leads_its_group(w.items, i) && holds_text(w.items[i], text) && w.items[i].id
                    == v.next_id->0 && !w.items[i].pinned
            &&& u is MovedToFront ==> m >= 0 && w.items.len() == s.len() && exists|i: int|
                #![trigger w.items[i]]
                leads_its_group(w.items, i) && w.items[i].id == s[m].id && w.items[i].payload
                    == s[m].payload && w.items[i].pinned == s[m].pinned
            &&& u is Unchanged ==> w.items == s
        }),
{
    let s = v.items;
    let m = first_index(s, text_is(text));
    let (w, u) = record_outcome(v, text);
    lemma_capture_wf(v, text_is(text), PayloadView::Text(text));
    law_record_keeps_one_entry_per_text(v, text);
    lemma_capture_leads(v, text_is(text), PayloadView::Text(text));
    lemma_first_index_bounds(s, text_is(text));
    if m >= 0 {
        if s[m].last_used_sequence != newest(s) {
            let moved = ItemView { last_used_sequence: v.next_sequence->0, ..s[m] };
            lemma_unique_remove(s, m);
            lemma_unique_place(s.remove(m), moved);
            lemma_capture_known_keeps_entries(v, text_is(text), PayloadView::Text(text));
        }
    } else {
        let id = v.next_id->0;
        let q = v.next_sequence->0;
        let item = ItemView {
            id,
            payload: PayloadView::Text(text),
            created_sequence: q,
            last_used_sequence: q,
            pinned: false,
        };
        assert forall|j: int| 0 <= j < s.len() implies #[trigger] s[j].id != id by {
            assert(s[j].id < id);
        }
        lemma_unique_place(s, item);
        lemma_unique_retained(place(s, item), v.unpinned_limit);
    }
}

} // verus!
