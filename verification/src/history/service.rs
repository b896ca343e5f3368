//! The in-memory clipboard history: insertion, exact-content deduplication,
//! move-to-front, identity allocation, pinning, deletion and retention.
//!
//! Every change that has to reach the database is queued as a
//! [`PersistenceMutation`], in order, when the history is persistent; the
//! caller that owns the database takes them with
//! [`TextHistory::take_mutations`].
use vstd::prelude::*;

use super::model::{
    HistoryItem, HistoryItemId, HistoryPayload, ImageData, ImageView, ItemView,
    PayloadView,
};
use super::order::{
    lemma_first_index, lemma_first_index_bounds, lemma_placement_bounds, lemma_place_ordered,
    lemma_remove_ordered, lemma_unpinned_count_insert, lemma_unpinned_count_remove,
    lemma_unpinned_count_add, lemma_pinned_items,
    advance, evicted, evicted_ids, first_index, ids_of, front_placement, history_order, id_is,
    image_hash_is, lemma_front_placement, lemma_front_placement_bounds, lemma_max_id,
    lemma_newest, lemma_placement, lemma_retained, lemma_sort_history, max_id, newest,
    next_after, pinned_items, place, placement, precedes, retained, sort_history, text_is,
    unpinned_count,
};
use super::repository::{id_values, MutationView, PersistenceMutation};
use super::search::{query_results, HistoryQuery};

verus! {

broadcast use {vstd::seq_lib::group_to_multiset_ensures, vstd::multiset::group_multiset_axioms};

/// Unpinned items kept when no other limit is configured.
pub const DEFAULT_UNPINNED_LIMIT: usize = 500;

/// What recording a copied payload did to the history.
#[derive(Clone, Copy, Debug, Eq, PartialEq, Structural)]
pub enum HistoryUpdate {
    Inserted,
    MovedToFront,
    Unchanged,
}

impl HistoryUpdate {
    pub fn changed(self) -> (changed: bool)
        ensures
            changed == !(self is Unchanged),
    {
        !matches!(self, Self::Unchanged)
    }
}

/// Result of an explicit history operation requested by the user.
#[derive(Clone, Copy, Debug, Eq, PartialEq, Structural)]
pub enum HistoryChange {
    /// The history changed and the persisted mutation was queued.
    Applied,
    /// Nothing changed: the identifier is unknown or already in that state.
    Rejected,
}

impl HistoryChange {
    pub fn changed(self) -> (changed: bool)
        ensures
            changed == (self is Applied),
    {
        matches!(self, Self::Applied)
    }
}

/// The mathematical value of a [`TextHistory`].
pub struct HistoryView {
    /// The items in history order.
    pub items: Seq<ItemView>,
    /// The identifier the next new item gets; `None` once exhausted.
    pub next_id: Option<i64>,
    /// The sequence the next insertion or re-copy gets; `None` once exhausted.
    pub next_sequence: Option<i64>,
    pub unpinned_limit: nat,
    /// Whether changes are queued for the database.
    pub persistent: bool,
    /// Changes not yet taken by the database owner, oldest first.
    pub pending: Seq<MutationView>,
    /// Counts bulk clears, so work that started before one can tell.
    pub generation: u64,
}

/// The values of a sequence of items.
pub open spec fn item_views(s: Seq<HistoryItem>) -> Seq<ItemView> {
    s.map_values(|x: HistoryItem| x@)
}

/// Every item's last-used sequence and identifier lie below the counters
/// that are still running, so the next values handed out are fresh.
pub open spec fn below_counters(
    items: Seq<ItemView>,
    next_id: Option<i64>,
    next_sequence: Option<i64>,
) -> bool {
    forall|i: int|
        #![trigger items[i]]
        0 <= i < items.len() ==> {
            &&& (next_sequence matches Some(n) ==> items[i].last_used_sequence < n)
            &&& (next_id matches Some(n) ==> items[i].id < n)
        }
}

/// The invariant of every history value.
pub open spec fn history_wf(v: HistoryView) -> bool {
    &&& history_order(v.items)
    &&& unpinned_count(v.items) <= v.unpinned_limit
    &&& below_counters(v.items, v.next_id, v.next_sequence)
}

proof fn lemma_below_subset(
    s: Seq<ItemView>,
    t: Seq<ItemView>,
    next_id: Option<i64>,
    next_sequence: Option<i64>,
)
    requires
        below_counters(s, next_id, next_sequence),
        forall|y: ItemView| t.contains(y) ==> s.contains(y),
    ensures
        below_counters(t, next_id, next_sequence),
{
    assert forall|i: int| #![trigger t[i]] 0 <= i < t.len() implies {
        &&& (next_sequence matches Some(n) ==> t[i].last_used_sequence < n)
        &&& (next_id matches Some(n) ==> t[i].id < n)
    } by {
        assert(t.contains(t[i]));
        let k = choose|k: int| 0 <= k < s.len() && s[k] == t[i];
        assert(s[k] == t[i]);
    }
}

proof fn lemma_contains_inserted(s: Seq<ItemView>, t: Seq<ItemView>, x: ItemView)
    requires
        t.to_multiset() == s.to_multiset().insert(x),
    ensures
        forall|y: ItemView| t.contains(y) ==> s.contains(y) || y == x,
{
    assert forall|y: ItemView| t.contains(y) implies s.contains(y) || y == x by {
        assert(t.to_multiset().count(y) > 0);
    }
}

proof fn lemma_below_insert(
    s: Seq<ItemView>,
    t: Seq<ItemView>,
    x: ItemView,
    next_id: Option<i64>,
    next_sequence: Option<i64>,
)
    requires
        below_counters(s, next_id, next_sequence),
        forall|y: ItemView| t.contains(y) ==> s.contains(y) || y == x,
        next_sequence matches Some(n) ==> x.last_used_sequence < n,
        next_id matches Some(n) ==> x.id < n,
    ensures
        below_counters(t, next_id, next_sequence),
{
    assert forall|i: int| #![trigger t[i]] 0 <= i < t.len() implies {
        &&& (next_sequence matches Some(n) ==> t[i].last_used_sequence < n)
        &&& (next_id matches Some(n) ==> t[i].id < n)
    } by {
        assert(t.contains(t[i]));
        if t[i] != x {
            let k = choose|k: int| 0 <= k < s.len() && s[k] == t[i];
            assert(s[k] == t[i]);
        }
    }
}

proof fn lemma_below_advance(s: Seq<ItemView>, next_id: Option<i64>, next_sequence: Option<i64>)
    requires
        below_counters(s, next_id, next_sequence),
    ensures
        below_counters(s, next_id, advance(next_sequence)),
        below_counters(s, advance(next_id), advance(next_sequence)),
{
}

proof fn lemma_contains_same_items(s: Seq<ItemView>, t: Seq<ItemView>)
    requires
        t.to_multiset() == s.to_multiset(),
    ensures
        forall|y: ItemView| t.contains(y) ==> s.contains(y),
{
    assert forall|y: ItemView| t.contains(y) implies s.contains(y) by {
        assert(t.to_multiset().count(y) > 0);
    }
}

/// The pending changes after `m` is queued, if the history is persistent.
pub open spec fn persisted(v: HistoryView, m: MutationView) -> Seq<MutationView> {
    if v.persistent {
        v.pending.push(m)
    } else {
        v.pending
    }
}

/// A history built from loaded items: sorted into history order, counters
/// set past the largest identifier and sequence, and retention applied.
pub open spec fn loaded(items: Seq<ItemView>, unpinned_limit: nat, persistent: bool) -> HistoryView {
    let sorted = sort_history(items);
    let removed = evicted_ids(sorted, unpinned_limit);
    HistoryView {
        items: retained(sorted, unpinned_limit),
        next_id: next_after(items.len(), max_id(items)),
        next_sequence: next_after(items.len(), newest(items)),
        unpinned_limit,
        persistent,
        pending: if persistent && removed.len() > 0 {
            seq![MutationView::Delete { removed_ids: removed }]
        } else {
            seq![]
        },
        generation: 0,
    }
}

/// Recording a copied payload: `matches` finds an existing entry with the
/// same content, `payload` is the content of a new one.
///
/// An existing entry that already holds the newest sequence is left alone.
/// Any other existing entry gets the next sequence and moves to the front of
/// its group; otherwise a new unpinned entry is inserted and retention
/// applied. An exhausted counter leaves the history unchanged.
pub open spec fn capture_outcome(
    v: HistoryView,
    matches: spec_fn(ItemView) -> bool,
    payload: PayloadView,
) -> (HistoryView, HistoryUpdate) {
    let s = v.items;
    let m = first_index(s, matches);
    if m >= 0 {
        if s[m].last_used_sequence == newest(s) {
            (v, HistoryUpdate::Unchanged)
        } else {
            match v.next_sequence {
                Some(q) => {
                    let moved = ItemView { last_used_sequence: q, ..s[m] };
                    (
                        HistoryView {
                            items: place(s.remove(m), moved),
                            next_sequence: advance(v.next_sequence),
                            pending: persisted(
                                v,
                                MutationView::Upsert { item: moved, removed_ids: seq![] },
                            ),
                            ..v
                        },
                        HistoryUpdate::MovedToFront,
                    )
                },
                None => (v, HistoryUpdate::Unchanged),
            }
        }
    } else {
        let counted = HistoryView {
            next_id: advance(v.next_id),
            next_sequence: advance(v.next_sequence),
            ..v
        };
        match (v.next_id, v.next_sequence) {
            (Some(id), Some(q)) => {
                let item = ItemView {
                    id,
                    payload,
                    created_sequence: q,
                    last_used_sequence: q,
                    pinned: false,
                };
                let placed = place(s, item);
                (
                    HistoryView {
                        items: retained(placed, v.unpinned_limit),
                        pending: persisted(
                            v,
                            MutationView::Upsert {
                                item,
                                removed_ids: evicted_ids(placed, v.unpinned_limit),
                            },
                        ),
                        ..counted
                    },
                    HistoryUpdate::Inserted,
                )
            },
            _ => (counted, HistoryUpdate::Unchanged),
        }
    }
}

/// Capturing keeps the history well formed.
pub proof fn lemma_capture_wf(v: HistoryView, matches: spec_fn(ItemView) -> bool, payload: PayloadView)
    requires
        history_wf(v),
    ensures
        history_wf(capture_outcome(v, matches, payload).0),
{
    let s = v.items;
    let m = first_index(s, matches);
    lemma_first_index_bounds(s, matches);
    lemma_below_advance(s, v.next_id, v.next_sequence);
    if m >= 0 {
        if s[m].last_used_sequence != newest(s) && v.next_sequence is Some {
            let q = v.next_sequence->0;
            let moved = ItemView { last_used_sequence: q, ..s[m] };
            let rest = s.remove(m);
            lemma_remove_ordered(s, m);
            lemma_place_ordered(rest, moved);
            lemma_unpinned_count_remove(s, m);
            lemma_placement_bounds(rest, moved);
            lemma_unpinned_count_insert(rest, placement(rest, moved), moved);
            lemma_contains_inserted(rest, place(rest, moved), moved);
            lemma_below_subset(s, rest, v.next_id, advance(v.next_sequence));
            assert(s[m].id < v.next_id->0 || v.next_id is None);
            lemma_below_insert(rest, place(rest, moved), moved, v.next_id, advance(v.next_sequence));
        }
    } else if v.next_id is Some && v.next_sequence is Some {
        let item = ItemView {
            id: v.next_id->0,
            payload,
            created_sequence: v.next_sequence->0,
            last_used_sequence: v.next_sequence->0,
            pinned: false,
        };
        let placed = place(s, item);
        lemma_place_ordered(s, item);
        lemma_contains_inserted(s, placed, item);
        lemma_below_insert(s, placed, item, advance(v.next_id), advance(v.next_sequence));
        lemma_retained(placed, v.unpinned_limit);
        lemma_below_subset(
            placed,
            retained(placed, v.unpinned_limit),
            advance(v.next_id),
            advance(v.next_sequence),
        );
    }
}

/// Pinning or unpinning keeps the history well formed.
pub proof fn lemma_set_pinned_wf(v: HistoryView, id: i64, pinned: bool)
    requires
        history_wf(v),
    ensures
        history_wf(set_pinned_outcome(v, id, pinned).0),
{
    let s = v.items;
    let m = first_index(s, id_is(id));
    lemma_first_index_bounds(s, id_is(id));
    if m >= 0 && s[m].pinned != pinned {
        let changed = ItemView { pinned, ..s[m] };
        let rest = s.remove(m);
        let placed = place(rest, changed);
        lemma_remove_ordered(s, m);
        lemma_place_ordered(rest, changed);
        lemma_contains_inserted(rest, placed, changed);
        lemma_below_subset(s, rest, v.next_id, v.next_sequence);
        lemma_below_insert(rest, placed, changed, v.next_id, v.next_sequence);
        lemma_retained(placed, v.unpinned_limit);
        lemma_below_subset(placed, retained(placed, v.unpinned_limit), v.next_id, v.next_sequence);
    }
}

/// Recording copied text; only a text entry with exactly that text is the
/// same content, so an image entry never matches, not even the empty text.
pub open spec fn record_outcome(v: HistoryView, text: Seq<char>) -> (HistoryView, HistoryUpdate) {
    capture_outcome(v, text_is(text), PayloadView::Text(text))
}

/// Recording a copied image; entries are the same image when their content
/// hashes are equal.
pub open spec fn record_image_outcome(v: HistoryView, image: ImageView) -> (
    HistoryView,
    HistoryUpdate,
) {
    capture_outcome(v, image_hash_is(image.content_hash), PayloadView::Image(image))
}

/// Pinning or unpinning the first entry with identifier `id`. Its own
/// recency is kept; retention applies afterwards, so an unpinned entry can be
/// dropped at once when the limit is already reached.
pub open spec fn set_pinned_outcome(v: HistoryView, id: i64, pinned: bool) -> (
    HistoryView,
    HistoryChange,
) {
    let s = v.items;
    let m = first_index(s, id_is(id));
    if m < 0 || s[m].pinned == pinned {
        (v, HistoryChange::Rejected)
    } else {
        let changed = ItemView { pinned, ..s[m] };
        let placed = place(s.remove(m), changed);
        (
            HistoryView {
                items: retained(placed, v.unpinned_limit),
                pending: persisted(
                    v,
                    MutationView::Upsert {
                        item: changed,
                        removed_ids: evicted_ids(placed, v.unpinned_limit),
                    },
                ),
                ..v
            },
            HistoryChange::Applied,
        )
    }
}

/// Deleting the first entry with identifier `id`.
pub open spec fn delete_outcome(v: HistoryView, id: i64) -> (HistoryView, HistoryChange) {
    let m = first_index(v.items, id_is(id));
    if m < 0 {
        (v, HistoryChange::Rejected)
    } else {
        (
            HistoryView {
                items: v.items.remove(m),
                pending: persisted(v, MutationView::Delete { removed_ids: seq![id] }),
                ..v
            },
            HistoryChange::Applied,
        )
    }
}

/// The generation after one more bulk clear.
pub open spec fn next_generation(generation: u64) -> u64 {
    if generation == u64::MAX {
        0
    } else {
        (generation + 1) as u64
    }
}

/// Removing every unpinned entry.
pub open spec fn clear_unpinned_outcome(v: HistoryView) -> (HistoryView, HistoryChange) {
    if unpinned_count(v.items) == 0 {
        (v, HistoryChange::Rejected)
    } else {
        (
            HistoryView {
                items: pinned_items(v.items),
                pending: persisted(v, MutationView::ClearUnpinned),
                generation: next_generation(v.generation),
                ..v
            },
            HistoryChange::Applied,
        )
    }
}

/// Removing every entry, pinned ones included.
pub open spec fn clear_all_outcome(v: HistoryView) -> (HistoryView, HistoryChange) {
    if v.items.len() == 0 {
        (v, HistoryChange::Rejected)
    } else {
        (
            HistoryView {
                items: seq![],
                pending: persisted(v, MutationView::ClearAll),
                generation: next_generation(v.generation),
                ..v
            },
            HistoryChange::Applied,
        )
    }
}

/// Changing the unpinned limit, which applies retention at once.
pub open spec fn set_limit_outcome(v: HistoryView, limit: nat) -> HistoryView {
    let removed = evicted_ids(v.items, limit);
    HistoryView {
        items: retained(v.items, limit),
        unpinned_limit: limit,
        pending: if removed.len() > 0 {
            persisted(v, MutationView::Delete { removed_ids: removed })
        } else {
            v.pending
        },
        ..v
    }
}

/// In-memory source of truth for the clipboard history.
///
/// Ordering is deterministic: pinned items come first, then unpinned items,
/// and both groups are ordered by last-used sequence descending. Pinning
/// therefore moves an item into the pinned group without changing its own
/// recency, and re-copying an item refreshes its recency inside its group.
pub struct TextHistory {
    items: Vec<HistoryItem>,
    next_id: Option<i64>,
    next_sequence: Option<i64>,
    unpinned_limit: usize,
    persistent: bool,
    pending: Vec<PersistenceMutation>,
    generation: u64,
}

impl View for TextHistory {
    type V = HistoryView;

    closed spec fn view(&self) -> HistoryView {
        HistoryView {
            items: item_views(self.items@),
            next_id: self.next_id,
            next_sequence: self.next_sequence,
            unpinned_limit: self.unpinned_limit as nat,
            persistent: self.persistent,
            pending: self.pending@.map_values(|m: PersistenceMutation| m@),
            generation: self.generation,
        }
    }
}

/// Hands out the value of a counter and advances it.
fn take_next(next: &mut Option<i64>) -> (value: Option<i64>)
    ensures
        value == *old(next),
        *final(next) == advance(*old(next)),
{
    match *next {
        Some(current) => {
            *next = current.checked_add(1);
            Some(current)
        },
        None => None,
    }
}

fn item_precedes(a: &HistoryItem, b: &HistoryItem) -> (r: bool)
    ensures
        r == precedes(a@, b@),
{
    let (ap, bp) = (a.is_pinned(), b.is_pinned());
    let (al, bl) = (a.last_used_sequence(), b.last_used_sequence());
    (ap && !bp) || (ap == bp && al > bl) || (ap == bp && al == bl && a.id().value() > b.id().value())
}

fn placement_index(items: &Vec<HistoryItem>, x: &HistoryItem) -> (index: usize)
    ensures
        index == placement(item_views(items@), x@),
{
    let ghost s = item_views(items@);
    let mut i: usize = 0;
    while i < items.len() && !item_precedes(x, &items[i])
        invariant
            i <= items@.len(),
            s == item_views(items@),
            forall|k: int| 0 <= k < i ==> !precedes(x@, #[trigger] s[k]),
        decreases items.len() - i,
    {
        i = i + 1;
    }
    proof {
        lemma_placement(s, x@, i as int);
    }
    i
}

fn front_placement_index(items: &Vec<HistoryItem>, x: &HistoryItem) -> (index: usize)
    ensures
        index == front_placement(item_views(items@), x@),
{
    let ghost s = item_views(items@);
    let mut i: usize = 0;
    while i < items.len() && item_precedes(&items[i], x)
        invariant
            i <= items@.len(),
            s == item_views(items@),
            forall|k: int| 0 <= k < i ==> precedes(#[trigger] s[k], x@),
        decreases items.len() - i,
    {
        i = i + 1;
    }
    proof {
        lemma_front_placement(s, x@, i as int);
    }
    i
}

proof fn lemma_views_insert(s: Seq<HistoryItem>, i: int, x: HistoryItem)
    requires
        0 <= i <= s.len(),
    ensures
        item_views(s.insert(i, x)) == item_views(s).insert(i, x@),
{
    assert(item_views(s.insert(i, x)) =~= item_views(s).insert(i, x@));
}

proof fn lemma_views_remove(s: Seq<HistoryItem>, i: int)
    requires
        0 <= i < s.len(),
    ensures
        item_views(s.remove(i)) == item_views(s).remove(i),
{
    assert(item_views(s.remove(i)) =~= item_views(s).remove(i));
}

/// Stable sort of `items` into history order.
fn sort_items(items: Vec<HistoryItem>) -> (sorted: Vec<HistoryItem>)
    ensures
        item_views(sorted@) == sort_history(item_views(items@)),
{
    let ghost orig = item_views(items@);
    let mut rest = items;
    let mut sorted: Vec<HistoryItem> = Vec::new();
    assert(orig.skip(orig.len() as int) =~= Seq::<ItemView>::empty());
    while rest.len() > 0
        invariant
            item_views(rest@) == orig.take(rest@.len() as int),
            rest@.len() <= orig.len(),
            item_views(sorted@) == sort_history(orig.skip(rest@.len() as int)),
        decreases rest.len(),
    {
        let ghost k = rest@.len() as int;
        let ghost before = rest@;
        let x = rest.pop().unwrap();
        assert(item_views(rest@) =~= orig.take(k - 1)) by {
            assert(rest@ =~= before.drop_last());
        }
        assert(x@ == orig[k - 1]) by {
            assert(item_views(before)[k - 1] == orig.take(k)[k - 1]);
        }
        let p = front_placement_index(&sorted, &x);
        proof {
            lemma_front_placement_bounds(item_views(sorted@), x@);
            lemma_views_insert(sorted@, p as int, x);
            let t = orig.skip(k - 1);
            assert(t.drop_first() =~= orig.skip(k));
            assert(t[0] == orig[k - 1]);
        }
        sorted.insert(p, x);
    }
    assert(orig.skip(0) =~= orig);
    sorted
}

/// Whether `found` is where a search for the first item satisfying `pred`
/// ends: its index, or `None` when no item does.
pub open spec fn found_at(s: Seq<ItemView>, pred: spec_fn(ItemView) -> bool, found: Option<usize>) -> bool {
    match found {
        Some(i) => i == first_index(s, pred),
        None => first_index(s, pred) < 0,
    }
}

fn position_of_text(items: &Vec<HistoryItem>, text: &String) -> (found: Option<usize>)
    ensures
        found_at(item_views(items@), text_is(text@), found),
{
    let ghost s = item_views(items@);
    let ghost pred = text_is(text@);
    let mut i: usize = 0;
    while i < items.len()
        invariant
            i <= items@.len(),
            s == item_views(items@),
            pred == text_is(text@),
            forall|k: int| 0 <= k < i ==> !pred(#[trigger] s[k]),
        decreases items.len() - i,
    {
        if items[i].has_text(text) {
            proof {
                lemma_first_index(s, pred, i as int);
            }
            return Some(i);
        }
        i = i + 1;
    }
    proof {
        lemma_first_index(s, pred, i as int);
    }
    None
}

pub(crate) fn position_of_image(items: &[HistoryItem], hash: &String) -> (found: Option<usize>)
    ensures
        found_at(item_views(items@), image_hash_is(hash@), found),
{
    let ghost s = item_views(items@);
    let ghost pred = image_hash_is(hash@);
    let mut i: usize = 0;
    while i < items.len()
        invariant
            i <= items@.len(),
            s == item_views(items@),
            pred == image_hash_is(hash@),
            forall|k: int| 0 <= k < i ==> !pred(#[trigger] s[k]),
        decreases items.len() - i,
    {
        if items[i].has_image_hash(hash) {
            proof {
                lemma_first_index(s, pred, i as int);
            }
            return Some(i);
        }
        i = i + 1;
    }
    proof {
        lemma_first_index(s, pred, i as int);
    }
    None
}

fn position_of_id(items: &Vec<HistoryItem>, id: HistoryItemId) -> (found: Option<usize>)
    ensures
        found_at(item_views(items@), id_is(id@), found),
{
    let ghost s = item_views(items@);
    let ghost pred = id_is(id@);
    let mut i: usize = 0;
    while i < items.len()
        invariant
            i <= items@.len(),
            s == item_views(items@),
            pred == id_is(id@),
            forall|k: int| 0 <= k < i ==> !pred(#[trigger] s[k]),
        decreases items.len() - i,
    {
        if items[i].id().value() == id.value() {
            proof {
                lemma_first_index(s, pred, i as int);
            }
            return Some(i);
        }
        i = i + 1;
    }
    proof {
        lemma_first_index(s, pred, i as int);
    }
    None
}

fn newest_sequence_of(items: &Vec<HistoryItem>) -> (newest_value: i64)
    ensures
        newest_value == newest(item_views(items@)),
{
    let ghost s = item_views(items@);
    let mut best: i64 = i64::MIN;
    let mut i: usize = 0;
    while i < items.len()
        invariant
            i <= items@.len(),
            s == item_views(items@),
            best == newest(s.take(i as int)),
        decreases items.len() - i,
    {
        assert(s.take(i + 1).drop_last() =~= s.take(i as int));
        let sequence = items[i].last_used_sequence();
        if sequence > best {
            best = sequence;
        }
        i = i + 1;
    }
    assert(s.take(i as int) =~= s);
    best
}

impl Default for TextHistory {
    /// An empty in-memory history with the default unpinned limit.
    fn default() -> (history: Self)
        ensures
            history.wf(),
            history@ == (HistoryView {
                items: seq![],
                next_id: Some(0),
                next_sequence: Some(0),
                unpinned_limit: DEFAULT_UNPINNED_LIMIT as nat,
                persistent: false,
                pending: seq![],
                generation: 0,
            }),
    {
        Self::in_memory(DEFAULT_UNPINNED_LIMIT)
    }
}

impl TextHistory {
    /// The invariant every history keeps.
    pub open spec fn wf(&self) -> bool {
        history_wf(self@)
    }

    /// A history over loaded items, sorted into history order with retention
    /// applied. The identifiers and sequences handed out next are past the
    /// largest ones among `items`. When the history is persistent, items
    /// removed by retention are queued for deletion.
    pub fn from_items(items: Vec<HistoryItem>, unpinned_limit: usize, persistent: bool) -> (history:
        Self)
        ensures
            history.wf(),
            history@ == loaded(item_views(items@), unpinned_limit as nat, persistent),
    {
        let ghost input = item_views(items@);
        let next_id = next_value_of_ids(&items);
        let next_sequence = next_value_of_sequences(&items);
        let sorted = sort_items(items);
        proof {
            lemma_sort_history(input);
            lemma_max_id(input);
            lemma_newest(input);
            assert(below_counters(input, next_id, next_sequence));
            lemma_contains_same_items(input, sort_history(input));
            lemma_below_subset(input, sort_history(input), next_id, next_sequence);
        }
        let mut history = Self {
            items: sorted,
            next_id,
            next_sequence,
            unpinned_limit,
            persistent,
            pending: Vec::new(),
            generation: 0,
        };
        let removed_ids = history.enforce_retention();
        let ghost removed = id_values(removed_ids@);
        assert(history@.pending.len() == 0);
        assert(history.pending@.len() == 0);
        if removed_ids.len() > 0 && history.persistent {
            let mutation = PersistenceMutation::Delete { removed_ids };
            assert(mutation@ == MutationView::Delete { removed_ids: removed });
            history.pending.push(mutation);
            assert(history@.pending =~= seq![MutationView::Delete { removed_ids: removed }]);
        } else {
            assert(history@.pending =~= Seq::<MutationView>::empty());
        }
        history
    }

    /// An empty history that keeps at most `unpinned_limit` unpinned items
    /// and queues nothing for a database.
    pub fn in_memory(unpinned_limit: usize) -> (history: Self)
        ensures
            history.wf(),
            history@ == (HistoryView {
                items: seq![],
                next_id: Some(0),
                next_sequence: Some(0),
                unpinned_limit: unpinned_limit as nat,
                persistent: false,
                pending: seq![],
                generation: 0,
            }),
    {
        let history = Self {
            items: Vec::new(),
            next_id: Some(0),
            next_sequence: Some(0),
            unpinned_limit,
            persistent: false,
            pending: Vec::new(),
            generation: 0,
        };
        proof {
            assert(item_views(history.items@) =~= Seq::<ItemView>::empty());
            assert(history@.pending =~= Seq::<MutationView>::empty());
        }
        history
    }

    /// Records copied text. Text equal to an existing entry's moves that
    /// entry to the front of its group (or leaves the history alone when it
    /// is already the newest); new text becomes a new unpinned entry at the
    /// front of the unpinned group, and retention then applies.
    pub fn record(&mut self, text: String) -> (update: HistoryUpdate)
        requires
            old(self).wf(),
        ensures
            final(self).wf(),
            (final(self)@, update) == record_outcome(old(self)@, text@),
    {
        let found = position_of_text(&self.items, &text);
        self.capture(Ghost(text_is(text@)), found, HistoryPayload::Text(text))
    }

    /// Records a copied image; an entry with the same content hash is the
    /// same image.
    pub fn record_image(&mut self, image: ImageData) -> (update: HistoryUpdate)
        requires
            old(self).wf(),
        ensures
            final(self).wf(),
            (final(self)@, update) == record_image_outcome(old(self)@, image@),
    {
        let found = position_of_image(self.items.as_slice(), image.content_hash_string());
        self.capture(Ghost(image_hash_is(image@.content_hash)), found, HistoryPayload::Image(image))
    }

    /// The entries, in history order.
    pub fn items(&self) -> (items: &[HistoryItem])
        ensures
            item_views(items@) == self@.items,
    {
        self.items.as_slice()
    }

    /// The entries `query` shows, in history order; the history itself is
    /// not touched.
    pub fn search(&self, query: &HistoryQuery) -> (shown: Vec<&HistoryItem>)
        ensures
            shown@.map_values(|item: &HistoryItem| item@) == query_results(query@, self@.items),
    {
        query.filter(self.items.as_slice())
    }

    /// The first entry with identifier `id`.
    pub fn item(&self, id: HistoryItemId) -> (item: Option<&HistoryItem>)
        ensures
            match item {
                Some(found) => {
                    let i = first_index(self@.items, id_is(id@));
                    i >= 0 && found@ == self@.items[i]
                },
                None => first_index(self@.items, id_is(id@)) < 0,
            },
    {
        match position_of_id(&self.items, id) {
            Some(index) => {
                proof {
                    lemma_first_index_bounds(self@.items, id_is(id@));
                }
                Some(&self.items[index])
            },
            None => None,
        }
    }

    /// Whether any entry is unpinned.
    pub fn has_unpinned(&self) -> (any: bool)
        ensures
            any == (unpinned_count(self@.items) > 0),
    {
        let ghost s = self@.items;
        let mut i: usize = 0;
        while i < self.items.len()
            invariant
                i <= s.len(),
                s == self@.items,
                unpinned_count(s.take(i as int)) == 0,
            decreases self.items.len() - i,
        {
            assert(s.take(i + 1).drop_last() =~= s.take(i as int));
            if !self.items[i].is_pinned() {
                proof {
                    assert(s.take(i + 1) + s.skip(i + 1) =~= s);
                    lemma_unpinned_count_add(s.take(i + 1), s.skip(i + 1));
                }
                return true;
            }
            i = i + 1;
        }
        assert(s.take(i as int) =~= s);
        false
    }

    /// How many bulk clears have happened; work started before a clear
    /// compares it to tell that its result is stale.
    pub fn generation(&self) -> (generation: u64)
        ensures
            generation == self@.generation,
    {
        self.generation
    }

    pub fn unpinned_limit(&self) -> (limit: usize)
        ensures
            limit == self@.unpinned_limit,
    {
        self.unpinned_limit
    }

    /// Hands the queued database changes to the caller, oldest first.
    pub fn take_mutations(&mut self) -> (mutations: Vec<PersistenceMutation>)
        ensures
            mutations@.map_values(|m: PersistenceMutation| m@) == old(self)@.pending,
            final(self)@ == (HistoryView { pending: seq![], ..old(self)@ }),
    {
        let mut taken: Vec<PersistenceMutation> = Vec::new();
        std::mem::swap(&mut taken, &mut self.pending);
        proof {
            assert(self@.pending =~= Seq::<MutationView>::empty());
        }
        taken
    }

    /// Stops queueing changes for the database; later changes stay in memory.
    pub fn shutdown_persistence(&mut self)
        ensures
            final(self)@ == (HistoryView { persistent: false, ..old(self)@ }),
    {
        self.persistent = false;
    }

    /// Pins the first entry with identifier `id`, exempting it from
    /// retention and moving it into the pinned group; its own recency is kept.
    pub fn pin(&mut self, id: HistoryItemId) -> (change: HistoryChange)
        requires
            old(self).wf(),
        ensures
            final(self).wf(),
            (final(self)@, change) == set_pinned_outcome(old(self)@, id@, true),
    {
        self.set_pinned(id, true)
    }

    /// Returns the first entry with identifier `id` to the unpinned group,
    /// where retention applies to it again at once.
    pub fn unpin(&mut self, id: HistoryItemId) -> (change: HistoryChange)
        requires
            old(self).wf(),
        ensures
            final(self).wf(),
            (final(self)@, change) == set_pinned_outcome(old(self)@, id@, false),
    {
        self.set_pinned(id, false)
    }

    fn set_pinned(&mut self, id: HistoryItemId, pinned: bool) -> (change: HistoryChange)
        requires
            old(self).wf(),
        ensures
            final(self).wf(),
            (final(self)@, change) == set_pinned_outcome(old(self)@, id@, pinned),
    {
        let ghost v = self@;
        let ghost s = self@.items;
        let found = position_of_id(&self.items, id);
        proof {
            lemma_first_index_bounds(s, id_is(id@));
        }
        let index = match found {
            Some(index) => index,
            None => {
                return HistoryChange::Rejected;
            },
        };
        if self.items[index].is_pinned() == pinned {
            return HistoryChange::Rejected;
        }
        let ghost before = self.items@;
        let mut item = self.items.remove(index);
        item.set_pinned(pinned);
        let copy = item.duplicate();
        let ghost changed = item@;
        proof {
            lemma_views_remove(before, index as int);
            lemma_remove_ordered(s, index as int);
        }
        let at = placement_index(&self.items, &item);
        let ghost rest = self@.items;
        let ghost before_insert = self.items@;
        let ghost item_value = item;
        proof {
            lemma_placement_bounds(item_views(before_insert), item_value@);
        }
        self.items.insert(at, item);
        proof {
            lemma_views_insert(before_insert, at as int, item_value);
            lemma_place_ordered(rest, changed);
            lemma_contains_inserted(rest, place(rest, changed), changed);
            lemma_below_subset(s, rest, v.next_id, v.next_sequence);
            assert(s[index as int].id == changed.id);
            lemma_below_insert(rest, place(rest, changed), changed, v.next_id, v.next_sequence);
        }
        let removed_ids = self.enforce_retention();
        self.persist(PersistenceMutation::Upsert { item: copy, removed_ids });
        HistoryChange::Applied
    }

    /// Deletes the first entry with identifier `id`.
    pub fn delete(&mut self, id: HistoryItemId) -> (change: HistoryChange)
        requires
            old(self).wf(),
        ensures
            final(self).wf(),
            (final(self)@, change) == delete_outcome(old(self)@, id@),
    {
        let ghost v = self@;
        let ghost s = self@.items;
        let found = position_of_id(&self.items, id);
        proof {
            lemma_first_index_bounds(s, id_is(id@));
        }
        let index = match found {
            Some(index) => index,
            None => {
                return HistoryChange::Rejected;
            },
        };
        let ghost before = self.items@;
        self.items.remove(index);
        proof {
            lemma_views_remove(before, index as int);
            lemma_remove_ordered(s, index as int);
            lemma_unpinned_count_remove(s, index as int);
            lemma_below_subset(s, self@.items, v.next_id, v.next_sequence);
        }
        let removed_ids = vec![id];
        assert(id_values(removed_ids@) =~= seq![id@]);
        self.persist(PersistenceMutation::Delete { removed_ids });
        HistoryChange::Applied
    }

    fn bump_generation(&mut self)
        ensures
            final(self)@ == (HistoryView { generation: next_generation(old(self)@.generation), ..old(self)@ }),
    {
        if self.generation == u64::MAX {
            self.generation = 0;
        } else {
            self.generation = self.generation + 1;
        }
    }

    /// Removes every unpinned entry; pinned entries are always kept.
    pub fn clear_unpinned(&mut self) -> (change: HistoryChange)
        requires
            old(self).wf(),
        ensures
            final(self).wf(),
            (final(self)@, change) == clear_unpinned_outcome(old(self)@),
    {
        if !self.has_unpinned() {
            return HistoryChange::Rejected;
        }
        let ghost v = self@;
        let mut rest: Vec<HistoryItem> = Vec::new();
        std::mem::swap(&mut rest, &mut self.items);
        let ghost orig = item_views(rest@);
        let mut kept: Vec<HistoryItem> = Vec::new();
        assert(orig.skip(0) =~= orig);
        assert(orig.take(0) =~= Seq::<ItemView>::empty());
        while rest.len() > 0
            invariant
                rest@.len() <= orig.len(),
                item_views(rest@) == orig.skip(orig.len() - rest@.len()),
                item_views(kept@) == pinned_items(orig.take(orig.len() - rest@.len())),
            decreases rest.len(),
        {
            let ghost k = orig.len() - rest@.len();
            let ghost before_rest = rest@;
            let ghost before_kept = kept@;
            let x = rest.remove(0);
            assert(x@ == orig[k]) by {
                assert(item_views(before_rest)[0] == orig.skip(k)[0]);
            }
            assert(item_views(rest@) =~= orig.skip(k + 1)) by {
                assert(rest@ =~= before_rest.remove(0));
                lemma_views_remove(before_rest, 0);
                assert(orig.skip(k).remove(0) =~= orig.skip(k + 1));
            }
            assert(orig.take(k + 1).drop_last() =~= orig.take(k));
            assert(orig.take(k + 1).last() == orig[k]);
            if x.is_pinned() {
                kept.push(x);
                assert(item_views(kept@) =~= item_views(before_kept).push(orig[k]));
            }
        }
        assert(orig.take(orig.len() as int) =~= orig);
        self.items = kept;
        proof {
            lemma_pinned_items(orig);
            lemma_below_subset(orig, self@.items, v.next_id, v.next_sequence);
        }
        self.persist(PersistenceMutation::ClearUnpinned);
        self.bump_generation();
        HistoryChange::Applied
    }

    /// Removes every entry, pinned ones included.
    pub fn clear_all(&mut self) -> (change: HistoryChange)
        requires
            old(self).wf(),
        ensures
            final(self).wf(),
            (final(self)@, change) == clear_all_outcome(old(self)@),
    {
        if self.items.len() == 0 {
            return HistoryChange::Rejected;
        }
        self.items = Vec::new();
        assert(self@.items =~= Seq::<ItemView>::empty());
        self.persist(PersistenceMutation::ClearAll);
        self.bump_generation();
        HistoryChange::Applied
    }

    /// Changes the unpinned limit; retention applies at once.
    pub fn set_unpinned_limit(&mut self, unpinned_limit: usize)
        requires
            old(self).wf(),
        ensures
            final(self).wf(),
            final(self)@ == set_limit_outcome(old(self)@, unpinned_limit as nat),
    {
        self.unpinned_limit = unpinned_limit;
        let removed_ids = self.enforce_retention();
        if removed_ids.len() > 0 {
            self.persist(PersistenceMutation::Delete { removed_ids });
        }
    }

    /// Queues `mutation` for the database when the history is persistent.
    fn persist(&mut self, mutation: PersistenceMutation)
        ensures
            final(self)@ == (HistoryView { pending: persisted(old(self)@, mutation@), ..old(self)@ }),
    {
        if self.persistent {
            let ghost before = self.pending@;
            self.pending.push(mutation);
            assert(self.pending@.map_values(|m: PersistenceMutation| m@) =~= before.map_values(
                |m: PersistenceMutation| m@,
            ).push(mutation@));
        }
    }

    /// Records a payload: `found` is where the first entry with the same
    /// content is, by the matching rule `matches`.
    fn capture(
        &mut self,
        Ghost(matches): Ghost<spec_fn(ItemView) -> bool>,
        found: Option<usize>,
        payload: HistoryPayload,
    ) -> (update: HistoryUpdate)
        requires
            old(self).wf(),
            found_at(old(self)@.items, matches, found),
        ensures
            final(self).wf(),
            (final(self)@, update) == capture_outcome(old(self)@, matches, payload@),
    {
        let ghost v = self@;
        let ghost s = self@.items;
        proof {
            lemma_first_index_bounds(s, matches);
        }
        match found {
            Some(index) => {
                let newest_value = newest_sequence_of(&self.items);
                if self.items[index].last_used_sequence() == newest_value {
                    return HistoryUpdate::Unchanged;
                }
                match take_next(&mut self.next_sequence) {
                    None => HistoryUpdate::Unchanged,
                    Some(sequence) => {
                        let ghost before = self.items@;
                        let mut item = self.items.remove(index);
                        item.set_last_used_sequence(sequence);
                        let copy = item.duplicate();
                        let ghost moved = item@;
                        proof {
                            lemma_views_remove(before, index as int);
                            lemma_remove_ordered(s, index as int);
                        }
                        let at = placement_index(&self.items, &item);
                        let ghost rest = self@.items;
                        let ghost before_insert = self.items@;
                        let ghost item_value = item;
                        proof {
                            lemma_placement_bounds(item_views(before_insert), item_value@);
                        }
                        self.items.insert(at, item);
                        proof {
                            lemma_views_insert(before_insert, at as int, item_value);
                            lemma_place_ordered(rest, moved);
                            lemma_unpinned_count_remove(s, index as int);
                            lemma_placement_bounds(rest, moved);
                            lemma_unpinned_count_insert(rest, placement(rest, moved), moved);
                            lemma_contains_inserted(rest, place(rest, moved), moved);
                            lemma_below_advance(s, v.next_id, v.next_sequence);
                            lemma_below_subset(s, rest, v.next_id, advance(v.next_sequence));
                            lemma_below_insert(rest, place(rest, moved), moved, v.next_id, advance(v.next_sequence));
                        }
                        let no_ids: Vec<HistoryItemId> = Vec::new();
                        assert(id_values(no_ids@) =~= Seq::<i64>::empty());
                        self.persist(PersistenceMutation::Upsert { item: copy, removed_ids: no_ids });
                        HistoryUpdate::MovedToFront
                    },
                }
            },
            None => {
                let id = take_next(&mut self.next_id);
                let sequence = take_next(&mut self.next_sequence);
                match (id, sequence) {
                    (Some(id), Some(sequence)) => {
                        let item = HistoryItem::with_payload(
                            HistoryItemId::new(id),
                            payload,
                            sequence,
                            sequence,
                            false,
                        );
                        let copy = item.duplicate();
                        let ghost fresh = item@;
                        let at = placement_index(&self.items, &item);
                        let ghost before_insert = self.items@;
                        let ghost item_value = item;
                        proof {
                            lemma_placement_bounds(item_views(before_insert), item_value@);
                        }
                        self.items.insert(at, item);
                        proof {
                            lemma_views_insert(before_insert, at as int, item_value);
                            lemma_place_ordered(s, fresh);
                            lemma_contains_inserted(s, place(s, fresh), fresh);
                            lemma_below_advance(s, v.next_id, v.next_sequence);
                            lemma_below_insert(s, place(s, fresh), fresh, advance(v.next_id), advance(v.next_sequence));
                        }
                        let removed_ids = self.enforce_retention();
                        self.persist(PersistenceMutation::Upsert { item: copy, removed_ids });
                        HistoryUpdate::Inserted
                    },
                    _ => HistoryUpdate::Unchanged,
                }
            },
        }
    }

    /// Removes unpinned items past the limit, oldest last, and returns their
    /// identifiers, last one first.
    fn enforce_retention(&mut self) -> (removed_ids: Vec<HistoryItemId>)
        requires
            history_order(old(self)@.items),
            below_counters(old(self)@.items, old(self)@.next_id, old(self)@.next_sequence),
        ensures
            final(self)@ == (HistoryView {
                items: retained(old(self)@.items, old(self)@.unpinned_limit),
                ..old(self)@
            }),
            id_values(removed_ids@) == evicted_ids(old(self)@.items, old(self)@.unpinned_limit),
            final(self).wf(),
    {
        let ghost orig = self@.items;
        let ghost limit = self@.unpinned_limit;
        let mut forward: Vec<HistoryItemId> = Vec::new();
        let mut i: usize = 0;
        let mut j: usize = 0;
        let mut unpinned_seen: usize = 0;
        assert(orig.len() == self.items.len());
        while i < self.items.len()
            invariant
                orig.len() == self@.items.len() + (j - i),
                orig.len() <= usize::MAX,
                i <= j <= orig.len(),
                i <= self@.items.len(),
                limit == self.unpinned_limit,
                self@.items.take(i as int) == retained(orig.take(j as int), limit),
                forall|k: int| 0 <= k < self@.items.len() - i ==> #[trigger] self@.items[i + k] == orig[j + k],
                unpinned_seen == unpinned_count(orig.take(j as int)),
                unpinned_seen <= j,
                id_values(forward@) == ids_of(evicted(orig.take(j as int), limit)),
                self@ == (HistoryView { items: self@.items, ..old(self)@ }),
            decreases self.items.len() - i,
        {
            let ghost before = self@.items;
            let ghost x = orig[j as int];
            assert(before[i + 0] == orig[j + 0]);
            assert(orig.take(j + 1).drop_last() =~= orig.take(j as int));
            assert(orig.take(j + 1).last() == x);
            if self.items[i].is_pinned() {
                proof {
                    assert(before.take(i + 1) =~= before.take(i as int).push(x));
                    assert forall|k: int| 0 <= k < before.len() - (i + 1) implies #[trigger] before[i + 1 + k] == orig[j + 1 + k] by {
                        assert(before[i + (k + 1)] == orig[j + (k + 1)]);
                    }
                }
                i = i + 1;
            } else {
                unpinned_seen = unpinned_seen + 1;
                if unpinned_seen > self.unpinned_limit {
                    let ghost before_items = self.items@;
                    let removed = self.items.remove(i);
                    let ghost forward_before = forward@;
                    let removed_id = removed.id();
                    forward.push(removed_id);
                    proof {
                        lemma_views_remove(before_items, i as int);
                        assert(self@.items =~= before.remove(i as int));
                        assert(self@.items.take(i as int) =~= before.take(i as int));
                        assert forall|k: int| 0 <= k < self@.items.len() - i implies #[trigger] self@.items[i + k] == orig[j + 1 + k] by {
                            assert(before[i + (k + 1)] == orig[j + (k + 1)]);
                        }
                        assert(evicted(orig.take(j + 1), limit) == evicted(orig.take(j as int), limit).push(x));
                        assert(removed@ == x);
                        assert(forward@ == forward_before.push(removed_id));
                        assert(id_values(forward@) =~= id_values(forward_before).push(x.id));
                        assert(ids_of(evicted(orig.take(j as int), limit).push(x)) =~= ids_of(
                            evicted(orig.take(j as int), limit),
                        ).push(x.id));
                    }
                } else {
                    proof {
                        assert(before.take(i + 1) =~= before.take(i as int).push(x));
                        assert forall|k: int| 0 <= k < before.len() - (i + 1) implies #[trigger] before[i + 1 + k] == orig[j + 1 + k] by {
                            assert(before[i + (k + 1)] == orig[j + (k + 1)]);
                        }
                    }
                    i = i + 1;
                }
            }
            j = j + 1;
        }
        proof {
            assert(j == orig.len());
            assert(orig.take(j as int) =~= orig);
            assert(self@.items =~= self@.items.take(i as int));
        }
        let mut removed_ids: Vec<HistoryItemId> = Vec::new();
        let mut k = forward.len();
        while k > 0
            invariant
                k <= forward@.len(),
                id_values(removed_ids@) == id_values(forward@).subrange(k as int, forward@.len() as int).reverse(),
            decreases k,
        {
            k = k - 1;
            let ghost before = removed_ids@;
            removed_ids.push(forward[k]);
            assert(id_values(removed_ids@) =~= id_values(forward@).subrange(k as int, forward@.len() as int).reverse()) by {
                assert(id_values(removed_ids@) =~= id_values(before).push(forward@[k as int]@));
            }
        }
        proof {
            lemma_retained(orig, limit);
            assert(id_values(forward@).subrange(0, forward@.len() as int) =~= id_values(forward@));
            lemma_below_subset(orig, self@.items, self@.next_id, self@.next_sequence);

        }
        removed_ids
    }
}

fn next_value_of_ids(items: &Vec<HistoryItem>) -> (next: Option<i64>)
    ensures
        next == next_after(items@.len(), max_id(item_views(items@))),
{
    let ghost s = item_views(items@);
    let mut best: i64 = i64::MIN;
    let mut i: usize = 0;
    while i < items.len()
        invariant
            i <= items@.len(),
            s == item_views(items@),
            best == max_id(s.take(i as int)),
        decreases items.len() - i,
    {
        assert(s.take(i + 1).drop_last() =~= s.take(i as int));
        let id = items[i].id().value();
        if id > best {
            best = id;
        }
        i = i + 1;
    }
    assert(s.take(i as int) =~= s);
    if items.len() == 0 {
        Some(0)
    } else {
        best.checked_add(1)
    }
}

fn next_value_of_sequences(items: &Vec<HistoryItem>) -> (next: Option<i64>)
    ensures
        next == next_after(items@.len(), newest(item_views(items@))),
{
    let best = newest_sequence_of(items);
    if items.len() == 0 {
        Some(0)
    } else {
        best.checked_add(1)
    }
}

} // verus!
