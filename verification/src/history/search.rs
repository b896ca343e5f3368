//! Case-insensitive substring search over the loaded history.
//!
//! An empty query shows every entry. A non-empty query only matches text
//! entries: images have no searchable text (no recognised characters, file
//! names, hashes or other metadata).
use vstd::prelude::*;

use super::model::{HistoryItem, ItemView, PayloadView};
use super::service::item_views;
use crate::text::{
    all_ascii, ascii_lowercase, chars_of, contains_chars, contains_ignore_ascii_case, contains_ignoring_ascii_case,
    contains_seq, is_ascii_chars, law_ascii_search_agrees_with_lowercasing, occurs_at, lemma_trim_idempotent, to_lowercase, trim, trim_chars,
    unicode_lowercase,
};

verus! {

broadcast use vstd::seq::Seq::lemma_filter_push;

/// A search over history entries.
#[derive(Clone, Debug, Default, Eq, PartialEq)]
pub struct HistoryQuery {
    needle: String,
}

impl View for HistoryQuery {
    type V = Seq<char>;

    /// The lower-cased, trimmed text searched for.
    closed spec fn view(&self) -> Seq<char> {
        self.needle@
    }
}

/// Whether `haystack` contains `lowercase_needle`, ignoring case: when both
/// are ASCII, ASCII letters compare without case; otherwise the lower-cased
/// haystack must contain the needle.
pub open spec fn contains_ignoring_case(haystack: Seq<char>, lowercase_needle: Seq<char>) -> bool {
    if lowercase_needle.len() == 0 {
        true
    } else if all_ascii(haystack) && all_ascii(lowercase_needle) {
        contains_ignore_ascii_case(haystack, lowercase_needle)
    } else {
        contains_seq(unicode_lowercase(haystack), lowercase_needle)
    }
}

/// Whether a query with this needle shows the entry.
pub open spec fn query_matches(needle: Seq<char>, item: ItemView) -> bool {
    ||| needle.len() == 0
    ||| match item.payload {
        PayloadView::Text(text) => contains_ignoring_case(text, needle),
        PayloadView::Image(_) => false,
    }
}

/// The shown entries, in order.
pub open spec fn query_results(needle: Seq<char>, items: Seq<ItemView>) -> Seq<ItemView> {
    items.filter(|item: ItemView| query_matches(needle, item))
}

fn text_contains_ignoring_case(haystack: &str, lowercase_needle: &str) -> (found: bool)
    ensures
        found == contains_ignoring_case(haystack@, lowercase_needle@),
{
    if lowercase_needle.is_empty() {
        return true;
    }
    let h = chars_of(haystack);
    let n = chars_of(lowercase_needle);
    if is_ascii_chars(&h) && is_ascii_chars(&n) {
        return contains_ignoring_ascii_case(&h, &n);
    }
    let lowered = to_lowercase(haystack);
    let l = chars_of(lowered.as_str());
    contains_chars(&l, &n)
}

impl HistoryQuery {
    /// A query for `raw`, trimmed and lower-cased. It is empty exactly when
    /// `raw` is empty or white space only.
    pub fn new(raw: &str) -> (query: Self)
        ensures
            query@ == unicode_lowercase(trim(raw@)),
            query@.len() == 0 <==> trim(raw@).len() == 0,
            all_ascii(trim(raw@)) ==> query@ == ascii_lowercase(trim(raw@)),
    {
        let chars = chars_of(raw);
        let trimmed = trim_chars(&chars);
        Self { needle: to_lowercase(trimmed.as_str()) }
    }

    pub fn is_empty(&self) -> (empty: bool)
        ensures
            empty == (self@.len() == 0),
    {
        self.needle.as_str().is_empty()
    }

    pub fn matches(&self, item: &HistoryItem) -> (shown: bool)
        ensures
            shown == query_matches(self@, item@),
    {
        if self.is_empty() {
            return true;
        }
        match item.as_text() {
            Some(text) => text_contains_ignoring_case(text, self.needle.as_str()),
            None => false,
        }
    }

    /// The entries the query shows, in their order.
    pub fn filter<'items>(&self, items: &'items [HistoryItem]) -> (shown: Vec<&'items HistoryItem>)
        ensures
            shown@.map_values(|item: &HistoryItem| item@) == query_results(self@, item_views(items@)),
    {
        let ghost s = item_views(items@);
        let ghost pred = |item: ItemView| query_matches(self@, item);
        let mut shown: Vec<&'items HistoryItem> = Vec::new();
        let mut i: usize = 0;
        assert(s.take(0) =~= Seq::<ItemView>::empty());
        assert(Seq::<ItemView>::empty().filter(pred) =~= Seq::<ItemView>::empty()) by {
            reveal(Seq::filter);
        }
        while i < items.len()
            invariant
                i <= items@.len(),
                s == item_views(items@),
                pred == (|item: ItemView| query_matches(self@, item)),
                shown@.map_values(|item: &HistoryItem| item@) == s.take(i as int).filter(pred),
            decreases items.len() - i,
        {
            let item = &items[i];
            assert(s.take(i + 1) =~= s.take(i as int).push(item@));
            let ghost before = shown@;
            if self.matches(item) {
                shown.push(item);
                assert(shown@.map_values(|item: &HistoryItem| item@) =~= before.map_values(
                    |item: &HistoryItem| item@,
                ).push(item@));
            }
            i = i + 1;
        }
        assert(s.take(i as int) =~= s);
        shown
    }
}

/// A query ignores white space around it: the text searched for is the same
/// for `raw` and for `raw` trimmed.
pub proof fn law_query_ignores_surrounding_white_space(raw: Seq<char>)
    ensures
        unicode_lowercase(trim(trim(raw))) == unicode_lowercase(trim(raw)),
{
    lemma_trim_idempotent(raw);
}

/// An empty query shows every entry, in order.
pub proof fn law_empty_query_shows_every_entry(items: Seq<ItemView>)
    ensures
        query_results(Seq::empty(), items) == items,
    decreases items.len(),
{
    if items.len() == 0 {
        assert(query_results(Seq::empty(), items) =~= items) by {
            reveal(Seq::filter);
        }
    } else {
        law_empty_query_shows_every_entry(items.drop_last());
        assert(items.drop_last().push(items.last()) =~= items);
    }
}

/// A non-empty query shows only text entries, and only ones that contain it.
pub proof fn law_query_shows_only_matching_text(needle: Seq<char>, items: Seq<ItemView>)
    requires
        needle.len() > 0,
    ensures
        forall|i: int|
            0 <= i < query_results(needle, items).len() ==> match #[trigger] query_results(
                needle,
                items,
            )[i].payload {
                PayloadView::Text(text) => contains_ignoring_case(text, needle),
                PayloadView::Image(_) => false,
            },
{
    let pred = |item: ItemView| query_matches(needle, item);
    assert forall|i: int| 0 <= i < query_results(needle, items).len() implies match #[trigger] query_results(
        needle,
        items,
    )[i].payload {
        PayloadView::Text(text) => contains_ignoring_case(text, needle),
        PayloadView::Image(_) => false,
    } by {
        items.lemma_filter_pred(pred, i);
    }
}

/// Every text contains the empty needle.
proof fn lemma_contains_empty(haystack: Seq<char>, needle: Seq<char>)
    requires
        needle.len() == 0,
    ensures
        contains_seq(haystack, needle),
{
    assert(haystack.subrange(0, 0) =~= needle);
    assert(occurs_at(haystack, needle, 0));
}

/// Searching ignores case by lower-casing the text: whatever characters a
/// text holds, it contains a lower-case needle ignoring case exactly when
/// its lower-cased form contains the needle. For text with a non-ASCII
/// character that is the text as `str::to_lowercase` lower-cases it; for
/// ASCII text with an ASCII needle it is the text with `A` to `Z` lowered.
/// So a non-empty query shows a text entry exactly when its lower-cased text
/// contains the query.
pub proof fn law_search_matches_lowercased_text(text: Seq<char>, needle: Seq<char>, item: ItemView)
    ensures
        !all_ascii(text) ==> (contains_ignoring_case(text, needle) == contains_seq(
            unicode_lowercase(text),
            needle,
        )),
        all_ascii(text) && all_ascii(needle) && ascii_lowercase(needle) == needle ==> (
        contains_ignoring_case(text, needle) == contains_seq(ascii_lowercase(text), needle)),
        item.payload == PayloadView::Text(text) && !all_ascii(text) && needle.len() > 0 ==> (
        query_matches(needle, item) == contains_seq(unicode_lowercase(text), needle)),
{
    if needle.len() == 0 {
        lemma_contains_empty(unicode_lowercase(text), needle);
        lemma_contains_empty(ascii_lowercase(text), needle);
    } else if all_ascii(text) && all_ascii(needle) && ascii_lowercase(needle) == needle {
        law_ascii_search_agrees_with_lowercasing(text, needle);
    }
}

} // verus!
