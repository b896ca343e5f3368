use std::collections::BTreeMap;

use lionclip::history::repository::PersistenceMutation;
use lionclip::history::service::DEFAULT_UNPINNED_LIMIT;
use lionclip::history::{
    HistoryChange, HistoryItemId, HistoryQuery, HistoryUpdate, TextHistory, TextHistoryItem,
};

/// Stands in for the database: applies the changes a persistent history
/// queues, the way the database worker does, and hands the rows back on the
/// next start.
#[derive(Default)]
struct MemoryStore {
    rows: BTreeMap<i64, TextHistoryItem>,
}

impl MemoryStore {
    fn apply(&mut self, mutations: Vec<PersistenceMutation>) {
        for mutation in mutations {
            match mutation {
                PersistenceMutation::Upsert { item, removed_ids } => {
                    self.rows.insert(item.id().value(), item);
                    for id in removed_ids {
                        self.rows.remove(&id.value());
                    }
                }
                PersistenceMutation::Delete { removed_ids } => {
                    for id in removed_ids {
                        self.rows.remove(&id.value());
                    }
                }
                PersistenceMutation::ClearUnpinned => {
                    self.rows.retain(|_, item| item.is_pinned());
                }
                PersistenceMutation::ClearAll => self.rows.clear(),
            }
        }
    }

    fn open(&self, limit: usize) -> TextHistory {
        let items = self.rows.values().cloned().collect();
        TextHistory::from_items(items, limit, true)
    }

    fn close(&mut self, mut history: TextHistory) {
        let pending = history.take_mutations();
        self.apply(pending);
    }
}

fn texts(history: &TextHistory) -> Vec<&str> {
    history.items().iter().map(TextHistoryItem::text).collect()
}

fn item(id: i64, text: &str, sequence: i64, pinned: bool) -> TextHistoryItem {
    TextHistoryItem::new(
        HistoryItemId::new(id),
        text.into(),
        sequence,
        sequence,
        pinned,
    )
}

#[test]
fn inserts_first_item() {
    let mut history = TextHistory::default();

    assert_eq!(history.record("first".into()), HistoryUpdate::Inserted);
    assert_eq!(texts(&history), ["first"]);
}

#[test]
fn newest_items_are_first() {
    let mut history = TextHistory::default();

    history.record("first".into());
    history.record("second".into());
    history.record("third".into());

    assert_eq!(texts(&history), ["third", "second", "first"]);
}

#[test]
fn duplicate_at_front_does_not_change_history() {
    let mut history = TextHistory::default();
    history.record("same".into());
    let original_id = history.items()[0].id();

    assert_eq!(history.record("same".into()), HistoryUpdate::Unchanged);
    assert_eq!(texts(&history), ["same"]);
    assert_eq!(history.items()[0].id(), original_id);
}

#[test]
fn recopy_moves_existing_logical_item_to_front() {
    let mut history = TextHistory::default();
    history.record("first".into());
    let first_id = history.items()[0].id();
    history.record("second".into());
    history.record("third".into());

    assert_eq!(history.record("first".into()), HistoryUpdate::MovedToFront);
    assert_eq!(texts(&history), ["first", "third", "second"]);
    assert_eq!(history.items()[0].id(), first_id);
}

#[test]
fn exact_content_defines_equality() {
    let mut history = TextHistory::default();

    for text in ["abc", " abc", "abc ", "abc\n", "abc\r\n"] {
        history.record(text.into());
    }

    assert_eq!(texts(&history), ["abc\r\n", "abc\n", "abc ", " abc", "abc"]);
}

#[test]
fn service_multiline_and_surrounding_whitespace_are_preserved() {
    let mut history = TextHistory::default();
    let exact = "  leading\n\tmiddle\ntrailing  \n";

    history.record(exact.into());

    assert_eq!(history.items()[0].text(), exact);
}

#[test]
fn in_memory_history_is_bounded() {
    let mut history = TextHistory::default();

    for index in 0..=DEFAULT_UNPINNED_LIMIT {
        history.record(format!("item {index}"));
    }

    assert_eq!(history.items().len(), DEFAULT_UNPINNED_LIMIT);
    assert_eq!(history.items()[0].text(), "item 500");
    assert_eq!(history.items()[DEFAULT_UNPINNED_LIMIT - 1].text(), "item 1");
}

#[test]
fn retention_removes_multiple_oldest_unpinned_items() {
    let history = TextHistory::from_items(
        vec![
            item(0, "oldest", 0, false),
            item(1, "older", 1, false),
            item(2, "newer", 2, false),
            item(3, "newest", 3, false),
        ],
        2,
        false,
    );

    assert_eq!(texts(&history), ["newest", "newer"]);
}

#[test]
fn pinned_items_survive_retention_without_counting_toward_limit() {
    let history = TextHistory::from_items(
        vec![
            item(0, "oldest pinned", 0, true),
            item(1, "old unpinned", 1, false),
            item(2, "new pinned", 2, true),
            item(3, "new unpinned", 3, false),
        ],
        1,
        false,
    );

    assert_eq!(
        texts(&history),
        ["new pinned", "oldest pinned", "new unpinned"]
    );
}

#[test]
fn pinned_items_are_ordered_before_unpinned_items_by_recency() {
    let mut history = TextHistory::default();
    history.record("first".into());
    let first_id = history.items()[0].id();
    history.record("second".into());
    let second_id = history.items()[0].id();
    history.record("third".into());

    assert_eq!(history.pin(first_id), HistoryChange::Applied);
    assert_eq!(texts(&history), ["first", "third", "second"]);

    assert_eq!(history.pin(second_id), HistoryChange::Applied);
    assert_eq!(texts(&history), ["second", "first", "third"]);
}

#[test]
fn pinning_an_already_pinned_or_unknown_item_changes_nothing() {
    let mut history = TextHistory::default();
    history.record("only".into());
    let id = history.items()[0].id();
    history.pin(id);
    let before = history.items().to_vec();

    assert_eq!(history.pin(id), HistoryChange::Rejected);
    assert_eq!(
        history.unpin(HistoryItemId::new(9_999)),
        HistoryChange::Rejected
    );
    assert_eq!(
        history.delete(HistoryItemId::new(9_999)),
        HistoryChange::Rejected
    );
    assert_eq!(history.items(), before);
}

#[test]
fn unpinning_returns_the_item_to_recency_order() {
    let mut history = TextHistory::default();
    history.record("first".into());
    let first_id = history.items()[0].id();
    history.record("second".into());
    history.pin(first_id);
    assert_eq!(texts(&history), ["first", "second"]);

    assert_eq!(history.unpin(first_id), HistoryChange::Applied);
    assert_eq!(texts(&history), ["second", "first"]);
}

#[test]
fn recopying_keeps_an_item_in_its_group_and_refreshes_recency() {
    let mut history = TextHistory::default();
    history.record("pinned".into());
    let pinned_id = history.items()[0].id();
    history.pin(pinned_id);
    history.record("older".into());
    history.record("newer".into());
    assert_eq!(texts(&history), ["pinned", "newer", "older"]);

    assert_eq!(history.record("older".into()), HistoryUpdate::MovedToFront);
    assert_eq!(texts(&history), ["pinned", "older", "newer"]);

    assert_eq!(history.record("pinned".into()), HistoryUpdate::MovedToFront);
    assert_eq!(texts(&history), ["pinned", "older", "newer"]);
    assert_eq!(history.items()[0].id(), pinned_id);
    assert_eq!(history.record("pinned".into()), HistoryUpdate::Unchanged);
}

#[test]
fn unpinning_can_drop_the_item_when_retention_is_already_full() {
    let mut history = TextHistory::from_items(
        vec![item(0, "pinned", 0, true), item(1, "unpinned", 1, false)],
        1,
        false,
    );

    assert_eq!(history.unpin(HistoryItemId::new(0)), HistoryChange::Applied);
    assert_eq!(texts(&history), ["unpinned"]);
}

#[test]
fn deleting_removes_only_the_requested_item() {
    let mut history = TextHistory::default();
    history.record("first".into());
    history.record("second".into());
    let second_id = history.items()[0].id();

    assert_eq!(history.delete(second_id), HistoryChange::Applied);
    assert_eq!(texts(&history), ["first"]);
    assert_eq!(history.item(second_id), None);
    assert_eq!(history.delete(second_id), HistoryChange::Rejected);
}

#[test]
fn clearing_removes_unpinned_items_and_keeps_pinned_items() {
    let mut history = TextHistory::default();
    history.record("keep".into());
    let keep_id = history.items()[0].id();
    history.pin(keep_id);
    history.record("drop one".into());
    history.record("drop two".into());

    assert_eq!(history.clear_unpinned(), HistoryChange::Applied);
    assert_eq!(texts(&history), ["keep"]);
    assert!(!history.has_unpinned());
    assert_eq!(history.clear_unpinned(), HistoryChange::Rejected);
}

#[test]
fn search_filters_the_loaded_history_without_changing_it() {
    let mut history = TextHistory::default();
    history.record("Alpha".into());
    history.record("beta".into());
    let before = history.items().to_vec();

    let matches = history.search(&HistoryQuery::new("ALPHA"));

    assert_eq!(
        matches
            .into_iter()
            .map(TextHistoryItem::text)
            .collect::<Vec<_>>(),
        ["Alpha"]
    );
    assert!(history.search(&HistoryQuery::new("")).len() == 2);
    assert_eq!(history.items(), before);
}

#[test]
fn service_persistence_survives_restart_with_order_dedup_and_stable_ids() {
    let mut store = MemoryStore::default();
    let mut history = store.open(DEFAULT_UNPINNED_LIMIT);
    history.record("A".into());
    let a_id = history.items()[0].id();
    history.record("B".into());
    history.record("C".into());
    history.record("A".into());
    assert_eq!(texts(&history), ["A", "C", "B"]);
    store.close(history);

    let mut reopened = store.open(DEFAULT_UNPINNED_LIMIT);
    assert_eq!(texts(&reopened), ["A", "C", "B"]);
    assert_eq!(reopened.items()[0].id(), a_id);
    reopened.record("D".into());
    assert_ne!(reopened.items()[0].id(), a_id);
    store.close(reopened);

    let reopened_again = store.open(DEFAULT_UNPINNED_LIMIT);
    assert_eq!(texts(&reopened_again), ["D", "A", "C", "B"]);
}

#[test]
fn service_exact_text_survives_worker_shutdown_and_restart() {
    let mut store = MemoryStore::default();
    let fixtures = [
        " leading",
        "trailing ",
        "blank\n\nlines",
        "tabs\tinside",
        "Unicode: Olá 🦁",
        "trailing newline\n",
    ];
    let mut history = store.open(DEFAULT_UNPINNED_LIMIT);
    for fixture in fixtures {
        history.record(fixture.into());
    }
    store.close(history);

    let reopened = store.open(DEFAULT_UNPINNED_LIMIT);
    assert_eq!(
        texts(&reopened),
        fixtures.into_iter().rev().collect::<Vec<_>>()
    );
}

#[test]
fn repository_retention_enforces_500_and_removes_oldest_at_501() {
    let mut store = MemoryStore::default();
    let mut history = store.open(DEFAULT_UNPINNED_LIMIT);
    for index in 0..DEFAULT_UNPINNED_LIMIT {
        history.record(format!("item {index}"));
    }
    store.close(history);

    let mut reopened = store.open(DEFAULT_UNPINNED_LIMIT);
    assert_eq!(reopened.items().len(), DEFAULT_UNPINNED_LIMIT);
    assert_eq!(
        reopened.items().last().map(TextHistoryItem::text),
        Some("item 0")
    );
    reopened.record("item 500".into());
    store.close(reopened);

    let reopened_again = store.open(DEFAULT_UNPINNED_LIMIT);
    assert_eq!(reopened_again.items().len(), DEFAULT_UNPINNED_LIMIT);
    assert_eq!(reopened_again.items()[0].text(), "item 500");
    assert!(
        reopened_again
            .items()
            .iter()
            .all(|item| item.text() != "item 0")
    );
}

#[test]
fn startup_retention_removes_overflow_but_preserves_pinned_item_in_database() {
    let mut store = MemoryStore::default();
    let mut writes = Vec::new();
    for index in 0..5 {
        writes.push(PersistenceMutation::Upsert {
            item: item(index, &format!("item {index}"), index, index == 0),
            removed_ids: Vec::new(),
        });
    }
    store.apply(writes);

    let history = store.open(2);
    assert_eq!(texts(&history), ["item 0", "item 4", "item 3"]);
    store.close(history);

    let reopened = store.open(2);
    assert_eq!(texts(&reopened), ["item 0", "item 4", "item 3"]);
}

#[test]
fn service_pin_and_unpin_survive_restart() {
    let mut store = MemoryStore::default();
    let mut history = store.open(DEFAULT_UNPINNED_LIMIT);
    history.record("pin me".into());
    let pinned_id = history.items()[0].id();
    history.record("other".into());
    history.pin(pinned_id);
    store.close(history);

    let mut reopened = store.open(DEFAULT_UNPINNED_LIMIT);
    assert_eq!(texts(&reopened), ["pin me", "other"]);
    assert!(reopened.items()[0].is_pinned());
    assert_eq!(reopened.items()[0].id(), pinned_id);
    reopened.unpin(pinned_id);
    store.close(reopened);

    let reopened_again = store.open(DEFAULT_UNPINNED_LIMIT);
    assert_eq!(texts(&reopened_again), ["other", "pin me"]);
    assert!(reopened_again.items().iter().all(|item| !item.is_pinned()));
}

#[test]
fn pinned_items_are_exempt_from_retention_across_restart() {
    let mut store = MemoryStore::default();
    let mut history = store.open(2);
    history.record("pinned".into());
    let pinned_id = history.items()[0].id();
    history.pin(pinned_id);
    for index in 0..5 {
        history.record(format!("item {index}"));
    }
    assert_eq!(texts(&history), ["pinned", "item 4", "item 3"]);
    store.close(history);

    let reopened = store.open(2);
    assert_eq!(texts(&reopened), ["pinned", "item 4", "item 3"]);
}

#[test]
fn service_deletion_is_persisted() {
    let mut store = MemoryStore::default();
    let mut history = store.open(DEFAULT_UNPINNED_LIMIT);
    history.record("keep".into());
    history.record("remove".into());
    let removed_id = history.items()[0].id();
    assert_eq!(history.delete(removed_id), HistoryChange::Applied);
    store.close(history);

    let reopened = store.open(DEFAULT_UNPINNED_LIMIT);
    assert_eq!(texts(&reopened), ["keep"]);
}

#[test]
fn service_clearing_unpinned_history_is_persisted() {
    let mut store = MemoryStore::default();
    let mut history = store.open(DEFAULT_UNPINNED_LIMIT);
    history.record("pinned".into());
    let pinned_id = history.items()[0].id();
    history.pin(pinned_id);
    for index in 0..3 {
        history.record(format!("item {index}"));
    }
    assert_eq!(history.clear_unpinned(), HistoryChange::Applied);
    assert_eq!(texts(&history), ["pinned"]);
    store.close(history);

    let mut reopened = store.open(DEFAULT_UNPINNED_LIMIT);
    assert_eq!(texts(&reopened), ["pinned"]);
    reopened.record("after clear".into());
    store.close(reopened);

    let reopened_again = store.open(DEFAULT_UNPINNED_LIMIT);
    assert_eq!(texts(&reopened_again), ["pinned", "after clear"]);
}
