use lionclip::history::repository::PersistenceMutation;
use lionclip::history::{
    HistoryChange, HistoryItemId, HistoryUpdate, ImageData, ImageMime, TextHistory,
    TextHistoryItem,
};

fn image(hash: char) -> ImageData {
    ImageData::new(hash.to_string().repeat(64), ImageMime::Png, 10, 4, 3)
}

#[test]
fn the_same_image_is_recognised_by_its_hash() {
    let mut history = TextHistory::default();
    assert_eq!(history.record_image(image('a')), HistoryUpdate::Inserted);
    assert_eq!(history.record("text".into()), HistoryUpdate::Inserted);
    assert_eq!(history.record_image(image('a')), HistoryUpdate::MovedToFront);
    assert_eq!(history.record_image(image('a')), HistoryUpdate::Unchanged);
    assert_eq!(history.record_image(image('b')), HistoryUpdate::Inserted);
    assert_eq!(history.items().len(), 3);
    assert_eq!(history.items()[0].image().map(ImageData::width), Some(4));
}

#[test]
fn an_image_entry_reads_as_empty_text() {
    let mut history = TextHistory::default();
    history.record_image(image('a'));
    assert_eq!(history.items()[0].text(), "");
    assert_eq!(history.items()[0].as_text(), None);
}

#[test]
fn clearing_everything_removes_pinned_entries_and_moves_the_generation() {
    let mut history = TextHistory::default();
    assert_eq!(history.clear_all(), HistoryChange::Rejected);
    history.record("a".into());
    let id = history.items()[0].id();
    history.pin(id);
    let generation = history.generation();
    assert_eq!(history.clear_all(), HistoryChange::Applied);
    assert!(history.items().is_empty());
    assert_ne!(history.generation(), generation);
    history.record("b".into());
    let before = history.generation();
    history.clear_unpinned();
    assert_ne!(history.generation(), before);
}

#[test]
fn lowering_the_limit_applies_retention_at_once() {
    let mut history = TextHistory::from_items(Vec::new(), 10, true);
    for index in 0..5 {
        history.record(format!("item {index}"));
    }
    history.take_mutations();
    history.set_unpinned_limit(2);
    assert_eq!(history.unpinned_limit(), 2);
    let texts: Vec<&str> = history.items().iter().map(TextHistoryItem::text).collect();
    assert_eq!(texts, ["item 4", "item 3"]);
    let queued = history.take_mutations();
    assert_eq!(queued.len(), 1);
    match &queued[0] {
        PersistenceMutation::Delete { removed_ids } => {
            let ids: Vec<i64> = removed_ids.iter().map(|id| id.value()).collect();
            assert_eq!(ids, [0, 1, 2]);
        }
        other => panic!("expected a delete, got {other:?}"),
    }
    assert!(history.take_mutations().is_empty());
}

#[test]
fn an_in_memory_history_queues_nothing() {
    let mut history = TextHistory::default();
    history.record("a".into());
    history.delete(history.items()[0].id());
    assert!(history.take_mutations().is_empty());
}

#[test]
fn a_persistent_history_queues_each_change_in_order() {
    let mut history = TextHistory::from_items(Vec::new(), 1, true);
    history.record("a".into());
    history.record("b".into());
    let queued = history.take_mutations();
    assert_eq!(queued.len(), 2);
    match &queued[1] {
        PersistenceMutation::Upsert { item, removed_ids } => {
            assert_eq!(item.text(), "b");
            assert_eq!(removed_ids, &vec![HistoryItemId::new(0)]);
        }
        other => panic!("expected an upsert, got {other:?}"),
    }
    history.shutdown_persistence();
    history.record("c".into());
    assert!(history.take_mutations().is_empty());
}

#[test]
fn identifiers_and_sequences_continue_after_loaded_ones() {
    let loaded = vec![
        TextHistoryItem::new(HistoryItemId::new(41), "old".into(), 7, 99, false),
        TextHistoryItem::new(HistoryItemId::new(3), "older".into(), 1, 5, false),
    ];
    let mut history = TextHistory::from_items(loaded, 500, false);
    history.record("new".into());
    assert_eq!(history.items()[0].id(), HistoryItemId::new(42));
    assert_eq!(history.items()[0].last_used_sequence(), 100);
    assert_eq!(history.items()[0].created_sequence(), 100);
}

#[test]
fn exhausted_identifiers_leave_the_history_unchanged() {
    let loaded = vec![TextHistoryItem::new(HistoryItemId::new(i64::MAX), "last".into(), 1, 1, false)];
    let mut history = TextHistory::from_items(loaded, 500, false);
    assert_eq!(history.record("more".into()), HistoryUpdate::Unchanged);
    assert_eq!(history.items().len(), 1);
}

#[test]
fn a_zero_limit_keeps_only_pinned_entries() {
    let mut history = TextHistory::from_items(Vec::new(), 0, false);
    assert_eq!(history.record("gone".into()), HistoryUpdate::Inserted);
    assert!(history.items().is_empty());
}

#[test]
fn copying_known_content_again_keeps_the_same_entries() {
    let mut history = TextHistory::default();
    history.record("alpha".into());
    history.record_image(image('c'));
    history.record("beta".into());
    let mut before: Vec<i64> = history.items().iter().map(|item| item.id().value()).collect();

    assert_eq!(history.record("alpha".into()), HistoryUpdate::MovedToFront);
    assert_eq!(history.record_image(image('c')), HistoryUpdate::MovedToFront);
    let mut after: Vec<i64> = history.items().iter().map(|item| item.id().value()).collect();
    assert_eq!(after.len(), 3);
    before.sort();
    after.sort();
    assert_eq!(before, after);
}

#[test]
fn refused_requests_queue_nothing_and_applied_ones_queue_one_change() {
    let items = vec![
        TextHistoryItem::new(HistoryItemId::new(1), "kept".into(), 1, 1, true),
        TextHistoryItem::new(HistoryItemId::new(2), "loose".into(), 2, 2, false),
    ];
    let mut history = TextHistory::from_items(items, 10, true);
    assert!(history.take_mutations().is_empty());

    assert_eq!(history.pin(HistoryItemId::new(9)), HistoryChange::Rejected);
    assert_eq!(history.pin(HistoryItemId::new(1)), HistoryChange::Rejected);
    assert_eq!(history.delete(HistoryItemId::new(9)), HistoryChange::Rejected);
    assert_eq!(history.items().len(), 2);
    assert!(history.take_mutations().is_empty());

    assert_eq!(history.delete(HistoryItemId::new(2)), HistoryChange::Applied);
    let queued = history.take_mutations();
    assert_eq!(queued.len(), 1);
    assert!(matches!(&queued[0], PersistenceMutation::Delete { removed_ids } if removed_ids == &vec![HistoryItemId::new(2)]));
    assert_eq!(history.clear_unpinned(), HistoryChange::Rejected);
    assert!(history.take_mutations().is_empty());
}

#[test]
fn recording_the_empty_text_next_to_an_image_inserts_a_text_entry() {
    let mut history = TextHistory::default();
    assert_eq!(history.record_image(image('a')), HistoryUpdate::Inserted);
    let image_sequence = history.items()[0].last_used_sequence();

    assert_eq!(history.record(String::new()), HistoryUpdate::Inserted);
    assert_eq!(history.items().len(), 2);
    assert_eq!(history.items()[0].as_text(), Some(""));
    let image_entry = history
        .items()
        .iter()
        .find(|item| item.image().is_some())
        .unwrap();
    assert_eq!(image_entry.last_used_sequence(), image_sequence);
    assert_eq!(history.record(String::new()), HistoryUpdate::Unchanged);
    assert_eq!(
        history.items().iter().filter(|item| item.as_text() == Some("")).count(),
        1
    );
}

#[test]
fn each_text_is_held_by_one_entry_after_recording() {
    let mut history = TextHistory::in_memory(3);
    for text in ["a", "b", "a", "c", "b", "d", "a"] {
        history.record(text.into());
        for candidate in ["a", "b", "c", "d"] {
            let copies = history
                .items()
                .iter()
                .filter(|item| item.as_text() == Some(candidate))
                .count();
            assert!(copies <= 1);
        }
        let copies = history.items().iter().filter(|item| item.as_text() == Some(text)).count();
        assert_eq!(copies, 1);
    }
}

#[test]
fn pinning_keeps_every_entry_with_its_recency() {
    let mut history = TextHistory::in_memory(2);
    history.record("one".into());
    history.record("two".into());
    let mut before: Vec<i64> = history.items().iter().map(|item| item.id().value()).collect();
    let target = history.items()[1].clone();

    assert_eq!(history.pin(target.id()), HistoryChange::Applied);
    let pinned = history.item(target.id()).unwrap();
    assert!(pinned.is_pinned());
    assert_eq!(pinned.as_text(), target.as_text());
    assert_eq!(pinned.last_used_sequence(), target.last_used_sequence());
    assert_eq!(history.items()[0].id(), target.id());
    let mut after: Vec<i64> = history.items().iter().map(|item| item.id().value()).collect();
    before.sort();
    after.sort();
    assert_eq!(before, after);
    assert_eq!(history.pin(target.id()), HistoryChange::Rejected);
}
