use lionclip::history::repository::{
    image_from_columns, item_from_row, items_from_rows, migration_plan, migrations, without_ids,
    PersistenceError, StoredRow, SCHEMA_VERSION,
};
use lionclip::history::{HistoryItemId, ImageMime, TextHistoryItem};
use lionclip::image_store::MAX_IMAGE_DIMENSION;

fn text_row(id: i64, text: &str) -> StoredRow {
    StoredRow {
        id,
        kind: "text".into(),
        text_content: Some(text.into()),
        content_hash: None,
        mime_type: None,
        byte_length: None,
        image_width: None,
        image_height: None,
        created_sequence: id,
        last_used_sequence: id,
        pinned: 0,
    }
}

fn image_row(id: i64, width: i64) -> StoredRow {
    StoredRow {
        id,
        kind: "image".into(),
        text_content: None,
        content_hash: Some("a".repeat(64)),
        mime_type: Some("image/png".into()),
        byte_length: Some(1),
        image_width: Some(width),
        image_height: Some(1),
        created_sequence: id,
        last_used_sequence: id,
        pinned: 1,
    }
}

#[test]
fn a_fresh_database_runs_every_migration_in_order() {
    let all = migrations();
    assert_eq!(migration_plan(0, &all), Ok(vec![0, 1]));
    assert_eq!(migration_plan(1, &all), Ok(vec![1]));
    assert_eq!(migration_plan(SCHEMA_VERSION, &all), Ok(vec![]));
}

#[test]
fn a_newer_or_skipping_schema_is_refused() {
    let all = migrations();
    assert_eq!(
        migration_plan(99, &all).map_err(PersistenceError::diagnostic),
        Err("migration-version-newer")
    );
    assert_eq!(
        migration_plan(-1, &all).map_err(PersistenceError::diagnostic),
        Err("migration-sequence")
    );
    assert_eq!(all[1].error_stage, "migration-schema-v2");
}

#[test]
fn stored_rows_become_entries() {
    let text = item_from_row(text_row(7, " exact\ntext\t")).unwrap();
    assert_eq!(text.id(), HistoryItemId::new(7));
    assert_eq!(text.as_text(), Some(" exact\ntext\t"));
    let image = item_from_row(image_row(2, 640)).unwrap();
    assert!(image.is_pinned());
    assert_eq!(image.image().map(|i| i.mime_type()), Some(ImageMime::Png));
}

#[test]
fn invalid_stored_image_metadata_is_rejected() {
    assert!(item_from_row(image_row(1, i64::from(MAX_IMAGE_DIMENSION) + 1)).is_none());
    assert!(image_from_columns(
        Some("a".repeat(64)),
        Some("image/gif".into()),
        Some(1),
        Some(1),
        Some(1)
    )
    .is_none());
    assert!(image_from_columns(Some("a".repeat(64)), Some("image/png".into()), Some(0), Some(1), Some(1)).is_none());
    assert!(image_from_columns(Some("a".repeat(64)), Some("image/jpeg".into()), Some(5), Some(-1), Some(1)).is_none());
    let mut unknown = text_row(3, "x");
    unknown.kind = "video".into();
    assert!(item_from_row(unknown).is_none());
    let mut missing_text = text_row(4, "x");
    missing_text.text_content = None;
    assert!(item_from_row(missing_text).is_none());
}

#[test]
fn one_bad_row_fails_the_whole_load() {
    let loaded = items_from_rows(vec![text_row(1, "a"), text_row(2, "b")]).unwrap();
    assert_eq!(loaded.len(), 2);
    let failed = items_from_rows(vec![text_row(1, "a"), image_row(2, 0)]);
    assert_eq!(
        failed.map_err(PersistenceError::diagnostic),
        Err("history-load-row")
    );
}

#[test]
fn entries_with_missing_originals_are_dropped_after_load() {
    let items: Vec<TextHistoryItem> = (1..=4)
        .map(|id| TextHistoryItem::new(HistoryItemId::new(id), format!("{id}"), id, id, false))
        .collect();
    let kept = without_ids(items, &[HistoryItemId::new(2), HistoryItemId::new(4)]);
    let ids: Vec<i64> = kept.iter().map(|item| item.id().value()).collect();
    assert_eq!(ids, [1, 3]);
}

#[test]
fn entries_are_written_as_the_rows_they_load_from() {
    let text = TextHistoryItem::new(HistoryItemId::new(3), "hello".into(), 1, 2, true);
    let row = lionclip::history::repository::row_of(&text).unwrap();
    assert_eq!(row, StoredRow { pinned: 1, created_sequence: 1, last_used_sequence: 2, ..text_row(3, "hello") });
    assert_eq!(item_from_row(row), Some(text));

    let image = TextHistoryItem::new_image(
        HistoryItemId::new(4),
        lionclip::history::ImageData::new("a".repeat(64), ImageMime::Png, 1, 7, 1),
        4,
        4,
        true,
    );
    let row = lionclip::history::repository::row_of(&image).unwrap();
    assert_eq!(row, image_row(4, 7));
    assert_eq!(item_from_row(row), Some(image));
}

#[test]
fn an_image_size_beyond_the_integer_column_is_refused() {
    let image = TextHistoryItem::new_image(
        HistoryItemId::new(1),
        lionclip::history::ImageData::new("a".repeat(64), ImageMime::Jpeg, u64::MAX, 1, 1),
        1,
        1,
        false,
    );
    assert_eq!(
        lionclip::history::repository::row_of(&image),
        Err(PersistenceError::at("history-upsert-image-size"))
    );
}
