//! The schema, migrations, statements and row checks of the library run
//! against a real SQLite database held in memory.

use rusqlite::Connection;

use lionclip::history::repository::{
    items_from_rows, migration_plan, migrations, row_of, PersistenceError, StoredRow,
    CLEAR_ALL_SQL, CLEAR_UNPINNED_SQL, DELETE_ROW_SQL, LOAD_ROWS_SQL, UPSERT_ROW_SQL,
};
use lionclip::history::{HistoryItemId, ImageData, ImageMime, TextHistoryItem};
use lionclip::image_store::MAX_IMAGE_DIMENSION;

fn schema_version(connection: &Connection) -> i64 {
    connection
        .pragma_query_value(None, "user_version", |row| row.get(0))
        .unwrap()
}

fn migrate(connection: &mut Connection) -> Result<(), PersistenceError> {
    let version = schema_version(connection);
    let all = migrations();
    for index in migration_plan(version, &all)? {
        let migration = all[index];
        let transaction = connection.transaction().unwrap();
        transaction
            .execute_batch(migration.sql)
            .map_err(|_| PersistenceError::at(migration.error_stage))?;
        transaction
            .pragma_update(None, "user_version", migration.version)
            .unwrap();
        transaction.commit().unwrap();
    }
    Ok(())
}

fn open_migrated() -> Connection {
    let mut connection = Connection::open_in_memory().unwrap();
    migrate(&mut connection).unwrap();
    connection
}

fn load(connection: &Connection) -> Result<Vec<TextHistoryItem>, PersistenceError> {
    let mut statement = connection.prepare(LOAD_ROWS_SQL).unwrap();
    let rows = statement
        .query_map([], |row| {
            Ok(StoredRow {
                id: row.get(0)?,
                kind: row.get(1)?,
                text_content: row.get(2)?,
                content_hash: row.get(3)?,
                mime_type: row.get(4)?,
                byte_length: row.get(5)?,
                image_width: row.get(6)?,
                image_height: row.get(7)?,
                created_sequence: row.get(8)?,
                last_used_sequence: row.get(9)?,
                pinned: row.get(10)?,
            })
        })
        .unwrap()
        .collect::<Result<Vec<_>, _>>()
        .unwrap();
    items_from_rows(rows)
}

fn upsert(connection: &Connection, item: &TextHistoryItem) {
    let row = row_of(item).unwrap();
    connection
        .execute(
            UPSERT_ROW_SQL,
            (
                row.id,
                row.kind,
                row.text_content,
                row.content_hash,
                row.mime_type,
                row.byte_length,
                row.image_width,
                row.image_height,
                row.created_sequence,
                row.last_used_sequence,
                row.pinned,
            ),
        )
        .unwrap();
}

#[test]
fn fresh_database_reaches_schema_v2() {
    let connection = open_migrated();
    assert_eq!(schema_version(&connection), 2);
}

#[test]
fn v1_text_rows_migrate_losslessly_to_v2() {
    let mut connection = Connection::open_in_memory().unwrap();
    connection.execute_batch(migrations()[0].sql).unwrap();
    connection.pragma_update(None, "user_version", 1).unwrap();
    connection
        .execute(
            "INSERT INTO history_items
             (id, kind, text_content, created_sequence, last_used_sequence, pinned)
             VALUES (7, 'text', ?1, 3, 9, 1)",
            [" exact\ntext\t"],
        )
        .unwrap();

    migrate(&mut connection).unwrap();
    let items = load(&connection).unwrap();
    assert_eq!(schema_version(&connection), 2);
    assert_eq!(items.len(), 1);
    assert_eq!(items[0].id(), HistoryItemId::new(7));
    assert_eq!(items[0].as_text(), Some(" exact\ntext\t"));
    assert!(items[0].is_pinned());
    assert_eq!(items[0].last_used_sequence(), 9);
}

#[test]
fn repository_round_trips_image_metadata() {
    let connection = open_migrated();
    let item = TextHistoryItem::new_image(
        HistoryItemId::new(2),
        ImageData::new("a".repeat(64), ImageMime::Png, 1234, 640, 480),
        2,
        2,
        true,
    );
    upsert(&connection, &item);
    assert_eq!(load(&connection).unwrap(), vec![item]);
}

#[test]
fn invalid_persisted_image_metadata_is_rejected() {
    let connection = open_migrated();
    connection
        .execute(
            "INSERT INTO history_items (
                id, kind, content_hash, mime_type, byte_length,
                image_width, image_height, created_sequence, last_used_sequence, pinned
             ) VALUES (1, 'image', ?1, 'image/png', 1, ?2, 1, 1, 1, 0)",
            ("a".repeat(64), i64::from(MAX_IMAGE_DIMENSION) + 1),
        )
        .unwrap();
    assert!(load(&connection).is_err());
}

#[test]
fn newer_schema_is_rejected() {
    let mut connection = open_migrated();
    connection.pragma_update(None, "user_version", 99).unwrap();
    assert_eq!(
        migrate(&mut connection),
        Err(PersistenceError::at("migration-version-newer"))
    );
}

#[test]
fn text_entries_round_trip_and_keep_their_creation_sequence() {
    let connection = open_migrated();
    let first = TextHistoryItem::new(HistoryItemId::new(1), "alpha".into(), 1, 1, false);
    upsert(&connection, &first);
    let used_again = TextHistoryItem::new(HistoryItemId::new(1), "alpha".into(), 5, 4, true);
    upsert(&connection, &used_again);

    let expected = TextHistoryItem::new(HistoryItemId::new(1), "alpha".into(), 1, 4, true);
    assert_eq!(load(&connection).unwrap(), vec![expected]);
}

#[test]
fn rows_load_most_recently_used_first_and_deletes_apply() {
    let connection = open_migrated();
    for (id, text, pinned) in [(1, "one", true), (2, "two", false), (3, "three", false)] {
        upsert(
            &connection,
            &TextHistoryItem::new(HistoryItemId::new(id), text.into(), id, id, pinned),
        );
    }
    let ids: Vec<i64> = load(&connection)
        .unwrap()
        .iter()
        .map(|item| item.id().value())
        .collect();
    assert_eq!(ids, vec![3, 2, 1]);

    connection.execute(DELETE_ROW_SQL, [3_i64]).unwrap();
    connection.execute(CLEAR_UNPINNED_SQL, []).unwrap();
    let ids: Vec<i64> = load(&connection)
        .unwrap()
        .iter()
        .map(|item| item.id().value())
        .collect();
    assert_eq!(ids, vec![1]);

    connection.execute(CLEAR_ALL_SQL, []).unwrap();
    assert!(load(&connection).unwrap().is_empty());
}
