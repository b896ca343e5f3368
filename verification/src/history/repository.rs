//! What the history asks the database to do, the database schema's version
//! rules, and the checks a stored row must pass before it becomes an item.
//!
//! The statements run outside the library; what they say and everything
//! decided around them is here.
use vstd::prelude::*;

use super::model::{
    mime_name, HistoryItem, HistoryItemId, HistoryPayload, ImageData, ImageMime, ImageView,
    ItemView, PayloadView,
};
use crate::image_store::{dimensions_allowed, dimensions_ok, MAX_IMAGE_ENCODED_BYTES};
use crate::text::str_equal;

verus! {

/// One change to the persisted history, in the order the history made it.
#[derive(Debug)]
pub enum PersistenceMutation {
    /// Insert the item, or update the row with its identifier, then delete
    /// the rows of `removed_ids`.
    Upsert { item: HistoryItem, removed_ids: Vec<HistoryItemId> },
    /// Delete the rows of `removed_ids`.
    Delete { removed_ids: Vec<HistoryItemId> },
    /// Delete every unpinned row.
    ClearUnpinned,
    /// Delete every row.
    ClearAll,
}

/// The mathematical value of a [`PersistenceMutation`].
pub enum MutationView {
    Upsert { item: ItemView, removed_ids: Seq<i64> },
    Delete { removed_ids: Seq<i64> },
    ClearUnpinned,
    ClearAll,
}

pub open spec fn id_values(ids: Seq<HistoryItemId>) -> Seq<i64> {
    ids.map_values(|id: HistoryItemId| id@)
}

impl View for PersistenceMutation {
    type V = MutationView;

    open spec fn view(&self) -> MutationView {
        match self {
            PersistenceMutation::Upsert { item, removed_ids } => MutationView::Upsert {
                item: item@,
                removed_ids: id_values(removed_ids@),
            },
            PersistenceMutation::Delete { removed_ids } => MutationView::Delete {
                removed_ids: id_values(removed_ids@),
            },
            PersistenceMutation::ClearUnpinned => MutationView::ClearUnpinned,
            PersistenceMutation::ClearAll => MutationView::ClearAll,
        }
    }
}

/// The schema version this build writes.
pub const SCHEMA_VERSION: i64 = 2;

/// Why the database could not be used: the stage that failed, as it
/// appears in log lines. Never carries clipboard content.
#[derive(Clone, Copy, Debug, Eq, PartialEq)]
pub struct PersistenceError {
    stage: &'static str,
}

impl View for PersistenceError {
    type V = Seq<char>;

    closed spec fn view(&self) -> Seq<char> {
        self.stage@
    }
}

impl PersistenceError {
    pub fn at(stage: &'static str) -> (error: Self)
        ensures
            error@ == stage@,
    {
        Self { stage }
    }

    pub fn diagnostic(self) -> (stage: &'static str)
        ensures
            stage@ == self@,
    {
        self.stage
    }
}

/// One schema migration: the version it brings the database to, its SQL,
/// and the stage reported when its SQL fails.
#[derive(Clone, Copy, Debug)]
pub struct Migration {
    pub version: i64,
    pub sql: &'static str,
    pub error_stage: &'static str,
}

/// The migrations, oldest first.
pub fn migrations() -> (all: Vec<Migration>)
    ensures
        all@.len() == 2,
        all@[0].version == 1,
        all@[1].version == 2,
{
    let mut all: Vec<Migration> = Vec::new();
    all.push(
        Migration {
            version: 1,
            sql: "CREATE TABLE history_items (
                id INTEGER PRIMARY KEY CHECK (id >= 0),
                kind TEXT NOT NULL CHECK (kind = 'text'),
                text_content TEXT NOT NULL,
                created_sequence INTEGER NOT NULL CHECK (created_sequence >= 0),
                last_used_sequence INTEGER NOT NULL UNIQUE CHECK (last_used_sequence >= 0),
                pinned INTEGER NOT NULL DEFAULT 0 CHECK (pinned IN (0, 1)),
                UNIQUE (kind, text_content)
            );
            CREATE INDEX history_items_order
                ON history_items(last_used_sequence DESC);",
            error_stage: "migration-schema-v1",
        },
    );
    all.push(
        Migration {
            version: 2,
            sql: "ALTER TABLE history_items RENAME TO history_items_v1;
            DROP INDEX IF EXISTS history_items_order;

            CREATE TABLE history_items (
                id INTEGER PRIMARY KEY CHECK (id >= 0),
                kind TEXT NOT NULL CHECK (kind IN ('text', 'image')),
                text_content TEXT,
                content_hash TEXT,
                mime_type TEXT,
                byte_length INTEGER,
                image_width INTEGER,
                image_height INTEGER,
                created_sequence INTEGER NOT NULL CHECK (created_sequence >= 0),
                last_used_sequence INTEGER NOT NULL UNIQUE CHECK (last_used_sequence >= 0),
                pinned INTEGER NOT NULL DEFAULT 0 CHECK (pinned IN (0, 1)),
                CHECK (
                    (kind = 'text'
                        AND text_content IS NOT NULL
                        AND content_hash IS NULL
                        AND mime_type IS NULL
                        AND byte_length IS NULL
                        AND image_width IS NULL
                        AND image_height IS NULL)
                    OR
                    (kind = 'image'
                        AND text_content IS NULL
                        AND content_hash IS NOT NULL
                        AND length(content_hash) = 64
                        AND mime_type IN ('image/png', 'image/jpeg')
                        AND byte_length > 0
                        AND image_width > 0
                        AND image_height > 0)
                )
            );

            INSERT INTO history_items (
                id, kind, text_content, created_sequence, last_used_sequence, pinned
            )
            SELECT id, 'text', text_content, created_sequence, last_used_sequence, pinned
            FROM history_items_v1;

            DROP TABLE history_items_v1;

            CREATE UNIQUE INDEX history_text_unique
                ON history_items(text_content) WHERE kind = 'text';
            CREATE UNIQUE INDEX history_image_hash_unique
                ON history_items(content_hash) WHERE kind = 'image';
            CREATE INDEX history_items_order
                ON history_items(last_used_sequence DESC);",
            error_stage: "migration-schema-v2",
        },
    );
    all
}

/// The migrations to run, in order, on a database at `version`: those past
/// it, each exactly one version after the last. A database newer than this
/// build, or one whose version skips a step, is refused.
pub open spec fn plan_from(version: int, versions: Seq<i64>) -> Result<Seq<int>, Seq<char>>
    decreases versions.len(),
{
    if versions.len() == 0 {
        Ok(seq![])
    } else if versions[0] <= version {
        plan_from(version, versions.drop_first())
    } else if versions[0] != version + 1 {
        Err("migration-sequence"@)
    } else {
        match plan_from(versions[0] as int, versions.drop_first()) {
            Ok(rest) => Ok(seq![versions[0] as int] + rest),
            Err(stage) => Err(stage),
        }
    }
}

pub open spec fn migration_versions(migrations: Seq<Migration>) -> Seq<i64> {
    migrations.map_values(|m: Migration| m.version)
}

/// The versions the planned migrations bring the database to.
pub open spec fn planned_versions(plan: Seq<usize>, migrations: Seq<Migration>) -> Seq<int> {
    plan.map_values(|k: usize| migrations[k as int].version as int)
}

pub open spec fn migration_plan_of(version: i64, versions: Seq<i64>) -> Result<Seq<int>, Seq<char>> {
    if version > SCHEMA_VERSION {
        Err("migration-version-newer"@)
    } else {
        plan_from(version as int, versions)
    }
}

/// Which migrations to run on a database whose recorded version is
/// `version`: the indices into `migrations`, in order.
pub fn migration_plan(version: i64, migrations: &[Migration]) -> (plan: Result<Vec<usize>, PersistenceError>)
    ensures
        match plan {
            Ok(indices) => migration_plan_of(version, migration_versions(migrations@))
                == Ok::<Seq<int>, Seq<char>>(planned_versions(indices@, migrations@)),
            Err(error) => migration_plan_of(version, migration_versions(migrations@))
                == Err::<Seq<int>, Seq<char>>(error@),
        },
{
    let ghost versions = migration_versions(migrations@);
    if version > SCHEMA_VERSION {
        return Err(PersistenceError::at("migration-version-newer"));
    }
    let mut current = version;
    let mut plan: Vec<usize> = Vec::new();
    let mut i: usize = 0;
    assert(versions.skip(0) =~= versions);
    while i < migrations.len()
        invariant
            i <= migrations@.len(),
            version <= SCHEMA_VERSION,
            versions == migration_versions(migrations@),
            plan_from(version as int, versions) == match plan_from(current as int, versions.skip(i as int)) {
                Ok(rest) => Ok(planned_versions(plan@, migrations@) + rest),
                Err(stage) => Err(stage),
            },
            forall|k: int| 0 <= k < plan@.len() ==> plan@[k] < migrations@.len(),
        decreases migrations.len() - i,
    {
        let ghost tail = versions.skip(i as int);
        assert(tail[0] == migrations@[i as int].version);
        assert(tail.drop_first() =~= versions.skip(i + 1));
        let m = migrations[i];
        if m.version <= current {
            i = i + 1;
            continue;
        }
        if current == i64::MAX || m.version != current + 1 {
            assert(plan_from(current as int, tail) == Err::<Seq<int>, Seq<char>>("migration-sequence"@));
            return Err(PersistenceError::at("migration-sequence"));
        }
        let ghost before = plan@;
        plan.push(i);
        assert(planned_versions(plan@, migrations@) =~= before.map_values(
            |k: usize| migrations@[k as int].version as int,
        ).push(m.version as int));
        proof {
            let old_map = planned_versions(before, migrations@);
            let new_map = planned_versions(plan@, migrations@);
            match plan_from(m.version as int, versions.skip(i + 1)) {
                Ok(rest) => {
                    assert(old_map + (seq![m.version as int] + rest) =~= new_map + rest);
                },
                Err(_) => {},
            }
        }
        current = m.version;
        i = i + 1;
    }
    assert(versions.skip(i as int) =~= Seq::<i64>::empty());
    assert(planned_versions(plan@, migrations@) + Seq::<int>::empty()
        =~= planned_versions(plan@, migrations@));
    Ok(plan)
}

/// One stored row, its columns as read: the nullable ones as `Option`.
#[derive(Clone, Debug, Eq, PartialEq)]
pub struct StoredRow {
    pub id: i64,
    pub kind: String,
    pub text_content: Option<String>,
    pub content_hash: Option<String>,
    pub mime_type: Option<String>,
    pub byte_length: Option<i64>,
    pub image_width: Option<i64>,
    pub image_height: Option<i64>,
    pub created_sequence: i64,
    pub last_used_sequence: i64,
    pub pinned: i64,
}

pub open spec fn opt_string(value: Option<String>) -> Option<Seq<char>> {
    match value {
        Some(s) => Some(s@),
        None => None,
    }
}

/// The format a stored MIME type names.
pub open spec fn mime_of(name: Seq<char>) -> Option<ImageMime> {
    if name == mime_name(ImageMime::Png) {
        Some(ImageMime::Png)
    } else if name == mime_name(ImageMime::Jpeg) {
        Some(ImageMime::Jpeg)
    } else {
        None
    }
}

/// The image a row's image columns describe, or `None` when a column is
/// missing or out of range, the format is unknown, or the size or
/// dimensions are beyond what capture would ever have stored.
pub open spec fn image_of_columns(
    hash: Option<Seq<char>>,
    mime: Option<Seq<char>>,
    byte_length: Option<i64>,
    width: Option<i64>,
    height: Option<i64>,
) -> Option<ImageView> {
    match (hash, mime, byte_length, width, height) {
        (Some(h), Some(m), Some(b), Some(w), Some(t)) => {
            if mime_of(m) is Some && 0 < b <= MAX_IMAGE_ENCODED_BYTES && 0 <= w <= u32::MAX && 0
                <= t <= u32::MAX && dimensions_ok(w as u32, t as u32) {
                Some(
                    ImageView {
                        content_hash: h,
                        mime_type: mime_of(m)->0,
                        byte_length: b as u64,
                        width: w as u32,
                        height: t as u32,
                    },
                )
            } else {
                None
            }
        },
        _ => None,
    }
}

/// The entry a row stores, or `None` when the row cannot be one.
pub open spec fn item_of_row(
    id: i64,
    kind: Seq<char>,
    text: Option<Seq<char>>,
    image: Option<ImageView>,
    created_sequence: i64,
    last_used_sequence: i64,
    pinned: i64,
) -> Option<ItemView> {
    let payload = if kind == "text"@ {
        match text {
            Some(t) => Some(PayloadView::Text(t)),
            None => None,
        }
    } else if kind == "image"@ {
        match image {
            Some(i) => Some(PayloadView::Image(i)),
            None => None,
        }
    } else {
        None
    };
    match payload {
        Some(p) => Some(
            ItemView { id, payload: p, created_sequence, last_used_sequence, pinned: pinned != 0 },
        ),
        None => None,
    }
}

pub open spec fn row_item(row: StoredRow) -> Option<ItemView> {
    item_of_row(
        row.id,
        row.kind@,
        opt_string(row.text_content),
        image_of_columns(
            opt_string(row.content_hash),
            opt_string(row.mime_type),
            row.byte_length,
            row.image_width,
            row.image_height,
        ),
        row.created_sequence,
        row.last_used_sequence,
        row.pinned,
    )
}

/// The image a row's image columns describe, if they are valid.
pub fn image_from_columns(
    hash: Option<String>,
    mime: Option<String>,
    byte_length: Option<i64>,
    width: Option<i64>,
    height: Option<i64>,
) -> (image: Option<ImageData>)
    ensures
        match image {
            Some(i) => image_of_columns(opt_string(hash), opt_string(mime), byte_length, width, height)
                == Some(i@),
            None => image_of_columns(opt_string(hash), opt_string(mime), byte_length, width, height)
                is None,
        },
{
    let (hash, mime, b, w, t) = match (hash, mime, byte_length, width, height) {
        (Some(h), Some(m), Some(b), Some(w), Some(t)) => (h, m, b, w, t),
        _ => {
            return None;
        },
    };
    let mime_type = match ImageMime::parse(mime.as_str()) {
        Some(parsed) => parsed,
        None => {
            return None;
        },
    };
    if b <= 0 || b > MAX_IMAGE_ENCODED_BYTES as i64 || w < 0 || w > u32::MAX as i64 || t < 0 || t
        > u32::MAX as i64 {
        return None;
    }
    if !dimensions_allowed(w as u32, t as u32) {
        return None;
    }
    Some(ImageData::new(hash, mime_type, b as u64, w as u32, t as u32))
}

/// The entry a stored row holds, or `None` when it cannot be one.
pub fn item_from_row(row: StoredRow) -> (item: Option<HistoryItem>)
    ensures
        match item {
            Some(i) => row_item(row) == Some(i@),
            None => row_item(row) is None,
        },
{
    let pinned = row.pinned != 0;
    let id = HistoryItemId::new(row.id);
    if str_equal(row.kind.as_str(), "text") {
        return match row.text_content {
            Some(text) => Some(
                HistoryItem::new_text(id, text, row.created_sequence, row.last_used_sequence, pinned),
            ),
            None => None,
        };
    }
    if str_equal(row.kind.as_str(), "image") {
        let image = image_from_columns(
            row.content_hash,
            row.mime_type,
            row.byte_length,
            row.image_width,
            row.image_height,
        );
        return match image {
            Some(image) => Some(
                HistoryItem::new_image(id, image, row.created_sequence, row.last_used_sequence, pinned),
            ),
            None => None,
        };
    }
    None
}

/// The stored row's columns, in the order the statements below use them.
pub const LOAD_ROWS_SQL: &'static str = "SELECT id, kind, text_content, content_hash, mime_type,
        byte_length, image_width, image_height,
        created_sequence, last_used_sequence, pinned
 FROM history_items
 ORDER BY last_used_sequence DESC, id DESC";

/// Writes one row, its eleven columns bound in the order of [`StoredRow`];
/// an existing row keeps its creation sequence.
pub const UPSERT_ROW_SQL: &'static str = "INSERT INTO history_items (
    id, kind, text_content, content_hash, mime_type, byte_length,
    image_width, image_height, created_sequence, last_used_sequence, pinned
 ) VALUES (?1, ?2, ?3, ?4, ?5, ?6, ?7, ?8, ?9, ?10, ?11)
 ON CONFLICT(id) DO UPDATE SET
    kind = excluded.kind,
    text_content = excluded.text_content,
    content_hash = excluded.content_hash,
    mime_type = excluded.mime_type,
    byte_length = excluded.byte_length,
    image_width = excluded.image_width,
    image_height = excluded.image_height,
    last_used_sequence = excluded.last_used_sequence,
    pinned = excluded.pinned";

/// Removes the row of one identifier.
pub const DELETE_ROW_SQL: &'static str = "DELETE FROM history_items WHERE id = ?1";

/// Removes the unpinned rows.
pub const CLEAR_UNPINNED_SQL: &'static str = "DELETE FROM history_items WHERE pinned = 0";

/// Removes every row.
pub const CLEAR_ALL_SQL: &'static str = "DELETE FROM history_items";

/// Whether `row` is how entry `item` is stored: a text entry in the text
/// column with the image columns empty, an image entry in the image columns
/// with the text column empty, and the pin flag as 1 or 0.
pub open spec fn row_encodes(item: ItemView, row: StoredRow) -> bool {
    &&& row.id == item.id
    &&& row.created_sequence == item.created_sequence
    &&& row.last_used_sequence == item.last_used_sequence
    &&& row.pinned == if item.pinned { 1i64 } else { 0i64 }
    &&& match item.payload {
        PayloadView::Text(text) => {
            &&& row.kind@ == "text"@
            &&& opt_string(row.text_content) == Some(text)
            &&& row.content_hash is None
            &&& row.mime_type is None
            &&& row.byte_length is None
            &&& row.image_width is None
            &&& row.image_height is None
        },
        PayloadView::Image(image) => {
            &&& row.kind@ == "image"@
            &&& row.text_content is None
            &&& opt_string(row.content_hash) == Some(image.content_hash)
            &&& opt_string(row.mime_type) == Some(mime_name(image.mime_type))
            &&& row.byte_length == Some(image.byte_length as i64)
            &&& row.image_width == Some(image.width as i64)
            &&& row.image_height == Some(image.height as i64)
        },
    }
}

/// An image's encoded size that a row's integer column cannot hold.
pub open spec fn size_unstorable(item: ItemView) -> bool {
    item.payload matches PayloadView::Image(image) && image.byte_length > i64::MAX
}

/// The row an entry is written as; refused, at stage
/// `history-upsert-image-size`, only for an image whose encoded size does
/// not fit the integer column.
pub fn row_of(item: &HistoryItem) -> (row: Result<StoredRow, PersistenceError>)
    ensures
        match row {
            Ok(r) => !size_unstorable(item@) && row_encodes(item@, r),
            Err(error) => size_unstorable(item@) && error@ == "history-upsert-image-size"@,
        },
{
    let pinned: i64 = if item.is_pinned() { 1 } else { 0 };
    match item.payload() {
        HistoryPayload::Text(text) => Ok(StoredRow {
            id: item.id().value(),
            kind: String::from_str("text"),
            text_content: Some(text.clone()),
            content_hash: None,
            mime_type: None,
            byte_length: None,
            image_width: None,
            image_height: None,
            created_sequence: item.created_sequence(),
            last_used_sequence: item.last_used_sequence(),
            pinned,
        }),
        HistoryPayload::Image(image) => {
            if image.byte_length() > i64::MAX as u64 {
                return Err(PersistenceError::at("history-upsert-image-size"));
            }
            Ok(StoredRow {
                id: item.id().value(),
                kind: String::from_str("image"),
                text_content: None,
                content_hash: Some(String::from_str(image.content_hash())),
                mime_type: Some(String::from_str(image.mime_type().as_str())),
                byte_length: Some(image.byte_length() as i64),
                image_width: Some(image.width() as i64),
                image_height: Some(image.height() as i64),
                created_sequence: item.created_sequence(),
                last_used_sequence: item.last_used_sequence(),
                pinned,
            })
        },
    }
}

/// An entry capture could have stored: any text, or an image whose size
/// and dimensions are within the capture limits.
pub open spec fn storable(item: ItemView) -> bool {
    match item.payload {
        PayloadView::Text(_) => true,
        PayloadView::Image(image) => 0 < image.byte_length <= MAX_IMAGE_ENCODED_BYTES
            && dimensions_ok(image.width, image.height),
    }
}

/// What is written is read back: the row an entry capture could have stored
/// is written as, loads as that same entry.
pub proof fn law_written_entry_reads_back(item: ItemView, row: StoredRow)
    requires
        storable(item),
        row_encodes(item, row),
    ensures
        row_item(row) == Some(item),
{
    reveal_strlit("text");
    reveal_strlit("image");
    reveal_strlit("image/png");
    reveal_strlit("image/jpeg");
    match item.payload {
        PayloadView::Text(text) => {
            assert(row.kind@ == "text"@);
        },
        PayloadView::Image(image) => {
            assert("image"@.len() != "text"@.len());
            assert("image/png"@.len() != "image/jpeg"@.len());
            assert(mime_of(mime_name(image.mime_type)) == Some(image.mime_type));
            let decoded = image_of_columns(
                opt_string(row.content_hash),
                opt_string(row.mime_type),
                row.byte_length,
                row.image_width,
                row.image_height,
            );
            assert(decoded == Some(image));
        },
    }
}

/// The entries of all loaded rows, in order, or the load's failure when
/// any row cannot be an entry.
pub fn items_from_rows(rows: Vec<StoredRow>) -> (items: Result<Vec<HistoryItem>, PersistenceError>)
    ensures
        match items {
            Ok(all) => all@.len() == rows@.len() && forall|k: int|
                0 <= k < rows@.len() ==> row_item(#[trigger] rows@[k]) == Some(all@[k]@),
            Err(error) => error@ == "history-load-row"@ && exists|k: int|
                0 <= k < rows@.len() && #[trigger] row_item(rows@[k]) is None,
        },
{
    let ghost all_rows = rows@;
    let mut items: Vec<HistoryItem> = Vec::new();
    let mut rest = rows;
    let mut taken: usize = 0;
    let total = rest.len();
    assert(all_rows.skip(0) =~= all_rows);
    while rest.len() > 0
        invariant
            all_rows == rows@,
            all_rows.len() == total,
            taken + rest@.len() == total,
            rest@ == all_rows.skip(taken as int),
            items@.len() == taken,
            forall|k: int| 0 <= k < taken ==> row_item(#[trigger] all_rows[k]) == Some(items@[k]@),
        decreases rest.len(),
    {
        let ghost before = rest@;
        let row = rest.remove(0);
        assert(row == all_rows[taken as int]) by {
            assert(before[0] == all_rows.skip(taken as int)[0]);
        }
        assert(rest@ =~= all_rows.skip(taken + 1)) by {
            assert(rest@ =~= before.remove(0));
        }
        match item_from_row(row) {
            Some(item) => {
                items.push(item);
            },
            None => {
                assert(row_item(all_rows[taken as int]) is None);
                return Err(PersistenceError::at("history-load-row"));
            },
        }
        taken = taken + 1;
    }
    Ok(items)
}

/// The loaded entries without those whose identifier is in `ids`, in order
/// (entries whose image original went missing, say).
pub fn without_ids(items: Vec<HistoryItem>, ids: &[HistoryItemId]) -> (kept: Vec<HistoryItem>)
    ensures
        kept@.map_values(|i: HistoryItem| i@) == items@.map_values(|i: HistoryItem| i@).filter(
            |x: ItemView| !id_values(ids@).contains(x.id),
        ),
{
    let ghost all = items@.map_values(|i: HistoryItem| i@);
    let ghost keep = |x: ItemView| !id_values(ids@).contains(x.id);
    let mut kept: Vec<HistoryItem> = Vec::new();
    let mut rest = items;
    let mut taken: usize = 0;
    let total = rest.len();
    assert(all.skip(0) =~= all);
    assert(all.take(0).filter(keep) =~= Seq::<ItemView>::empty()) by {
        reveal(Seq::filter);
    }
    while rest.len() > 0
        invariant
            all.len() == total,
            taken + rest@.len() == total,
            rest@.map_values(|i: HistoryItem| i@) == all.skip(taken as int),
            kept@.map_values(|i: HistoryItem| i@) == all.take(taken as int).filter(keep),
            keep == (|x: ItemView| !id_values(ids@).contains(x.id)),
        decreases rest.len(),
    {
        let ghost before = rest@;
        let item = rest.remove(0);
        assert(item@ == all[taken as int]) by {
            assert(before.map_values(|i: HistoryItem| i@)[0] == all.skip(taken as int)[0]);
        }
        assert(rest@.map_values(|i: HistoryItem| i@) =~= all.skip(taken + 1)) by {
            assert(rest@ =~= before.remove(0));
            assert(before.remove(0).map_values(|i: HistoryItem| i@) =~= before.map_values(
                |i: HistoryItem| i@,
            ).remove(0));
            assert(all.skip(taken as int).remove(0) =~= all.skip(taken + 1));
        }
        assert(all.take(taken + 1) =~= all.take(taken as int).push(item@));
        proof {
            all.take(taken as int).lemma_filter_push(item@, keep);
        }
        let mut listed = false;
        let mut j: usize = 0;
        while j < ids.len()
            invariant
                j <= ids@.len(),
                listed == exists|k: int| 0 <= k < j && #[trigger] ids@[k]@ == item@.id,
            decreases ids.len() - j,
        {
            if ids[j].value() == item.id().value() {
                listed = true;
            }
            j = j + 1;
        }
        assert(listed == id_values(ids@).contains(item@.id)) by {
            if listed {
                let k = choose|k: int| 0 <= k < ids@.len() && #[trigger] ids@[k]@ == item@.id;
                assert(id_values(ids@)[k] == item@.id);
            } else {
                assert forall|k: int| 0 <= k < id_values(ids@).len() implies id_values(ids@)[k] != item@.id by {
                    assert(id_values(ids@)[k] == ids@[k]@);
                }
            }
        }
        let ghost before_kept = kept@;
        if !listed {
            kept.push(item);
            assert(kept@.map_values(|i: HistoryItem| i@) =~= before_kept.map_values(
                |i: HistoryItem| i@,
            ).push(item@));
        }
        taken = taken + 1;
    }
    assert(all.take(taken as int) =~= all);
    kept
}

} // verus!
