//! The sync-history store: detecting which on-disk layout of the table is
//! present, migrating older layouts to the canonical one without losing rows,
//! and converting entries to and from stored rows.

use vstd::prelude::*;
use crate::timefmt::{format_rfc3339, parse_rfc3339_millis, rfc3339_millis, rfc3339_text};

verus! {

/// Name of the sync-history table.
pub const TABLE: &'static str = "sync_history";

/// Name the old table is renamed to while it is copied.
pub const ASIDE_TABLE: &'static str = "sync_history_old";

/// The canonical layout of the table.
pub const CREATE_CANONICAL: &'static str = "CREATE TABLE IF NOT EXISTS sync_history (
    id INTEGER PRIMARY KEY AUTOINCREMENT,
    timestamp INTEGER NOT NULL,
    sync_type TEXT NOT NULL DEFAULT 'auto',
    runs_added INTEGER NOT NULL DEFAULT 0,
    characters_processed INTEGER NOT NULL DEFAULT 0,
    duration_ms INTEGER,
    success INTEGER NOT NULL DEFAULT 1,
    error_message TEXT
)";

/// Number of columns of the canonical layout.
pub const CANONICAL_WIDTH: usize = 8;

/// A value of a table cell. Floating-point cells are carried as their IEEE
/// bit pattern.
#[derive(Debug)]
pub enum SqlValue {
    Null,
    Integer(i64),
    RealBits(u64),
    Text(String),
    Blob(Vec<u8>),
}

/// The mathematical value of a cell.
pub enum CellView {
    Null,
    Integer(i64),
    RealBits(u64),
    Text(Seq<char>),
    Blob(Seq<u8>),
}

impl View for SqlValue {
    type V = CellView;

    open spec fn view(&self) -> CellView {
        match self {
            SqlValue::Null => CellView::Null,
            SqlValue::Integer(i) => CellView::Integer(*i),
            SqlValue::RealBits(b) => CellView::RealBits(*b),
            SqlValue::Text(s) => CellView::Text(s@),
            SqlValue::Blob(b) => CellView::Blob(b@),
        }
    }
}

pub open spec fn row_view(row: Seq<SqlValue>) -> Seq<CellView> {
    row.map_values(|v: SqlValue| v@)
}

pub open spec fn names_view(cols: Seq<String>) -> Seq<Seq<char>> {
    cols.map_values(|c: String| c@)
}

/// The canonical columns, in order.
pub open spec fn canonical_columns() -> Seq<Seq<char>> {
    seq![
        "id"@,
        "timestamp"@,
        "sync_type"@,
        "runs_added"@,
        "characters_processed"@,
        "duration_ms"@,
        "success"@,
        "error_message"@,
    ]
}

/// The name an older layout used for canonical column `k`, if it differs.
pub open spec fn legacy_name(k: int) -> Option<Seq<char>> {
    if k == 5 {
        Some("duration"@)
    } else if k == 7 {
        Some("error"@)
    } else {
        None
    }
}

/// The value canonical column `k` takes when an old row has none (the
/// column is absent from its layout, or the cell is null).
pub open spec fn column_default(k: int) -> CellView {
    if k == 2 {
        CellView::Text("auto"@)
    } else if k == 3 || k == 4 {
        CellView::Integer(0)
    } else if k == 6 {
        CellView::Integer(1)
    } else {
        CellView::Null
    }
}

/// The layout found on disk.
#[derive(Clone, Copy, Debug, PartialEq, Eq, Structural)]
pub enum SchemaState {
    /// There is no sync-history table.
    Absent,
    /// The table has every canonical column.
    Canonical,
    /// The table lacks a canonical column and must be migrated.
    NeedsMigration,
}

/// Every canonical column is among `cols`.
pub open spec fn has_canonical_columns(cols: Seq<Seq<char>>) -> bool {
    forall|k: int| 0 <= k < 8 ==> cols.contains(#[trigger] canonical_columns()[k])
}

pub open spec fn spec_detect(present: bool, cols: Seq<Seq<char>>) -> SchemaState {
    if !present {
        SchemaState::Absent
    } else if has_canonical_columns(cols) {
        SchemaState::Canonical
    } else {
        SchemaState::NeedsMigration
    }
}

/// One step of bringing the table to the canonical layout.
#[derive(Clone, Copy, Debug, PartialEq, Eq, Structural)]
pub enum MigrationStep {
    /// Create the canonical table.
    CreateCanonical,
    /// Rename the existing table to the aside name.
    RenameAside,
    /// Copy every row of the aside table into the canonical table, mapped by
    /// `migrate_rows`.
    CopyRows,
    /// Drop the aside table; done only after the copy succeeded.
    DropAside,
}

pub open spec fn spec_plan(s: SchemaState) -> Seq<MigrationStep> {
    match s {
        SchemaState::Absent => seq![MigrationStep::CreateCanonical],
        SchemaState::Canonical => Seq::empty(),
        SchemaState::NeedsMigration => seq![
            MigrationStep::RenameAside,
            MigrationStep::CreateCanonical,
            MigrationStep::CopyRows,
            MigrationStep::DropAside,
        ],
    }
}

/// The columns of the table once the plan for `s` has run.
pub open spec fn columns_after(s: SchemaState, cols: Seq<Seq<char>>) -> Seq<Seq<char>> {
    match s {
        SchemaState::Canonical => cols,
        _ => canonical_columns(),
    }
}

fn canonical_name(k: usize) -> (r: &'static str)
    requires
        k < 8,
    ensures
        r@ == canonical_columns()[k as int],
{
    if k == 0 {
        "id"
    } else if k == 1 {
        "timestamp"
    } else if k == 2 {
        "sync_type"
    } else if k == 3 {
        "runs_added"
    } else if k == 4 {
        "characters_processed"
    } else if k == 5 {
        "duration_ms"
    } else if k == 6 {
        "success"
    } else {
        "error_message"
    }
}

/// The first index at which `name` stands in `cols`.
pub open spec fn first_index(cols: Seq<Seq<char>>, name: Seq<char>) -> Option<int>
    decreases cols.len(),
{
    if cols.len() == 0 {
        None
    } else {
        match first_index(cols.drop_last(), name) {
            Some(i) => Some(i),
            None => if cols.last() == name {
                Some(cols.len() - 1)
            } else {
                None
            },
        }
    }
}

proof fn lemma_first_index(cols: Seq<Seq<char>>, name: Seq<char>)
    ensures
        match first_index(cols, name) {
            Some(i) => 0 <= i < cols.len() && cols[i] == name,
            None => !cols.contains(name),
        },
    decreases cols.len(),
{
    if cols.len() > 0 {
        lemma_first_index(cols.drop_last(), name);
        if first_index(cols.drop_last(), name) is None && cols.last() != name {
            assert forall|i: int| 0 <= i < cols.len() implies cols[i] != name by {
                if i < cols.len() - 1 {
                    assert(cols.drop_last()[i] == cols[i]);
                }
            }
        }
    }
}

proof fn lemma_first_index_extend(cols: Seq<Seq<char>>, j: int, name: Seq<char>)
    requires
        0 <= j <= cols.len(),
        first_index(cols.subrange(0, j), name) is Some,
    ensures
        first_index(cols, name) == first_index(cols.subrange(0, j), name),
    decreases cols.len(),
{
    if j < cols.len() {
        assert(cols.drop_last().subrange(0, j) == cols.subrange(0, j));
        lemma_first_index_extend(cols.drop_last(), j, name);
    } else {
        assert(cols.subrange(0, j) == cols);
    }
}

/// The position of a column in a layout.
pub fn find_column(cols: &Vec<String>, name: &str) -> (r: Option<usize>)
    ensures
        match r {
            Some(i) => first_index(names_view(cols@), name@) == Some(i as int),
            None => first_index(names_view(cols@), name@) is None,
        },
{
    let ghost names = names_view(cols@);
    let target = String::from_str(name);
    let mut i: usize = 0;
    while i < cols.len()
        invariant
            i <= cols@.len(),
            names == names_view(cols@),
            target@ == name@,
            first_index(names.subrange(0, i as int), name@) is None,
        decreases cols@.len() - i,
    {
        proof {
            assert(names.subrange(0, i + 1).drop_last() == names.subrange(0, i as int));
        }
        if cols[i] == target {
            proof {
                lemma_first_index_extend(names, i + 1, name@);
            }
            return Some(i);
        }
        i = i + 1;
    }
    proof {
        assert(names.subrange(0, i as int) == names);
    }
    None
}

/// Classifies the table found on disk from whether it exists and its column
/// names.
pub fn detect_schema(present: bool, columns: &Vec<String>) -> (r: SchemaState)
    ensures
        r == spec_detect(present, names_view(columns@)),
{
    if !present {
        return SchemaState::Absent;
    }
    let ghost names = names_view(columns@);
    let mut k: usize = 0;
    while k < CANONICAL_WIDTH
        invariant
            k <= 8,
            present,
            names == names_view(columns@),
            forall|j: int| 0 <= j < k ==> names.contains(#[trigger] canonical_columns()[j]),
        decreases 8 - k,
    {
        let found = find_column(columns, canonical_name(k));
        proof {
            lemma_first_index(names, canonical_columns()[k as int]);
        }
        if found.is_none() {
            assert(!names.contains(canonical_columns()[k as int]));
            assert(!has_canonical_columns(names));
            return SchemaState::NeedsMigration;
        }
        k = k + 1;
    }
    SchemaState::Canonical
}

/// The steps that bring a table in state `s` to the canonical layout.
pub fn migration_plan(s: SchemaState) -> (r: Vec<MigrationStep>)
    ensures
        r@ == spec_plan(s),
{
    match s {
        SchemaState::Absent => vec![MigrationStep::CreateCanonical],
        SchemaState::Canonical => Vec::new(),
        SchemaState::NeedsMigration => vec![
            MigrationStep::RenameAside,
            MigrationStep::CreateCanonical,
            MigrationStep::CopyRows,
            MigrationStep::DropAside,
        ],
    }
}

/// Migration is idempotent: whatever layout was found, the table that the
/// plan leaves is detected as canonical, whose plan is empty; so running the
/// migration again changes nothing and adds no row.
pub proof fn lemma_migration_idempotent(present: bool, cols: Seq<Seq<char>>)
    ensures
        spec_detect(true, columns_after(spec_detect(present, cols), cols))
            == SchemaState::Canonical,
        spec_plan(spec_detect(true, columns_after(spec_detect(present, cols), cols))).len() == 0,
{
    let after = columns_after(spec_detect(present, cols), cols);
    if spec_detect(present, cols) != SchemaState::Canonical {
        assert forall|k: int| 0 <= k < 8 implies after.contains(#[trigger] canonical_columns()[k]) by {
            assert(after[k] == canonical_columns()[k]);
        }
    }
}

/// Where canonical column `k` takes its value from in a layout `cols`: the
/// column of the same name, else the column of its older name.
pub open spec fn source_of(cols: Seq<Seq<char>>, k: int) -> Option<int> {
    match first_index(cols, canonical_columns()[k]) {
        Some(i) => Some(i),
        None => match legacy_name(k) {
            Some(old) => first_index(cols, old),
            None => None,
        },
    }
}

/// The value of canonical column `k` for an old row of layout `cols`.
pub open spec fn migrated_cell(cols: Seq<Seq<char>>, row: Seq<CellView>, k: int) -> CellView {
    let v = match source_of(cols, k) {
        Some(i) => if i < row.len() {
            row[i]
        } else {
            CellView::Null
        },
        None => CellView::Null,
    };
    if v is Null {
        column_default(k)
    } else {
        v
    }
}

/// An old row of layout `cols`, in the canonical layout.
pub open spec fn migrated_row(cols: Seq<Seq<char>>, row: Seq<CellView>) -> Seq<CellView> {
    Seq::new(8, |k: int| migrated_cell(cols, row, k))
}

fn legacy_column(k: usize) -> (r: Option<&'static str>)
    requires
        k < 8,
    ensures
        match r {
            Some(s) => legacy_name(k as int) == Some(s@),
            None => legacy_name(k as int) is None,
        },
{
    if k == 5 {
        Some("duration")
    } else if k == 7 {
        Some("error")
    } else {
        None
    }
}

fn default_cell(k: usize) -> (r: SqlValue)
    requires
        k < 8,
    ensures
        r@ == column_default(k as int),
{
    if k == 2 {
        SqlValue::Text(String::from_str("auto"))
    } else if k == 3 || k == 4 {
        SqlValue::Integer(0)
    } else if k == 6 {
        SqlValue::Integer(1)
    } else {
        SqlValue::Null
    }
}

fn copy_bytes(b: &Vec<u8>) -> (r: Vec<u8>)
    ensures
        r@ == b@,
{
    let mut r: Vec<u8> = Vec::new();
    let mut i: usize = 0;
    while i < b.len()
        invariant
            i <= b@.len(),
            r@ == b@.subrange(0, i as int),
        decreases b@.len() - i,
    {
        r.push(b[i]);
        proof {
            assert(b@.subrange(0, i + 1) == b@.subrange(0, i as int).push(b@[i as int]));
        }
        i = i + 1;
    }
    proof {
        assert(b@.subrange(0, i as int) == b@);
    }
    r
}

/// A copy of a cell.
pub fn copy_cell(v: &SqlValue) -> (r: SqlValue)
    ensures
        r@ == v@,
{
    match v {
        SqlValue::Null => SqlValue::Null,
        SqlValue::Integer(i) => SqlValue::Integer(*i),
        SqlValue::RealBits(b) => SqlValue::RealBits(*b),
        SqlValue::Text(s) => SqlValue::Text(s.clone()),
        SqlValue::Blob(b) => SqlValue::Blob(copy_bytes(b)),
    }
}

/// For each canonical column, the position in `cols` it is copied from.
pub fn column_sources(cols: &Vec<String>) -> (r: Vec<Option<usize>>)
    ensures
        r@.len() == 8,
        forall|k: int|
            0 <= k < 8 ==> match #[trigger] r@[k] {
                Some(i) => source_of(names_view(cols@), k) == Some(i as int),
                None => source_of(names_view(cols@), k) is None,
            },
{
    let mut r: Vec<Option<usize>> = Vec::new();
    let mut k: usize = 0;
    while k < CANONICAL_WIDTH
        invariant
            k <= 8,
            r@.len() == k,
            forall|j: int|
                0 <= j < k ==> match #[trigger] r@[j] {
                    Some(i) => source_of(names_view(cols@), j) == Some(i as int),
                    None => source_of(names_view(cols@), j) is None,
                },
        decreases 8 - k,
    {
        let src = match find_column(cols, canonical_name(k)) {
            Some(i) => Some(i),
            None => match legacy_column(k) {
                Some(old) => find_column(cols, old),
                None => None,
            },
        };
        r.push(src);
        k = k + 1;
    }
    r
}

/// One old row, given with the sources of `column_sources`, in the
/// canonical layout.
fn migrate_row(sources: &Vec<Option<usize>>, row: &Vec<SqlValue>, cols: Ghost<Seq<Seq<char>>>) -> (r: Vec<
    SqlValue,
>)
    requires
        sources@.len() == 8,
        forall|k: int|
            0 <= k < 8 ==> match #[trigger] sources@[k] {
                Some(i) => source_of(cols@, k) == Some(i as int),
                None => source_of(cols@, k) is None,
            },
    ensures
        row_view(r@) == migrated_row(cols@, row_view(row@)),
{
    let mut r: Vec<SqlValue> = Vec::new();
    let mut k: usize = 0;
    while k < CANONICAL_WIDTH
        invariant
            k <= 8,
            sources@.len() == 8,
            forall|j: int|
                0 <= j < 8 ==> match #[trigger] sources@[j] {
                    Some(i) => source_of(cols@, j) == Some(i as int),
                    None => source_of(cols@, j) is None,
                },
            r@.len() == k,
            forall|j: int|
                0 <= j < k ==> #[trigger] r@[j]@ == migrated_cell(cols@, row_view(row@), j),
        decreases 8 - k,
    {
        let v = match sources[k] {
            Some(i) => if i < row.len() {
                copy_cell(&row[i])
            } else {
                SqlValue::Null
            },
            None => SqlValue::Null,
        };
        let cell = match v {
            SqlValue::Null => default_cell(k),
            other => other,
        };
        r.push(cell);
        k = k + 1;
    }
    proof {
        assert(row_view(r@) =~= migrated_row(cols@, row_view(row@)));
    }
    r
}

/// Copies every row of an old layout `cols` into the canonical layout: one
/// canonical row per old row, in order. Each canonical column takes the old
/// column of the same name, else of its older name; a missing or null value
/// becomes the column's default.
pub fn migrate_rows(cols: &Vec<String>, rows: &Vec<Vec<SqlValue>>) -> (r: Vec<Vec<SqlValue>>)
    ensures
        r@.len() == rows@.len(),
        forall|i: int|
            0 <= i < rows@.len() ==> row_view(#[trigger] r@[i]@) == migrated_row(
                names_view(cols@),
                row_view(rows@[i]@),
            ),
{
    let sources = column_sources(cols);
    let mut r: Vec<Vec<SqlValue>> = Vec::new();
    let mut i: usize = 0;
    while i < rows.len()
        invariant
            i <= rows@.len(),
            sources@.len() == 8,
            forall|k: int|
                0 <= k < 8 ==> match #[trigger] sources@[k] {
                    Some(j) => source_of(names_view(cols@), k) == Some(j as int),
                    None => source_of(names_view(cols@), k) is None,
                },
            r@.len() == i,
            forall|j: int|
                0 <= j < i ==> row_view(#[trigger] r@[j]@) == migrated_row(
                    names_view(cols@),
                    row_view(rows@[j]@),
                ),
        decreases rows@.len() - i,
    {
        let m = migrate_row(&sources, &rows[i], Ghost(names_view(cols@)));
        r.push(m);
        i = i + 1;
    }
    r
}

/// Migration keeps every row: the canonical table gets one row per old row,
/// in order, and when the old layout has an `id` column each row keeps its
/// non-null id.
pub proof fn lemma_migration_keeps_rows(
    cols: Seq<Seq<char>>,
    rows: Seq<Seq<CellView>>,
    migrated: Seq<Seq<CellView>>,
    id_at: int,
)
    requires
        migrated.len() == rows.len(),
        forall|i: int| 0 <= i < rows.len() ==> #[trigger] migrated[i] == migrated_row(cols, rows[i]),
        first_index(cols, "id"@) == Some(id_at),
    ensures
        migrated.len() == rows.len(),
        forall|i: int|
            0 <= i < rows.len() && id_at < rows[i].len() && !(rows[i][id_at] is Null) ==> (
            #[trigger] migrated[i])[0] == rows[i][id_at],
{
    assert(canonical_columns()[0] == "id"@);
}

/// Number of entries a history query returns when the caller names no count.
pub const DEFAULT_HISTORY_LIMIT: usize = 4;

/// One sync operation as the UI sees it.
#[derive(Debug)]
pub struct SyncHistoryEntry {
    /// RFC 3339 date-time.
    pub timestamp: String,
    pub success: bool,
    pub sync_type: String,
    pub runs_added: Option<i64>,
    pub characters_processed: Option<i64>,
    /// Duration in milliseconds.
    pub duration: Option<i64>,
    pub error: Option<String>,
}

/// One row of the canonical table, without its id.
#[derive(Debug)]
pub struct StoredRow {
    /// Milliseconds since the Unix epoch.
    pub timestamp_ms: i64,
    pub sync_type: String,
    pub runs_added: i64,
    pub characters_processed: i64,
    pub duration_ms: Option<i64>,
    /// 1 for success, 0 for failure.
    pub success: i64,
    pub error_message: Option<String>,
}

pub open spec fn or_zero(o: Option<i64>) -> i64 {
    match o {
        Some(v) => v,
        None => 0,
    }
}

/// The row stored for an entry, at the given instant: absent counts are 0,
/// success is stored as 1 or 0.
pub open spec fn row_matches(entry: SyncHistoryEntry, ms: i64, r: StoredRow) -> bool {
    &&& r.timestamp_ms == ms
    &&& r.sync_type@ == entry.sync_type@
    &&& r.runs_added == or_zero(entry.runs_added)
    &&& r.characters_processed == or_zero(entry.characters_processed)
    &&& r.duration_ms == entry.duration
    &&& r.success == (if entry.success { 1i64 } else { 0i64 })
    &&& r.error_message == entry.error
}

/// The row to store for an entry whose instant is `timestamp_ms`.
pub fn row_with_timestamp(entry: SyncHistoryEntry, timestamp_ms: i64) -> (r: StoredRow)
    ensures
        row_matches(entry, timestamp_ms, r),
{
    StoredRow {
        timestamp_ms,
        sync_type: entry.sync_type,
        runs_added: match entry.runs_added {
            Some(v) => v,
            None => 0,
        },
        characters_processed: match entry.characters_processed {
            Some(v) => v,
            None => 0,
        },
        duration_ms: entry.duration,
        success: if entry.success {
            1
        } else {
            0
        },
        error_message: entry.error,
    }
}

/// The row to append for an entry: its RFC 3339 timestamp becomes epoch
/// milliseconds; a timestamp that does not parse is replaced by `now_ms`,
/// the caller's current time.
pub fn row_for_entry(entry: SyncHistoryEntry, now_ms: i64) -> (r: StoredRow)
    ensures
        match rfc3339_millis(entry.timestamp@) {
            Some(ms) => row_matches(entry, ms, r),
            None => row_matches(entry, now_ms, r),
        },
{
    let ms = match parse_rfc3339_millis(entry.timestamp.as_str()) {
        Some(ms) => ms,
        None => now_ms,
    };
    row_with_timestamp(entry, ms)
}

/// The entry a stored row reads back as: the instant as RFC 3339 text,
/// success as any non-zero value.
pub fn entry_from_row(row: StoredRow) -> (r: SyncHistoryEntry)
    ensures
        r.timestamp@ == rfc3339_text(row.timestamp_ms),
        r.success == (row.success != 0),
        r.sync_type@ == row.sync_type@,
        r.runs_added == Some(row.runs_added),
        r.characters_processed == Some(row.characters_processed),
        r.duration == row.duration_ms,
        r.error == row.error_message,
{
    SyncHistoryEntry {
        timestamp: format_rfc3339(row.timestamp_ms),
        success: row.success != 0,
        sync_type: row.sync_type,
        runs_added: Some(row.runs_added),
        characters_processed: Some(row.characters_processed),
        duration: row.duration_ms,
        error: row.error_message,
    }
}

/// The time of the last successful sync, as RFC 3339 text, when there is one.
pub fn last_sync_text(ms: Option<i64>) -> (r: Option<String>)
    ensures
        match ms {
            Some(t) => r is Some && r->0@ == rfc3339_text(t),
            None => r is None,
        },
{
    match ms {
        Some(t) => Some(format_rfc3339(t)),
        None => None,
    }
}

} // verus!
