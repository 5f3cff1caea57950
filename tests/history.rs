use daebot::history::{
    column_sources, detect_schema, entry_from_row, find_column, last_sync_text, migrate_rows,
    migration_plan, row_for_entry, row_with_timestamp, MigrationStep, SchemaState, SqlValue,
    StoredRow, SyncHistoryEntry,
};

fn names(v: &[&str]) -> Vec<String> {
    v.iter().map(|s| s.to_string()).collect()
}

const CANONICAL: [&str; 8] = [
    "id",
    "timestamp",
    "sync_type",
    "runs_added",
    "characters_processed",
    "duration_ms",
    "success",
    "error_message",
];

fn entry(ts: &str) -> SyncHistoryEntry {
    SyncHistoryEntry {
        timestamp: ts.to_string(),
        success: true,
        sync_type: "manual".to_string(),
        runs_added: None,
        characters_processed: None,
        duration: None,
        error: None,
    }
}

fn as_int(v: &SqlValue) -> Option<i64> {
    match v {
        SqlValue::Integer(i) => Some(*i),
        _ => None,
    }
}

fn as_text(v: &SqlValue) -> Option<&str> {
    match v {
        SqlValue::Text(s) => Some(s.as_str()),
        _ => None,
    }
}

#[test]
fn detect_absent_canonical_legacy() {
    assert_eq!(detect_schema(false, &vec![]), SchemaState::Absent);
    assert_eq!(detect_schema(true, &names(&CANONICAL)), SchemaState::Canonical);
    let mut shuffled = names(&CANONICAL);
    shuffled.reverse();
    shuffled.push("extra".to_string());
    assert_eq!(detect_schema(true, &shuffled), SchemaState::Canonical);
    let old = names(&["id", "timestamp", "success", "runs_added", "characters_processed", "duration", "error"]);
    assert_eq!(detect_schema(true, &old), SchemaState::NeedsMigration);
}

#[test]
fn plans() {
    assert_eq!(migration_plan(SchemaState::Absent), vec![MigrationStep::CreateCanonical]);
    assert!(migration_plan(SchemaState::Canonical).is_empty());
    assert_eq!(
        migration_plan(SchemaState::NeedsMigration),
        vec![
            MigrationStep::RenameAside,
            MigrationStep::CreateCanonical,
            MigrationStep::CopyRows,
            MigrationStep::DropAside
        ]
    );
}

#[test]
fn sources_use_old_names() {
    let old = names(&["id", "timestamp", "success", "runs_added", "characters_processed", "duration", "error"]);
    assert_eq!(find_column(&old, "duration"), Some(5));
    assert_eq!(find_column(&old, "sync_type"), None);
    assert_eq!(
        column_sources(&old),
        vec![Some(0), Some(1), None, Some(3), Some(4), Some(5), Some(2), Some(6)]
    );
}

#[test]
fn migration_maps_columns_and_defaults() {
    let old = names(&["id", "timestamp", "success", "runs_added", "characters_processed", "duration", "error"]);
    let rows = vec![
        vec![
            SqlValue::Integer(1),
            SqlValue::Integer(1_700_000_000_000),
            SqlValue::Integer(0),
            SqlValue::Null,
            SqlValue::Integer(4),
            SqlValue::Integer(250),
            SqlValue::Text("boom".to_string()),
        ],
        vec![
            SqlValue::Integer(2),
            SqlValue::Integer(1_700_000_100_000),
            SqlValue::Null,
            SqlValue::Integer(7),
            SqlValue::Null,
            SqlValue::Null,
            SqlValue::Null,
        ],
    ];
    let out = migrate_rows(&old, &rows);
    assert_eq!(out.len(), rows.len());
    let r0 = &out[0];
    assert_eq!(r0.len(), 8);
    assert_eq!(as_int(&r0[0]), Some(1));
    assert_eq!(as_int(&r0[1]), Some(1_700_000_000_000));
    assert_eq!(as_text(&r0[2]), Some("auto"));
    assert_eq!(as_int(&r0[3]), Some(0));
    assert_eq!(as_int(&r0[4]), Some(4));
    assert_eq!(as_int(&r0[5]), Some(250));
    assert_eq!(as_int(&r0[6]), Some(0));
    assert_eq!(as_text(&r0[7]), Some("boom"));
    let r1 = &out[1];
    assert_eq!(as_int(&r1[3]), Some(7));
    assert_eq!(as_int(&r1[4]), Some(0));
    assert!(matches!(r1[5], SqlValue::Null));
    assert_eq!(as_int(&r1[6]), Some(1));
    assert!(matches!(r1[7], SqlValue::Null));
}

#[test]
fn migration_preserves_row_count() {
    let old = names(&["timestamp"]);
    let rows: Vec<Vec<SqlValue>> = (0..25).map(|i| vec![SqlValue::Integer(i)]).collect();
    let out = migrate_rows(&old, &rows);
    assert_eq!(out.len(), 25);
    assert!(matches!(out[0][0], SqlValue::Null));
    assert_eq!(as_int(&out[24][1]), Some(24));
    assert_eq!(migrate_rows(&old, &vec![]).len(), 0);
}

#[test]
fn migration_twice_changes_nothing() {
    let old = names(&["id", "timestamp", "success"]);
    assert_eq!(detect_schema(true, &old), SchemaState::NeedsMigration);
    let rows = vec![vec![SqlValue::Integer(3), SqlValue::Integer(99), SqlValue::Integer(1)]];
    let once = migrate_rows(&old, &rows);
    let canonical = names(&CANONICAL);
    assert_eq!(detect_schema(true, &canonical), SchemaState::Canonical);
    assert!(migration_plan(detect_schema(true, &canonical)).is_empty());
    let twice = migrate_rows(&canonical, &once);
    assert_eq!(twice.len(), once.len());
    assert_eq!(format!("{:?}", twice), format!("{:?}", once));
}

#[test]
fn other_cell_kinds_are_carried() {
    let old = names(&["timestamp", "error"]);
    let rows = vec![vec![SqlValue::RealBits(1.5f64.to_bits()), SqlValue::Blob(vec![1, 2])]];
    let out = migrate_rows(&old, &rows);
    assert!(matches!(out[0][1], SqlValue::RealBits(b) if f64::from_bits(b) == 1.5));
    assert!(matches!(&out[0][7], SqlValue::Blob(b) if b == &vec![1u8, 2]));
}

#[test]
fn append_then_query_round_trips() {
    let row = row_for_entry(entry("2024-01-01T00:00:00Z"), 7);
    assert_eq!(row.timestamp_ms, 1_704_067_200_000);
    assert_eq!(row.sync_type, "manual");
    assert_eq!(row.success, 1);
    assert_eq!(row.runs_added, 0);
    let back = entry_from_row(row);
    assert_eq!(back.timestamp, "2024-01-01T00:00:00+00:00");
    let again = row_for_entry(SyncHistoryEntry { timestamp: back.timestamp.clone(), ..entry("") }, 7);
    assert_eq!(again.timestamp_ms, 1_704_067_200_000);
    assert!(back.success);
    assert_eq!(back.sync_type, "manual");
    assert_eq!(back.runs_added, Some(0));
    assert_eq!(back.error, None);
}

#[test]
fn append_with_offset_and_millis() {
    let row = row_for_entry(entry("2024-01-01T02:00:00.250+02:00"), 7);
    assert_eq!(row.timestamp_ms, 1_704_067_200_250);
    let back = entry_from_row(row);
    assert_eq!(back.timestamp, "2024-01-01T00:00:00.250+00:00");
}

#[test]
fn unparsable_timestamp_uses_current_time() {
    let row = row_for_entry(entry("yesterday"), 1_800_000_000_000);
    assert_eq!(row.timestamp_ms, 1_800_000_000_000);
    assert_eq!(row.sync_type, "manual");
}

#[test]
fn row_fields_from_entry() {
    let e = SyncHistoryEntry {
        timestamp: "x".to_string(),
        success: false,
        sync_type: "auto".to_string(),
        runs_added: Some(5),
        characters_processed: Some(2),
        duration: Some(1200),
        error: Some("timeout".to_string()),
    };
    let r = row_with_timestamp(e, 42);
    assert_eq!(r.timestamp_ms, 42);
    assert_eq!(r.success, 0);
    assert_eq!(r.runs_added, 5);
    assert_eq!(r.characters_processed, 2);
    assert_eq!(r.duration_ms, Some(1200));
    assert_eq!(r.error_message.as_deref(), Some("timeout"));
    let back = entry_from_row(StoredRow { success: 2, ..r });
    assert!(back.success);
    assert_eq!(back.timestamp, "1970-01-01T00:00:00.042+00:00");
}

#[test]
fn last_sync_formats_or_is_absent() {
    assert_eq!(last_sync_text(None), None);
    assert_eq!(last_sync_text(Some(0)).as_deref(), Some("1970-01-01T00:00:00+00:00"));
}
