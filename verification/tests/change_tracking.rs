use mssql_client::change_tracking::{
    ChangeMetadata, ChangeOperation, ChangeTracking, ChangeTrackingQuery, SyncVersionStatus,
};

#[test]
fn test_change_operation_from_sql() {
    assert_eq!(ChangeOperation::from_sql("I"), Some(ChangeOperation::Insert));
    assert_eq!(ChangeOperation::from_sql("U"), Some(ChangeOperation::Update));
    assert_eq!(ChangeOperation::from_sql("D"), Some(ChangeOperation::Delete));
    assert_eq!(ChangeOperation::from_sql("i"), Some(ChangeOperation::Insert));
    assert_eq!(ChangeOperation::from_sql(" U "), Some(ChangeOperation::Update));
    assert_eq!(ChangeOperation::from_sql("X"), None);
    assert_eq!(ChangeOperation::from_sql(""), None);
}

#[test]
fn test_change_operation_as_sql() {
    assert_eq!(ChangeOperation::Insert.as_sql(), "I");
    assert_eq!(ChangeOperation::Update.as_sql(), "U");
    assert_eq!(ChangeOperation::Delete.as_sql(), "D");
}

#[test]
fn test_change_operation_predicates() {
    assert!(ChangeOperation::Insert.is_insert());
    assert!(!ChangeOperation::Insert.is_update());
    assert!(!ChangeOperation::Insert.is_delete());

    assert!(!ChangeOperation::Update.is_insert());
    assert!(ChangeOperation::Update.is_update());
    assert!(!ChangeOperation::Update.is_delete());

    assert!(!ChangeOperation::Delete.is_insert());
    assert!(!ChangeOperation::Delete.is_update());
    assert!(ChangeOperation::Delete.is_delete());
}

#[test]
fn test_change_metadata_constructors() {
    let insert = ChangeMetadata::insert(42);
    assert_eq!(insert.version, 42);
    assert_eq!(insert.creation_version, Some(42));
    assert_eq!(insert.operation, ChangeOperation::Insert);

    let update = ChangeMetadata::update(50, 42);
    assert_eq!(update.version, 50);
    assert_eq!(update.creation_version, Some(42));
    assert_eq!(update.operation, ChangeOperation::Update);

    let delete = ChangeMetadata::delete(60);
    assert_eq!(delete.version, 60);
    assert_eq!(delete.creation_version, None);
    assert_eq!(delete.operation, ChangeOperation::Delete);
}

#[test]
fn test_change_tracking_query_basic() {
    let query = ChangeTrackingQuery::changes("Products", 42);
    let sql = query.to_sql();

    assert!(sql.contains("CHANGETABLE(CHANGES Products, 42)"));
    assert!(sql.contains("SYS_CHANGE_VERSION"));
    assert!(sql.contains("SYS_CHANGE_OPERATION"));
}

#[test]
fn test_change_tracking_query_with_columns() {
    let query = ChangeTrackingQuery::changes("Products", 42).with_columns(&["Name", "Price"]);
    let sql = query.to_sql();

    assert!(sql.contains("CT.Name"));
    assert!(sql.contains("CT.Price"));
}

#[test]
fn test_change_tracking_query_with_primary_keys() {
    let query = ChangeTrackingQuery::changes("Products", 42).with_primary_keys(&["ProductId"]);
    let sql = query.to_sql();

    assert!(sql.contains("CT.ProductId"));
}

#[test]
fn test_change_tracking_query_force_seek() {
    let query = ChangeTrackingQuery::changes("Products", 42).with_force_seek();
    let sql = query.to_sql();

    assert!(sql.contains("FORCESEEK"));
}

#[test]
fn test_change_tracking_query_with_data() {
    let query = ChangeTrackingQuery::changes("Products", 42).with_primary_keys(&["ProductId"]);
    let sql = query.to_sql_with_data(&["Name", "Price"]);

    assert!(sql.contains("LEFT OUTER JOIN Products AS T"));
    assert!(sql.contains("CT.ProductId = T.ProductId"));
    assert!(sql.contains("T.Name"));
    assert!(sql.contains("T.Price"));
}

#[test]
fn test_change_tracking_helper_sql() {
    assert_eq!(
        ChangeTracking::current_version_sql(),
        "SELECT CHANGE_TRACKING_CURRENT_VERSION()"
    );

    let min_sql = ChangeTracking::min_valid_version_sql("Products");
    assert!(min_sql.contains("CHANGE_TRACKING_MIN_VALID_VERSION"));
    assert!(min_sql.contains("Products"));

    let mask_sql = ChangeTracking::column_in_mask_sql("Products", "Price", "@mask");
    assert!(mask_sql.contains("CHANGE_TRACKING_IS_COLUMN_IN_MASK"));
    assert!(mask_sql.contains("Price"));
    assert!(mask_sql.contains("@mask"));
}

#[test]
fn test_change_tracking_enable_sql() {
    let db_sql = ChangeTracking::enable_database_sql("MyDB", 7, true);
    assert!(db_sql.contains("[MyDB]"));
    assert!(db_sql.contains("7 DAYS"));
    assert!(db_sql.contains("AUTO_CLEANUP = ON"));

    let table_sql = ChangeTracking::enable_table_sql("Products", true);
    assert!(table_sql.contains("[Products]"));
    assert!(table_sql.contains("TRACK_COLUMNS_UPDATED = ON"));
}

#[test]
fn test_sync_version_status() {
    assert!(SyncVersionStatus::check(100, Some(50)).can_sync_incrementally());
    assert!(SyncVersionStatus::check(50, Some(50)).can_sync_incrementally());

    assert!(SyncVersionStatus::check(40, Some(50)).requires_full_sync());

    let status = SyncVersionStatus::check(100, None);
    assert_eq!(status, SyncVersionStatus::NotEnabled);
    assert!(!status.can_sync_incrementally());
}

// ---- exact texts ----

#[test]
fn query_to_sql_exact_text() {
    let sql = ChangeTrackingQuery::changes("Products", -7)
        .with_primary_keys(&["Id"])
        .with_columns(&["Name"])
        .with_force_seek()
        .to_sql();
    assert_eq!(
        sql,
        "SELECT CT.SYS_CHANGE_VERSION, CT.SYS_CHANGE_CREATION_VERSION, CT.SYS_CHANGE_OPERATION, \
         CT.SYS_CHANGE_COLUMNS, CT.SYS_CHANGE_CONTEXT, CT.Id, CT.Name \
         FROM CHANGETABLE(CHANGES Products, -7, FORCESEEK) AS CT"
    );
}

#[test]
fn query_to_sql_with_data_exact_text() {
    let sql = ChangeTrackingQuery::changes("P", 0)
        .with_alias("C")
        .with_primary_keys(&["A", "B"])
        .to_sql_with_data(&["X"]);
    assert_eq!(
        sql,
        "SELECT C.SYS_CHANGE_VERSION, C.SYS_CHANGE_CREATION_VERSION, C.SYS_CHANGE_OPERATION, \
         C.SYS_CHANGE_COLUMNS, C.SYS_CHANGE_CONTEXT, C.A, C.B, T.X \
         FROM CHANGETABLE(CHANGES P, 0) AS C LEFT OUTER JOIN P AS T ON C.A = T.A AND C.B = T.B"
    );
}

#[test]
fn query_to_sql_with_data_without_keys_joins_on_true() {
    let sql = ChangeTrackingQuery::changes("P", 9223372036854775807).to_sql_with_data(&["X", "Y"]);
    assert!(sql.ends_with("LEFT OUTER JOIN P AS T ON 1=1"));
    assert!(sql.contains("CT.SYS_CHANGE_CONTEXT, T.X, T.Y FROM"));
    assert!(sql.contains("CHANGES P, 9223372036854775807)"));
}

#[test]
fn helper_sql_exact_texts() {
    assert_eq!(
        ChangeTracking::column_in_mask_sql("T", "C", "@m"),
        "SELECT CHANGE_TRACKING_IS_COLUMN_IN_MASK(COLUMNPROPERTY(OBJECT_ID(N'T'), N'C', 'ColumnId'), @m)"
    );
    assert_eq!(
        ChangeTracking::enable_database_sql("D", 0, false),
        "ALTER DATABASE [D] SET CHANGE_TRACKING = ON (CHANGE_RETENTION = 0 DAYS, AUTO_CLEANUP = OFF)"
    );
    assert_eq!(ChangeTracking::disable_table_sql("T"), "ALTER TABLE [T] DISABLE CHANGE_TRACKING");
    assert_eq!(
        ChangeTracking::disable_database_sql("D"),
        "ALTER DATABASE [D] SET CHANGE_TRACKING = OFF"
    );
    assert_eq!(
        ChangeTracking::min_valid_version_sql("T"),
        "SELECT CHANGE_TRACKING_MIN_VALID_VERSION(OBJECT_ID(N'T'))"
    );
}

#[test]
fn from_sql_roundtrips_as_sql() {
    for op in [ChangeOperation::Insert, ChangeOperation::Update, ChangeOperation::Delete] {
        assert_eq!(ChangeOperation::from_sql(op.as_sql()), Some(op));
    }
    assert_eq!(ChangeOperation::from_sql("\t d\n"), Some(ChangeOperation::Delete));
    assert_eq!(ChangeOperation::from_sql("DD"), None);
    assert_eq!(ChangeOperation::Update.to_string(), "UPDATE");
}

#[test]
fn to_sql_binds_the_alias() {
    let q = ChangeTrackingQuery::changes("Products", 42);
    assert!(q.to_sql().contains("FROM CHANGETABLE(CHANGES Products, 42) AS CT"));
    let q = ChangeTrackingQuery::changes("Products", 42).with_alias("C");
    assert!(q.to_sql().ends_with(") AS C"));
}
