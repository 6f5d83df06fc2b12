use mssql_client::bulk::Collation;
use mssql_client::config::{Config, Credentials};
use mssql_client::error::Error;
use mssql_client::session::{
    process_env_change, process_transaction_env_change, resolve_workstation_id,
    rollback_to_statement, save_point_statement, validate_credential_support, EnvChange,
};

#[test]
fn transaction_descriptor_tracks_env_changes() {
    let mut d: u64 = 0;
    process_transaction_env_change(
        &EnvChange::BeginTransaction(vec![1, 2, 3, 4, 5, 6, 7, 8, 9]),
        &mut d,
    );
    assert_eq!(d, 0x0807060504030201);
    process_transaction_env_change(&EnvChange::Other("x".to_string()), &mut d);
    assert_eq!(d, 0x0807060504030201);
    process_transaction_env_change(&EnvChange::BeginTransaction(vec![1, 2]), &mut d);
    assert_eq!(d, 0x0807060504030201);
    process_transaction_env_change(&EnvChange::CommitTransaction, &mut d);
    assert_eq!(d, 0);
    d = 5;
    process_transaction_env_change(&EnvChange::RollbackTransaction, &mut d);
    assert_eq!(d, 0);
}

#[test]
fn env_changes_update_the_session() {
    let mut db = None;
    let mut routing = None;
    let mut collation = None;
    process_env_change(&EnvChange::Database("sales".to_string()), &mut db, &mut routing, &mut collation);
    assert_eq!(db, Some("sales".to_string()));
    process_env_change(
        &EnvChange::Routing { host: "replica".to_string(), port: 11000 },
        &mut db,
        &mut routing,
        &mut collation,
    );
    assert_eq!(routing, Some(("replica".to_string(), 11000)));
    process_env_change(
        &EnvChange::SqlCollation(vec![0x09, 0x04, 0xD0, 0x00, 0x34]),
        &mut db,
        &mut routing,
        &mut collation,
    );
    assert_eq!(collation, Some(Collation { lcid: 0x00D0_0409, sort_id: 0x34 }));
    process_env_change(&EnvChange::SqlCollation(vec![1, 2]), &mut db, &mut routing, &mut collation);
    assert_eq!(collation, Some(Collation { lcid: 0x00D0_0409, sort_id: 0x34 }));
}

#[test]
fn savepoint_statements() {
    assert_eq!(save_point_statement("before_items").unwrap(), "SAVE TRANSACTION before_items");
    assert_eq!(
        save_point_statement("x; DROP TABLE t"),
        Err(Error::InvalidIdentifier("x; DROP TABLE t".to_string()))
    );
    assert_eq!(rollback_to_statement("sp1"), "ROLLBACK TRANSACTION sp1");
}

#[test]
fn credentials_and_workstation() {
    assert!(validate_credential_support(&Config::new()).is_ok());
    let err = validate_credential_support(&Config::new().credentials(Credentials::Integrated))
        .unwrap_err()
        .to_string();
    assert!(err.contains("not yet supported"), "got: {err}");
    let config = Config::new();
    assert_eq!(resolve_workstation_id(&config, Some("PC".to_string()), Some("h".to_string())), "PC");
    assert_eq!(resolve_workstation_id(&config, None, Some("h".to_string())), "h");
    assert_eq!(resolve_workstation_id(&config, None, None), "");
    let config = Config::new().workstation_id("W");
    assert_eq!(resolve_workstation_id(&config, Some("PC".to_string()), None), "W");
}
