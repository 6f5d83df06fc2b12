use mssql_client::bulk::Collation;
use mssql_client::error::Error;
use mssql_client::negotiation::{
    client_encryption, login_step, negotiate_encryption, require_unencrypted, tls_plan,
    EncryptionLevel, LoginState, LoginStep, LoginToken, ServerMessage,
};
use mssql_client::session::EnvChange;

#[test]
fn client_offer_follows_the_configuration() {
    assert_eq!(client_encryption(true, true), EncryptionLevel::NotSupported);
    assert_eq!(client_encryption(false, true), EncryptionLevel::On);
    assert_eq!(client_encryption(false, false), EncryptionLevel::Off);
}

#[test]
fn encryption_agreement_table() {
    assert_eq!(negotiate_encryption(EncryptionLevel::NotSupported, EncryptionLevel::NotSupported), Ok(EncryptionLevel::NotSupported));
    assert_eq!(negotiate_encryption(EncryptionLevel::Off, EncryptionLevel::Off), Ok(EncryptionLevel::Off));
    assert_eq!(negotiate_encryption(EncryptionLevel::Off, EncryptionLevel::On), Ok(EncryptionLevel::On));
    assert_eq!(negotiate_encryption(EncryptionLevel::Off, EncryptionLevel::Required), Ok(EncryptionLevel::On));
    assert_eq!(negotiate_encryption(EncryptionLevel::On, EncryptionLevel::On), Ok(EncryptionLevel::On));
    assert_eq!(negotiate_encryption(EncryptionLevel::On, EncryptionLevel::Required), Ok(EncryptionLevel::On));
    assert_eq!(negotiate_encryption(EncryptionLevel::NotSupported, EncryptionLevel::Required), Ok(EncryptionLevel::On));
    let refused = Err(Error::Protocol("Server does not support requested encryption level".to_string()));
    assert_eq!(negotiate_encryption(EncryptionLevel::On, EncryptionLevel::Off), refused);
    assert_eq!(negotiate_encryption(EncryptionLevel::On, EncryptionLevel::NotSupported), refused);
}

#[test]
fn tls_is_used_unless_nobody_supports_it() {
    assert_eq!(tls_plan(EncryptionLevel::NotSupported), (false, false));
    assert_eq!(tls_plan(EncryptionLevel::Off), (true, true));
    assert_eq!(tls_plan(EncryptionLevel::On), (true, false));
}

#[test]
fn unencrypted_connection_needs_a_server_without_encryption() {
    assert_eq!(require_unencrypted(EncryptionLevel::NotSupported), Ok(()));
    assert_eq!(
        require_unencrypted(EncryptionLevel::Required),
        Err(Error::Config(
            "Server requires encryption (level: Required) but TLS feature is disabled. Either enable the 'tls' feature or configure the server to allow unencrypted connections."
                .to_string()
        ))
    );
}

#[test]
fn login_response_updates_the_session() {
    let mut st = LoginState::new();
    assert!(matches!(login_step(&mut st, LoginToken::LoginAck { tds_version: 0x7400_0004 }, false), LoginStep::Continue));
    assert!(matches!(
        login_step(&mut st, LoginToken::EnvChange(EnvChange::Database("sales".to_string())), false),
        LoginStep::Continue
    ));
    assert!(matches!(
        login_step(&mut st, LoginToken::EnvChange(EnvChange::SqlCollation(vec![0x09, 0x04, 0xD0, 0x00, 0x34])), false),
        LoginStep::Continue
    ));
    // A short collation value is ignored.
    login_step(&mut st, LoginToken::EnvChange(EnvChange::SqlCollation(vec![1, 2])), false);
    login_step(
        &mut st,
        LoginToken::EnvChange(EnvChange::Routing { host: "replica".to_string(), port: 1444 }),
        false,
    );
    assert!(matches!(login_step(&mut st, LoginToken::Info, false), LoginStep::Continue));
    assert!(matches!(login_step(&mut st, LoginToken::Done { error: false }, false), LoginStep::Finished));
    assert_eq!(st.server_version, Some(0x7400_0004));
    assert_eq!(st.database.as_deref(), Some("sales"));
    assert_eq!(st.routing, Some(("replica".to_string(), 1444)));
    assert_eq!(st.collation, Some(Collation { lcid: 0x00D0_0409, sort_id: 0x34 }));
    assert_eq!(st.collation.unwrap().to_bytes(), [0x09, 0x04, 0xD0, 0x00, 0x34]);
}

#[test]
fn login_failures() {
    let mut st = LoginState::new();
    match login_step(&mut st, LoginToken::Done { error: true }, false) {
        LoginStep::Failed(e) => assert_eq!(e, Error::Protocol("login failed".to_string())),
        _ => panic!("expected a failure"),
    }
    match login_step(&mut st, LoginToken::Sspi, false) {
        LoginStep::Failed(e) => assert_eq!(
            e,
            Error::Protocol("server sent SSPI challenge but no negotiator is configured".to_string())
        ),
        _ => panic!("expected a failure"),
    }
    assert!(matches!(login_step(&mut st, LoginToken::Sspi, true), LoginStep::AnswerSspi));
    let msg = ServerMessage {
        number: 18456,
        state: 1,
        class: 14,
        message: "Login failed for user 'sa'.".to_string(),
        server: "db1".to_string(),
        procedure: String::new(),
        line: 1,
    };
    match login_step(&mut st, LoginToken::Error(msg), false) {
        LoginStep::Refused(e) => {
            assert_eq!(e.number, 18456);
            assert_eq!(e.class, 14);
            assert_eq!(e.message, "Login failed for user 'sa'.");
            assert_eq!(e.server.as_deref(), Some("db1"));
            assert_eq!(e.procedure, None);
            assert_eq!(e.line, 1);
        }
        _ => panic!("expected a refusal"),
    }
}
