use mssql_client::config::{
    non_empty, parse_conn_bool, split_connection_string, ApplicationIntent, Config, Credentials,
    RedirectConfig, RetryPolicy, TdsVersion, TimeoutConfig,
};
use std::time::Duration;

#[test]
fn test_connection_string_parsing() {
    let config =
        Config::from_connection_string("Server=localhost;Database=test;User Id=sa;Password=secret;")
            .unwrap();
    assert_eq!(config.host, "localhost");
    assert_eq!(config.database, Some("test".to_string()));
}

#[test]
fn test_connection_string_with_port() {
    let config = Config::from_connection_string("Server=localhost,1434;Database=test;").unwrap();
    assert_eq!(config.host, "localhost");
    assert_eq!(config.port, 1434);
}

#[test]
fn test_connection_string_with_instance() {
    let config =
        Config::from_connection_string("Server=localhost\\SQLEXPRESS;Database=test;").unwrap();
    assert_eq!(config.host, "localhost");
    assert_eq!(config.instance, Some("SQLEXPRESS".to_string()));
}

#[test]
fn test_connection_string_dot_instance() {
    let config = Config::from_connection_string("Server=.\\SQLEXPRESS;Database=test;").unwrap();
    assert_eq!(config.host, ".");
    assert_eq!(config.instance, Some("SQLEXPRESS".to_string()));
}

#[test]
fn test_connection_string_local_instance() {
    let config =
        Config::from_connection_string("Server=(local)\\SQLEXPRESS;Database=test;").unwrap();
    assert_eq!(config.host, "(local)");
    assert_eq!(config.instance, Some("SQLEXPRESS".to_string()));
}

#[test]
fn test_redirect_config_defaults() {
    let config = RedirectConfig::default();
    assert_eq!(config.max_redirects, 2);
    assert!(config.follow_redirects);
}

#[test]
fn test_redirect_config_builder() {
    let config = RedirectConfig::new().max_redirects(5).follow_redirects(false);
    assert_eq!(config.max_redirects, 5);
    assert!(!config.follow_redirects);
}

#[test]
fn test_redirect_config_no_follow() {
    let config = RedirectConfig::no_follow();
    assert_eq!(config.max_redirects, 0);
    assert!(!config.follow_redirects);
}

#[test]
fn test_config_redirect_builder() {
    let config = Config::new().max_redirects(3);
    assert_eq!(config.redirect.max_redirects, 3);

    let config2 = Config::new().redirect(RedirectConfig::no_follow());
    assert!(!config2.redirect.follow_redirects);
}

#[test]
fn test_retry_policy_defaults() {
    let policy = RetryPolicy::default();
    assert_eq!(policy.max_retries, 3);
    assert_eq!(policy.initial_backoff, Duration::from_millis(100));
    assert_eq!(policy.max_backoff, Duration::from_secs(30));
    assert!((policy.backoff_multiplier_permille as f64 / 1000.0 - 2.0).abs() < f64::EPSILON);
    assert!(policy.jitter);
}

#[test]
fn test_retry_policy_no_retry() {
    let policy = RetryPolicy::no_retry();
    assert_eq!(policy.max_retries, 0);
    assert!(!policy.should_retry(0));
}

#[test]
fn test_retry_policy_should_retry() {
    let policy = RetryPolicy::new().max_retries(3);
    assert!(policy.should_retry(0));
    assert!(policy.should_retry(1));
    assert!(policy.should_retry(2));
    assert!(!policy.should_retry(3));
    assert!(!policy.should_retry(4));
}

#[test]
fn test_config_retry_builder() {
    let config = Config::new().max_retries(5);
    assert_eq!(config.retry.max_retries, 5);

    let config2 = Config::new().retry(RetryPolicy::no_retry());
    assert_eq!(config2.retry.max_retries, 0);
}

#[test]
fn test_timeout_config_defaults() {
    let config = TimeoutConfig::default();
    assert_eq!(config.connect_timeout, Duration::from_secs(15));
    assert_eq!(config.tls_timeout, Duration::from_secs(10));
    assert_eq!(config.login_timeout, Duration::from_secs(30));
    assert_eq!(config.command_timeout, Duration::from_secs(30));
    assert_eq!(config.idle_timeout, Duration::from_secs(300));
    assert_eq!(config.keepalive_interval, Some(Duration::from_secs(30)));
}

#[test]
fn test_timeout_config_builder() {
    let config = TimeoutConfig::new()
        .connect_timeout(Duration::from_secs(5))
        .tls_timeout(Duration::from_secs(3))
        .login_timeout(Duration::from_secs(10))
        .command_timeout(Duration::from_secs(60))
        .idle_timeout(Duration::from_secs(600))
        .keepalive_interval(Some(Duration::from_secs(60)));
    assert_eq!(config.connect_timeout, Duration::from_secs(5));
    assert_eq!(config.tls_timeout, Duration::from_secs(3));
    assert_eq!(config.login_timeout, Duration::from_secs(10));
    assert_eq!(config.command_timeout, Duration::from_secs(60));
    assert_eq!(config.idle_timeout, Duration::from_secs(600));
    assert_eq!(config.keepalive_interval, Some(Duration::from_secs(60)));
}

#[test]
fn test_timeout_config_no_keepalive() {
    let config = TimeoutConfig::new().no_keepalive();
    assert_eq!(config.keepalive_interval, None);
}

#[test]
fn test_config_timeouts_builder() {
    let timeouts = TimeoutConfig::new()
        .connect_timeout(Duration::from_secs(5))
        .command_timeout(Duration::from_secs(60));
    let config = Config::new().timeouts(timeouts);
    assert_eq!(config.timeouts.connect_timeout, Duration::from_secs(5));
    assert_eq!(config.timeouts.command_timeout, Duration::from_secs(60));
    assert_eq!(config.connect_timeout, Duration::from_secs(5));
    assert_eq!(config.command_timeout, Duration::from_secs(60));
}

#[test]
fn test_tds_version_default() {
    let config = Config::new();
    assert_eq!(config.tds_version, TdsVersion::V7_4);
    assert!(!config.strict_mode);
}

#[test]
fn test_tds_version_builder() {
    let config = Config::new().tds_version(TdsVersion::V7_3A);
    assert_eq!(config.tds_version, TdsVersion::V7_3A);
    assert!(!config.strict_mode);

    let config = Config::new().tds_version(TdsVersion::V7_3B);
    assert_eq!(config.tds_version, TdsVersion::V7_3B);
    assert!(!config.strict_mode);

    let config = Config::new().tds_version(TdsVersion::V8_0);
    assert_eq!(config.tds_version, TdsVersion::V8_0);
    assert!(config.strict_mode);
}

#[test]
fn test_strict_mode_sets_tds_8() {
    let config = Config::new().strict_mode(true);
    assert!(config.strict_mode);
    assert_eq!(config.tds_version, TdsVersion::V8_0);
}

#[test]
fn test_connection_string_tds_version() {
    let config = Config::from_connection_string("Server=localhost;TDSVersion=7.3;").unwrap();
    assert_eq!(config.tds_version, TdsVersion::V7_3A);
    let config = Config::from_connection_string("Server=localhost;TDSVersion=7.3A;").unwrap();
    assert_eq!(config.tds_version, TdsVersion::V7_3A);
    let config = Config::from_connection_string("Server=localhost;TDSVersion=7.3B;").unwrap();
    assert_eq!(config.tds_version, TdsVersion::V7_3B);
    let config = Config::from_connection_string("Server=localhost;TDSVersion=7.4;").unwrap();
    assert_eq!(config.tds_version, TdsVersion::V7_4);
    let config = Config::from_connection_string("Server=localhost;TDSVersion=8.0;").unwrap();
    assert_eq!(config.tds_version, TdsVersion::V8_0);
    assert!(config.strict_mode);
    let config = Config::from_connection_string("Server=localhost;ProtocolVersion=7.3;").unwrap();
    assert_eq!(config.tds_version, TdsVersion::V7_3A);
}

#[test]
fn test_connection_string_invalid_tds_version() {
    let result = Config::from_connection_string("Server=localhost;TDSVersion=invalid;");
    assert!(result.is_err());
    let result = Config::from_connection_string("Server=localhost;TDSVersion=9.0;");
    assert!(result.is_err());
}

#[test]
fn test_connection_string_no_tls() {
    let config = Config::from_connection_string("Server=legacy;Encrypt=no_tls;").unwrap();
    assert!(config.no_tls);
    assert!(!config.encrypt);
    assert!(!config.strict_mode);

    let config = Config::from_connection_string("Server=localhost;Encrypt=true;").unwrap();
    assert!(!config.no_tls);
    assert!(config.encrypt);

    let config = Config::from_connection_string("Server=localhost;Encrypt=strict;").unwrap();
    assert!(!config.no_tls);
    assert!(config.encrypt);
    assert!(config.strict_mode);

    let config = Config::from_connection_string("Server=localhost;Encrypt=mandatory;").unwrap();
    assert!(config.encrypt);
    assert!(!config.no_tls);

    let config = Config::from_connection_string("Server=localhost;Encrypt=optional;").unwrap();
    assert!(!config.encrypt);
    assert!(!config.no_tls);
}

#[test]
fn test_no_tls_builder() {
    let config = Config::new().no_tls(true);
    assert!(config.no_tls);
    assert!(!config.encrypt);
    let config = Config::new().no_tls(true).no_tls(false);
    assert!(!config.no_tls);
}

#[test]
fn test_connection_string_integrated_security_without_feature() {
    let result = Config::from_connection_string("Server=localhost;Integrated Security=true;");
    assert!(result.is_err());
    let err = result.unwrap_err().to_string();
    assert!(err.contains("integrated-auth"));
}

#[test]
fn test_parse_conn_bool_all_values() {
    assert!(parse_conn_bool("test", "true").unwrap());
    assert!(parse_conn_bool("test", "True").unwrap());
    assert!(parse_conn_bool("test", "TRUE").unwrap());
    assert!(parse_conn_bool("test", "yes").unwrap());
    assert!(parse_conn_bool("test", "Yes").unwrap());
    assert!(parse_conn_bool("test", "1").unwrap());

    assert!(!parse_conn_bool("test", "false").unwrap());
    assert!(!parse_conn_bool("test", "False").unwrap());
    assert!(!parse_conn_bool("test", "FALSE").unwrap());
    assert!(!parse_conn_bool("test", "no").unwrap());
    assert!(!parse_conn_bool("test", "No").unwrap());
    assert!(!parse_conn_bool("test", "0").unwrap());

    assert!(parse_conn_bool("test", "banana").is_err());
    assert!(parse_conn_bool("test", "tru").is_err());
    assert!(parse_conn_bool("test", "").is_err());
}

#[test]
fn test_boolean_validation_trust_server_certificate() {
    let config =
        Config::from_connection_string("Server=localhost;TrustServerCertificate=true;").unwrap();
    assert!(config.trust_server_certificate);
    let config =
        Config::from_connection_string("Server=localhost;TrustServerCertificate=no;").unwrap();
    assert!(!config.trust_server_certificate);
    let result = Config::from_connection_string("Server=localhost;TrustServerCertificate=banana;");
    assert!(result.is_err());
    assert!(result.unwrap_err().to_string().contains("invalid boolean"));
}

#[test]
fn test_boolean_validation_mars() {
    let config = Config::from_connection_string("Server=localhost;MARS=true;").unwrap();
    assert!(config.mars);
    let result = Config::from_connection_string("Server=localhost;MARS=tru;");
    assert!(result.is_err());
}

fn password_of(config: &Config) -> String {
    match &config.credentials {
        Credentials::SqlServer { password, .. } => password.clone(),
        Credentials::Integrated => panic!("expected SQL Server credentials"),
    }
}

#[test]
fn test_quoted_value_semicolon() {
    let config = Config::from_connection_string(
        r#"Server=localhost;User Id=sa;Password="my;complex;pass";Database=test;"#,
    )
    .unwrap();
    assert_eq!(password_of(&config), "my;complex;pass");
    assert_eq!(config.database, Some("test".to_string()));
}

#[test]
fn test_quoted_value_single_quotes() {
    let config =
        Config::from_connection_string("Server=localhost;User Id=sa;Password='my;pass';").unwrap();
    assert_eq!(password_of(&config), "my;pass");
}

#[test]
fn test_quoted_value_escaped_double_quotes() {
    let config = Config::from_connection_string(
        r#"Server=localhost;User Id=sa;Password="has ""quotes""";"#,
    )
    .unwrap();
    assert_eq!(password_of(&config), r#"has "quotes""#);
}

#[test]
fn test_quoted_value_escaped_single_quotes() {
    let config =
        Config::from_connection_string("Server=localhost;User Id=sa;Password='it''s complex';")
            .unwrap();
    assert_eq!(password_of(&config), "it's complex");
}

#[test]
fn test_quoted_value_unterminated() {
    let result = Config::from_connection_string(r#"Server=localhost;Password="unterminated;"#);
    assert!(result.is_err());
    assert!(result.unwrap_err().to_string().contains("unterminated"));
}

#[test]
fn test_tcp_prefix_stripped() {
    let config = Config::from_connection_string(
        "Server=tcp:myserver.database.windows.net,1433;Database=mydb;",
    )
    .unwrap();
    assert_eq!(config.host, "myserver.database.windows.net");
    assert_eq!(config.port, 1433);
}

#[test]
fn test_tcp_prefix_mixed_case() {
    let config = Config::from_connection_string("Server=Tcp:myhost,1433;").unwrap();
    assert_eq!(config.host, "myhost");
    let config = Config::from_connection_string("Server=TCP:myhost,1433;").unwrap();
    assert_eq!(config.host, "myhost");
}

#[test]
fn test_tcp_prefix_with_instance() {
    let config = Config::from_connection_string("Server=tcp:myhost\\INST;Database=test;").unwrap();
    assert_eq!(config.host, "myhost");
    assert_eq!(config.instance, Some("INST".to_string()));
}

#[test]
fn test_np_prefix_rejected() {
    let result = Config::from_connection_string(r"Server=np:\\myhost\pipe\sql\query;Database=test;");
    assert!(result.is_err());
    assert!(result.unwrap_err().to_string().contains("Named Pipes"));
    let result = Config::from_connection_string(r"Server=NP:\\myhost\pipe\sql\query;Database=test;");
    assert!(result.is_err());
}

#[test]
fn test_lpc_prefix_rejected() {
    let result = Config::from_connection_string("Server=lpc:myhost;Database=test;");
    assert!(result.is_err());
    assert!(result.unwrap_err().to_string().contains("Shared Memory"));
}

#[test]
fn test_server_alias_addr() {
    let config = Config::from_connection_string("Addr=myhost;").unwrap();
    assert_eq!(config.host, "myhost");
}

#[test]
fn test_server_alias_address() {
    let config = Config::from_connection_string("Address=myhost,1434;").unwrap();
    assert_eq!(config.host, "myhost");
    assert_eq!(config.port, 1434);
}

#[test]
fn test_server_alias_network_address() {
    let config = Config::from_connection_string("Network Address=myhost;").unwrap();
    assert_eq!(config.host, "myhost");
}

#[test]
fn test_timeout_alias() {
    let config = Config::from_connection_string("Server=localhost;Timeout=30;").unwrap();
    assert_eq!(config.connect_timeout, Duration::from_secs(30));
}

#[test]
fn test_application_intent_readonly() {
    let config =
        Config::from_connection_string("Server=localhost;ApplicationIntent=ReadOnly;").unwrap();
    assert_eq!(config.application_intent, ApplicationIntent::ReadOnly);
}

#[test]
fn test_application_intent_readwrite() {
    let config =
        Config::from_connection_string("Server=localhost;Application Intent=ReadWrite;").unwrap();
    assert_eq!(config.application_intent, ApplicationIntent::ReadWrite);
}

#[test]
fn test_application_intent_invalid() {
    let result = Config::from_connection_string("Server=localhost;ApplicationIntent=banana;");
    assert!(result.is_err());
    assert!(result.unwrap_err().to_string().contains("invalid ApplicationIntent"));
}

#[test]
fn test_workstation_id() {
    let config = Config::from_connection_string("Server=localhost;Workstation ID=MYPC;").unwrap();
    assert_eq!(config.workstation_id, Some("MYPC".to_string()));
}

#[test]
fn test_wsid_alias() {
    let config = Config::from_connection_string("Server=localhost;WSID=MYWORKSTATION;").unwrap();
    assert_eq!(config.workstation_id, Some("MYWORKSTATION".to_string()));
}

#[test]
fn test_language() {
    let config = Config::from_connection_string("Server=localhost;Language=us_english;").unwrap();
    assert_eq!(config.language, Some("us_english".to_string()));
}

#[test]
fn test_current_language_alias() {
    let config =
        Config::from_connection_string("Server=localhost;Current Language=Deutsch;").unwrap();
    assert_eq!(config.language, Some("Deutsch".to_string()));
}

#[test]
fn test_connect_retry_count() {
    let config = Config::from_connection_string("Server=localhost;ConnectRetryCount=5;").unwrap();
    assert_eq!(config.retry.max_retries, 5);
}

#[test]
fn test_connect_retry_interval() {
    let config =
        Config::from_connection_string("Server=localhost;ConnectRetryInterval=15;").unwrap();
    assert_eq!(config.retry.initial_backoff, Duration::from_secs(15));
}

#[test]
fn test_pool_keywords_accepted_without_error() {
    let result = Config::from_connection_string(
        "Server=localhost;Max Pool Size=10;Min Pool Size=2;Pooling=true;",
    );
    assert!(result.is_ok());
}

#[test]
fn test_known_unsupported_keywords_accepted() {
    let result = Config::from_connection_string(
        "Server=localhost;Failover Partner=backup;Persist Security Info=false;",
    );
    assert!(result.is_ok());
}

#[test]
fn test_multi_subnet_failover_connection_string() {
    let config = Config::from_connection_string("Server=ag-listener;MultiSubnetFailover=true;").unwrap();
    assert!(config.multi_subnet_failover);
    let config =
        Config::from_connection_string("Server=ag-listener;Multi Subnet Failover=true;").unwrap();
    assert!(config.multi_subnet_failover);
    let config =
        Config::from_connection_string("Server=ag-listener;MultiSubnetFailover=false;").unwrap();
    assert!(!config.multi_subnet_failover);
    let config = Config::from_connection_string("Server=localhost;").unwrap();
    assert!(!config.multi_subnet_failover);
}

#[test]
fn test_multi_subnet_failover_builder() {
    let config = Config::new().multi_subnet_failover(true);
    assert!(config.multi_subnet_failover);
    let config = Config::new().multi_subnet_failover(false);
    assert!(!config.multi_subnet_failover);
}

#[test]
fn test_multi_subnet_failover_invalid_value() {
    let result = Config::from_connection_string("Server=localhost;MultiSubnetFailover=banana;");
    assert!(result.is_err());
}

#[test]
fn test_application_intent_builder() {
    let config = Config::new().application_intent(ApplicationIntent::ReadOnly);
    assert_eq!(config.application_intent, ApplicationIntent::ReadOnly);
}

#[test]
fn test_workstation_id_builder() {
    let config = Config::new().workstation_id("MY-PC");
    assert_eq!(config.workstation_id, Some("MY-PC".to_string()));
}

#[test]
fn test_language_builder() {
    let config = Config::new().language("us_english");
    assert_eq!(config.language, Some("us_english".to_string()));
}

#[test]
fn test_send_string_parameters_as_unicode_connection_string() {
    let config =
        Config::from_connection_string("Server=localhost;SendStringParametersAsUnicode=false;")
            .unwrap();
    assert!(!config.send_string_parameters_as_unicode);
    let config = Config::from_connection_string(
        "Server=localhost;Send String Parameters As Unicode=false;",
    )
    .unwrap();
    assert!(!config.send_string_parameters_as_unicode);
    let config =
        Config::from_connection_string("Server=localhost;SendStringParametersAsUnicode=true;")
            .unwrap();
    assert!(config.send_string_parameters_as_unicode);
    // Default is true
    let config = Config::from_connection_string("Server=localhost;").unwrap();
    assert!(config.send_string_parameters_as_unicode);
}

#[test]
fn default_configuration_values() {
    let config = Config::default();
    assert_eq!(config.host, "localhost");
    assert_eq!(config.port, 1433);
    assert_eq!(config.application_name, "mssql-client");
    assert_eq!(config.packet_size, 4096);
    assert!(config.encrypt);
    assert!(config.send_string_parameters_as_unicode);
    assert_eq!(config.connect_timeout, Duration::from_secs(15));
    assert_eq!(config.command_timeout, Duration::from_secs(30));
    assert_eq!(
        config.credentials,
        Credentials::SqlServer { username: String::new(), password: String::new() }
    );
}

#[test]
fn split_keeps_pairs_in_order_and_drops_empty_keys() {
    let pairs = split_connection_string("  ; A = 1 ;=x; b=' q ' junk ;c=").unwrap();
    assert_eq!(
        pairs,
        vec![
            ("A".to_string(), "1".to_string()),
            ("b".to_string(), " q ".to_string()),
            ("c".to_string(), "".to_string()),
        ]
    );
}

#[test]
fn split_errors() {
    let err = split_connection_string("Server=x;garbage").unwrap_err();
    assert_eq!(err.to_string(), "configuration error: invalid key-value pair (missing '='): 'garbage'");
    assert_eq!(split_connection_string("Server=x;   ").unwrap().len(), 1);
    let err = split_connection_string(" Pwd = 'abc").unwrap_err();
    assert_eq!(err.to_string(), "configuration error: unterminated quoted value for key 'Pwd'");
}

#[test]
fn empty_values_reset_optional_settings() {
    assert_eq!(non_empty(""), None);
    assert_eq!(non_empty("x"), Some("x".to_string()));
    let config = Config::from_connection_string("Database=a;Database=;").unwrap();
    assert_eq!(config.database, None);
}

#[test]
fn invalid_numbers_are_errors() {
    let err = Config::from_connection_string("Server=h,99999").unwrap_err();
    assert_eq!(err.to_string(), "configuration error: invalid port: 99999");
    let err = Config::from_connection_string("Packet Size=big").unwrap_err();
    assert_eq!(err.to_string(), "configuration error: invalid packet size: big");
    let err = Config::from_connection_string("ConnectRetryCount=-1").unwrap_err();
    assert_eq!(err.to_string(), "configuration error: invalid ConnectRetryCount: '-1'");
    let config = Config::from_connection_string("Port=+77;Command Timeout=9").unwrap();
    assert_eq!(config.port, 77);
    assert_eq!(config.command_timeout, Duration::from_secs(9));
}

#[test]
fn column_encryption_needs_its_feature() {
    let err = Config::from_connection_string("Column Encryption Setting=Enabled").unwrap_err();
    assert!(err.to_string().contains("always-encrypted"));
    assert!(Config::from_connection_string("Column Encryption Setting=Disabled").is_ok());
    assert!(Config::from_connection_string("Integrated Security=false").is_ok());
    assert!(Config::from_connection_string("Trusted_Connection=SSPI").is_err());
}

#[test]
fn builders_set_fields() {
    let config = Config::new()
        .host("h")
        .port(1)
        .database("d")
        .application_name("app")
        .connect_timeout(Duration::from_secs(2))
        .trust_server_certificate(true)
        .encrypt(false)
        .with_host("h2")
        .with_port(3)
        .send_string_parameters_as_unicode(false)
        .credentials(Credentials::Integrated);
    assert_eq!(config.host, "h2");
    assert_eq!(config.port, 3);
    assert_eq!(config.database, Some("d".to_string()));
    assert_eq!(config.application_name, "app");
    assert_eq!(config.connect_timeout, Duration::from_secs(2));
    assert!(config.trust_server_certificate);
    assert!(!config.encrypt);
    assert!(!config.send_string_parameters_as_unicode);
    assert_eq!(config.credentials, Credentials::Integrated);
    assert_eq!(TdsVersion::parse("7.3b"), Some(TdsVersion::V7_3B));
    assert!(TdsVersion::V8_0.is_tds_8());
}

#[test]
fn test_retry_policy_builder() {
    let policy = RetryPolicy::new()
        .max_retries(5)
        .initial_backoff(Duration::from_millis(200))
        .max_backoff(Duration::from_secs(60))
        .backoff_multiplier_permille(3000)
        .jitter(false);
    assert_eq!(policy.max_retries, 5);
    assert_eq!(policy.initial_backoff, Duration::from_millis(200));
    assert_eq!(policy.max_backoff, Duration::from_secs(60));
    assert!((policy.backoff_multiplier_permille as f64 / 1000.0 - 3.0).abs() < f64::EPSILON);
    assert!(!policy.jitter);
}

#[test]
fn test_send_string_parameters_as_unicode_builder() {
    let config = Config::new().send_string_parameters_as_unicode(false);
    assert!(!config.send_string_parameters_as_unicode);
    let config = Config::new().send_string_parameters_as_unicode(true);
    assert!(config.send_string_parameters_as_unicode);
}

#[test]
fn test_send_string_parameters_as_unicode_invalid_value() {
    let result = Config::from_connection_string("Server=localhost;SendStringParametersAsUnicode=banana;");
    assert!(result.is_err());
}

#[test]
fn test_empty_values_become_none() {
    let config = Config::from_connection_string("Server=localhost;Database=;Language=;").unwrap();
    assert_eq!(config.database, None);
    assert_eq!(config.language, None);
}

#[test]
fn unquoted_values_lose_trailing_whitespace() {
    assert_eq!(
        split_connection_string("a=1 ;").unwrap(),
        vec![("a".to_string(), "1".to_string())]
    );
    assert_eq!(
        split_connection_string("a=' 1 ' ;").unwrap(),
        vec![("a".to_string(), " 1 ".to_string())]
    );
}
