use mssql_client::browser::{browser_target, build_browser_request, parse_browser_response};
use mssql_client::error::Error;

fn packet(resp_data: &[u8]) -> Vec<u8> {
    let mut packet = vec![0x05];
    packet.extend_from_slice(&(resp_data.len() as u16).to_le_bytes());
    packet.extend_from_slice(resp_data);
    packet
}

#[test]
fn test_parse_browser_response_valid() {
    let p = packet(
        b"ServerName;MYSERVER;InstanceName;SQLEXPRESS;IsClustered;No;Version;15.0.2000.5;tcp;52000;;",
    );
    assert_eq!(parse_browser_response(&p, "SQLEXPRESS").unwrap(), 52000);
}

#[test]
fn test_parse_browser_response_with_named_pipes() {
    let p = packet(b"ServerName;SRV;InstanceName;INST;IsClustered;No;Version;15.0.0.0;np;\\\\SRV\\pipe\\sql\\query;tcp;49500;;");
    assert_eq!(parse_browser_response(&p, "INST").unwrap(), 49500);
}

#[test]
fn test_parse_browser_response_no_tcp() {
    let p = packet(b"ServerName;SRV;InstanceName;INST;IsClustered;No;Version;15.0.0.0;np;\\\\SRV\\pipe\\sql\\query;;");
    let result = parse_browser_response(&p, "INST");
    assert!(result.is_err());
    let err = result.unwrap_err().to_string();
    assert!(err.contains("no TCP port"), "got: {err}");
}

#[test]
fn test_parse_browser_response_too_short() {
    let result = parse_browser_response(&[0x05, 0x00], "INST");
    assert!(result.is_err());
}

#[test]
fn test_parse_browser_response_wrong_type() {
    let result = parse_browser_response(&[0x04, 0x00, 0x00], "INST");
    assert!(result.is_err());
    let err = result.unwrap_err().to_string();
    assert!(err.contains("unexpected response type"), "got: {err}");
}

#[test]
fn test_parse_browser_response_spec_example() {
    let packet: Vec<u8> = vec![
        0x05, 0x58, 0x00, 0x53, 0x65, 0x72, 0x76, 0x65, 0x72, 0x4e, 0x61, 0x6d, 0x65, 0x3b, 0x49,
        0x4c, 0x53, 0x55, 0x4e, 0x47, 0x31, 0x3b, 0x49, 0x6e, 0x73, 0x74, 0x61, 0x6e, 0x63, 0x65,
        0x4e, 0x61, 0x6d, 0x65, 0x3b, 0x59, 0x55, 0x4b, 0x4f, 0x4e, 0x53, 0x54, 0x44, 0x3b, 0x49,
        0x73, 0x43, 0x6c, 0x75, 0x73, 0x74, 0x65, 0x72, 0x65, 0x64, 0x3b, 0x4e, 0x6f, 0x3b, 0x56,
        0x65, 0x72, 0x73, 0x69, 0x6f, 0x6e, 0x3b, 0x39, 0x2e, 0x30, 0x30, 0x2e, 0x31, 0x33, 0x39,
        0x39, 0x2e, 0x30, 0x36, 0x3b, 0x74, 0x63, 0x70, 0x3b, 0x35, 0x37, 0x31, 0x33, 0x37, 0x3b,
        0x3b,
    ];
    let port = parse_browser_response(&packet, "YUKONSTD").unwrap();
    assert_eq!(port, 57137);
}

#[test]
fn browser_error_messages() {
    assert_eq!(
        parse_browser_response(&[0x04, 0x00, 0x00], "I"),
        Err(Error::BrowserResolution {
            instance: "I".to_string(),
            reason: "unexpected response type: 0x04 (expected 0x05)".to_string(),
        })
    );
    assert_eq!(
        parse_browser_response(&[0x05, 0x05, 0x00, b'a'], "I"),
        Err(Error::BrowserResolution {
            instance: "I".to_string(),
            reason: "response truncated: header says 5 bytes but only 1 available".to_string(),
        })
    );
    let p = packet(&[0xFF, 0xFE]);
    let err = parse_browser_response(&p, "I").unwrap_err().to_string();
    assert!(err.contains("response is not valid UTF-8"), "got: {err}");
    // the first "tcp" decides, even when its port is not a number
    let p = packet(b"InstanceName;I;TCP;x;tcp;5;;");
    assert!(parse_browser_response(&p, "I").is_err());
    let p = packet(b"InstanceName;I;a;TCP;1434");
    assert_eq!(parse_browser_response(&p, "I"), Ok(1434));
}

#[test]
fn browser_request_and_target() {
    assert_eq!(build_browser_request("SQLEXPRESS"), b"\x04SQLEXPRESS\x00".to_vec());
    assert_eq!(browser_target("."), "127.0.0.1:1434");
    assert_eq!(browser_target("db1"), "db1:1434");
}

#[test]
fn answer_for_another_instance_is_an_error() {
    let data = packet(
        b"ServerName;S;InstanceName;OTHER;IsClustered;No;Version;15.0.2000.5;tcp;1500;;",
    );
    let err = parse_browser_response(&data, "SQLEXPRESS").unwrap_err();
    assert!(matches!(err, Error::BrowserResolution { ref instance, .. } if instance == "SQLEXPRESS"));
    // the instance name matches ignoring ASCII case
    let data = packet(b"ServerName;S;InstanceName;sqlexpress;tcp;1500;;");
    assert_eq!(parse_browser_response(&data, "SQLEXPRESS").unwrap(), 1500);
}
