use mssql_client::column_parser::{
    decrypted_array, pad_fixed_char, parse_bigvarbinary, parse_bitn, parse_guid, parse_intn,
    parse_legacy_varbinary, parse_nvarchar, parse_plp_nvarchar, parse_plp_varbinary, parse_xml,
    ColumnMeta,
};
use mssql_client::error::Error;
use mssql_client::value::SqlValue;
use mssql_client::wire::{encode_plp_binary, encode_plp_string};

fn meta(max_length: Option<u32>) -> ColumnMeta {
    ColumnMeta { type_id: 0xE7, max_length, precision: None, scale: None, collation: None }
}

#[test]
fn intn_values() {
    let mut buf: &[u8] = &[4, 0xFE, 0xFF, 0xFF, 0xFF, 9];
    assert_eq!(parse_intn(&mut buf).unwrap(), SqlValue::Int(-2));
    assert_eq!(buf, &[9]);
    let mut buf: &[u8] = &[0];
    assert_eq!(parse_intn(&mut buf).unwrap(), SqlValue::Null);
    let mut buf: &[u8] = &[8, 1, 0, 0, 0, 0, 0, 0, 0x80];
    assert_eq!(parse_intn(&mut buf).unwrap(), SqlValue::BigInt(i64::MIN + 1));
    let mut buf: &[u8] = &[2, 0x34, 0x12];
    assert_eq!(parse_intn(&mut buf).unwrap(), SqlValue::SmallInt(0x1234));
    let mut buf: &[u8] = &[3, 0, 0, 0];
    assert_eq!(
        parse_intn(&mut buf),
        Err(Error::Protocol("invalid IntN length: 3".to_string()))
    );
    let mut buf: &[u8] = &[4, 0];
    assert_eq!(
        parse_intn(&mut buf),
        Err(Error::Protocol("unexpected EOF reading IntN data".to_string()))
    );
}

#[test]
fn bitn_values() {
    let mut buf: &[u8] = &[1, 7];
    assert_eq!(parse_bitn(&mut buf).unwrap(), SqlValue::Bool(true));
    let mut buf: &[u8] = &[1, 0];
    assert_eq!(parse_bitn(&mut buf).unwrap(), SqlValue::Bool(false));
    let mut buf: &[u8] = &[0];
    assert_eq!(parse_bitn(&mut buf).unwrap(), SqlValue::Null);
    let mut buf: &[u8] = &[];
    assert!(parse_bitn(&mut buf).is_err());
}

#[test]
fn plp_binary_reads_back_what_was_written() {
    let mut wire = Vec::new();
    encode_plp_binary(&[1, 2, 3, 4], &mut wire);
    wire.push(0xAA);
    let mut buf: &[u8] = &wire;
    assert_eq!(parse_plp_varbinary(&mut buf).unwrap(), SqlValue::Binary(vec![1, 2, 3, 4]));
    assert_eq!(buf, &[0xAA]);
}

#[test]
fn plp_text_reads_back_what_was_written() {
    let text = "héllo 𝄞";
    let units: Vec<u16> = text.encode_utf16().collect();
    let mut wire = Vec::new();
    encode_plp_string(&units, &mut wire);
    let mut buf: &[u8] = &wire;
    assert_eq!(parse_plp_nvarchar(&mut buf).unwrap(), SqlValue::String(text.to_string()));
    assert!(buf.is_empty());
    let mut buf: &[u8] = &wire;
    assert_eq!(parse_xml(&mut buf).unwrap(), SqlValue::Xml(text.to_string()));
}

#[test]
fn plp_multiple_chunks_and_null() {
    let mut wire = vec![0xFE; 8];
    wire.extend_from_slice(&[2, 0, 0, 0, 1, 2, 1, 0, 0, 0, 3, 0, 0, 0, 0]);
    let mut buf: &[u8] = &wire;
    assert_eq!(parse_plp_varbinary(&mut buf).unwrap(), SqlValue::Binary(vec![1, 2, 3]));
    let null = [0xFF; 8];
    let mut buf: &[u8] = &null;
    assert_eq!(parse_plp_varbinary(&mut buf).unwrap(), SqlValue::Null);
    let mut buf: &[u8] = &[0xFE; 8];
    assert_eq!(
        parse_plp_varbinary(&mut buf),
        Err(Error::Protocol("unexpected EOF reading PLP chunk length".to_string()))
    );
}

#[test]
fn invalid_utf16_is_an_error() {
    let mut wire = Vec::new();
    encode_plp_binary(&[0x00, 0xD8], &mut wire);
    let mut buf: &[u8] = &wire;
    assert_eq!(
        parse_plp_nvarchar(&mut buf),
        Err(Error::Protocol("invalid UTF-16 in PLP nvarchar".to_string()))
    );
}

#[test]
fn nvarchar_and_varbinary_with_length() {
    let mut buf: &[u8] = &[4, 0, b'o', 0, b'k', 0, 1];
    assert_eq!(parse_nvarchar(&mut buf, &meta(Some(20))).unwrap(), SqlValue::String("ok".to_string()));
    assert_eq!(buf, &[1]);
    let mut buf: &[u8] = &[0xFF, 0xFF];
    assert_eq!(parse_nvarchar(&mut buf, &meta(Some(20))).unwrap(), SqlValue::Null);
    let mut buf: &[u8] = &[3, 0, 1, 2, 3];
    assert_eq!(parse_bigvarbinary(&mut buf, &meta(Some(10))).unwrap(), SqlValue::Binary(vec![1, 2, 3]));
    let mut buf: &[u8] = &[3, 0, 1];
    assert_eq!(
        parse_bigvarbinary(&mut buf, &meta(Some(10))),
        Err(Error::Protocol("unexpected EOF reading varbinary data".to_string()))
    );
    let mut wire = Vec::new();
    encode_plp_binary(&[9], &mut wire);
    let mut buf: &[u8] = &wire;
    assert_eq!(parse_bigvarbinary(&mut buf, &meta(Some(0xFFFF))).unwrap(), SqlValue::Binary(vec![9]));
}

#[test]
fn legacy_varbinary() {
    let mut buf: &[u8] = &[2, 5, 6, 7];
    assert_eq!(parse_legacy_varbinary(&mut buf).unwrap(), SqlValue::Binary(vec![5, 6]));
    assert_eq!(buf, &[7]);
    let mut buf: &[u8] = &[0xFF];
    assert_eq!(parse_legacy_varbinary(&mut buf).unwrap(), SqlValue::Null);
    let mut buf: &[u8] = &[0];
    assert_eq!(parse_legacy_varbinary(&mut buf).unwrap(), SqlValue::Binary(vec![]));
}

#[test]
fn decrypted_values() {
    assert_eq!(pad_fixed_char("ab".to_string(), 4), "ab  ");
    assert_eq!(pad_fixed_char("abcde".to_string(), 4), "abcde");
    let a: [u8; 3] = decrypted_array(&[1, 2, 3], "date").unwrap();
    assert_eq!(a, [1, 2, 3]);
    let e = decrypted_array::<3>(&[1, 2], "date").unwrap_err();
    assert_eq!(e, Error::Encryption("decrypted date has 2 bytes, expected 3".to_string()));
}

#[test]
fn guid_is_read_from_mixed_endian_bytes() {
    let wire: Vec<u8> = vec![
        16, 0xa4, 0xa3, 0xa2, 0xa1, 0xb2, 0xb1, 0xc2, 0xc1, 0xd1, 0xd2, 0xd3, 0xd4, 0xd5, 0xd6,
        0xd7, 0xd8, 0x99,
    ];
    let mut buf: &[u8] = &wire;
    let expected = uuid::Uuid::parse_str("a1a2a3a4-b1b2-c1c2-d1d2-d3d4d5d6d7d8").unwrap();
    assert_eq!(parse_guid(&mut buf).unwrap(), SqlValue::Uuid(expected));
    assert_eq!(buf, &[0x99]);
    let mut buf: &[u8] = &[0];
    assert_eq!(parse_guid(&mut buf).unwrap(), SqlValue::Null);
    let mut buf: &[u8] = &[4, 1, 2, 3, 4];
    assert_eq!(parse_guid(&mut buf), Err(Error::Protocol("invalid GUID length: 4".to_string())));
}

fn make_plp_data(total_len: u64, chunks: &[&[u8]]) -> Vec<u8> {
    let mut data = Vec::new();
    data.extend_from_slice(&total_len.to_le_bytes());
    for chunk in chunks {
        let len = chunk.len() as u32;
        data.extend_from_slice(&len.to_le_bytes());
        data.extend_from_slice(chunk);
    }
    data.extend_from_slice(&0u32.to_le_bytes());
    data
}

#[test]
fn test_parse_plp_nvarchar_simple() {
    let utf16_data = [0x48, 0x00, 0x65, 0x00, 0x6C, 0x00, 0x6C, 0x00, 0x6F, 0x00];
    let plp = make_plp_data(10, &[&utf16_data]);
    let mut buf: &[u8] = &plp;
    let result = parse_plp_nvarchar(&mut buf).unwrap();
    match result {
        SqlValue::String(s) => assert_eq!(s, "Hello"),
        _ => panic!("expected String, got {result:?}"),
    }
}

#[test]
fn test_parse_plp_nvarchar_null() {
    let plp = 0xFFFFFFFFFFFFFFFFu64.to_le_bytes();
    let mut buf: &[u8] = &plp;
    let result = parse_plp_nvarchar(&mut buf).unwrap();
    assert!(matches!(result, SqlValue::Null));
}

#[test]
fn test_parse_plp_nvarchar_empty() {
    let plp = make_plp_data(0, &[]);
    let mut buf: &[u8] = &plp;
    let result = parse_plp_nvarchar(&mut buf).unwrap();
    match result {
        SqlValue::String(s) => assert_eq!(s, ""),
        _ => panic!("expected empty String"),
    }
}

#[test]
fn test_parse_plp_nvarchar_multi_chunk() {
    let chunk1 = [0x48, 0x00, 0x65, 0x00, 0x6C, 0x00];
    let chunk2 = [0x6C, 0x00, 0x6F, 0x00];
    let plp = make_plp_data(10, &[&chunk1, &chunk2]);
    let mut buf: &[u8] = &plp;
    let result = parse_plp_nvarchar(&mut buf).unwrap();
    match result {
        SqlValue::String(s) => assert_eq!(s, "Hello"),
        _ => panic!("expected String"),
    }
}

#[test]
fn test_parse_plp_varbinary_simple() {
    let data = [0x01, 0x02, 0x03, 0x04, 0x05];
    let plp = make_plp_data(5, &[&data]);
    let mut buf: &[u8] = &plp;
    let result = parse_plp_varbinary(&mut buf).unwrap();
    match result {
        SqlValue::Binary(b) => assert_eq!(&b[..], &[0x01, 0x02, 0x03, 0x04, 0x05]),
        _ => panic!("expected Binary"),
    }
}

#[test]
fn test_parse_plp_varbinary_null() {
    let plp = 0xFFFFFFFFFFFFFFFFu64.to_le_bytes();
    let mut buf: &[u8] = &plp;
    let result = parse_plp_varbinary(&mut buf).unwrap();
    assert!(matches!(result, SqlValue::Null));
}

#[test]
fn test_parse_plp_varbinary_large() {
    let chunk1: Vec<u8> = (0..100u8).collect();
    let chunk2: Vec<u8> = (100..200u8).collect();
    let chunk3: Vec<u8> = (200..255u8).collect();
    let total_len = chunk1.len() + chunk2.len() + chunk3.len();
    let plp = make_plp_data(total_len as u64, &[&chunk1, &chunk2, &chunk3]);
    let mut buf: &[u8] = &plp;
    let result = parse_plp_varbinary(&mut buf).unwrap();
    match result {
        SqlValue::Binary(b) => {
            assert_eq!(b.len(), 255);
            for (i, &byte) in b.iter().enumerate() {
                assert_eq!(byte, i as u8);
            }
        }
        _ => panic!("expected Binary"),
    }
}
