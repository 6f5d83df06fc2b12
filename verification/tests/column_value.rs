use mssql_client::column_parser::ColumnMeta;
use mssql_client::column_text::parse_plp_varchar;
use mssql_client::column_time::intervals_to_time;
use mssql_client::column_value::{parse_column_value, parse_sql_variant};
use mssql_client::error::Error;
use mssql_client::value::{DateTimeOffset, SqlValue};
use chrono::{NaiveDate, NaiveTime};
use rust_decimal::Decimal;

fn make_plp_data(total_len: u64, chunks: &[&[u8]]) -> Vec<u8> {
    let mut data = Vec::new();
    data.extend_from_slice(&total_len.to_le_bytes());
    for chunk in chunks {
        let len = chunk.len() as u32;
        data.extend_from_slice(&len.to_le_bytes());
        data.extend_from_slice(chunk);
    }
    data.extend_from_slice(&0u32.to_le_bytes());
    data
}

fn col(type_id: u8, max_length: Option<u32>, scale: Option<u8>) -> ColumnMeta {
    ColumnMeta { type_id, max_length, precision: None, scale, collation: None }
}

#[test]
fn test_parse_plp_varchar_simple() {
    let data = b"Hello World";
    let plp = make_plp_data(11, &[data]);
    let mut buf: &[u8] = &plp;
    let result = parse_plp_varchar(&mut buf, None).unwrap();
    match result {
        SqlValue::String(s) => assert_eq!(s, "Hello World"),
        _ => panic!("expected String"),
    }
}

#[test]
fn test_parse_plp_varchar_null() {
    let plp = 0xFFFFFFFFFFFFFFFFu64.to_le_bytes();
    let mut buf: &[u8] = &plp;
    let result = parse_plp_varchar(&mut buf, None).unwrap();
    assert!(matches!(result, SqlValue::Null));
}

#[test]
fn hostile_truncated_n_types_are_error_not_panic() {
    // Declared length with no payload bytes behind it.
    for (type_id, len) in [(0x26u8, 8u8), (0x6D, 4), (0x68, 1)] {
        let data = [len];
        let c = col(type_id, Some(len as u32), None);
        let mut buf: &[u8] = &data;
        assert!(
            parse_column_value(&mut buf, &c).is_err(),
            "{type_id:?} must error on truncated payload"
        );
    }
}

#[test]
fn hostile_short_datetime2_len_is_error_not_panic() {
    let data = [1u8, 0xAA];
    let c = col(0x2A, None, Some(7));
    let mut buf: &[u8] = &data;
    assert!(parse_column_value(&mut buf, &c).is_err());
    let data = [1u8, 0xAA];
    let c = col(0x2B, None, Some(7));
    let mut buf: &[u8] = &data;
    assert!(parse_column_value(&mut buf, &c).is_err());
}

#[test]
fn hostile_time_intervals_do_not_panic() {
    let t = intervals_to_time(u64::MAX, 0);
    let _ = t;
}

#[test]
fn hostile_variant_datetime_days_overflow_is_error_not_panic() {
    let mut data = Vec::new();
    data.extend_from_slice(&11u32.to_le_bytes());
    data.push(0x6F);
    data.push(0x01);
    data.push(0x08);
    data.extend_from_slice(&i32::MAX.to_le_bytes());
    data.extend_from_slice(&0u32.to_le_bytes());
    let mut buf: &[u8] = &data;
    assert!(parse_sql_variant(&mut buf).is_err());
}

#[test]
fn hostile_variant_decimal_over_96bit_is_error_not_panic() {
    let mantissa = 1u128 << 100;
    let mut data = Vec::new();
    data.extend_from_slice(&21u32.to_le_bytes());
    data.push(0x6A);
    data.push(0x02);
    data.push(38);
    data.push(10);
    data.push(0x01);
    data.extend_from_slice(&mantissa.to_le_bytes());
    let mut buf: &[u8] = &data;
    let err = parse_sql_variant(&mut buf).expect_err("oversized NUMERIC must error");
    assert!(
        err.to_string().contains("rust_decimal"),
        "error should explain the range limitation: {err:?}"
    );
}

#[test]
fn variant_decimal_decodes_via_shared_decoder() {
    let mut data = Vec::new();
    data.extend_from_slice(&7u32.to_le_bytes());
    data.push(0x6A);
    data.push(0x02);
    data.push(5);
    data.push(2);
    data.push(0x01);
    data.extend_from_slice(&12345u16.to_le_bytes());
    let mut buf: &[u8] = &data;
    let value = parse_sql_variant(&mut buf).expect("valid NUMERIC must decode");
    assert_eq!(value, SqlValue::Decimal("123.45".parse().unwrap()));
}

#[test]
fn variant_decimal_oversized_payload_is_null() {
    let mut data = Vec::new();
    data.extend_from_slice(&22u32.to_le_bytes());
    data.push(0x6A);
    data.push(0x02);
    data.push(38);
    data.push(0);
    data.push(0x01);
    data.extend_from_slice(&[0u8; 17]);
    let mut buf: &[u8] = &data;
    let value = parse_sql_variant(&mut buf).expect("oversized payload must not error");
    assert_eq!(value, SqlValue::Null);
    assert!(buf.is_empty(), "the whole payload must be consumed");
}

#[test]
fn variant_integers_guid_and_binary() {
    let mut data = Vec::new();
    data.extend_from_slice(&6u32.to_le_bytes());
    data.push(0x38);
    data.push(0);
    data.extend_from_slice(&(-5i32).to_le_bytes());
    let mut buf: &[u8] = &data;
    assert_eq!(parse_sql_variant(&mut buf).unwrap(), SqlValue::Int(-5));
    assert!(buf.is_empty());
    // unknown base type: binary, properties skipped
    let mut data = Vec::new();
    data.extend_from_slice(&6u32.to_le_bytes());
    data.push(0xA5);
    data.push(2);
    data.extend_from_slice(&[0x10, 0x00, 7, 8]);
    let mut buf: &[u8] = &data;
    assert_eq!(parse_sql_variant(&mut buf).unwrap(), SqlValue::Binary(vec![7, 8]));
    let mut buf: &[u8] = &[0, 0, 0, 0];
    assert_eq!(parse_sql_variant(&mut buf).unwrap(), SqlValue::Null);
    let mut buf: &[u8] = &[1, 0, 0, 0, 0x38];
    assert_eq!(
        parse_sql_variant(&mut buf).unwrap_err(),
        Error::Protocol("SQL_VARIANT too short for type info".to_string())
    );
}

#[test]
fn column_values_of_many_types() {
    let mut buf: &[u8] = &[7];
    assert_eq!(parse_column_value(&mut buf, &col(0x30, None, None)).unwrap(), SqlValue::TinyInt(7));
    let mut buf: &[u8] = &[];
    assert_eq!(
        parse_column_value(&mut buf, &col(0x38, None, None)).unwrap_err(),
        Error::Protocol("unexpected EOF reading INT".to_string())
    );
    // DECIMAL(5,2) 123.45
    let mut data = vec![3u8, 1];
    data.extend_from_slice(&12345u16.to_le_bytes());
    let mut buf: &[u8] = &data;
    assert_eq!(
        parse_column_value(&mut buf, &col(0x6C, None, Some(2))).unwrap(),
        SqlValue::Decimal(Decimal::new(12345, 2))
    );
    // TIME(3): 1500 ms
    let mut buf: &[u8] = &[3, 0xDC, 0x05, 0x00];
    assert_eq!(
        parse_column_value(&mut buf, &col(0x29, None, Some(3))).unwrap(),
        SqlValue::Time(NaiveTime::from_num_seconds_from_midnight_opt(1, 500_000_000).unwrap())
    );
    // DATETIME2(0): 1 second on 1900-01-01
    let mut buf: &[u8] = &[6, 1, 0, 0, 0x5B, 0x95, 0x0A];
    let day = NaiveDate::from_ymd_opt(1900, 1, 1).unwrap();
    assert_eq!(
        parse_column_value(&mut buf, &col(0x2A, None, Some(0))).unwrap(),
        SqlValue::DateTime(day.and_hms_opt(0, 0, 1).unwrap())
    );
    // DATETIMEOFFSET(0) with +60 minutes
    let mut buf: &[u8] = &[8, 1, 0, 0, 0x5B, 0x95, 0x0A, 60, 0];
    assert_eq!(
        parse_column_value(&mut buf, &col(0x2B, None, Some(0))).unwrap(),
        SqlValue::DateTimeOffset(DateTimeOffset {
            utc: day.and_hms_opt(0, 0, 1).unwrap(),
            offset_minutes: 60
        })
    );
    // VARCHAR(10) without collation: UTF-8
    let mut buf: &[u8] = &[2, 0, b'h', b'i'];
    assert_eq!(
        parse_column_value(&mut buf, &col(0xA7, Some(10), None)).unwrap(),
        SqlValue::String("hi".to_string())
    );
    // unknown type: binary with a 2-byte length
    let mut buf: &[u8] = &[1];
    assert_eq!(
        parse_column_value(&mut buf, &col(0x99, None, None)).unwrap_err(),
        Error::Protocol("unexpected EOF reading type 153".to_string())
    );
}

#[test]
fn bulk_date_reads_back_as_the_same_day() {
    use_date_round_trip(chrono::NaiveDate::from_ymd_opt(2024, 2, 29).unwrap());
    use_date_round_trip(chrono::NaiveDate::from_ymd_opt(1, 1, 1).unwrap());
    use_date_round_trip(chrono::NaiveDate::from_ymd_opt(9999, 12, 31).unwrap());
}

fn use_date_round_trip(d: chrono::NaiveDate) {
    let columns = vec![mssql_client::bulk::BulkColumn::new("d", "DATE", 0).unwrap()];
    let mut bulk = mssql_client::bulk_insert::BulkInsert::new(columns, 0);
    let _ = bulk.take_packets();
    bulk.send_row_values(&[SqlValue::Date(d)]).unwrap();
    let packets = bulk.take_packets();
    let payload = &packets[0][8..];
    assert_eq!(payload[0], 0xD1);
    let mut buf: &[u8] = &payload[1..];
    let col = ColumnMeta { type_id: 0x28, max_length: None, precision: None, scale: None, collation: None };
    assert_eq!(parse_column_value(&mut buf, &col).unwrap(), SqlValue::Date(d));
    assert!(buf.is_empty());
}

fn make_nvarchar_int_row(nvarchar_value: &str, int_value: i32) -> Vec<u8> {
    let mut data = Vec::new();
    let utf16: Vec<u16> = nvarchar_value.encode_utf16().collect();
    let byte_len = (utf16.len() * 2) as u16;
    data.extend_from_slice(&byte_len.to_le_bytes());
    for code_unit in utf16 {
        data.extend_from_slice(&code_unit.to_le_bytes());
    }
    data.push(4);
    data.extend_from_slice(&int_value.to_le_bytes());
    data
}

fn nvarchar_meta(max_length: u32) -> ColumnMeta {
    ColumnMeta { type_id: 0xE7, max_length: Some(max_length), precision: None, scale: None, collation: None }
}

fn intn_meta(max_length: u32) -> ColumnMeta {
    ColumnMeta { type_id: 0x26, max_length: Some(max_length), precision: None, scale: None, collation: None }
}

#[test]
fn test_parse_row_nvarchar_then_int() {
    let raw_data = make_nvarchar_int_row("World", 42);
    let col0 = nvarchar_meta(10);
    let col1 = intn_meta(4);
    let mut buf: &[u8] = &raw_data;

    let value0 = parse_column_value(&mut buf, &col0).unwrap();
    match value0 {
        SqlValue::String(s) => assert_eq!(s, "World"),
        _ => panic!("expected String, got {value0:?}"),
    }
    let value1 = parse_column_value(&mut buf, &col1).unwrap();
    match value1 {
        SqlValue::Int(i) => assert_eq!(i, 42),
        _ => panic!("expected Int, got {value1:?}"),
    }
    assert_eq!(buf.len(), 0, "buffer should be fully consumed");
}

#[test]
fn test_parse_row_multiple_types() {
    let mut data = Vec::new();
    data.extend_from_slice(&0xFFFFu16.to_le_bytes());
    data.push(4);
    data.extend_from_slice(&123i32.to_le_bytes());
    let utf16: Vec<u16> = "Test".encode_utf16().collect();
    data.extend_from_slice(&((utf16.len() * 2) as u16).to_le_bytes());
    for code_unit in utf16 {
        data.extend_from_slice(&code_unit.to_le_bytes());
    }
    data.push(0);

    let col0 = nvarchar_meta(100);
    let col1 = intn_meta(4);
    let col2 = col0;
    let col3 = col1;
    let mut buf: &[u8] = &data;

    let v0 = parse_column_value(&mut buf, &col0).unwrap();
    assert!(matches!(v0, SqlValue::Null), "col0 should be Null");
    let v1 = parse_column_value(&mut buf, &col1).unwrap();
    assert!(matches!(v1, SqlValue::Int(123)), "col1 should be 123");
    let v2 = parse_column_value(&mut buf, &col2).unwrap();
    match v2 {
        SqlValue::String(s) => assert_eq!(s, "Test"),
        _ => panic!("col2 should be 'Test'"),
    }
    let v3 = parse_column_value(&mut buf, &col3).unwrap();
    assert!(matches!(v3, SqlValue::Null), "col3 should be Null");
    assert_eq!(buf.len(), 0, "buffer should be fully consumed");
}

#[test]
fn test_parse_row_with_unicode() {
    let test_str = "Héllo Wörld 日本語";
    let mut data = Vec::new();
    let utf16: Vec<u16> = test_str.encode_utf16().collect();
    data.extend_from_slice(&((utf16.len() * 2) as u16).to_le_bytes());
    for code_unit in utf16 {
        data.extend_from_slice(&code_unit.to_le_bytes());
    }
    data.push(8);
    data.extend_from_slice(&9999999999i64.to_le_bytes());

    let col0 = nvarchar_meta(100);
    let col1 = intn_meta(8);
    let mut buf: &[u8] = &data;

    let v0 = parse_column_value(&mut buf, &col0).unwrap();
    match v0 {
        SqlValue::String(s) => assert_eq!(s, test_str),
        _ => panic!("expected String"),
    }
    let v1 = parse_column_value(&mut buf, &col1).unwrap();
    match v1 {
        SqlValue::BigInt(i) => assert_eq!(i, 9999999999),
        _ => panic!("expected BigInt"),
    }
    assert_eq!(buf.len(), 0);
}
