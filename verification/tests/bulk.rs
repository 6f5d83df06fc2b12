use mssql_client::bulk::{
    decimal_byte_length, nullable_to_fixed_type, parse_sql_type, time_byte_length,
    time_scale_divisor, BulkColumn, BulkInsertBuilder, BulkOptions, Collation,
};
use mssql_client::bulk_insert::{BulkInsert, ServerColumn};
use mssql_client::error::{Error, TypeError};
use mssql_client::value::{DateTimeOffset, SqlValue};
use mssql_client::wire::{encode_plp_binary, encode_plp_string, PLP_UNKNOWN_LEN};

#[test]
fn test_bulk_options_default() {
    let opts = BulkOptions::default();
    assert_eq!(opts.batch_size, 0);
    assert!(opts.check_constraints);
    assert!(!opts.fire_triggers);
    assert!(opts.keep_nulls);
    assert!(!opts.table_lock);
}

#[test]
fn test_bulk_column_creation() {
    let col = BulkColumn::new("id", "INT", 0).unwrap();
    assert_eq!(col.name, "id");
    assert_eq!(col.type_id(), 0x26);
    assert_eq!(col.max_length(), Some(4));
    assert!(col.nullable);
}

#[test]
fn test_bulk_column_rejects_text() {
    let err = BulkColumn::new("body", "TEXT", 0).unwrap_err();
    match err {
        TypeError::UnsupportedType { sql_type, reason } => {
            assert_eq!(sql_type, "TEXT");
            assert!(reason.contains("VARCHAR(MAX)"), "got: {reason}");
            assert!(reason.contains("deprecated"), "got: {reason}");
        }
        other => panic!("expected UnsupportedType, got {other:?}"),
    }
}

#[test]
fn test_bulk_column_rejects_ntext() {
    let err = BulkColumn::new("body", "NTEXT", 0).unwrap_err();
    match err {
        TypeError::UnsupportedType { sql_type, reason } => {
            assert_eq!(sql_type, "NTEXT");
            assert!(reason.contains("NVARCHAR(MAX)"), "got: {reason}");
            assert!(reason.contains("deprecated"), "got: {reason}");
        }
        other => panic!("expected UnsupportedType, got {other:?}"),
    }
}

#[test]
fn test_bulk_column_rejects_text_case_insensitive() {
    assert!(matches!(
        BulkColumn::new("body", "text", 0),
        Err(TypeError::UnsupportedType { .. })
    ));
    assert!(matches!(
        BulkColumn::new("body", "Ntext", 0),
        Err(TypeError::UnsupportedType { .. })
    ));
}

#[test]
fn test_bulk_column_rejects_image() {
    let err = BulkColumn::new("blob", "IMAGE", 0).unwrap_err();
    match err {
        TypeError::UnsupportedType { sql_type, reason } => {
            assert_eq!(sql_type, "IMAGE");
            assert!(reason.contains("VARBINARY(MAX)"), "got: {reason}");
            assert!(reason.contains("deprecated"), "got: {reason}");
        }
        other => panic!("expected UnsupportedType, got {other:?}"),
    }
}

#[test]
fn test_bulk_column_rejects_image_case_insensitive() {
    assert!(matches!(
        BulkColumn::new("blob", "image", 0),
        Err(TypeError::UnsupportedType { .. })
    ));
    assert!(matches!(
        BulkColumn::new("blob", "Image", 0),
        Err(TypeError::UnsupportedType { .. })
    ));
}

#[test]
fn test_parse_sql_type() {
    let (type_id, len, _prec, _scale) = parse_sql_type("INT");
    assert_eq!(type_id, 0x26);
    assert_eq!(len, Some(4));

    let (type_id, len, _, _) = parse_sql_type("NVARCHAR(100)");
    assert_eq!(type_id, 0xE7);
    assert_eq!(len, Some(200));

    let (type_id, _, prec, scale) = parse_sql_type("DECIMAL(10,2)");
    assert_eq!(type_id, 0x6C);
    assert_eq!(prec, Some(10));
    assert_eq!(scale, Some(2));

    let (type_id, len, _, _) = parse_sql_type("SMALLDATETIME");
    assert_eq!(type_id, 0x6F);
    assert_eq!(len, Some(4));

    let (type_id, len, _, _) = parse_sql_type("DATETIME");
    assert_eq!(type_id, 0x6F);
    assert_eq!(len, Some(8));
}

#[test]
fn test_insert_bulk_statement() {
    let builder = BulkInsertBuilder::new("dbo.Users")
        .with_typed_columns(vec![
            BulkColumn::new("id", "INT", 0).unwrap(),
            BulkColumn::new("name", "NVARCHAR(100)", 1).unwrap(),
        ])
        .table_lock(true);

    let sql = builder.build_insert_bulk_statement().unwrap();
    assert!(sql.contains("INSERT BULK dbo.Users"));
    assert!(sql.contains("TABLOCK"));
}

#[test]
fn test_bulk_insert_rejects_injection() {
    let builder = BulkInsertBuilder::new("table;DROP TABLE users")
        .with_typed_columns(vec![BulkColumn::new("id", "INT", 0).unwrap()]);
    assert!(builder.build_insert_bulk_statement().is_err());
}

#[test]
fn test_bulk_insert_validates_column_names() {
    let builder = BulkInsertBuilder::new("Users")
        .with_typed_columns(vec![BulkColumn::new("col;DROP TABLE x", "INT", 0).unwrap()]);
    assert!(builder.build_insert_bulk_statement().is_err());
}

#[test]
fn test_bulk_insert_accepts_qualified_names() {
    let builder = BulkInsertBuilder::new("catalog.dbo.Users")
        .with_typed_columns(vec![BulkColumn::new("id", "INT", 0).unwrap()]);
    assert!(builder.build_insert_bulk_statement().is_ok());
}

#[test]
fn test_bulk_insert_creation() {
    let columns = vec![
        BulkColumn::new("id", "INT", 0).unwrap(),
        BulkColumn::new("name", "NVARCHAR(100)", 1).unwrap(),
    ];
    let bulk = BulkInsert::new(columns, 1000);
    assert_eq!(bulk.total_rows(), 0);
    assert_eq!(bulk.rows_in_batch(), 0);
    assert!(!bulk.should_flush());
}

#[test]
fn test_decimal_byte_length() {
    assert_eq!(decimal_byte_length(5), 5);
    assert_eq!(decimal_byte_length(15), 9);
    assert_eq!(decimal_byte_length(25), 13);
    assert_eq!(decimal_byte_length(35), 17);
}

#[test]
fn test_time_byte_length() {
    assert_eq!(time_byte_length(0), 3);
    assert_eq!(time_byte_length(3), 4);
    assert_eq!(time_byte_length(7), 5);
}

#[test]
fn test_plp_string_encoding() {
    let mut buf: Vec<u8> = Vec::new();
    let utf16: Vec<u16> = "Hello".encode_utf16().collect();
    encode_plp_string(&utf16, &mut buf);
    assert_eq!(buf.len(), 8 + 4 + 10 + 4);
    assert_eq!(&buf[0..8], &PLP_UNKNOWN_LEN.to_le_bytes());
    assert_eq!(&buf[8..12], &10u32.to_le_bytes());
    assert_eq!(&buf[22..26], &0u32.to_le_bytes());
}

#[test]
fn test_plp_binary_encoding() {
    let mut buf: Vec<u8> = Vec::new();
    let data = b"test binary data";
    encode_plp_binary(data, &mut buf);
    assert_eq!(buf.len(), 8 + 4 + 16 + 4);
    assert_eq!(&buf[0..8], &PLP_UNKNOWN_LEN.to_le_bytes());
    assert_eq!(&buf[8..12], &16u32.to_le_bytes());
    assert_eq!(&buf[12..28], data);
    assert_eq!(&buf[28..32], &0u32.to_le_bytes());
}

#[test]
fn test_plp_empty_string() {
    let mut buf: Vec<u8> = Vec::new();
    let utf16: Vec<u16> = "".encode_utf16().collect();
    encode_plp_string(&utf16, &mut buf);
    assert_eq!(buf.len(), 8 + 4);
    assert_eq!(&buf[0..8], &PLP_UNKNOWN_LEN.to_le_bytes());
    assert_eq!(&buf[8..12], &0u32.to_le_bytes());
}

#[test]
fn test_plp_empty_binary() {
    let mut buf: Vec<u8> = Vec::new();
    encode_plp_binary(&[], &mut buf);
    assert_eq!(buf.len(), 8 + 4);
    assert_eq!(&buf[0..8], &PLP_UNKNOWN_LEN.to_le_bytes());
    assert_eq!(&buf[8..12], &0u32.to_le_bytes());
}

#[test]
fn test_parse_sql_type_max() {
    let (type_id, len, _, _) = parse_sql_type("NVARCHAR(MAX)");
    assert_eq!(type_id, 0xE7);
    assert_eq!(len, Some(0xFFFF));

    let (type_id, len, _, _) = parse_sql_type("VARBINARY(MAX)");
    assert_eq!(type_id, 0xA5);
    assert_eq!(len, Some(0xFFFF));

    let (type_id, len, _, _) = parse_sql_type("VARCHAR(MAX)");
    assert_eq!(type_id, 0xA7);
    assert_eq!(len, Some(0xFFFF));

    let (type_id, len, _, _) = parse_sql_type("NVARCHAR(100)");
    assert_eq!(type_id, 0xE7);
    assert_eq!(len, Some(200));
}

/// The single payload of the first packet (the whole buffer when it is small).
fn buffered_bytes(bulk: &mut BulkInsert) -> Vec<u8> {
    let packets = bulk.take_packets();
    let mut out = Vec::new();
    for p in &packets {
        out.extend_from_slice(&p[8..]);
    }
    out
}

#[test]
fn colmetadata_of_nullable_int_and_nvarchar() {
    let columns = vec![
        BulkColumn::new("id", "INT", 0).unwrap(),
        BulkColumn::new("nm", "NVARCHAR(10)", 1).unwrap(),
    ];
    let mut bulk = BulkInsert::new(columns, 0);
    let meta = buffered_bytes(&mut bulk);
    let expected: Vec<u8> = vec![
        0x81, 0x02, 0x00, // token, 2 columns
        0, 0, 0, 0, 0x09, 0x00, 0x26, 0x04, 0x02, b'i', 0, b'd', 0, // id INT NULL
        0, 0, 0, 0, 0x09, 0x00, 0xE7, 0x14, 0x00, 0x09, 0x04, 0xD0, 0x00, 0x34, 0x02, b'n', 0,
        b'm', 0, // nm NVARCHAR(10) NULL, default collation
    ];
    assert_eq!(meta, expected);
}

#[test]
fn colmetadata_not_null_uses_fixed_type() {
    let columns = vec![BulkColumn::new("id", "INT", 0).unwrap().with_nullable(false)];
    let mut bulk = BulkInsert::new(columns, 0);
    let meta = buffered_bytes(&mut bulk);
    let expected: Vec<u8> = vec![0x81, 0x01, 0x00, 0, 0, 0, 0, 0x08, 0x00, 0x38, 0x02, b'i', 0, b'd', 0];
    assert_eq!(meta, expected);
}

#[test]
fn colmetadata_uses_caller_collation() {
    let chinese = Collation { lcid: 0x0804, sort_id: 0x52 };
    let columns = vec![BulkColumn::new("s", "VARCHAR(50)", 0)
        .unwrap()
        .with_collation(chinese)];
    let mut bulk = BulkInsert::new(columns, 0);
    let meta = buffered_bytes(&mut bulk);
    assert_eq!(&meta[10..17], &[0x32, 0x00, 0x04, 0x08, 0x00, 0x00, 0x52]);
    assert_eq!(chinese.to_bytes(), [0x04, 0x08, 0x00, 0x00, 0x52]);
}

#[test]
fn rows_are_encoded_per_column_type() {
    let columns = vec![
        BulkColumn::new("id", "INT", 0).unwrap(),
        BulkColumn::new("nm", "NVARCHAR(10)", 1).unwrap(),
        BulkColumn::new("data", "VARBINARY(MAX)", 2).unwrap(),
    ];
    let mut bulk = BulkInsert::new(columns, 2);
    let _ = bulk.take_packets();
    bulk.send_row_values(&[
        SqlValue::Int(-2),
        SqlValue::String("hi".to_string()),
        SqlValue::Binary(vec![1, 2, 3]),
    ])
    .unwrap();
    assert_eq!(bulk.total_rows(), 1);
    assert_eq!(bulk.rows_in_batch(), 1);
    assert!(!bulk.should_flush());
    let row = buffered_bytes(&mut bulk);
    let mut expected: Vec<u8> = vec![0xD1, 0x04, 0xFE, 0xFF, 0xFF, 0xFF, 0x04, 0x00, b'h', 0, b'i', 0];
    expected.extend_from_slice(&PLP_UNKNOWN_LEN.to_le_bytes());
    expected.extend_from_slice(&[3, 0, 0, 0, 1, 2, 3, 0, 0, 0, 0]);
    assert_eq!(row, expected);

    bulk.send_row_values(&[SqlValue::Null, SqlValue::Null, SqlValue::Null]).unwrap();
    assert!(bulk.should_flush());
    let row = buffered_bytes(&mut bulk);
    let mut expected: Vec<u8> = vec![0xD1, 0x00, 0xFF, 0xFF];
    expected.extend_from_slice(&u64::MAX.to_le_bytes());
    assert_eq!(row, expected);
}

#[test]
fn fixed_columns_have_no_length_byte() {
    let columns = vec![BulkColumn::new("id", "BIGINT", 0).unwrap().with_nullable(false)];
    let mut bulk = BulkInsert::new(columns, 0);
    let _ = bulk.take_packets();
    bulk.send_row_values(&[SqlValue::BigInt(1)]).unwrap();
    assert_eq!(buffered_bytes(&mut bulk), vec![0xD1, 1, 0, 0, 0, 0, 0, 0, 0]);
}

#[test]
fn wrong_value_count_is_an_error() {
    let columns = vec![BulkColumn::new("id", "INT", 0).unwrap()];
    let mut bulk = BulkInsert::new(columns, 0);
    let err = bulk.send_row_values(&[]).unwrap_err();
    assert_eq!(err, Error::Config("expected 1 values, got 0".to_string()));
    assert_eq!(bulk.total_rows(), 0);
}

#[test]
fn null_for_not_null_column_without_null_marker_is_rejected() {
    let columns = vec![BulkColumn::new("d", "DATE", 0).unwrap().with_nullable(false)];
    let mut bulk = BulkInsert::new(columns, 0);
    let _ = bulk.take_packets();
    bulk.send_row_values(&[SqlValue::Null]).unwrap();
    assert_eq!(buffered_bytes(&mut bulk), vec![0xD1, 0x00]);

    let columns = vec![BulkColumn::new("x", "XML", 0).unwrap().with_nullable(false)];
    let mut bulk = BulkInsert::new(columns, 0);
    let _ = bulk.take_packets();
    let err = bulk.send_row_values(&[SqlValue::Null]).unwrap_err();
    assert_eq!(
        err,
        Error::Config("failed to encode column 0: unexpected NULL value".to_string())
    );
    assert_eq!(bulk.total_rows(), 0);
    assert_eq!(buffered_bytes(&mut bulk), vec![0xD1]);
}

#[test]
fn too_long_value_is_rejected() {
    let columns = vec![BulkColumn::new("b", "VARBINARY(100)", 0).unwrap()];
    let mut bulk = BulkInsert::new(columns, 0);
    let _ = bulk.take_packets();
    let err = bulk.send_row_values(&[SqlValue::Binary(vec![0; 70000])]).unwrap_err();
    assert_eq!(
        err,
        Error::Config(
            "failed to encode column 0: buffer too small: need 70000 bytes, have 65535".to_string()
        )
    );
}

#[test]
fn tvp_is_not_a_bulk_value() {
    let columns = vec![BulkColumn::new("b", "INT", 0).unwrap()];
    let mut bulk = BulkInsert::new(columns, 0);
    let err = bulk.send_row_values(&[SqlValue::Tvp]).unwrap_err();
    assert_eq!(
        err,
        Error::Config("failed to encode column 0: cannot convert TVP to bulk copy value".to_string())
    );
}

#[test]
fn varchar_values_use_windows_1252() {
    let columns = vec![BulkColumn::new("s", "VARCHAR(10)", 0).unwrap()];
    let mut bulk = BulkInsert::new(columns, 0);
    let _ = bulk.take_packets();
    bulk.send_row_values(&[SqlValue::String("é€".to_string())]).unwrap();
    assert_eq!(buffered_bytes(&mut bulk), vec![0xD1, 0x02, 0x00, 0xE9, 0x80]);
}

#[test]
fn time_values_use_the_column_scale() {
    let columns = vec![BulkColumn::new("t", "TIME(3)", 0).unwrap()];
    let mut bulk = BulkInsert::new(columns, 0);
    let _ = bulk.take_packets();
    // 1.5 s at scale 3 is 1500 milliseconds
    let t = chrono::NaiveTime::from_num_seconds_from_midnight_opt(1, 500_000_000).unwrap();
    bulk.send_row_values(&[SqlValue::Time(t)]).unwrap();
    assert_eq!(buffered_bytes(&mut bulk), vec![0xD1, 0x04, 0xDC, 0x05, 0x00, 0x00]);
}

#[test]
fn packets_split_at_4088_payload_bytes() {
    let columns = vec![BulkColumn::new("b", "VARBINARY(MAX)", 0).unwrap()];
    let mut bulk = BulkInsert::new(columns, 0);
    let _ = bulk.take_packets();
    bulk.send_row_values(&[SqlValue::Binary(vec![7; 5000])]).unwrap();
    let packets = bulk.finish_packets();
    assert_eq!(packets.len(), 2);
    let total: usize = 1 + 8 + 4 + 5000 + 4 + 13;
    assert_eq!(&packets[0][..8], &[0x07, 0x00, 0x10, 0x00, 0, 0, 2, 0]);
    let second = (total - 4088 + 8) as u16;
    assert_eq!(
        &packets[1][..8],
        &[0x07, 0x01, (second >> 8) as u8, (second & 0xFF) as u8, 0, 0, 3, 0]
    );
    let mut joined = Vec::new();
    for p in &packets {
        joined.extend_from_slice(&p[8..]);
    }
    assert_eq!(joined.len(), total);
    assert_eq!(&joined[joined.len() - 13..], &[0xFD, 0x10, 0, 0, 0, 1, 0, 0, 0, 0, 0, 0, 0][..]);
    assert!(bulk.take_packets().is_empty());
}

#[test]
fn server_metadata_is_echoed_and_decides_fixed_columns() {
    let columns = vec![BulkColumn::new("s", "VARCHAR(10)", 0).unwrap(), BulkColumn::new("id", "INT", 1).unwrap()];
    let server = [
        ServerColumn { fixed_length: false, collation: Some(Collation { lcid: 0x0804, sort_id: 0x52 }) },
        ServerColumn { fixed_length: true, collation: None },
    ];
    let mut bulk = BulkInsert::new_with_server_metadata(columns, 0, Some(vec![1, 2, 3]), Some(&server));
    assert_eq!(buffered_bytes(&mut bulk), vec![1, 2, 3]);
    bulk.send_row_values(&[SqlValue::String("a".to_string()), SqlValue::Int(5)]).unwrap();
    assert_eq!(buffered_bytes(&mut bulk), vec![0xD1, 0x01, 0x00, b'a', 5, 0, 0, 0]);
}

#[test]
fn fixed_variants_and_sizes() {
    assert_eq!(nullable_to_fixed_type(0x26, Some(4)), Some(0x38));
    assert_eq!(nullable_to_fixed_type(0x68, None), Some(0x32));
    assert_eq!(nullable_to_fixed_type(0xE7, Some(4)), None);
    assert_eq!(time_scale_divisor(0), 1_000_000_000);
    assert_eq!(time_scale_divisor(7), 100);
    assert_eq!(time_scale_divisor(9), 100);
}

#[test]
fn result_reports_rows() {
    let columns = vec![BulkColumn::new("id", "INT", 0).unwrap()];
    let mut bulk = BulkInsert::new(columns, 0);
    bulk.send_row_values(&[SqlValue::Int(1)]).unwrap();
    bulk.send_row_values(&[SqlValue::Int(2)]).unwrap();
    let r = bulk.result();
    assert_eq!(r.rows_affected, 2);
    assert_eq!(r.batches_committed, 0);
    assert!(!r.has_errors);
}

#[test]
fn uuid_values_are_written_mixed_endian() {
    let columns = vec![BulkColumn::new("u", "UNIQUEIDENTIFIER", 0).unwrap()];
    let mut bulk = BulkInsert::new(columns, 0);
    let _ = bulk.take_packets();
    let u = uuid::Uuid::parse_str("a1a2a3a4-b1b2-c1c2-d1d2-d3d4d5d6d7d8").unwrap();
    bulk.send_row_values(&[SqlValue::Uuid(u)]).unwrap();
    assert_eq!(
        buffered_bytes(&mut bulk),
        vec![
            0xD1, 16, 0xa4, 0xa3, 0xa2, 0xa1, 0xb2, 0xb1, 0xc2, 0xc1, 0xd1, 0xd2, 0xd3, 0xd4, 0xd5,
            0xd6, 0xd7, 0xd8
        ]
    );
}

#[test]
fn try_send_row_values_checks_and_sends() {
    let columns = vec![BulkColumn::new("id", "BIGINT", 0).unwrap().with_nullable(false)];
    let mut bulk = BulkInsert::new(columns, 0);
    let _ = bulk.take_packets();
    let sent = bulk.try_send_row_values(&[SqlValue::BigInt(2)]);
    assert_eq!(sent, Some(Ok(())));
    assert_eq!(bulk.total_rows(), 1);
    assert_eq!(buffered_bytes(&mut bulk), vec![0xD1, 2, 0, 0, 0, 0, 0, 0, 0]);
    let refused = bulk.try_send_row_values(&[]);
    assert_eq!(refused, Some(Err(Error::Config("expected 1 values, got 0".to_string()))));
    assert_eq!(bulk.total_rows(), 1);
}

#[test]
fn decimal_values_write_sign_and_mantissa() {
    let columns = vec![BulkColumn::new("d", "DECIMAL(10,2)", 0).unwrap()];
    let mut bulk = BulkInsert::new(columns, 0);
    let _ = bulk.take_packets();
    let d = rust_decimal::Decimal::new(-12345, 2);
    bulk.send_row_values(&[SqlValue::Decimal(d)]).unwrap();
    // precision 10 takes 9 bytes: the sign byte and 8 mantissa bytes
    assert_eq!(
        buffered_bytes(&mut bulk),
        vec![0xD1, 0x09, 0x00, 0x39, 0x30, 0, 0, 0, 0, 0, 0]
    );
}

#[test]
fn date_and_datetime_values_are_written() {
    let columns = vec![
        BulkColumn::new("d", "DATE", 0).unwrap(),
        BulkColumn::new("dt", "DATETIME", 1).unwrap(),
        BulkColumn::new("sdt", "SMALLDATETIME", 2).unwrap(),
        BulkColumn::new("dt2", "DATETIME2(0)", 3).unwrap(),
    ];
    let mut bulk = BulkInsert::new(columns, 0);
    let _ = bulk.take_packets();
    let date = chrono::NaiveDate::from_ymd_opt(1900, 1, 1).unwrap();
    let dt = chrono::NaiveDate::from_ymd_opt(1900, 1, 2).unwrap().and_hms_opt(0, 1, 1).unwrap();
    bulk.send_row_values(&[
        SqlValue::Date(date),
        SqlValue::DateTime(dt),
        SqlValue::DateTime(dt),
        SqlValue::DateTime(dt),
    ])
    .unwrap();
    let mut want = vec![0xD1, 3, 0x5B, 0x95, 0x0A];
    // DATETIME: day 1, 61 s = 18300 three-hundredths
    want.push(8);
    want.extend_from_slice(&1i32.to_le_bytes());
    want.extend_from_slice(&18300u32.to_le_bytes());
    // SMALLDATETIME: day 1, minute 1
    want.push(4);
    want.extend_from_slice(&1u16.to_le_bytes());
    want.extend_from_slice(&1u16.to_le_bytes());
    // DATETIME2(0): 3 time bytes (61 s), then the date (693596 days)
    want.extend_from_slice(&[6, 61, 0, 0, 0x5C, 0x95, 0x0A]);
    assert_eq!(buffered_bytes(&mut bulk), want);
}

#[test]
fn money_values_are_counts_of_ten_thousandths() {
    let columns = vec![
        BulkColumn::new("m", "MONEY", 0).unwrap(),
        BulkColumn::new("s", "SMALLMONEY", 1).unwrap(),
    ];
    let mut bulk = BulkInsert::new(columns, 0);
    let _ = bulk.take_packets();
    let d = rust_decimal::Decimal::new(-15, 1);
    bulk.send_row_values(&[SqlValue::Decimal(d), SqlValue::Decimal(d)]).unwrap();
    let cents: i64 = -15000;
    let mut want = vec![0xD1, 8];
    want.extend_from_slice(&((cents >> 32) as i32).to_le_bytes());
    want.extend_from_slice(&(cents as u32).to_le_bytes());
    want.push(4);
    want.extend_from_slice(&(-15000i32).to_le_bytes());
    assert_eq!(buffered_bytes(&mut bulk), want);
}
#[test]
fn float_values_write_their_bits() {
    let columns = vec![
        BulkColumn::new("r", "REAL", 0).unwrap(),
        BulkColumn::new("f", "FLOAT", 1).unwrap(),
    ];
    let mut bulk = BulkInsert::new(columns, 0);
    let _ = bulk.take_packets();
    bulk.send_row_values(&[SqlValue::Float(1.5f32.to_bits()), SqlValue::Double(2.0f64.to_bits())])
        .unwrap();
    let mut want = vec![0xD1, 4];
    want.extend_from_slice(&1.5f32.to_le_bytes());
    want.push(8);
    want.extend_from_slice(&2.0f64.to_le_bytes());
    assert_eq!(buffered_bytes(&mut bulk), want);
}

/// One column of a COLMETADATA token, as read back from the wire.
struct WireColumn {
    flags: u16,
    type_id: u8,
    max_length: Option<u32>,
    precision: Option<u8>,
    scale: Option<u8>,
    collation: Option<[u8; 5]>,
    name: String,
}

/// Reads back the COLMETADATA token at the start of `buf` by the TDS rules
/// for each type's TYPE_INFO.
fn read_colmetadata(buf: &[u8]) -> Vec<WireColumn> {
    assert_eq!(buf[0], 0x81);
    let count = u16::from_le_bytes([buf[1], buf[2]]) as usize;
    let mut pos = 3;
    let mut out = Vec::new();
    for _ in 0..count {
        pos += 4; // user type
        let flags = u16::from_le_bytes([buf[pos], buf[pos + 1]]);
        pos += 2;
        let type_id = buf[pos];
        pos += 1;
        let (mut max_length, mut precision, mut scale, mut collation) = (None, None, None, None);
        match type_id {
            0x26 | 0x68 | 0x6D | 0x6E | 0x6F | 0x24 => {
                max_length = Some(buf[pos] as u32);
                pos += 1;
            }
            0x6A | 0x6C => {
                max_length = Some(buf[pos] as u32);
                precision = Some(buf[pos + 1]);
                scale = Some(buf[pos + 2]);
                pos += 3;
            }
            0x29..=0x2B => {
                scale = Some(buf[pos]);
                pos += 1;
            }
            0xA7 | 0xAF | 0xE7 | 0xEF => {
                max_length = Some(u16::from_le_bytes([buf[pos], buf[pos + 1]]) as u32);
                let mut c = [0u8; 5];
                c.copy_from_slice(&buf[pos + 2..pos + 7]);
                collation = Some(c);
                pos += 7;
            }
            0xA5 | 0xAD => {
                max_length = Some(u16::from_le_bytes([buf[pos], buf[pos + 1]]) as u32);
                pos += 2;
            }
            _ => {}
        }
        let n = buf[pos] as usize;
        pos += 1;
        let units: Vec<u16> = (0..n)
            .map(|i| u16::from_le_bytes([buf[pos + 2 * i], buf[pos + 2 * i + 1]]))
            .collect();
        pos += 2 * n;
        out.push(WireColumn {
            flags,
            type_id,
            max_length,
            precision,
            scale,
            collation,
            name: String::from_utf16(&units).unwrap(),
        });
    }
    out
}

#[test]
fn test_write_colmetadata_roundtrip() {
    let columns = vec![
        BulkColumn::new("id", "INT", 0).unwrap(),
        BulkColumn::new("tiny", "TINYINT", 1).unwrap(),
        BulkColumn::new("small", "SMALLINT", 2).unwrap(),
        BulkColumn::new("big", "BIGINT", 3).unwrap(),
        BulkColumn::new("flag", "BIT", 4).unwrap(),
        BulkColumn::new("r", "REAL", 5).unwrap(),
        BulkColumn::new("f", "FLOAT", 6).unwrap(),
        BulkColumn::new("name", "NVARCHAR(100)", 7).unwrap(),
        BulkColumn::new("code", "VARCHAR(50)", 8).unwrap(),
        BulkColumn::new("data", "VARBINARY(200)", 9).unwrap(),
        BulkColumn::new("d", "DATE", 10).unwrap(),
        BulkColumn::new("t", "TIME(3)", 11).unwrap(),
        BulkColumn::new("dt", "DATETIME", 12).unwrap(),
        BulkColumn::new("dt2", "DATETIME2(7)", 13).unwrap(),
        BulkColumn::new("dto", "DATETIMEOFFSET(7)", 14).unwrap(),
        BulkColumn::new("sdt", "SMALLDATETIME", 15).unwrap(),
        BulkColumn::new("uid", "UNIQUEIDENTIFIER", 16).unwrap(),
        BulkColumn::new("amt", "DECIMAL(18,2)", 17).unwrap(),
        BulkColumn::new("price", "MONEY", 18).unwrap(),
        BulkColumn::new("smoney", "SMALLMONEY", 19).unwrap(),
        BulkColumn::new("nmax", "NVARCHAR(MAX)", 20).unwrap(),
        BulkColumn::new("vmax", "VARCHAR(MAX)", 21).unwrap(),
        BulkColumn::new("bmax", "VARBINARY(MAX)", 22).unwrap(),
    ];

    let mut bulk = BulkInsert::new(columns.clone(), 0);
    let buf = buffered_bytes(&mut bulk);
    let meta = read_colmetadata(&buf);

    assert_eq!(meta.len(), columns.len());

    for (i, (parsed, declared)) in meta.iter().zip(columns.iter()).enumerate() {
        assert_eq!(parsed.name, declared.name, "column {i} name mismatch");
        assert_eq!(parsed.type_id, declared.type_id(), "column {i} ({}) type mismatch", declared.name);
        match declared.type_id() {
            0x26 | 0x6D | 0x6E | 0x6F => {
                assert_eq!(parsed.max_length, declared.max_length(), "column {i} ({}) max_length", declared.name);
            }
            0x68 => {
                assert_eq!(parsed.max_length, Some(1));
            }
            0x24 => {
                assert_eq!(parsed.max_length, Some(16));
            }
            0x28 => {}
            0x29..=0x2B => {
                assert_eq!(parsed.scale, declared.scale(), "column {i} ({}) scale", declared.name);
            }
            0xE7 | 0xA7 => {
                assert_eq!(
                    parsed.max_length,
                    declared.max_length(),
                    "column {i} ({}) string max_length",
                    declared.name
                );
                assert!(parsed.collation.is_some(), "column {i} ({}) should have collation", declared.name);
            }
            0xA5 => {
                assert_eq!(
                    parsed.max_length,
                    declared.max_length(),
                    "column {i} ({}) binary max_length",
                    declared.name
                );
                assert!(parsed.collation.is_none(), "column {i} ({}) should not have collation", declared.name);
            }
            0x6C => {
                assert_eq!(parsed.precision, declared.precision(), "column {i} ({}) precision", declared.name);
                assert_eq!(parsed.scale, declared.scale(), "column {i} ({}) scale", declared.name);
            }
            _ => {}
        }
    }
}

#[test]
fn test_write_colmetadata_not_null_uses_fixed_types() {
    let columns = vec![
        BulkColumn::new("id", "INT", 0).unwrap().with_nullable(false),
        BulkColumn::new("tiny", "TINYINT", 1).unwrap().with_nullable(false),
        BulkColumn::new("small", "SMALLINT", 2).unwrap().with_nullable(false),
        BulkColumn::new("big", "BIGINT", 3).unwrap().with_nullable(false),
        BulkColumn::new("flag", "BIT", 4).unwrap().with_nullable(false),
        BulkColumn::new("r", "REAL", 5).unwrap().with_nullable(false),
        BulkColumn::new("f", "FLOAT", 6).unwrap().with_nullable(false),
        BulkColumn::new("dt", "DATETIME", 7).unwrap().with_nullable(false),
        BulkColumn::new("sdt", "SMALLDATETIME", 8).unwrap().with_nullable(false),
        BulkColumn::new("mny", "MONEY", 9).unwrap().with_nullable(false),
        BulkColumn::new("smny", "SMALLMONEY", 10).unwrap().with_nullable(false),
    ];

    let mut bulk = BulkInsert::new(columns.clone(), 0);
    let buf = buffered_bytes(&mut bulk);
    let meta = read_colmetadata(&buf);

    // Int4, Int1, Int2, Int8, Bit, Float4, Float8, DateTime, DateTime4,
    // Money, Money4.
    let expected: &[(&str, u8)] = &[
        ("id", 0x38),
        ("tiny", 0x30),
        ("small", 0x34),
        ("big", 0x7F),
        ("flag", 0x32),
        ("r", 0x3B),
        ("f", 0x3E),
        ("dt", 0x3D),
        ("sdt", 0x3A),
        ("mny", 0x3C),
        ("smny", 0x7A),
    ];
    for (i, (name, ty)) in expected.iter().enumerate() {
        assert_eq!(meta[i].name, *name, "column {i} name");
        assert_eq!(meta[i].type_id, *ty, "column {i} ({name}) type");
        assert_eq!(meta[i].flags & 0x0001, 0, "column {i} ({name}) should not have Nullable flag set");
    }

    // Every column is fixed-length: a row carries no length bytes.
    let dt = chrono::NaiveDate::from_ymd_opt(1900, 1, 1).unwrap().and_hms_opt(0, 0, 0).unwrap();
    let d = rust_decimal::Decimal::new(1, 0);
    bulk.send_row_values(&[
        SqlValue::Int(1),
        SqlValue::TinyInt(1),
        SqlValue::SmallInt(1),
        SqlValue::BigInt(1),
        SqlValue::Bool(true),
        SqlValue::Float(1.0f32.to_bits()),
        SqlValue::Double(1.0f64.to_bits()),
        SqlValue::DateTime(dt),
        SqlValue::DateTime(dt),
        SqlValue::Decimal(d),
        SqlValue::Decimal(d),
    ])
    .unwrap();
    let row = buffered_bytes(&mut bulk);
    assert_eq!(row.len(), 1 + 4 + 1 + 2 + 8 + 1 + 4 + 8 + 8 + 4 + 8 + 4);
}

#[test]
fn test_write_colmetadata_uses_caller_collation() {
    let chinese = Collation { lcid: 0x0804, sort_id: 0x52 };

    let columns = vec![
        BulkColumn::new("s", "VARCHAR(50)", 0).unwrap().with_collation(chinese),
        BulkColumn::new("n", "NVARCHAR(50)", 1).unwrap().with_collation(chinese),
        BulkColumn::new("d", "VARCHAR(10)", 2).unwrap(),
    ];
    let mut bulk = BulkInsert::new(columns, 0);
    let buf = buffered_bytes(&mut bulk);
    let meta = read_colmetadata(&buf);

    let c0 = meta[0].collation.expect("VARCHAR has collation");
    assert_eq!(u32::from_le_bytes([c0[0], c0[1], c0[2], c0[3]]), chinese.lcid, "VARCHAR caller LCID");
    assert_eq!(c0[4], chinese.sort_id, "VARCHAR caller sort_id");

    let c1 = meta[1].collation.expect("NVARCHAR has collation");
    assert_eq!(u32::from_le_bytes([c1[0], c1[1], c1[2], c1[3]]), chinese.lcid, "NVARCHAR caller LCID");
    assert_eq!(c1[4], chinese.sort_id, "NVARCHAR caller sort_id");

    let default = meta[2].collation.expect("VARCHAR has default collation");
    assert_eq!(default, [0x09, 0x04, 0xD0, 0x00, 0x34]);
}

#[test]
fn money_and_smalldatetime_values_force_their_form() {
    let columns = vec![
        BulkColumn::new("a", "DECIMAL(18,2)", 0).unwrap(),
        BulkColumn::new("b", "DECIMAL(18,2)", 1).unwrap(),
        BulkColumn::new("c", "DATETIME", 2).unwrap(),
    ];
    let mut bulk = BulkInsert::new(columns, 0);
    let _ = bulk.take_packets();
    let d = rust_decimal::Decimal::new(25, 1);
    let dt = chrono::NaiveDate::from_ymd_opt(1900, 1, 3).unwrap().and_hms_opt(1, 2, 30).unwrap();
    bulk.send_row_values(&[SqlValue::Money(d), SqlValue::SmallMoney(d), SqlValue::SmallDateTime(dt)])
        .unwrap();
    let mut want = vec![0xD1, 8];
    want.extend_from_slice(&0i32.to_le_bytes());
    want.extend_from_slice(&25000u32.to_le_bytes());
    want.push(4);
    want.extend_from_slice(&25000i32.to_le_bytes());
    // SMALLDATETIME: day 2, minute 62
    want.push(4);
    want.extend_from_slice(&2u16.to_le_bytes());
    want.extend_from_slice(&62u16.to_le_bytes());
    assert_eq!(buffered_bytes(&mut bulk), want);
}

#[test]
fn smalldatetime_before_1900_is_an_error() {
    let columns = vec![BulkColumn::new("c", "SMALLDATETIME", 0).unwrap()];
    let mut bulk = BulkInsert::new(columns, 0);
    let dt = chrono::NaiveDate::from_ymd_opt(1899, 12, 31).unwrap().and_hms_opt(0, 0, 0).unwrap();
    let err = bulk.send_row_values(&[SqlValue::SmallDateTime(dt)]).unwrap_err();
    match err {
        Error::Config(msg) => {
            assert!(msg.starts_with("failed to encode column 0: "));
            assert!(msg.contains("SMALLDATETIME value out of range"));
        }
        other => panic!("unexpected {other:?}"),
    }
}

#[test]
fn datetimeoffset_values_are_written_in_local_time() {
    let columns = vec![BulkColumn::new("o", "DATETIMEOFFSET(0)", 0).unwrap()];
    let mut bulk = BulkInsert::new(columns, 0);
    let _ = bulk.take_packets();
    // 2000-01-01 23:30:00 UTC at +01:00 is 2000-01-02 00:30:00 local.
    let utc = chrono::NaiveDate::from_ymd_opt(2000, 1, 1).unwrap().and_hms_opt(23, 30, 0).unwrap();
    bulk.send_row_values(&[SqlValue::DateTimeOffset(DateTimeOffset { utc, offset_minutes: 60 })]).unwrap();
    let local_day = chrono::NaiveDate::from_ymd_opt(2000, 1, 2).unwrap();
    let days = chrono::Datelike::num_days_from_ce(&local_day) - 1;
    let mut want = vec![0xD1, 8, 0x08, 0x07, 0x00];
    want.extend_from_slice(&(days as u32).to_le_bytes()[..3]);
    want.extend_from_slice(&60i16.to_le_bytes());
    assert_eq!(buffered_bytes(&mut bulk), want);
}
