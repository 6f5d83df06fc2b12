use chrono::{NaiveDate, NaiveTime};
use mssql_client::column_decrypt::denormalize_decrypted;
use mssql_client::column_parser::{parse_default_binary, parse_floatn, ColumnMeta};
use mssql_client::column_variant::variant_floatn;
use mssql_client::error::Error;
use mssql_client::value::SqlValue;
use rust_decimal::Decimal;

fn base(type_id: u8, max_length: Option<u32>, scale: Option<u8>) -> ColumnMeta {
    ColumnMeta { type_id, max_length, precision: None, scale, collation: None }
}

fn decode(p: Vec<u8>, type_id: u8, max_length: Option<u32>) -> Result<SqlValue, Error> {
    denormalize_decrypted(p, &base(type_id, max_length, None), "Base")
}

#[test]
fn decrypted_integers_take_the_base_width() {
    let p = (-2i64).to_le_bytes().to_vec();
    assert_eq!(decode(p.clone(), 0x38, None).unwrap(), SqlValue::Int(-2));
    assert_eq!(decode(p.clone(), 0x30, None).unwrap(), SqlValue::TinyInt(0xFE));
    assert_eq!(decode(p.clone(), 0x26, Some(2)).unwrap(), SqlValue::SmallInt(-2));
    assert_eq!(decode(p.clone(), 0x26, Some(8)).unwrap(), SqlValue::BigInt(-2));
    assert_eq!(decode(p.clone(), 0x32, None).unwrap(), SqlValue::Bool(true));
    assert_eq!(
        decode(vec![1, 2, 3, 4], 0x38, None).unwrap_err(),
        Error::Encryption("decrypted integer has 4 bytes, expected 8".to_string())
    );
}

#[test]
fn decrypted_floats_keep_their_bits() {
    let p = 1.5f32.to_le_bytes().to_vec();
    assert_eq!(decode(p, 0x6D, Some(4)).unwrap(), SqlValue::Float(1.5f32.to_bits()));
    let p = (-0.25f64).to_le_bytes().to_vec();
    assert_eq!(decode(p, 0x3E, None).unwrap(), SqlValue::Double((-0.25f64).to_bits()));
}

#[test]
fn decrypted_text_is_padded_for_fixed_types() {
    let p = vec![b'h', 0, b'i', 0];
    assert_eq!(decode(p.clone(), 0xE7, Some(8)).unwrap(), SqlValue::String("hi".to_string()));
    assert_eq!(decode(p, 0xEF, Some(8)).unwrap(), SqlValue::String("hi  ".to_string()));
    assert_eq!(
        decode(vec![1, 2, 3], 0xE7, None).unwrap_err(),
        Error::Encryption("decrypted NVARCHAR has an odd byte length (3)".to_string())
    );
    assert_eq!(decode(b"abc".to_vec(), 0xA7, Some(10)).unwrap(), SqlValue::String("abc".to_string()));
    assert_eq!(decode(b"abc".to_vec(), 0xAF, Some(5)).unwrap(), SqlValue::String("abc  ".to_string()));
    assert_eq!(decode(vec![0xE9], 0xA7, None).unwrap(), SqlValue::String("é".to_string()));
}

#[test]
fn decrypted_binary_guid_and_date() {
    assert_eq!(decode(vec![1, 2, 3], 0xA5, None).unwrap(), SqlValue::Binary(vec![1, 2, 3]));
    let p: Vec<u8> = (0u8..16).collect();
    let want = uuid::Uuid::from_bytes([3, 2, 1, 0, 5, 4, 7, 6, 8, 9, 10, 11, 12, 13, 14, 15]);
    assert_eq!(decode(p, 0x24, None).unwrap(), SqlValue::Uuid(want));
    assert_eq!(
        decode(vec![0x5B, 0x95, 0x0A], 0x28, None).unwrap(),
        SqlValue::Date(NaiveDate::from_ymd_opt(1900, 1, 1).unwrap())
    );
    assert_eq!(
        decode(vec![0, 0], 0x28, None).unwrap_err(),
        Error::Encryption("decrypted date has 2 bytes, expected 3".to_string())
    );
}

#[test]
fn decrypted_decimals_and_money() {
    let mut p = vec![1u8];
    p.extend_from_slice(&12345u128.to_le_bytes());
    let b = base(0x6C, None, Some(2));
    assert_eq!(denormalize_decrypted(p.clone(), &b, "NumericN").unwrap(), SqlValue::Decimal(Decimal::new(12345, 2)));
    p[0] = 0;
    assert_eq!(denormalize_decrypted(p, &b, "NumericN").unwrap(), SqlValue::Decimal(Decimal::new(-12345, 2)));
    let mut p = vec![1u8];
    p.extend_from_slice(&(1u128 << 100).to_le_bytes());
    assert_eq!(
        denormalize_decrypted(p, &b, "NumericN").unwrap_err(),
        Error::Encryption(
            "decrypted DECIMAL out of range: Number exceeds maximum value that can be represented."
                .to_string()
        )
    );
    let cents: i64 = 1_234_500;
    let mut p = Vec::new();
    p.extend_from_slice(&((cents >> 32) as i32).to_le_bytes());
    p.extend_from_slice(&(cents as u32).to_le_bytes());
    assert_eq!(decode(p, 0x3C, None).unwrap(), SqlValue::Decimal(Decimal::new(1_234_500, 4)));
    assert_eq!(
        decode(vec![0; 4], 0x7A, None).unwrap_err(),
        Error::Encryption("decrypted MONEY has 4 bytes, expected 8".to_string())
    );
}

#[test]
fn decrypted_times_and_datetimes() {
    let ticks: u64 = 15_000_000;
    let t = ticks.to_le_bytes()[..5].to_vec();
    let want_t = NaiveTime::from_num_seconds_from_midnight_opt(1, 500_000_000).unwrap();
    assert_eq!(decode(t.clone(), 0x29, None).unwrap(), SqlValue::Time(want_t));
    let mut p = t;
    p.extend_from_slice(&[0x5B, 0x95, 0x0A]);
    let day = NaiveDate::from_ymd_opt(1900, 1, 1).unwrap();
    assert_eq!(decode(p, 0x2A, None).unwrap(), SqlValue::DateTime(day.and_time(want_t)));
    // legacy DATETIME: one day after 1900-01-01, 300 ticks
    let mut p = Vec::new();
    p.extend_from_slice(&1i32.to_le_bytes());
    p.extend_from_slice(&300u32.to_le_bytes());
    let want = NaiveDate::from_ymd_opt(1900, 1, 2).unwrap().and_hms_opt(0, 0, 1).unwrap();
    assert_eq!(decode(p, 0x6F, None).unwrap(), SqlValue::DateTime(want));
    // SMALLDATETIME with too many minutes is a protocol error
    let p = vec![0, 0, 0xA0, 0x05];
    assert_eq!(
        decode(p, 0x3A, None).unwrap_err(),
        Error::Protocol("SMALLDATETIME minutes out of range: 1440".to_string())
    );
    assert_eq!(
        decode(vec![0; 5], 0x3D, None).unwrap_err(),
        Error::Encryption("decrypted DATETIME has 5 bytes, expected 4 or 8".to_string())
    );
}

#[test]
fn decrypted_unhandled_type_names_the_type() {
    assert_eq!(
        denormalize_decrypted(vec![], &base(0xF1, None, None), "Xml").unwrap_err(),
        Error::Encryption("Always Encrypted read is not yet implemented for base type Xml".to_string())
    );
}

#[test]
fn floatn_values_keep_their_bits() {
    let mut data = vec![4u8];
    data.extend_from_slice(&2.5f32.to_le_bytes());
    let mut buf: &[u8] = &data;
    assert_eq!(parse_floatn(&mut buf).unwrap(), SqlValue::Float(2.5f32.to_bits()));
    let mut data = vec![8u8];
    data.extend_from_slice(&2.5f64.to_le_bytes());
    let mut buf: &[u8] = &data;
    assert_eq!(parse_floatn(&mut buf).unwrap(), SqlValue::Double(2.5f64.to_bits()));
    let mut buf: &[u8] = &[4];
    assert_eq!(
        parse_floatn(&mut buf).unwrap_err(),
        Error::Protocol("unexpected EOF reading FloatN data".to_string())
    );
    let mut buf: &[u8] = &[3, 0, 0, 0];
    assert_eq!(
        parse_floatn(&mut buf).unwrap_err(),
        Error::Protocol("invalid FloatN length: 3".to_string())
    );
    // a variant REAL: one property byte (4) and four data bytes
    let mut data = vec![4u8];
    data.extend_from_slice(&2.5f32.to_le_bytes());
    let mut buf: &[u8] = &data;
    assert_eq!(variant_floatn(&mut buf, 1, 4).unwrap(), SqlValue::Float(2.5f32.to_bits()));
    assert!(buf.is_empty());
}

#[test]
fn other_types_read_as_length_prefixed_binary() {
    let mut buf: &[u8] = &[2, 0, 7, 8, 9];
    assert_eq!(parse_default_binary(&mut buf, "Udt").unwrap(), SqlValue::Binary(vec![7, 8]));
    assert_eq!(buf, &[9]);
    let mut buf: &[u8] = &[0xFF, 0xFF];
    assert_eq!(parse_default_binary(&mut buf, "Udt").unwrap(), SqlValue::Null);
    let mut buf: &[u8] = &[1];
    assert_eq!(
        parse_default_binary(&mut buf, "Udt").unwrap_err(),
        Error::Protocol("unexpected EOF reading Udt".to_string())
    );
    let mut buf: &[u8] = &[3, 0, 1];
    assert_eq!(
        parse_default_binary(&mut buf, "Udt").unwrap_err(),
        Error::Protocol("unexpected EOF reading Udt data".to_string())
    );
}
