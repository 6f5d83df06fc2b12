use chrono::{NaiveDate, NaiveTime};
use mssql_client::column_dates::{
    ae_date_from_bytes, ae_time_from_bytes, datetime_from_wire, parse_date, parse_datetimen,
    parse_legacy_datetime, parse_legacy_smalldatetime, smalldatetime_from_wire,
};
use mssql_client::column_money::{parse_money, parse_money_value};
use mssql_client::column_parser::{is_plp_max, validate_blob_result_set, ColumnMeta};
use mssql_client::column_variant::{variant_date, variant_moneyn, variant_nvarchar};
use mssql_client::error::Error;
use mssql_client::value::SqlValue;
use rust_decimal::Decimal;

fn ymd_hms(y: i32, mo: u32, d: u32, h: u32, mi: u32, s: u32) -> chrono::NaiveDateTime {
    NaiveDate::from_ymd_opt(y, mo, d).unwrap().and_hms_opt(h, mi, s).unwrap()
}

#[test]
fn hostile_smalldatetime_minutes_is_error_not_panic() {
    // DateTimeN, len=4: days=0, minutes=0xFFFF (>= 1440 is invalid)
    let data = [4u8, 0x00, 0x00, 0xFF, 0xFF];
    let mut buf: &[u8] = &data;
    assert!(parse_datetimen(&mut buf).is_err());

    // Fixed SMALLDATETIME: same payload, no length prefix
    let data = [0x00, 0x00, 0xFF, 0xFF];
    let mut buf: &[u8] = &data;
    assert!(parse_legacy_smalldatetime(&mut buf).is_err());
}

#[test]
fn hostile_datetime_days_overflow_is_error_not_panic() {
    // DateTimeN, len=8: days=i32::MAX overflows chrono's date range
    let mut data = vec![8u8];
    data.extend_from_slice(&i32::MAX.to_le_bytes());
    data.extend_from_slice(&0u32.to_le_bytes());
    let mut buf: &[u8] = &data;
    assert!(parse_datetimen(&mut buf).is_err());

    // Fixed DATETIME: days=i32::MIN
    let mut data = Vec::new();
    data.extend_from_slice(&i32::MIN.to_le_bytes());
    data.extend_from_slice(&0u32.to_le_bytes());
    let mut buf: &[u8] = &data;
    assert!(parse_legacy_datetime(&mut buf).is_err());
}

#[test]
fn hostile_datetime_time_300ths_is_error_not_panic() {
    // DateTimeN, len=8: valid days, time_300ths=u32::MAX (> 24h of 300ths)
    let mut data = vec![8u8];
    data.extend_from_slice(&0i32.to_le_bytes());
    data.extend_from_slice(&u32::MAX.to_le_bytes());
    let mut buf: &[u8] = &data;
    assert!(parse_datetimen(&mut buf).is_err());
}

#[test]
fn datetimen_values() {
    // SMALLDATETIME: day 1 after 1900-01-01, 60 minutes
    let mut buf: &[u8] = &[4, 1, 0, 60, 0, 7];
    assert_eq!(parse_datetimen(&mut buf).unwrap(), SqlValue::DateTime(ymd_hms(1900, 1, 2, 1, 0, 0)));
    assert_eq!(buf, &[7]);
    // DATETIME: 300 three-hundredths is one second
    let mut buf: &[u8] = &[8, 0, 0, 0, 0, 0x2C, 0x01, 0, 0];
    assert_eq!(parse_datetimen(&mut buf).unwrap(), SqlValue::DateTime(ymd_hms(1900, 1, 1, 0, 0, 1)));
    assert!(buf.is_empty());
    // NULL, bad length, short data
    let mut buf: &[u8] = &[0];
    assert_eq!(parse_datetimen(&mut buf).unwrap(), SqlValue::Null);
    let mut buf: &[u8] = &[5, 0, 0, 0, 0, 0];
    assert_eq!(
        parse_datetimen(&mut buf).unwrap_err(),
        Error::Protocol("invalid DateTimeN length: 5".to_string())
    );
    let mut buf: &[u8] = &[8, 0, 0];
    assert_eq!(
        parse_datetimen(&mut buf).unwrap_err(),
        Error::Protocol("unexpected EOF reading DateTimeN".to_string())
    );
}

#[test]
fn datetime_milliseconds_are_truncated() {
    // 1 three-hundredth of a second is 3 ms (3.33 truncated)
    let dt = datetime_from_wire(-1, 1).unwrap();
    let want = NaiveDate::from_ymd_opt(1899, 12, 31).unwrap().and_hms_milli_opt(0, 0, 0, 3).unwrap();
    assert_eq!(dt, want);
    assert_eq!(
        datetime_from_wire(0, 300 * 86400).unwrap_err(),
        Error::Protocol("DATETIME time component out of range: 25920000".to_string())
    );
    assert_eq!(
        smalldatetime_from_wire(0, 1440).unwrap_err(),
        Error::Protocol("SMALLDATETIME minutes out of range: 1440".to_string())
    );
    assert_eq!(
        datetime_from_wire(i32::MIN as i64, 0).unwrap_err(),
        Error::Protocol("DATETIME days out of range: -2147483648".to_string())
    );
}

#[test]
fn date_values() {
    // 693595 days after 0001-01-01 is 1900-01-01
    let mut buf: &[u8] = &[3, 0x5B, 0x95, 0x0A, 1];
    assert_eq!(
        parse_date(&mut buf).unwrap(),
        SqlValue::Date(NaiveDate::from_ymd_opt(1900, 1, 1).unwrap())
    );
    assert_eq!(buf, &[1]);
    let mut buf: &[u8] = &[0];
    assert_eq!(parse_date(&mut buf).unwrap(), SqlValue::Null);
    let mut buf: &[u8] = &[4, 0, 0, 0, 0];
    assert_eq!(parse_date(&mut buf).unwrap_err(), Error::Protocol("invalid DATE length: 4".to_string()));
    let mut buf: &[u8] = &[3, 0];
    assert_eq!(parse_date(&mut buf).unwrap_err(), Error::Protocol("unexpected EOF reading DATE".to_string()));
}

#[test]
fn money_values() {
    // SMALLMONEY 12.3456
    let mut buf: &[u8] = &123456i32.to_le_bytes();
    assert_eq!(parse_money(&mut buf, 0x7A).unwrap(), SqlValue::Decimal(Decimal::new(123456, 4)));
    // MONEY -1.0000: high half -1, low half 0xFFFF_D8F0
    let cents: i64 = -10000;
    let high = ((cents >> 32) as i32).to_le_bytes();
    let low = (cents as u32).to_le_bytes();
    let mut data = Vec::new();
    data.extend_from_slice(&high);
    data.extend_from_slice(&low);
    let mut buf: &[u8] = &data;
    assert_eq!(parse_money(&mut buf, 0x3C).unwrap(), SqlValue::Decimal(Decimal::new(-10000, 4)));
    // MONEYN NULL and short data
    let mut buf: &[u8] = &[0];
    assert_eq!(parse_money(&mut buf, 0x6E).unwrap(), SqlValue::Null);
    let mut buf: &[u8] = &[8, 1, 2];
    assert_eq!(
        parse_money(&mut buf, 0x6E).unwrap_err(),
        Error::Protocol("unexpected EOF reading money data (8 bytes)".to_string())
    );
    let mut buf: &[u8] = &[0, 0, 0];
    assert_eq!(
        parse_money_value(&mut buf, 3).unwrap_err(),
        Error::Protocol("invalid money length: 3".to_string())
    );
}

#[test]
fn variant_values() {
    // MONEYN with a 4-byte length property
    let mut data = vec![4u8];
    data.extend_from_slice(&50000i32.to_le_bytes());
    let mut buf: &[u8] = &data;
    assert_eq!(variant_moneyn(&mut buf, 1, 4).unwrap(), SqlValue::Decimal(Decimal::new(50000, 4)));
    assert!(buf.is_empty());
    // a money length the data does not carry is skipped as NULL
    let mut buf: &[u8] = &[8, 1, 2, 3, 4];
    assert_eq!(variant_moneyn(&mut buf, 1, 4).unwrap(), SqlValue::Null);
    assert!(buf.is_empty());
    // DATE, no properties
    let mut buf: &[u8] = &[0x5B, 0x95, 0x0A];
    assert_eq!(
        variant_date(&mut buf, 0, 3).unwrap(),
        SqlValue::Date(NaiveDate::from_ymd_opt(1900, 1, 1).unwrap())
    );
    // NVARCHAR: seven property bytes, then UTF-16
    let mut data = vec![0u8; 7];
    data.extend_from_slice(&[b'h', 0, b'i', 0]);
    let mut buf: &[u8] = &data;
    assert_eq!(variant_nvarchar(&mut buf, 7, 4).unwrap(), SqlValue::String("hi".to_string()));
    assert!(buf.is_empty());
    let mut buf: &[u8] = &[0x00, 0xD8];
    assert_eq!(
        variant_nvarchar(&mut buf, 0, 2).unwrap_err(),
        Error::Protocol("invalid UTF-16 in SQL_VARIANT nvarchar".to_string())
    );
}

#[test]
fn decrypted_dates_and_times() {
    assert_eq!(ae_date_from_bytes(&[0, 0, 0]).unwrap(), NaiveDate::from_ymd_opt(1, 1, 1).unwrap());
    assert_eq!(
        ae_date_from_bytes(&[0, 0]).unwrap_err(),
        Error::Encryption("decrypted date has 2 bytes, expected 3".to_string())
    );
    // 1.5 s is 15,000,000 ticks of 100 ns
    let ticks: u64 = 15_000_000;
    let b = ticks.to_le_bytes();
    assert_eq!(
        ae_time_from_bytes(&b[..5]).unwrap(),
        NaiveTime::from_num_seconds_from_midnight_opt(1, 500_000_000).unwrap()
    );
    // 86400 s is past the end of the day
    let b = (864_000_000_000u64).to_le_bytes();
    assert_eq!(
        ae_time_from_bytes(&b[..5]).unwrap_err(),
        Error::Encryption("decrypted TIME 86400s out of range".to_string())
    );
}

#[test]
fn plp_max_columns() {
    let col = |type_id: u8, max_length: Option<u32>| ColumnMeta {
        type_id,
        max_length,
        precision: None,
        scale: None,
        collation: None,
    };
    assert!(is_plp_max(&col(0xE7, Some(0xFFFF))));
    assert!(!is_plp_max(&col(0xE7, Some(100))));
    assert!(is_plp_max(&col(0xF1, None)));
    assert!(!is_plp_max(&col(0x26, Some(0xFFFF))));
}

#[test]
fn blob_result_sets_need_one_trailing_max_column() {
    let col = |type_id: u8, max_length: Option<u32>| ColumnMeta {
        type_id,
        max_length,
        precision: None,
        scale: None,
        collation: None,
    };
    let int = col(0x26, Some(4));
    let max = col(0xA5, Some(0xFFFF));
    assert_eq!(validate_blob_result_set(&[int, max], false).unwrap(), 1);
    assert_eq!(
        validate_blob_result_set(&[int, max], true).unwrap_err(),
        Error::Protocol("query_stream_blob does not support Always Encrypted result sets".to_string())
    );
    assert_eq!(
        validate_blob_result_set(&[int], false).unwrap_err(),
        Error::Protocol("query_stream_blob: result set has no MAX column \u{2014} use query_stream".to_string())
    );
    assert_eq!(
        validate_blob_result_set(&[max, int], false).unwrap_err(),
        Error::Protocol("query_stream_blob: the MAX column must be the last column".to_string())
    );
    assert_eq!(
        validate_blob_result_set(&[max, max], false).unwrap_err(),
        Error::Protocol("query_stream_blob: result set has more than one MAX column".to_string())
    );
}
