//! Reading dates, date-times and money from a row of a TDS result, the
//! SQL_VARIANT values built from them, and the date and time forms that
//! Always Encrypted decrypts to.
use vstd::prelude::*;
use chrono::{NaiveDate, NaiveDateTime, NaiveTime};
use crate::calendar::{
    date_add_days, date_and_time, date_days, date_from_day_number, date_from_ymd, date_in_range,
    datetime_date, datetime_time, days_before_year, time_from_secs, time_nano, time_secs,
};
use crate::column_parser::{protocol_error, read_ok, take_bytes, take_u16_le, take_u32_le, take_u8, ReadResult};
use crate::error::Error;
use crate::text::{chars_of, int_decimal, nat_decimal, push_decimal_i64, push_decimal_u64, push_str_chars, string_of};
use crate::value::{SqlValue, ValueView};
use crate::wire::{le_bytes, u16_of, u32_of};
use crate::bulk::ColumnView;
use crate::bulk_insert::{date_bytes, encode_value_spec};

verus! {

// ---------------------------------------------------------------------------
// Date-times from their wire parts
// ---------------------------------------------------------------------------

/// The day number of 1900-01-01, from which DATETIME and SMALLDATETIME
/// count their days.
pub open spec fn epoch_1900() -> int {
    693596
}

/// A date-time as its day number, seconds since midnight and nanoseconds.
pub open spec fn datetime_parts(dt: NaiveDateTime) -> (int, int, int) {
    (date_days(datetime_date(dt)), time_secs(datetime_time(dt)), time_nano(datetime_time(dt)))
}

/// How a date-time built from wire parts relates to what it should be.
pub open spec fn datetime_ok(r: Result<NaiveDateTime, Error>, want: Result<(int, int, int), Seq<char>>) -> bool {
    match want {
        Ok(p) => r matches Ok(dt) && datetime_parts(dt) == p,
        Err(m) => r matches Err(Error::Protocol(t)) && t@ == m,
    }
}

/// SMALLDATETIME: days since 1900-01-01 and minutes since midnight.
pub open spec fn smalldatetime_spec(days: int, minutes: int) -> Result<(int, int, int), Seq<char>> {
    if !date_in_range(epoch_1900() + days) {
        Err("SMALLDATETIME days out of range: "@ + int_decimal(days))
    } else if minutes * 60 >= 86400 {
        Err("SMALLDATETIME minutes out of range: "@ + int_decimal(minutes))
    } else {
        Ok((epoch_1900() + days, minutes * 60, 0))
    }
}

/// DATETIME: days since 1900-01-01 and three-hundredths of a second since
/// midnight, taken to whole milliseconds.
pub open spec fn datetime_spec(days: int, ticks: int) -> Result<(int, int, int), Seq<char>> {
    let ms = ticks * 1000 / 300;
    if !date_in_range(epoch_1900() + days) {
        Err("DATETIME days out of range: "@ + int_decimal(days))
    } else if ms / 1000 >= 86400 {
        Err("DATETIME time component out of range: "@ + int_decimal(ticks))
    } else {
        Ok((epoch_1900() + days, ms / 1000, (ms % 1000) * 1000000))
    }
}

fn epoch_1900_date() -> (r: NaiveDate)
    ensures
        date_days(r) == epoch_1900(),
{
    let d = date_from_ymd(1900, 1, 1);
    assert(days_before_year(1900) == 693595);
    d
}

/// Builds a SMALLDATETIME from its wire parts; values out of range are
/// errors.
pub fn smalldatetime_from_wire(days: i64, minutes: u32) -> (r: Result<NaiveDateTime, Error>)
    requires
        -106751991167 <= days <= 106751991167,
    ensures
        datetime_ok(r, smalldatetime_spec(days as int, minutes as int)),
{
    let base = epoch_1900_date();
    let date = match date_add_days(&base, days) {
        Some(d) => d,
        None => {
            let mut msg = chars_of("SMALLDATETIME days out of range: ");
            push_decimal_i64(&mut msg, days);
            return Err(Error::Protocol(string_of(msg.as_slice())));
        },
    };
    let secs: u64 = minutes as u64 * 60;
    let time = if secs <= 0xFFFF_FFFF {
        time_from_secs(secs as u32, 0)
    } else {
        None
    };
    match time {
        Some(t) => Ok(date_and_time(&date, t)),
        None => {
            let mut msg = chars_of("SMALLDATETIME minutes out of range: ");
            push_decimal_i64(&mut msg, minutes as i64);
            Err(Error::Protocol(string_of(msg.as_slice())))
        },
    }
}

/// Builds a DATETIME from its wire parts; values out of range are errors.
pub fn datetime_from_wire(days: i64, ticks: u64) -> (r: Result<NaiveDateTime, Error>)
    requires
        -106751991167 <= days <= 106751991167,
        ticks <= u64::MAX / 1000,
    ensures
        datetime_ok(r, datetime_spec(days as int, ticks as int)),
{
    let base = epoch_1900_date();
    let date = match date_add_days(&base, days) {
        Some(d) => d,
        None => {
            let mut msg = chars_of("DATETIME days out of range: ");
            push_decimal_i64(&mut msg, days);
            return Err(Error::Protocol(string_of(msg.as_slice())));
        },
    };
    let total_ms = ticks * 1000 / 300;
    let nanos = (total_ms % 1000) * 1_000_000;
    let whole = total_ms / 1000;
    let time = if whole <= 0xFFFF_FFFF {
        time_from_secs(whole as u32, nanos as u32)
    } else {
        None
    };
    match time {
        Some(t) => Ok(date_and_time(&date, t)),
        None => {
            let mut msg = chars_of("DATETIME time component out of range: ");
            push_decimal_u64(&mut msg, ticks);
            proof {
                assert(int_decimal(ticks as int) == nat_decimal(ticks as nat));
            }
            Err(Error::Protocol(string_of(msg.as_slice())))
        },
    }
}

// ---------------------------------------------------------------------------
// DATETIMEN, DATETIME, SMALLDATETIME and DATE columns
// ---------------------------------------------------------------------------

/// A date-time read from `n` bytes, or the error building it gave.
pub open spec fn datetime_read(p: Result<(int, int, int), Seq<char>>, n: nat) -> ReadResult {
    match p {
        Ok((d, s, ns)) => Ok((ValueView::DateTime(d, s, ns), n)),
        Err(m) => Err(m),
    }
}

/// SMALLDATETIME wire bytes: days and minutes, two bytes each.
pub open spec fn small_parts(b: Seq<u8>) -> Result<(int, int, int), Seq<char>> {
    smalldatetime_spec(u16_of(b) as int, u16_of(b.skip(2)) as int)
}

/// DATETIME wire bytes: signed days and ticks, four bytes each.
pub open spec fn full_parts(b: Seq<u8>) -> Result<(int, int, int), Seq<char>> {
    datetime_spec((u32_of(b) as i32) as int, u32_of(b.skip(4)) as int)
}

/// DATETIMEN: a length byte (0 for NULL, 4 for SMALLDATETIME, 8 for
/// DATETIME) and the value.
pub open spec fn datetimen_spec(b: Seq<u8>) -> ReadResult {
    if b.len() < 1 {
        Err("unexpected EOF reading DateTimeN length"@)
    } else if b[0] == 0 {
        Ok((ValueView::Null, 1))
    } else if b.len() - 1 < b[0] {
        Err("unexpected EOF reading DateTimeN"@)
    } else if b[0] == 4 {
        datetime_read(small_parts(b.skip(1)), 5)
    } else if b[0] == 8 {
        datetime_read(full_parts(b.skip(1)), 9)
    } else {
        Err("invalid DateTimeN length: "@ + nat_decimal(b[0] as nat))
    }
}

/// Reads SMALLDATETIME wire bytes.
pub(crate) fn read_small(buf: &mut &[u8]) -> (r: Result<NaiveDateTime, Error>)
    requires
        old(buf)@.len() >= 4,
    ensures
        datetime_ok(r, small_parts(old(buf)@)),
        final(buf)@ == old(buf)@.skip(4),
{
    let ghost b = buf@;
    let days = take_u16_le(buf);
    let minutes = take_u16_le(buf);
    assert(b.skip(2).skip(2) =~= b.skip(4));
    smalldatetime_from_wire(days as i64, minutes as u32)
}

/// Reads DATETIME wire bytes.
pub(crate) fn read_full(buf: &mut &[u8]) -> (r: Result<NaiveDateTime, Error>)
    requires
        old(buf)@.len() >= 8,
    ensures
        datetime_ok(r, full_parts(old(buf)@)),
        final(buf)@ == old(buf)@.skip(8),
{
    let ghost b = buf@;
    let days = take_u32_le(buf) as i32;
    let ticks = take_u32_le(buf);
    assert(b.skip(4).skip(4) =~= b.skip(8));
    datetime_from_wire(days as i64, ticks as u64)
}

/// A date-time read as a value.
pub(crate) fn datetime_value(r: Result<NaiveDateTime, Error>) -> (v: Result<SqlValue, Error>)
    ensures
        match r {
            Ok(dt) => v matches Ok(x) && x@ == ValueView::DateTime(
                datetime_parts(dt).0,
                datetime_parts(dt).1,
                datetime_parts(dt).2,
            ),
            Err(e) => v == Err::<SqlValue, Error>(e),
        },
{
    match r {
        Ok(dt) => Ok(SqlValue::DateTime(dt)),
        Err(e) => Err(e),
    }
}

/// Reads a DATETIMEN value.
pub fn parse_datetimen(buf: &mut &[u8]) -> (r: Result<SqlValue, Error>)
    ensures
        read_ok(r, old(buf)@, final(buf)@, datetimen_spec(old(buf)@)),
{
    let ghost b = buf@;
    if buf.len() < 1 {
        return Err(protocol_error("unexpected EOF reading DateTimeN length"));
    }
    let len = take_u8(buf);
    if len == 0 {
        return Ok(SqlValue::Null);
    }
    if buf.len() < len as usize {
        return Err(protocol_error("unexpected EOF reading DateTimeN"));
    }
    if len == 4 {
        proof {
            assert(b.skip(1).skip(4) =~= b.skip(5));
        }
        datetime_value(read_small(buf))
    } else if len == 8 {
        proof {
            assert(b.skip(1).skip(8) =~= b.skip(9));
        }
        datetime_value(read_full(buf))
    } else {
        let mut msg = chars_of("invalid DateTimeN length: ");
        push_decimal_u64(&mut msg, len as u64);
        Err(Error::Protocol(string_of(msg.as_slice())))
    }
}

/// DATETIME: eight fixed bytes.
pub open spec fn legacy_datetime_spec(b: Seq<u8>) -> ReadResult {
    if b.len() < 8 {
        Err("unexpected EOF reading DATETIME"@)
    } else {
        datetime_read(full_parts(b), 8)
    }
}

/// Reads a fixed-length DATETIME value.
pub fn parse_legacy_datetime(buf: &mut &[u8]) -> (r: Result<SqlValue, Error>)
    ensures
        read_ok(r, old(buf)@, final(buf)@, legacy_datetime_spec(old(buf)@)),
{
    if buf.len() < 8 {
        return Err(protocol_error("unexpected EOF reading DATETIME"));
    }
    datetime_value(read_full(buf))
}

/// SMALLDATETIME: four fixed bytes.
pub open spec fn legacy_smalldatetime_spec(b: Seq<u8>) -> ReadResult {
    if b.len() < 4 {
        Err("unexpected EOF reading SMALLDATETIME"@)
    } else {
        datetime_read(small_parts(b), 4)
    }
}

/// Reads a fixed-length SMALLDATETIME value.
pub fn parse_legacy_smalldatetime(buf: &mut &[u8]) -> (r: Result<SqlValue, Error>)
    ensures
        read_ok(r, old(buf)@, final(buf)@, legacy_smalldatetime_spec(old(buf)@)),
{
    if buf.len() < 4 {
        return Err(protocol_error("unexpected EOF reading SMALLDATETIME"));
    }
    datetime_value(read_small(buf))
}

/// Three little-endian bytes as a day count.
pub open spec fn day_count(b: Seq<u8>) -> int {
    b[0] + 256 * b[1] + 65536 * b[2]
}

/// A DATE from a count of days after 0001-01-01.
pub open spec fn date_read(days: int, n: nat) -> ReadResult {
    if date_in_range(1 + days) {
        Ok((ValueView::Date(1 + days), n))
    } else {
        Err("date field days out of range: "@ + int_decimal(days))
    }
}

/// DATE: a length byte (0 for NULL, else 3) and three bytes of days after
/// 0001-01-01.
pub open spec fn date_spec(b: Seq<u8>) -> ReadResult {
    if b.len() < 1 {
        Err("unexpected EOF reading DATE length"@)
    } else if b[0] == 0 {
        Ok((ValueView::Null, 1))
    } else if b[0] != 3 {
        Err("invalid DATE length: "@ + nat_decimal(b[0] as nat))
    } else if b.len() < 4 {
        Err("unexpected EOF reading DATE"@)
    } else {
        date_read(day_count(b.skip(1)), 4)
    }
}

/// Reads three bytes of days after 0001-01-01 as a DATE value.
pub(crate) fn read_date(buf: &mut &[u8]) -> (r: Result<SqlValue, Error>)
    requires
        old(buf)@.len() >= 3,
    ensures
        final(buf)@ == old(buf)@.skip(3),
        match date_read(day_count(old(buf)@), 3) {
            Ok((v, _)) => r matches Ok(x) && x@ == v,
            Err(m) => r matches Err(Error::Protocol(t)) && t@ == m,
        },
{
    let b = take_bytes(buf, 3);
    let days: u32 = (b[0] as u32) + 256 * (b[1] as u32) + 65536 * (b[2] as u32);
    let base = date_from_ymd(1, 1, 1);
    match date_add_days(&base, days as i64) {
        Some(d) => Ok(SqlValue::Date(d)),
        None => {
            let mut msg = chars_of("date field days out of range: ");
            push_decimal_i64(&mut msg, days as i64);
            Err(Error::Protocol(string_of(msg.as_slice())))
        },
    }
}

/// Reads a DATE value.
pub fn parse_date(buf: &mut &[u8]) -> (r: Result<SqlValue, Error>)
    ensures
        read_ok(r, old(buf)@, final(buf)@, date_spec(old(buf)@)),
{
    let ghost b = buf@;
    if buf.len() < 1 {
        return Err(protocol_error("unexpected EOF reading DATE length"));
    }
    let len = take_u8(buf);
    if len == 0 {
        return Ok(SqlValue::Null);
    }
    if len != 3 {
        let mut msg = chars_of("invalid DATE length: ");
        push_decimal_u64(&mut msg, len as u64);
        return Err(Error::Protocol(string_of(msg.as_slice())));
    }
    if buf.len() < 3 {
        return Err(protocol_error("unexpected EOF reading DATE"));
    }
    assert(b.skip(1).skip(3) =~= b.skip(4));
    read_date(buf)
}

/// A DATETIMEN value of length 8 or 4 reads as the fixed DATETIME or
/// SMALLDATETIME of the same bytes, one byte further on.
pub proof fn law_datetimen_is_a_prefixed_legacy_value(b: Seq<u8>)
    requires
        b.len() >= 8,
    ensures
        datetimen_spec(seq![8u8] + b) == match legacy_datetime_spec(b) {
            Ok((v, n)) => Ok::<(ValueView, nat), Seq<char>>((v, n + 1)),
            Err(m) => Err(m),
        },
        datetimen_spec(seq![4u8] + b.take(4)) == match legacy_smalldatetime_spec(b.take(4)) {
            Ok((v, n)) => Ok::<(ValueView, nat), Seq<char>>((v, n + 1)),
            Err(m) => Err(m),
        },
{
    assert((seq![8u8] + b).skip(1) =~= b);
    assert((seq![4u8] + b.take(4)).skip(1) =~= b.take(4));
}

/// A DATE that the bulk writer writes (its length byte, then three bytes of
/// days) reads back as the same day, for the dates from 0001-01-01 on that
/// three bytes can count.
pub proof fn law_date_reads_back(c: ColumnView, d: NaiveDate, rest: Seq<u8>)
    requires
        1 <= date_days(d) <= 0x100_0000,
    ensures
        encode_value_spec(c, SqlValue::Date(d), false) is Bytes,
        date_spec(encode_value_spec(c, SqlValue::Date(d), false)->Bytes_0 + rest) == Ok::<
            (ValueView, nat),
            Seq<char>,
        >((SqlValue::Date(d)@, 4)),
{
    let n: nat = (date_days(d) - 1) as nat;
    assert(((date_days(d) - 1) as u32) as nat == n);
    reveal_with_fuel(le_bytes, 4);
    let b = seq![3u8] + date_bytes(d) + rest;
    assert(encode_value_spec(c, SqlValue::Date(d), false)->Bytes_0 + rest =~= b);
    assert(b.skip(1)[0] == n % 256);
    assert(b.skip(1)[1] == (n / 256) % 256);
    assert(b.skip(1)[2] == ((n / 256) / 256) % 256);
    assert(n % 256 + 256 * ((n / 256) % 256) + 65536 * (((n / 256) / 256) % 256) == n) by (nonlinear_arith)
        requires
            n < 0x100_0000,
    ;
}

// ---------------------------------------------------------------------------
// Decrypted (Always Encrypted) dates and times
// ---------------------------------------------------------------------------

/// A decrypted DATE: three little-endian bytes of days after 0001-01-01.
/// Gives the day number or the error message.
pub open spec fn ae_date_spec(b: Seq<u8>) -> Result<int, Seq<char>> {
    if b.len() != 3 {
        Err("decrypted date has "@ + nat_decimal(b.len()) + " bytes, expected 3"@)
    } else if date_in_range(day_count(b) + 1) {
        Ok(day_count(b) + 1)
    } else {
        Err("decrypted date day count "@ + nat_decimal(day_count(b) as nat) + " is out of range"@)
    }
}

/// Decodes a decrypted DATE.
pub fn ae_date_from_bytes(b: &[u8]) -> (r: Result<NaiveDate, Error>)
    ensures
        match ae_date_spec(b@) {
            Ok(days) => r matches Ok(d) && date_days(d) == days,
            Err(m) => r matches Err(Error::Encryption(t)) && t@ == m,
        },
{
    if b.len() != 3 {
        let mut msg = chars_of("decrypted date has ");
        push_decimal_u64(&mut msg, b.len() as u64);
        push_str_chars(&mut msg, " bytes, expected 3");
        return Err(Error::Encryption(string_of(msg.as_slice())));
    }
    let days: u32 = (b[0] as u32) + 256 * (b[1] as u32) + 65536 * (b[2] as u32);
    match date_from_day_number(days as i32 + 1) {
        Some(d) => Ok(d),
        None => {
            let mut msg = chars_of("decrypted date day count ");
            push_decimal_u64(&mut msg, days as u64);
            push_str_chars(&mut msg, " is out of range");
            Err(Error::Encryption(string_of(msg.as_slice())))
        },
    }
}

/// Five little-endian bytes as a count of 100-nanosecond ticks.
pub open spec fn tick_count(b: Seq<u8>) -> int {
    b[0] + 256 * b[1] + 65536 * b[2] + 16777216 * b[3] + 4294967296 * b[4]
}

/// A decrypted TIME: five little-endian bytes of 100-nanosecond ticks
/// since midnight.  Gives the seconds and nanoseconds or the error message.
pub open spec fn ae_time_spec(b: Seq<u8>) -> Result<(int, int), Seq<char>> {
    let nanos = tick_count(b) * 100;
    let secs = nanos / 1_000_000_000;
    if b.len() != 5 {
        Err("decrypted TIME has "@ + nat_decimal(b.len()) + " bytes, expected 5"@)
    } else if secs < 86400 {
        Ok((secs, nanos % 1_000_000_000))
    } else {
        Err("decrypted TIME "@ + nat_decimal(secs as nat) + "s out of range"@)
    }
}

/// Decodes a decrypted TIME.
pub fn ae_time_from_bytes(b: &[u8]) -> (r: Result<NaiveTime, Error>)
    ensures
        match ae_time_spec(b@) {
            Ok((s, n)) => r matches Ok(t) && time_secs(t) == s && time_nano(t) == n,
            Err(m) => r matches Err(Error::Encryption(t)) && t@ == m,
        },
{
    if b.len() != 5 {
        let mut msg = chars_of("decrypted TIME has ");
        push_decimal_u64(&mut msg, b.len() as u64);
        push_str_chars(&mut msg, " bytes, expected 5");
        return Err(Error::Encryption(string_of(msg.as_slice())));
    }
    let ticks: u64 = (b[0] as u64) + 256 * (b[1] as u64) + 65536 * (b[2] as u64) + 16777216 * (
    b[3] as u64) + 4294967296 * (b[4] as u64);
    let nanos = match ticks.checked_mul(100) {
        Some(n) => n,
        None => {
            return Err(Error::Encryption(string_of(chars_of("decrypted TIME out of range").as_slice())));
        },
    };
    let whole = nanos / 1_000_000_000;
    if whole > 0xFFFF_FFFF {
        return Err(Error::Encryption(string_of(chars_of("decrypted TIME out of range").as_slice())));
    }
    let secs = whole as u32;
    let nsub = (nanos % 1_000_000_000) as u32;
    match time_from_secs(secs, nsub) {
        Some(t) => Ok(t),
        None => {
            let mut msg = chars_of("decrypted TIME ");
            push_decimal_u64(&mut msg, secs as u64);
            push_str_chars(&mut msg, "s out of range");
            Err(Error::Encryption(string_of(msg.as_slice())))
        },
    }
}

} // verus!
