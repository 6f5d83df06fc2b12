//! Reading TIME, DATETIME2 and DATETIMEOFFSET from a row of a TDS result
//! and from a SQL_VARIANT: a count of time units at the column's scale,
//! then (for the date-times) three bytes of days after 0001-01-01, then
//! (for DATETIMEOFFSET) the offset in minutes.
use vstd::prelude::*;
use chrono::NaiveTime;
use crate::bulk::{time_byte_length, time_divisor_spec, time_len_spec, time_scale_divisor};
use crate::bulk_insert::or_u8;
use crate::calendar::{
    date_add_days, date_and_time, date_from_ymd, date_in_range, time_from_secs, time_midnight,
    time_nano, time_secs,
};
use crate::column_dates::day_count;
use crate::column_parser::{protocol_error, read_ok, take_bytes, take_u16_le, take_u8, ColumnMeta, ReadResult};
use crate::column_variant::{first_prop, take_props};
use crate::error::Error;
use crate::text::{chars_of, int_decimal, nat_decimal, push_decimal_i64, push_decimal_u64, push_str_chars, string_of};
use crate::value::{DateTimeOffset, SqlValue, ValueView};
use crate::wire::{le_value, lemma_le_value_bound, pow256, read_le, u16_of};

verus! {

/// The time of day of `intervals` units at `scale` (a unit is 10^-scale
/// seconds, never finer than 100 ns): seconds and nanoseconds, or midnight
/// when the count is a day or more or overflows 64 bits of nanoseconds.
pub open spec fn interval_time(intervals: int, scale: u8) -> (int, int) {
    let n = intervals * time_divisor_spec(scale);
    if n > u64::MAX || n / 1_000_000_000 >= 86400 {
        (0, 0)
    } else {
        (n / 1_000_000_000, n % 1_000_000_000)
    }
}

/// The offset a DATETIMEOFFSET carries: the wire's minutes when they are
/// less than a day either way, else none (UTC).
pub open spec fn effective_offset(m: i16) -> i16 {
    if -1440 < m < 1440 {
        m
    } else {
        0
    }
}

/// The time of day of a count of units at a scale.
pub fn intervals_to_time(intervals: u64, scale: u8) -> (r: NaiveTime)
    ensures
        time_secs(r) == interval_time(intervals as int, scale).0,
        time_nano(r) == interval_time(intervals as int, scale).1,
{
    let t = match intervals.checked_mul(time_scale_divisor(scale)) {
        Some(n) => {
            let secs = n / 1_000_000_000;
            if secs < 86400 {
                time_from_secs(secs as u32, (n % 1_000_000_000) as u32)
            } else {
                None
            }
        },
        None => None,
    };
    match t {
        Some(x) => x,
        None => time_midnight(),
    }
}

/// Reads `k` (at most 8) little-endian bytes as a count.
fn take_count(buf: &mut &[u8], k: usize) -> (r: u64)
    requires
        k <= 8,
        old(buf)@.len() >= k,
    ensures
        r == le_value(old(buf)@.take(k as int)),
        final(buf)@ == old(buf)@.skip(k as int),
{
    let b = take_bytes(buf, k);
    proof {
        lemma_le_value_bound(b@);
        reveal_with_fuel(pow256, 9);
        crate::wire::lemma_pow256_mono(k as nat, 8);
    }
    read_le(b) as u64
}

/// Reads three bytes of days after 0001-01-01 as a date.
fn take_date(buf: &mut &[u8]) -> (r: Result<chrono::NaiveDate, Error>)
    requires
        old(buf)@.len() >= 3,
    ensures
        final(buf)@ == old(buf)@.skip(3),
        date_in_range(1 + day_count(old(buf)@)) ==> (r matches Ok(d) && crate::calendar::date_days(d)
            == 1 + day_count(old(buf)@)),
        !date_in_range(1 + day_count(old(buf)@)) ==> (r matches Err(Error::Protocol(t)) && t@
            == "date field days out of range: "@ + int_decimal(day_count(old(buf)@))),
{
    let b = take_bytes(buf, 3);
    let days: u32 = (b[0] as u32) + 256 * (b[1] as u32) + 65536 * (b[2] as u32);
    let base = date_from_ymd(1, 1, 1);
    match date_add_days(&base, days as i64) {
        Some(d) => Ok(d),
        None => {
            let mut msg = chars_of("date field days out of range: ");
            push_decimal_i64(&mut msg, days as i64);
            Err(Error::Protocol(string_of(msg.as_slice())))
        },
    }
}

/// TIME: a length byte (0 for NULL) and that many bytes of the count (at
/// most eight of them are read).
pub open spec fn time_spec(b: Seq<u8>, scale: u8) -> ReadResult {
    if b.len() < 1 {
        Err("unexpected EOF reading TIME length"@)
    } else if b[0] == 0 {
        Ok((ValueView::Null, 1))
    } else if b.len() - 1 < b[0] {
        Err("unexpected EOF reading TIME"@)
    } else {
        let k: nat = if b[0] < 8 {
            b[0] as nat
        } else {
            8
        };
        let t = interval_time(le_value(b.subrange(1, 1 + k as int)) as int, scale);
        Ok((ValueView::Time(t.0, t.1), 1 + k))
    }
}

/// Reads a TIME value at the column's scale (7 when it has none).
pub fn parse_time(buf: &mut &[u8], col: &ColumnMeta) -> (r: Result<SqlValue, Error>)
    ensures
        read_ok(r, old(buf)@, final(buf)@, time_spec(old(buf)@, or_u8(col.scale, 7))),
{
    let ghost b = buf@;
    if buf.len() < 1 {
        return Err(protocol_error("unexpected EOF reading TIME length"));
    }
    let len = take_u8(buf);
    if len == 0 {
        return Ok(SqlValue::Null);
    }
    if buf.len() < len as usize {
        return Err(protocol_error("unexpected EOF reading TIME"));
    }
    let k: usize = if len < 8 {
        len as usize
    } else {
        8
    };
    let scale = match col.scale {
        Some(s) => s,
        None => 7,
    };
    let iv = take_count(buf, k);
    proof {
        assert(b.skip(1).take(k as int) =~= b.subrange(1, 1 + k));
        assert(b.skip(1).skip(k as int) =~= b.skip(1 + k));
    }
    Ok(SqlValue::Time(intervals_to_time(iv, scale)))
}

/// A date-time from a day count and a time count, or the date's error.
pub open spec fn datetime2_read(days: int, iv: int, scale: u8, n: nat) -> ReadResult {
    if !date_in_range(1 + days) {
        Err("date field days out of range: "@ + int_decimal(days))
    } else {
        let t = interval_time(iv, scale);
        Ok((ValueView::DateTime(1 + days, t.0, t.1), n))
    }
}

/// A DATETIMEOFFSET from a day count, a time count and offset minutes, or
/// the date's error.
pub open spec fn dto_read(days: int, iv: int, scale: u8, off: i16, n: nat) -> ReadResult {
    if !date_in_range(1 + days) {
        Err("date field days out of range: "@ + int_decimal(days))
    } else {
        let t = interval_time(iv, scale);
        Ok((ValueView::DateTimeOffset(1 + days, t.0, t.1, effective_offset(off)), n))
    }
}

/// DATETIME2: a length byte (0 for NULL), the time count (its width set by
/// the scale) and three bytes of days.
pub open spec fn datetime2_spec(b: Seq<u8>, scale: u8) -> ReadResult {
    let tl = time_len_spec(scale) as int;
    if b.len() < 1 {
        Err("unexpected EOF reading DATETIME2 length"@)
    } else if b[0] == 0 {
        Ok((ValueView::Null, 1))
    } else if b.len() - 1 < b[0] {
        Err("unexpected EOF reading DATETIME2"@)
    } else if b[0] < tl + 3 {
        Err("DATETIME2"@ + " length "@ + nat_decimal(b[0] as nat) + " too short for scale "@ + nat_decimal(scale as nat))
    } else {
        datetime2_read(day_count(b.skip(1 + tl)), le_value(b.subrange(1, 1 + tl)) as int, scale, (1 + tl + 3) as nat)
    }
}

/// DATETIMEOFFSET: as DATETIME2, then two bytes of offset minutes.
pub open spec fn datetimeoffset_spec(b: Seq<u8>, scale: u8) -> ReadResult {
    let tl = time_len_spec(scale) as int;
    if b.len() < 1 {
        Err("unexpected EOF reading DATETIMEOFFSET length"@)
    } else if b[0] == 0 {
        Ok((ValueView::Null, 1))
    } else if b.len() - 1 < b[0] {
        Err("unexpected EOF reading DATETIMEOFFSET"@)
    } else if b[0] < tl + 5 {
        Err(
            "DATETIMEOFFSET"@ + " length "@ + nat_decimal(b[0] as nat) + " too short for scale "@ + nat_decimal(
                scale as nat,
            ),
        )
    } else {
        dto_read(
            day_count(b.skip(1 + tl)),
            le_value(b.subrange(1, 1 + tl)) as int,
            scale,
            u16_of(b.skip(1 + tl + 3)) as i16,
            (1 + tl + 5) as nat,
        )
    }
}

/// The error for a declared length too short for the scale.
fn short_length(what: &str, len: u8, scale: u8) -> (r: Error)
    ensures
        r matches Error::Protocol(t) && t@ == what@ + " length "@ + nat_decimal(len as nat)
            + " too short for scale "@ + nat_decimal(scale as nat),
{
    let mut msg = chars_of(what);
    push_str_chars(&mut msg, " length ");
    push_decimal_u64(&mut msg, len as u64);
    push_str_chars(&mut msg, " too short for scale ");
    push_decimal_u64(&mut msg, scale as u64);
    Error::Protocol(string_of(msg.as_slice()))
}

/// Reads the time count, the date and (with `offset`) the offset minutes
/// of a date-time, at a scale whose count is `tl` bytes.
fn take_datetime(buf: &mut &[u8], tl: usize, scale: u8, offset: bool) -> (r: Result<SqlValue, Error>)
    requires
        tl <= 8,
        old(buf)@.len() >= tl + 3 + if offset { 2int } else { 0int },
    ensures
        offset ==> read_ok(
            r,
            old(buf)@,
            final(buf)@,
            dto_read(
                day_count(old(buf)@.skip(tl as int)),
                le_value(old(buf)@.take(tl as int)) as int,
                scale,
                u16_of(old(buf)@.skip(tl + 3)) as i16,
                (tl + 5) as nat,
            ),
        ),
        !offset ==> read_ok(
            r,
            old(buf)@,
            final(buf)@,
            datetime2_read(
                day_count(old(buf)@.skip(tl as int)),
                le_value(old(buf)@.take(tl as int)) as int,
                scale,
                (tl + 3) as nat,
            ),
        ),
{
    let ghost b = buf@;
    let iv = take_count(buf, tl);
    let date = match take_date(buf) {
        Ok(d) => d,
        Err(e) => return Err(e),
    };
    assert(b.skip(tl as int).skip(3) =~= b.skip(tl + 3));
    let time = intervals_to_time(iv, scale);
    let utc = date_and_time(&date, time);
    if offset {
        let off = take_u16_le(buf) as i16;
        assert(b.skip(tl + 3).skip(2) =~= b.skip(tl + 5));
        let minutes: i16 = if -1440 < off && off < 1440 {
            off
        } else {
            0
        };
        Ok(SqlValue::DateTimeOffset(DateTimeOffset { utc, offset_minutes: minutes }))
    } else {
        Ok(SqlValue::DateTime(utc))
    }
}

/// Reads a DATETIME2 value at the column's scale (7 when it has none).
pub fn parse_datetime2(buf: &mut &[u8], col: &ColumnMeta) -> (r: Result<SqlValue, Error>)
    ensures
        read_ok(r, old(buf)@, final(buf)@, datetime2_spec(old(buf)@, or_u8(col.scale, 7))),
{
    let ghost b = buf@;
    if buf.len() < 1 {
        return Err(protocol_error("unexpected EOF reading DATETIME2 length"));
    }
    let len = take_u8(buf);
    if len == 0 {
        return Ok(SqlValue::Null);
    }
    if buf.len() < len as usize {
        return Err(protocol_error("unexpected EOF reading DATETIME2"));
    }
    let scale = match col.scale {
        Some(s) => s,
        None => 7,
    };
    let tl = time_byte_length(scale);
    if (len as usize) < (tl as usize) + 3 {
        return Err(short_length("DATETIME2", len, scale));
    }
    proof {
        assert(b.skip(1).skip(tl as int) =~= b.skip(1 + tl));
        assert(b.skip(1).take(tl as int) =~= b.subrange(1, 1 + tl));
        assert(b.skip(1).skip(tl + 3) =~= b.skip(1 + tl + 3));
    }
    take_datetime(buf, tl as usize, scale, false)
}

/// Reads a DATETIMEOFFSET value at the column's scale (7 when it has none).
pub fn parse_datetimeoffset(buf: &mut &[u8], col: &ColumnMeta) -> (r: Result<SqlValue, Error>)
    ensures
        read_ok(r, old(buf)@, final(buf)@, datetimeoffset_spec(old(buf)@, or_u8(col.scale, 7))),
{
    let ghost b = buf@;
    if buf.len() < 1 {
        return Err(protocol_error("unexpected EOF reading DATETIMEOFFSET length"));
    }
    let len = take_u8(buf);
    if len == 0 {
        return Ok(SqlValue::Null);
    }
    if buf.len() < len as usize {
        return Err(protocol_error("unexpected EOF reading DATETIMEOFFSET"));
    }
    let scale = match col.scale {
        Some(s) => s,
        None => 7,
    };
    let tl = time_byte_length(scale);
    if (len as usize) < (tl as usize) + 5 {
        return Err(short_length("DATETIMEOFFSET", len, scale));
    }
    proof {
        assert(b.skip(1).skip(tl as int) =~= b.skip(1 + tl));
        assert(b.skip(1).take(tl as int) =~= b.subrange(1, 1 + tl));
        assert(b.skip(1).skip(tl + 3) =~= b.skip(1 + tl + 3));
        assert(b.skip(1).skip(tl + 5) =~= b.skip(1 + tl + 5));
    }
    take_datetime(buf, tl as usize, scale, true)
}

// ---------------------------------------------------------------------------
// In a SQL_VARIANT: one property byte, the scale (7 when absent)
// ---------------------------------------------------------------------------

/// TIME in a variant: no data, or less than the count's width, is NULL;
/// the whole data is consumed.
pub open spec fn variant_time_spec(b: Seq<u8>, props: nat, data_len: nat) -> ReadResult {
    let scale = first_prop(b, props, 7);
    let tl = time_len_spec(scale) as nat;
    let rest = b.skip(props as int);
    if data_len == 0 || data_len < tl {
        Ok((ValueView::Null, props))
    } else {
        let t = interval_time(le_value(rest.take(tl as int)) as int, scale);
        Ok((ValueView::Time(t.0, t.1), props + data_len))
    }
}

/// DATETIME2 in a variant: less data than the count and the date is NULL;
/// the whole data is consumed.
pub open spec fn variant_datetime2_spec(b: Seq<u8>, props: nat, data_len: nat) -> ReadResult {
    let scale = first_prop(b, props, 7);
    let tl = time_len_spec(scale) as int;
    let rest = b.skip(props as int);
    if data_len < tl + 3 {
        Ok((ValueView::Null, props))
    } else {
        datetime2_read(day_count(rest.skip(tl)), le_value(rest.take(tl)) as int, scale, props + data_len)
    }
}

/// DATETIMEOFFSET in a variant: less data than the count, the date and the
/// offset is NULL; the whole data is consumed.
pub open spec fn variant_datetimeoffset_spec(b: Seq<u8>, props: nat, data_len: nat) -> ReadResult {
    let scale = first_prop(b, props, 7);
    let tl = time_len_spec(scale) as int;
    let rest = b.skip(props as int);
    if data_len < tl + 5 {
        Ok((ValueView::Null, props))
    } else {
        dto_read(
            day_count(rest.skip(tl)),
            le_value(rest.take(tl)) as int,
            scale,
            u16_of(rest.skip(tl + 3)) as i16,
            props + data_len,
        )
    }
}

/// Reads the TIME value of a variant.
pub fn variant_time(buf: &mut &[u8], prop_count: usize, data_len: usize) -> (r: Result<SqlValue, Error>)
    requires
        old(buf)@.len() >= prop_count + data_len,
    ensures
        read_ok(r, old(buf)@, final(buf)@, variant_time_spec(old(buf)@, prop_count as nat, data_len as nat)),
{
    let ghost b = buf@;
    let scale = take_props(buf, prop_count, 7);
    if data_len == 0 {
        return Ok(SqlValue::Null);
    }
    let tl = time_byte_length(scale) as usize;
    if data_len < tl {
        return Ok(SqlValue::Null);
    }
    let iv = take_count(buf, tl);
    let _ = take_bytes(buf, data_len - tl);
    assert(b.skip(prop_count as int).skip(tl as int).skip(data_len - tl) =~= b.skip(prop_count + data_len));
    Ok(SqlValue::Time(intervals_to_time(iv, scale)))
}

/// Reads the DATETIME2 (`offset` false) or DATETIMEOFFSET value of a
/// variant after its properties.
fn variant_datetime_value(buf: &mut &[u8], data_len: usize, scale: u8, offset: bool) -> (r: Result<SqlValue, Error>)
    requires
        old(buf)@.len() >= data_len,
        data_len >= time_len_spec(scale) + 3 + if offset { 2int } else { 0int },
    ensures
        offset ==> read_ok(r, old(buf)@, final(buf)@, dto_read(
            day_count(old(buf)@.skip(time_len_spec(scale) as int)),
            le_value(old(buf)@.take(time_len_spec(scale) as int)) as int,
            scale,
            u16_of(old(buf)@.skip(time_len_spec(scale) + 3)) as i16,
            data_len as nat,
        )),
        !offset ==> read_ok(r, old(buf)@, final(buf)@, datetime2_read(
            day_count(old(buf)@.skip(time_len_spec(scale) as int)),
            le_value(old(buf)@.take(time_len_spec(scale) as int)) as int,
            scale,
            data_len as nat,
        )),
{
    let ghost b = buf@;
    let tl = time_byte_length(scale) as usize;
    let used: usize = if offset {
        tl + 5
    } else {
        tl + 3
    };
    let r = take_datetime(buf, tl, scale, offset);
    match r {
        Ok(v) => {
            let _ = take_bytes(buf, data_len - used);
            assert(b.skip(used as int).skip(data_len - used) =~= b.skip(data_len as int));
            Ok(v)
        },
        Err(e) => Err(e),
    }
}

/// Reads the DATETIME2 value of a variant.
pub fn variant_datetime2(buf: &mut &[u8], prop_count: usize, data_len: usize) -> (r: Result<SqlValue, Error>)
    requires
        old(buf)@.len() >= prop_count + data_len,
    ensures
        read_ok(r, old(buf)@, final(buf)@, variant_datetime2_spec(old(buf)@, prop_count as nat, data_len as nat)),
{
    let ghost b = buf@;
    let scale = take_props(buf, prop_count, 7);
    let tl = time_byte_length(scale) as usize;
    if data_len < tl + 3 {
        return Ok(SqlValue::Null);
    }
    let r = variant_datetime_value(buf, data_len, scale, false);
    proof {
        assert(b.skip(prop_count as int).skip(data_len as int) =~= b.skip(prop_count + data_len));
    }
    r
}

/// Reads the DATETIMEOFFSET value of a variant.
pub fn variant_datetimeoffset(buf: &mut &[u8], prop_count: usize, data_len: usize) -> (r: Result<SqlValue, Error>)
    requires
        old(buf)@.len() >= prop_count + data_len,
    ensures
        read_ok(
            r,
            old(buf)@,
            final(buf)@,
            variant_datetimeoffset_spec(old(buf)@, prop_count as nat, data_len as nat),
        ),
{
    let ghost b = buf@;
    let scale = take_props(buf, prop_count, 7);
    let tl = time_byte_length(scale) as usize;
    if data_len < tl + 5 {
        return Ok(SqlValue::Null);
    }
    let r = variant_datetime_value(buf, data_len, scale, true);
    proof {
        assert(b.skip(prop_count as int).skip(data_len as int) =~= b.skip(prop_count + data_len));
    }
    r
}


pub(crate) proof fn lemma_i16_of_u16(x: u16)
    ensures
        (x as i16) as int == if x >= 32768 {
            x as int - 65536
        } else {
            x as int
        },
{
    if x >= 32768 {
        assert((x as i16) as int == x as int - 65536) by (bit_vector)
            requires
                x >= 32768,
        ;
    } else {
        assert((x as i16) as int == x as int) by (bit_vector)
            requires
                x < 32768,
        ;
    }
}

/// The offset of a DATETIMEOFFSET value is the signed 16-bit little-endian
/// number of minutes in its last two bytes, east of UTC positive and west
/// negative, kept as it is whenever it is less than a day either way; an
/// offset of a day or more is read as UTC.
pub proof fn law_datetimeoffset_keeps_offset(b: Seq<u8>, scale: u8)
    ensures
        datetimeoffset_spec(b, scale) matches Ok((ValueView::DateTimeOffset(_, _, _, off), _)) ==> {
            let p = 1 + time_len_spec(scale) + 3;
            let raw = b[p] + 256 * b[p + 1];
            let m = if raw >= 32768 {
                raw - 65536
            } else {
                raw
            };
            &&& -1440 < m < 1440 ==> off == m
            &&& !(-1440 < m < 1440) ==> off == 0
        },
{
    let tl = time_len_spec(scale) as int;
    if b.len() >= 1 && b[0] != 0 && b.len() - 1 >= b[0] && b[0] >= tl + 5 {
        let p = 1 + tl + 3;
        let x = u16_of(b.skip(p));
        assert(b.skip(p)[0] == b[p] && b.skip(p)[1] == b[p + 1]);
        lemma_i16_of_u16(x);
    }
}

} // verus!
