//! The bulk load stream: COLMETADATA, ROW and DONE tokens written to a
//! buffer and cut into BulkLoad (type 0x07) packets.
use vstd::prelude::*;
use bytes::BytesMut;
use vstd::slice::slice_subrange;
use crate::bulk::{
    collation_bytes, decimal_byte_length, decimal_len_spec, fixed_type_spec, nullable_to_fixed_type,
    time_byte_length, time_len_spec, time_divisor_spec, time_scale_divisor, BulkColumn,
    BulkInsertResult, Collation, ColumnView, lemma_column_fields, column_views,
};
use crate::error::{owned, type_error_text, Error, TypeError};
use crate::text::{nat_decimal, push_decimal_u64, push_str_chars, string_of};
use crate::value::{uuid_as_bytes, uuid_bytes, DateTimeOffset, SqlValue};
use crate::calendar::{
    date_day_number, date_days, datetime_date, datetime_date_of, datetime_time, datetime_time_of,
    time_nano, time_nanosecond, time_seconds, time_secs,
};
use crate::decimal::{
    decimal_is_sign_negative, decimal_mantissa, decimal_mantissa_of, decimal_negative, decimal_scale,
    decimal_scale_of,
};
use chrono::{NaiveDate, NaiveDateTime, NaiveTime};
use rust_decimal::Decimal;
use crate::wire::{
    bytes_as_slice, bytes_extend, le_bytes, push_le_bytes, bytes_mut_contents, bytes_split, bytes_with_capacity,
    encode_plp_binary, encode_plp_string, encode_utf16, guid_swap, le2, le4, le8, plp_single_chunk, push_guid,
    push_bytes, push_u16_le, push_u32_le, push_u64_le, push_u8, push_utf16_le, utf16_bytes,
    utf16_of, lemma_utf16_bytes_len, PLP_NULL,
};

verus! {

// ---------------------------------------------------------------------------
// Server metadata
// ---------------------------------------------------------------------------

/// What the bulk loader reads from a column of the server's COLMETADATA.
#[derive(Debug, Clone, Copy)]
pub struct ServerColumn {
    /// Whether the column's type is fixed-length on the wire.
    pub fixed_length: bool,
    /// The column's collation (character columns only).
    pub collation: Option<Collation>,
}

// ---------------------------------------------------------------------------
// Column values
// ---------------------------------------------------------------------------

pub open spec fn or_u32(o: Option<u32>, d: u32) -> u32 {
    match o {
        Some(x) => x,
        None => d,
    }
}

pub open spec fn or_u8(o: Option<u8>, d: u8) -> u8 {
    match o {
        Some(x) => x,
        None => d,
    }
}

/// NVARCHAR, VARCHAR, VARBINARY and BINARY: types with a 2-byte length.
pub open spec fn is_var_type(t: u8) -> bool {
    t == 0xE7 || t == 0xA7 || t == 0xA5 || t == 0xAD
}

/// Single-byte character types, encoded with a code page.
pub open spec fn is_varchar_type(t: u8) -> bool {
    t == 0xA7 || t == 0x2F || t == 0xAF
}

/// Types whose NULL is a zero length byte.
pub open spec fn is_null_as_zero_type(t: u8) -> bool {
    t == 0x26 || t == 0x68 || t == 0x6D || t == 0x6E || t == 0x6F || t == 0x6C || t == 0x6A || t
        == 0x24 || t == 0x28 || t == 0x29 || t == 0x2A || t == 0x2B
}

/// MAX columns, whose values are sent in PLP format.
pub open spec fn is_plp_column(c: ColumnView) -> bool {
    c.max_length == Some(0xFFFFu32) && is_var_type(c.type_id)
}

/// The length byte of a value, absent for fixed-length wire types.
pub open spec fn len_prefix(is_fixed: bool, n: u8) -> Seq<u8> {
    if is_fixed {
        Seq::empty()
    } else {
        seq![n]
    }
}

/// What encoding one value gives: its bytes, or why it cannot be written.
pub ghost enum Encoded {
    Bytes(Seq<u8>),
    /// The data (of this many bytes) does not fit a 2-byte length.
    TooLong(nat),
    /// NULL for a column that cannot hold it.
    NullRejected,
    /// A value of this type that this loader does not write.
    NotBulk(Seq<char>),
    /// A date or time the column's wire form cannot carry.
    BadDateTime(Seq<char>),
    /// A decimal the column's wire form cannot carry.
    BadDecimal(Seq<char>),
}

/// Ten to the `k`.
pub open spec fn pow10(k: nat) -> int
    decreases k,
{
    if k == 0 {
        1
    } else {
        10 * pow10((k - 1) as nat)
    }
}

/// A DATE on the wire: three little-endian bytes of days after 0001-01-01.
pub open spec fn date_bytes(d: NaiveDate) -> Seq<u8> {
    day_bytes(date_days(d))
}

/// Days of a date after 1900-01-01.
pub open spec fn days_since_1900(d: NaiveDate) -> int {
    date_days(d) - 693596
}

/// A DATETIME on the wire: signed days after 1900-01-01 and three-hundredths
/// of a second since midnight (truncated), four bytes each.
pub open spec fn legacy_datetime_bytes(dt: NaiveDateTime) -> Seq<u8> {
    le4(days_since_1900(datetime_date(dt)) as i32 as u32) + le4(
        (time_nanos(datetime_time(dt)) * 3 / 10_000_000) as u32,
    )
}

/// A SMALLDATETIME on the wire: days after 1900-01-01 and minutes since
/// midnight, two bytes each; `None` for days outside 0 to 65535.
pub open spec fn small_datetime_bytes(dt: NaiveDateTime) -> Option<Seq<u8>> {
    let days = days_since_1900(datetime_date(dt));
    if 0 <= days <= 65535 {
        Some(le2(days as u16) + le2((time_secs(datetime_time(dt)) / 60) as u16))
    } else {
        None
    }
}

/// A DATETIME2 on the wire: the time count at the scale, then the date.
pub open spec fn datetime2_bytes(dt: NaiveDateTime, scale: u8) -> Seq<u8> {
    le8((time_nanos(datetime_time(dt)) / time_divisor_spec(scale) as int) as u64).take(
        time_len_spec(scale) as int,
    ) + date_bytes(datetime_date(dt))
}

/// A decimal's count of ten-thousandths: the mantissa rescaled to four
/// places, truncated toward zero.
pub open spec fn money_count(m: int, scale: int) -> int {
    if scale <= 4 {
        m * pow10((4 - scale) as nat)
    } else if m >= 0 {
        m / pow10((scale - 4) as nat)
    } else {
        -((-m) / pow10((scale - 4) as nat))
    }
}

/// A decimal in a MONEY (8 bytes: the count's high half, then its low
/// half) or SMALLMONEY (4 bytes) column.
pub open spec fn money_value_bytes(c: ColumnView, d: Decimal, is_fixed: bool) -> Encoded {
    money_bytes(or_u32(c.max_length, 8) as u8, d, is_fixed)
}

/// A decimal as MONEY (`n` is 8: the count's high half, then its low half)
/// or SMALLMONEY (`n` is 4).
pub open spec fn money_bytes(n: u8, d: Decimal, is_fixed: bool) -> Encoded {
    let cents = money_count(decimal_mantissa(d), decimal_scale(d));
    if n == 8 {
        if i64::MIN <= cents <= i64::MAX {
            Encoded::Bytes(
                len_prefix(is_fixed, 8) + le4(((cents as i64 as u64) / 0x1_0000_0000) as u32) + le4(
                    ((cents as i64 as u64) % 0x1_0000_0000) as u32,
                ),
            )
        } else {
            Encoded::BadDecimal("value out of range for MONEY"@)
        }
    } else if n == 4 {
        if i32::MIN <= cents <= i32::MAX {
            Encoded::Bytes(len_prefix(is_fixed, 4) + le4(cents as i32 as u32))
        } else {
            Encoded::BadDecimal("value out of range for SMALLMONEY"@)
        }
    } else {
        Encoded::BadDecimal("MONEY column has invalid max_length: "@ + nat_decimal(n as nat))
    }
}

/// A date-time in a DATETIMEN column (by its maximum length) or else as a
/// DATETIME2 at the column's scale.
pub open spec fn datetime_value_bytes(c: ColumnView, dt: NaiveDateTime, is_fixed: bool) -> Encoded {
    if c.type_id == 0x6F {
        let n = or_u32(c.max_length, 8) as u8;
        if n == 8 {
            Encoded::Bytes(len_prefix(is_fixed, 8) + legacy_datetime_bytes(dt))
        } else if n == 4 {
            small_datetime_value_bytes(dt, is_fixed)
        } else {
            Encoded::BadDateTime("DATETIMEN max_length must be 4 or 8, got "@ + nat_decimal(n as nat))
        }
    } else {
        let scale = or_u8(c.scale, 7);
        Encoded::Bytes(seq![(time_len_spec(scale) + 3) as u8] + datetime2_bytes(dt, scale))
    }
}

/// A date-time as SMALLDATETIME: days and minutes, or an error for a day
/// outside the form's range.
pub open spec fn small_datetime_value_bytes(dt: NaiveDateTime, is_fixed: bool) -> Encoded {
    match small_datetime_bytes(dt) {
        Some(b) => Encoded::Bytes(len_prefix(is_fixed, 4) + b),
        None => Encoded::BadDateTime("SMALLDATETIME value out of range"@),
    }
}

/// The local wall-clock time of an offset date-time, as seconds counted
/// from the start of day 0: the UTC instant moved by the offset.
pub open spec fn local_seconds(o: DateTimeOffset) -> int {
    date_days(datetime_date(o.utc)) * 86400 + time_secs(datetime_time(o.utc)) + o.offset_minutes * 60
}

/// A DATETIMEOFFSET on the wire: the local time of day at the scale, the
/// local date, and the offset in minutes (two bytes).
pub open spec fn datetimeoffset_bytes(o: DateTimeOffset, scale: u8) -> Seq<u8> {
    let secs = local_seconds(o);
    let nanos = (secs % 86400) * 1_000_000_000 + time_nano(datetime_time(o.utc));
    le8((nanos / time_divisor_spec(scale) as int) as u64).take(time_len_spec(scale) as int)
        + day_bytes(secs / 86400) + le2(o.offset_minutes as u16)
}

/// Three little-endian bytes of a day number less one (days after
/// 0001-01-01).
pub open spec fn day_bytes(n: int) -> Seq<u8> {
    le_bytes(((n - 1) as u32) as nat, 3)
}

/// Nanoseconds since midnight of a time of day.
pub open spec fn time_nanos(t: NaiveTime) -> int {
    time_secs(t) * 1_000_000_000 + time_nano(t)
}

/// Variable-length data: PLP for MAX columns, else a 2-byte length.
pub open spec fn var_payload(c: ColumnView, data: Seq<u8>) -> Encoded {
    if is_plp_column(c) {
        Encoded::Bytes(plp_single_chunk(data))
    } else if data.len() > 0xFFFF {
        Encoded::TooLong(data.len())
    } else {
        Encoded::Bytes(le2(data.len() as u16) + data)
    }
}

/// The code-page bytes of a string in Windows-1252, the code page of the
/// default Latin1_General collation.
pub uninterp spec fn windows_1252_encode(s: Seq<char>) -> Seq<u8>;

/// `encoding_rs::WINDOWS_1252.encode`: the string in Windows-1252, with
/// characters outside the code page written as numeric character
/// references.  The result is named, not stated.
#[verifier::external_body]
fn encode_windows_1252(s: &str) -> (r: Vec<u8>)
    ensures
        r@ == windows_1252_encode(s@),
{
    let (bytes, _, _) = encoding_rs::WINDOWS_1252.encode(s);
    bytes.into_owned()
}

/// The wire encoding of one value in a ROW token.
pub open spec fn encode_value_spec(c: ColumnView, v: SqlValue, is_fixed: bool) -> Encoded {
    match v {
        SqlValue::Null => if is_var_type(c.type_id) {
            Encoded::Bytes(
                if is_plp_column(c) {
                    le8(PLP_NULL)
                } else {
                    le2(0xFFFF)
                },
            )
        } else if is_null_as_zero_type(c.type_id) || c.nullable {
            Encoded::Bytes(seq![0u8])
        } else {
            Encoded::NullRejected
        },
        SqlValue::Bool(b) => Encoded::Bytes(
            len_prefix(is_fixed, 1) + seq![
                if b {
                    1u8
                } else {
                    0u8
                },
            ],
        ),
        SqlValue::TinyInt(x) => Encoded::Bytes(len_prefix(is_fixed, 1) + seq![x]),
        SqlValue::SmallInt(x) => Encoded::Bytes(len_prefix(is_fixed, 2) + le2(x as u16)),
        SqlValue::Int(x) => Encoded::Bytes(len_prefix(is_fixed, 4) + le4(x as u32)),
        SqlValue::BigInt(x) => Encoded::Bytes(len_prefix(is_fixed, 8) + le8(x as u64)),
        SqlValue::Float(x) => Encoded::Bytes(len_prefix(is_fixed, 4) + le4(x)),
        SqlValue::Double(x) => Encoded::Bytes(len_prefix(is_fixed, 8) + le8(x)),
        SqlValue::String(s) => if is_varchar_type(c.type_id) {
            var_payload(c, windows_1252_encode(s@))
        } else {
            var_payload(c, utf16_bytes(utf16_of(s@)))
        },
        SqlValue::Binary(b) => var_payload(c, b@),
        SqlValue::Xml(x) => {
            let d = utf16_bytes(utf16_of(x@));
            if d.len() > 0xFFFF {
                Encoded::TooLong(d.len())
            } else {
                Encoded::Bytes(le2(d.len() as u16) + d)
            }
        },
        SqlValue::Time(t) => {
            let scale = or_u8(c.scale, 7);
            let len = time_len_spec(scale);
            Encoded::Bytes(
                seq![len] + le8((time_nanos(t) / time_divisor_spec(scale) as int) as u64).take(
                    len as int,
                ),
            )
        },
        SqlValue::Decimal(d) => if c.type_id == 0x6E {
            money_value_bytes(c, d, is_fixed)
        } else {
            let len = decimal_len_spec(or_u8(c.precision, 18));
            let m = decimal_mantissa(d);
            Encoded::Bytes(
                seq![
                    len,
                    if decimal_negative(d) {
                        0u8
                    } else {
                        1u8
                    },
                ] + le_bytes(
                    (if m < 0 {
                        -m
                    } else {
                        m
                    }) as nat,
                    (len - 1) as nat,
                ),
            )
        },
        SqlValue::Date(d) => Encoded::Bytes(seq![3u8] + date_bytes(d)),
        SqlValue::DateTime(dt) => datetime_value_bytes(c, dt, is_fixed),
        SqlValue::SmallDateTime(dt) => small_datetime_value_bytes(dt, is_fixed),
        SqlValue::Money(d) => money_bytes(8, d, is_fixed),
        SqlValue::SmallMoney(d) => money_bytes(4, d, is_fixed),
        SqlValue::DateTimeOffset(o) => {
            let scale = or_u8(c.scale, 7);
            Encoded::Bytes(seq![(time_len_spec(scale) + 5) as u8] + datetimeoffset_bytes(o, scale))
        },
        SqlValue::Uuid(u) => Encoded::Bytes(seq![16u8] + guid_swap(uuid_bytes(u))),
        SqlValue::Tvp => Encoded::NotBulk("TVP"@),
    }
}

/// Values whose UTF-16 byte length is representable.
pub open spec fn value_fits(v: SqlValue) -> bool {
    match v {
        SqlValue::String(s) => utf16_of(s@).len() * 2 <= usize::MAX,
        SqlValue::Xml(x) => utf16_of(x@).len() * 2 <= usize::MAX,
        _ => true,
    }
}

/// The error a failed encoding gives.
pub open spec fn encoded_error_ok(e: Encoded, err: TypeError) -> bool {
    match e {
        Encoded::Bytes(_) => false,
        Encoded::TooLong(n) => err == TypeError::BufferTooSmall { needed: n as usize, available: 0xFFFF },
        Encoded::NullRejected => err == TypeError::UnexpectedNull,
        Encoded::NotBulk(name) => err matches TypeError::UnsupportedConversion { from, to } && from@
            == name && to@ == "bulk copy value"@,
        Encoded::BadDateTime(m) => err matches TypeError::InvalidDateTime(t) && t@ == m,
        Encoded::BadDecimal(m) => err matches TypeError::InvalidDecimal(t) && t@ == m,
    }
}

/// The message of the error a failed encoding gives.
pub open spec fn encoded_error_text(e: Encoded) -> Seq<char> {
    match e {
        Encoded::Bytes(_) => Seq::empty(),
        Encoded::TooLong(n) => type_error_text(
            TypeError::BufferTooSmall { needed: n as usize, available: 0xFFFF },
        ),
        Encoded::NullRejected => type_error_text(TypeError::UnexpectedNull),
        Encoded::NotBulk(name) => "cannot convert "@ + name + " to "@ + "bulk copy value"@,
        Encoded::BadDateTime(m) => "invalid date/time: "@ + m,
        Encoded::BadDecimal(m) => "invalid decimal: "@ + m,
    }
}

/// Appends variable-length data: PLP for MAX columns, else with a 2-byte
/// length, failing when it does not fit.
fn write_var_payload(c: &BulkColumn, data: &[u8], buf: &mut Vec<u8>) -> (r: Result<(), TypeError>)
    ensures
        match var_payload(c@, data@) {
            Encoded::Bytes(b) => r is Ok && final(buf)@ == old(buf)@ + b,
            e => r matches Err(err) && encoded_error_ok(e, err) && final(buf)@ == old(buf)@,
        },
{
    let is_plp = c.max_length() == Some(0xFFFFu32) && (c.type_id() == 0xE7 || c.type_id() == 0xA7
        || c.type_id() == 0xA5 || c.type_id() == 0xAD);
    if is_plp {
        encode_plp_binary(data, buf);
        Ok(())
    } else if data.len() > 0xFFFF {
        Err(TypeError::BufferTooSmall { needed: data.len(), available: 0xFFFF })
    } else {
        push_u16_le(buf, data.len() as u16);
        push_bytes(buf, data);
        assert(buf@ =~= old(buf)@ + (le2(data@.len() as u16) + data@));
        Ok(())
    }
}

/// Appends UTF-16 text: PLP for MAX columns, else with a 2-byte byte
/// length, failing when it does not fit.
fn write_utf16_payload(c: &BulkColumn, utf16: &[u16], buf: &mut Vec<u8>) -> (r: Result<
    (),
    TypeError,
>)
    requires
        utf16@.len() * 2 <= usize::MAX,
    ensures
        match var_payload(c@, utf16_bytes(utf16@)) {
            Encoded::Bytes(b) => r is Ok && final(buf)@ == old(buf)@ + b,
            e => r matches Err(err) && encoded_error_ok(e, err) && final(buf)@ == old(buf)@,
        },
{
    proof {
        lemma_utf16_bytes_len(utf16@);
    }
    let byte_len = utf16.len() * 2;
    let is_plp = c.max_length() == Some(0xFFFFu32) && (c.type_id() == 0xE7 || c.type_id() == 0xA7
        || c.type_id() == 0xA5 || c.type_id() == 0xAD);
    if is_plp {
        encode_plp_string(utf16, buf);
        Ok(())
    } else if byte_len > 0xFFFF {
        Err(TypeError::BufferTooSmall { needed: byte_len, available: 0xFFFF })
    } else {
        push_u16_le(buf, byte_len as u16);
        push_utf16_le(buf, utf16);
        assert(buf@ =~= old(buf)@ + (le2(byte_len as u16) + utf16_bytes(utf16@)));
        Ok(())
    }
}

/// Appends a string as NVARCHAR with a 2-byte byte length.
fn encode_nvarchar_value(s: &str, buf: &mut Vec<u8>) -> (r: Result<(), TypeError>)
    requires
        utf16_of(s@).len() * 2 <= usize::MAX,
    ensures
        ({
            let d = utf16_bytes(utf16_of(s@));
            &&& d.len() > 0xFFFF ==> r == Err::<(), TypeError>(
                TypeError::BufferTooSmall { needed: d.len() as usize, available: 0xFFFF },
            ) && final(buf)@ == old(buf)@
            &&& d.len() <= 0xFFFF ==> r is Ok && final(buf)@ == old(buf)@ + le2(d.len() as u16)
                + d
        }),
{
    let utf16 = encode_utf16(s);
    proof {
        lemma_utf16_bytes_len(utf16@);
    }
    let byte_len = utf16.len() * 2;
    if byte_len > 0xFFFF {
        return Err(TypeError::BufferTooSmall { needed: byte_len, available: 0xFFFF });
    }
    push_u16_le(buf, byte_len as u16);
    push_utf16_le(buf, utf16.as_slice());
    assert(buf@ =~= old(buf)@ + le2(byte_len as u16) + utf16_bytes(utf16@));
    Ok(())
}

/// Appends the low `len` bytes of a TIME value at `scale`.
fn encode_time_with_scale(time: &NaiveTime, scale: u8, buf: &mut Vec<u8>)
    ensures
        final(buf)@ == old(buf)@ + le8((time_nanos(*time) / time_divisor_spec(scale) as int) as u64).take(
            time_len_spec(scale) as int,
        ),
{
    let secs = time_seconds(time);
    let nano = time_nanosecond(time);
    let nanos: u64 = secs as u64 * 1_000_000_000 + nano as u64;
    let intervals = nanos / time_scale_divisor(scale);
    let len = time_byte_length(scale);
    let mut all: Vec<u8> = Vec::new();
    push_u64_le(&mut all, intervals);
    let part = slice_subrange(all.as_slice(), 0, len as usize);
    push_bytes(buf, part);
    assert(all@.subrange(0, len as int) =~= le8(intervals).take(len as int));
}

/// Ten to the `k`, for `k` up to 24.
fn pow10_exec(k: u32) -> (r: i128)
    requires
        k <= 24,
    ensures
        r == pow10(k as nat),
        1 <= r <= 1_000_000_000_000_000_000_000_000,
        k <= 4 ==> r <= 10000,
{
    proof {
        reveal_with_fuel(pow10, 25);
        assert(pow10(24) == 1_000_000_000_000_000_000_000_000);
        assert(pow10(4) == 10000);
        lemma_pow10_mono(k as nat, 24);
        if k <= 4 {
            lemma_pow10_mono(k as nat, 4);
        }
    }
    let mut r: i128 = 1;
    let mut i: u32 = 0;
    while i < k
        invariant
            i <= k <= 24,
            r == pow10(i as nat),
            pow10(24) == 1_000_000_000_000_000_000_000_000,
        decreases k - i,
    {
        proof {
            lemma_pow10_mono((i + 1) as nat, 24);
        }
        r = r * 10;
        i = i + 1;
    }
    r
}

pub(crate) proof fn lemma_pow10_mono(a: nat, b: nat)
    requires
        a <= b,
    ensures
        1 <= pow10(a) <= pow10(b),
    decreases b,
{
    if a < b {
        lemma_pow10_mono(a, (b - 1) as nat);
    } else if a > 0 {
        lemma_pow10_mono((a - 1) as nat, (a - 1) as nat);
    }
}

/// Appends a DATE: three bytes of days after 0001-01-01.
fn encode_date(d: &NaiveDate, buf: &mut Vec<u8>)
    ensures
        final(buf)@ == old(buf)@ + date_bytes(*d),
{
    let n = date_day_number(d);
    let v = (n - 1) as u32;
    push_le_bytes(buf, v as u128, 3);
}

/// Appends a date-time to a DATETIMEN column (by its maximum length) or
/// as a DATETIME2 at the column's scale.
fn encode_datetime_value(col: &BulkColumn, dt: &NaiveDateTime, is_fixed: bool, buf: &mut Vec<u8>) -> (r: Result<(), TypeError>)
    ensures
        match datetime_value_bytes(col@, *dt, is_fixed) {
            Encoded::Bytes(b) => r is Ok && final(buf)@ == old(buf)@ + b,
            e => r matches Err(err) && encoded_error_ok(e, err) && final(buf)@ == old(buf)@,
        },
{
    proof {
        lemma_column_fields(*col);
    }
    let date = datetime_date_of(dt);
    let time = datetime_time_of(dt);
    if col.type_id() == 0x6F {
        let n: u8 = match col.max_length() {
            Some(x) => x as u8,
            None => 8,
        };
        let days = date_day_number(&date) - 693596;
        let secs = time_seconds(&time);
        let nano = time_nanosecond(&time);
        if n == 8 {
            if !is_fixed {
                push_u8(buf, 8);
            }
            let nanos: u64 = secs as u64 * 1_000_000_000 + nano as u64;
            push_u32_le(buf, days as u32);
            push_u32_le(buf, (nanos * 3 / 10_000_000) as u32);
            assert(buf@ =~= old(buf)@ + len_prefix(is_fixed, 8) + legacy_datetime_bytes(*dt));
            Ok(())
        } else if n == 4 {
            encode_small_datetime(dt, is_fixed, buf)
        } else {
            let mut msg = crate::text::chars_of("DATETIMEN max_length must be 4 or 8, got ");
            push_decimal_u64(&mut msg, n as u64);
            Err(TypeError::InvalidDateTime(string_of(msg.as_slice())))
        }
    } else {
        let scale = match col.scale() {
            Some(s) => s,
            None => 7,
        };
        let len = time_byte_length(scale);
        push_u8(buf, len + 3);
        let ghost mid = buf@;
        encode_time_with_scale(&time, scale, buf);
        encode_date(&date, buf);
        assert(buf@ =~= old(buf)@ + (seq![(time_len_spec(scale) + 3) as u8] + datetime2_bytes(*dt, scale)));
        Ok(())
    }
}

/// Appends a date-time as SMALLDATETIME: days after 1900-01-01 and
/// minutes since midnight.
fn encode_small_datetime(dt: &NaiveDateTime, is_fixed: bool, buf: &mut Vec<u8>) -> (r: Result<(), TypeError>)
    ensures
        match small_datetime_value_bytes(*dt, is_fixed) {
            Encoded::Bytes(b) => r is Ok && final(buf)@ == old(buf)@ + b,
            e => r matches Err(err) && encoded_error_ok(e, err) && final(buf)@ == old(buf)@,
        },
{
    let date = datetime_date_of(dt);
    let time = datetime_time_of(dt);
    let days = date_day_number(&date) - 693596;
    let secs = time_seconds(&time);
    if days < 0 || days > 65535 {
        return Err(TypeError::InvalidDateTime(owned("SMALLDATETIME value out of range")));
    }
    if !is_fixed {
        push_u8(buf, 4);
    }
    push_u16_le(buf, days as u16);
    push_u16_le(buf, (secs / 60) as u16);
    assert(buf@ =~= old(buf)@ + len_prefix(is_fixed, 4) + small_datetime_bytes(*dt)->0);
    Ok(())
}

/// Appends a DATETIMEOFFSET at `scale`: local time of day, local date and
/// the offset in minutes, after a length byte.
fn encode_datetimeoffset(o: &DateTimeOffset, scale: u8, buf: &mut Vec<u8>)
    ensures
        final(buf)@ == old(buf)@ + (seq![(time_len_spec(scale) + 5) as u8] + datetimeoffset_bytes(*o, scale)),
{
    let date = datetime_date_of(&o.utc);
    let time = datetime_time_of(&o.utc);
    let days = date_day_number(&date);
    let secs = time_seconds(&time);
    let nano = time_nanosecond(&time);
    let off = o.offset_minutes;
    // Shifted by 23 days so that the count is never negative.
    let shifted: i64 = secs as i64 + off as i64 * 60 + 1_987_200;
    let q: i64 = shifted / 86400;
    let rem: i64 = shifted % 86400;
    let local_day: i64 = days as i64 - 23 + q;
    proof {
        let x = local_seconds(*o);
        assert(shifted == q * 86400 + rem);
        assert(x == local_day * 86400 + rem);
        vstd::arithmetic::div_mod::lemma_fundamental_div_mod_converse_div(x, 86400, local_day as int, rem as int);
        vstd::arithmetic::div_mod::lemma_fundamental_div_mod_converse_mod(x, 86400, local_day as int, rem as int);
    }
    let nanos: u64 = rem as u64 * 1_000_000_000 + nano as u64;
    let len = time_byte_length(scale);
    push_u8(buf, len + 5);
    let intervals = nanos / time_scale_divisor(scale);
    let mut all: Vec<u8> = Vec::new();
    push_u64_le(&mut all, intervals);
    let part = slice_subrange(all.as_slice(), 0, len as usize);
    push_bytes(buf, part);
    assert(all@.subrange(0, len as int) =~= le8(intervals).take(len as int));
    let v = (local_day - 1) as u32;
    push_le_bytes(buf, v as u128, 3);
    push_u16_le(buf, off as u16);
    assert(buf@ =~= old(buf)@ + (seq![(time_len_spec(scale) + 5) as u8] + datetimeoffset_bytes(*o, scale)));
}

/// Appends a decimal to a MONEY (8-byte) or SMALLMONEY (4-byte) column:
/// its count of ten-thousandths, truncated toward zero.
fn encode_money_value(col: &BulkColumn, d: &Decimal, is_fixed: bool, buf: &mut Vec<u8>) -> (r: Result<(), TypeError>)
    ensures
        match money_value_bytes(col@, *d, is_fixed) {
            Encoded::Bytes(b) => r is Ok && final(buf)@ == old(buf)@ + b,
            e => r matches Err(err) && encoded_error_ok(e, err) && final(buf)@ == old(buf)@,
        },
{
    proof {
        lemma_column_fields(*col);
    }
    let n: u8 = match col.max_length() {
        Some(x) => x as u8,
        None => 8,
    };
    if n != 8 && n != 4 {
        let mut msg = crate::text::chars_of("MONEY column has invalid max_length: ");
        push_decimal_u64(&mut msg, n as u64);
        return Err(TypeError::InvalidDecimal(string_of(msg.as_slice())));
    }
    encode_money(n, d, is_fixed, buf)
}

/// Appends a decimal as MONEY (`n` is 8) or SMALLMONEY (`n` is 4): its
/// count of ten-thousandths, truncated toward zero.
fn encode_money(n: u8, d: &Decimal, is_fixed: bool, buf: &mut Vec<u8>) -> (r: Result<(), TypeError>)
    requires
        n == 8 || n == 4,
    ensures
        match money_bytes(n, *d, is_fixed) {
            Encoded::Bytes(b) => r is Ok && final(buf)@ == old(buf)@ + b,
            e => r matches Err(err) && encoded_error_ok(e, err) && final(buf)@ == old(buf)@,
        },
{
    let m = decimal_mantissa_of(d);
    let sc = decimal_scale_of(d);
    let cents: i128 = if sc <= 4 {
        let p = pow10_exec(4 - sc);
        assert(-0x1_0000_0000_0000_0000_0000_0000 * 10000 <= m * p <= 0x1_0000_0000_0000_0000_0000_0000 * 10000)
            by (nonlinear_arith)
            requires
                -0x1_0000_0000_0000_0000_0000_0000 <= m <= 0x1_0000_0000_0000_0000_0000_0000,
                1 <= p <= 10000,
        ;
        m * p
    } else {
        let p = pow10_exec(sc - 4);
        if m >= 0 {
            m / p
        } else {
            -((-m) / p)
        }
    };
    if n == 8 {
        if cents < -0x8000_0000_0000_0000 || cents > 0x7FFF_FFFF_FFFF_FFFF {
            return Err(TypeError::InvalidDecimal(owned("value out of range for MONEY")));
        }
        if !is_fixed {
            push_u8(buf, 8);
        }
        let u = (cents as i64) as u64;
        push_u32_le(buf, (u / 0x1_0000_0000) as u32);
        push_u32_le(buf, (u % 0x1_0000_0000) as u32);
        assert(buf@ =~= old(buf)@ + (len_prefix(is_fixed, 8) + le4(((cents as i64 as u64) / 0x1_0000_0000) as u32) + le4(((cents as i64 as u64) % 0x1_0000_0000) as u32)));
        Ok(())
    } else {
        if cents < -0x8000_0000 || cents > 0x7FFF_FFFF {
            return Err(TypeError::InvalidDecimal(owned("value out of range for SMALLMONEY")));
        }
        if !is_fixed {
            push_u8(buf, 4);
        }
        push_u32_le(buf, (cents as i32) as u32);
        assert(buf@ =~= old(buf)@ + (len_prefix(is_fixed, 4) + le4(cents as i32 as u32)));
        Ok(())
    }
}

/// Appends the wire encoding of one value of a ROW token.  When `is_fixed`
/// the column's wire type is fixed-length and numbers carry no length byte.
fn encode_column_value(col: &BulkColumn, value: &SqlValue, is_fixed: bool, buf: &mut Vec<u8>) -> (r:
    Result<(), TypeError>)
    requires
        value_fits(*value),
    ensures
        match encode_value_spec(col@, *value, is_fixed) {
            Encoded::Bytes(b) => r is Ok && final(buf)@ == old(buf)@ + b,
            e => r matches Err(err) && encoded_error_ok(e, err) && final(buf)@ == old(buf)@,
        },
{
    let t = col.type_id();
    proof {
        lemma_column_fields(*col);
    }
    match value {
        SqlValue::Null => {
            if t == 0xE7 || t == 0xA7 || t == 0xA5 || t == 0xAD {
                if col.max_length() == Some(0xFFFFu32) {
                    push_u64_le(buf, PLP_NULL);
                } else {
                    push_u16_le(buf, 0xFFFF);
                }
                Ok(())
            } else if t == 0x26 || t == 0x68 || t == 0x6D || t == 0x6E || t == 0x6F || t == 0x6C
                || t == 0x6A || t == 0x24 || t == 0x28 || t == 0x29 || t == 0x2A || t == 0x2B {
                push_u8(buf, 0);
                Ok(())
            } else if col.nullable {
                push_u8(buf, 0);
                Ok(())
            } else {
                Err(TypeError::UnexpectedNull)
            }
        },
        SqlValue::Bool(v) => {
            if !is_fixed {
                push_u8(buf, 1);
            }
            push_u8(
                buf,
                if *v {
                    1
                } else {
                    0
                },
            );
            assert(buf@ =~= old(buf)@ + len_prefix(is_fixed, 1) + seq![
                if *v {
                    1u8
                } else {
                    0u8
                },
            ]);
            Ok(())
        },
        SqlValue::TinyInt(v) => {
            if !is_fixed {
                push_u8(buf, 1);
            }
            push_u8(buf, *v);
            assert(buf@ =~= old(buf)@ + len_prefix(is_fixed, 1) + seq![*v]);
            Ok(())
        },
        SqlValue::SmallInt(v) => {
            if !is_fixed {
                push_u8(buf, 2);
            }
            push_u16_le(buf, *v as u16);
            assert(buf@ =~= old(buf)@ + len_prefix(is_fixed, 2) + le2(*v as u16));
            Ok(())
        },
        SqlValue::Int(v) => {
            if !is_fixed {
                push_u8(buf, 4);
            }
            push_u32_le(buf, *v as u32);
            assert(buf@ =~= old(buf)@ + len_prefix(is_fixed, 4) + le4(*v as u32));
            Ok(())
        },
        SqlValue::BigInt(v) => {
            if !is_fixed {
                push_u8(buf, 8);
            }
            push_u64_le(buf, *v as u64);
            assert(buf@ =~= old(buf)@ + len_prefix(is_fixed, 8) + le8(*v as u64));
            Ok(())
        },
        SqlValue::Float(v) => {
            if !is_fixed {
                push_u8(buf, 4);
            }
            push_u32_le(buf, *v);
            assert(buf@ =~= old(buf)@ + len_prefix(is_fixed, 4) + le4(*v));
            Ok(())
        },
        SqlValue::Double(v) => {
            if !is_fixed {
                push_u8(buf, 8);
            }
            push_u64_le(buf, *v);
            assert(buf@ =~= old(buf)@ + len_prefix(is_fixed, 8) + le8(*v));
            Ok(())
        },
        SqlValue::String(s) => {
            if t == 0xA7 || t == 0x2F || t == 0xAF {
                let encoded = encode_windows_1252(s.as_str());
                write_var_payload(col, encoded.as_slice(), buf)
            } else {
                let utf16 = encode_utf16(s.as_str());
                write_utf16_payload(col, utf16.as_slice(), buf)
            }
        },
        SqlValue::Binary(b) => write_var_payload(col, b.as_slice(), buf),
        SqlValue::Xml(x) => encode_nvarchar_value(x.as_str(), buf),
        SqlValue::Time(time) => {
            let scale = match col.scale() {
                Some(s) => s,
                None => 7,
            };
            let len = time_byte_length(scale);
            push_u8(buf, len);
            encode_time_with_scale(time, scale, buf);
            assert(buf@ =~= old(buf)@ + (seq![len] + le8(
                (time_nanos(*time) / time_divisor_spec(scale) as int) as u64,
            ).take(len as int)));
            Ok(())
        },
        SqlValue::Decimal(d) => {
            if t == 0x6E {
                return encode_money_value(col, d, is_fixed, buf);
            }
            let precision = match col.precision() {
                Some(p) => p,
                None => 18,
            };
            let len = decimal_byte_length(precision);
            push_u8(buf, len);
            push_u8(buf, if decimal_is_sign_negative(d) { 0 } else { 1 });
            let m = decimal_mantissa_of(d);
            let mag: u128 = if m < 0 {
                (-m) as u128
            } else {
                m as u128
            };
            let ghost before = buf@;
            push_le_bytes(buf, mag, len - 1);
            proof {
                let sign: u8 = if decimal_negative(*d) { 0u8 } else { 1u8 };
                assert(buf@ =~= old(buf)@ + (seq![len, sign] + le_bytes(mag as nat, (len - 1) as nat)));
            }
            Ok(())
        },
        SqlValue::Date(d) => {
            push_u8(buf, 3);
            encode_date(d, buf);
            assert(buf@ =~= old(buf)@ + (seq![3u8] + date_bytes(*d)));
            Ok(())
        },
        SqlValue::DateTime(dt) => encode_datetime_value(col, dt, is_fixed, buf),
        SqlValue::SmallDateTime(dt) => encode_small_datetime(dt, is_fixed, buf),
        SqlValue::Money(d) => encode_money(8, d, is_fixed, buf),
        SqlValue::SmallMoney(d) => encode_money(4, d, is_fixed, buf),
        SqlValue::DateTimeOffset(o) => {
            let scale = match col.scale() {
                Some(s) => s,
                None => 7,
            };
            encode_datetimeoffset(o, scale, buf);
            Ok(())
        },
        SqlValue::Uuid(u) => {
            let b = uuid_as_bytes(u);
            push_u8(buf, 16);
            push_guid(buf, &b);
            assert(buf@ =~= old(buf)@ + (seq![16u8] + guid_swap(uuid_bytes(*u))));
            Ok(())
        },
        SqlValue::Tvp => Err(
            TypeError::UnsupportedConversion { from: owned("TVP"), to: owned("bulk copy value") },
        ),
    }
}


// ---------------------------------------------------------------------------
// COLMETADATA
// ---------------------------------------------------------------------------

/// The TYPE_INFO bytes that follow a column's type id.
pub open spec fn type_info_bytes(c: ColumnView) -> Seq<u8> {
    let t = c.type_id;
    if t == 0x26 || t == 0x68 || t == 0x6D || t == 0x6E || t == 0x6F {
        seq![or_u32(c.max_length, 4) as u8]
    } else if t == 0x28 {
        Seq::empty()
    } else if is_var_type(t) {
        le2(or_u32(c.max_length, 8000) as u16) + (if t == 0xE7 || t == 0xA7 {
            match c.collation {
                Some(co) => collation_bytes(co),
                None => seq![0x09u8, 0x04u8, 0xD0u8, 0x00u8, 0x34u8],
            }
        } else {
            Seq::empty()
        })
    } else if t == 0x6C || t == 0x6A {
        let p = or_u8(c.precision, 18);
        seq![decimal_len_spec(p), p, or_u8(c.scale, 0)]
    } else if 0x29 <= t <= 0x2B {
        seq![or_u8(c.scale, 7)]
    } else if t == 0x24 {
        seq![16u8]
    } else {
        match c.max_length {
            Some(len) => if len <= 0xFFFF {
                le2(len as u16)
            } else {
                Seq::empty()
            },
            None => Seq::empty(),
        }
    }
}

/// The type id a column is declared with: the fixed-width variant for NOT
/// NULL columns of types that have one.
pub open spec fn effective_type_id(c: ColumnView) -> u8 {
    if !c.nullable {
        match fixed_type_spec(c.type_id, c.max_length) {
            Some(f) => f,
            None => c.type_id,
        }
    } else {
        c.type_id
    }
}

/// One column of COLMETADATA: user type, flags (updateable, nullable), type
/// id, TYPE_INFO unless the fixed variant was chosen, and the name as a
/// B_VARCHAR (UTF-16 units, 1-byte count).
pub open spec fn column_entry(c: ColumnView) -> Seq<u8> {
    let eff = effective_type_id(c);
    let name = utf16_of(c.name);
    le4(0) + le2(
        if c.nullable {
            0x0009u16
        } else {
            0x0008u16
        },
    ) + seq![eff] + (if eff != c.type_id {
        Seq::empty()
    } else {
        type_info_bytes(c)
    }) + seq![name.len() as u8] + utf16_bytes(name)
}

pub open spec fn column_entries(cs: Seq<ColumnView>) -> Seq<u8>
    decreases cs.len(),
{
    if cs.len() == 0 {
        Seq::empty()
    } else {
        column_entries(cs.drop_last()) + column_entry(cs.last())
    }
}

/// The COLMETADATA token describing the columns.
pub open spec fn colmetadata_spec(cs: Seq<ColumnView>) -> Seq<u8> {
    seq![0x81u8] + le2(cs.len() as u16) + column_entries(cs)
}

fn write_type_info(col: &BulkColumn, buf: &mut Vec<u8>)
    ensures
        final(buf)@ == old(buf)@ + type_info_bytes(col@),
{
    proof {
        lemma_column_fields(*col);
    }
    let t = col.type_id;
    if t == 0x26 || t == 0x68 || t == 0x6D || t == 0x6E || t == 0x6F {
        let len = match col.max_length {
            Some(l) => l,
            None => 4,
        };
        push_u8(buf, len as u8);
    } else if t == 0x28 {
        assert(buf@ =~= old(buf)@ + Seq::<u8>::empty());
    } else if t == 0xE7 || t == 0xA7 || t == 0xA5 || t == 0xAD {
        let max_len = match col.max_length {
            Some(l) => l,
            None => 8000,
        };
        push_u16_le(buf, max_len as u16);
        if t == 0xE7 || t == 0xA7 {
            match col.collation {
                Some(co) => {
                    let b = co.to_bytes();
                    push_bytes(buf, &b);
                },
                None => {
                    push_u8(buf, 0x09);
                    push_u8(buf, 0x04);
                    push_u8(buf, 0xD0);
                    push_u8(buf, 0x00);
                    push_u8(buf, 0x34);
                },
            }
        }
        assert(buf@ =~= old(buf)@ + type_info_bytes(col@));
    } else if t == 0x6C || t == 0x6A {
        let precision = match col.precision {
            Some(p) => p,
            None => 18,
        };
        push_u8(buf, decimal_byte_length(precision));
        push_u8(buf, precision);
        push_u8(
            buf,
            match col.scale {
                Some(s) => s,
                None => 0,
            },
        );
        assert(buf@ =~= old(buf)@ + type_info_bytes(col@));
    } else if 0x29 <= t && t <= 0x2B {
        push_u8(
            buf,
            match col.scale {
                Some(s) => s,
                None => 7,
            },
        );
    } else if t == 0x24 {
        push_u8(buf, 16);
    } else {
        match col.max_length {
            Some(len) => {
                if len <= 0xFFFF {
                    push_u16_le(buf, len as u16);
                } else {
                    assert(buf@ =~= old(buf)@ + Seq::<u8>::empty());
                }
            },
            None => {
                assert(buf@ =~= old(buf)@ + Seq::<u8>::empty());
            },
        }
    }
}

fn write_column_entry(col: &BulkColumn, buf: &mut Vec<u8>)
    ensures
        final(buf)@ == old(buf)@ + column_entry(col@),
{
    proof {
        lemma_column_fields(*col);
    }
    let ghost start = buf@;
    push_u32_le(buf, 0);
    let effective = if !col.nullable {
        match nullable_to_fixed_type(col.type_id, col.max_length) {
            Some(f) => f,
            None => col.type_id,
        }
    } else {
        col.type_id
    };
    let flags: u16 = if col.nullable {
        0x0009
    } else {
        0x0008
    };
    push_u16_le(buf, flags);
    push_u8(buf, effective);
    let ghost mid = buf@;
    if effective == col.type_id {
        write_type_info(col, buf);
    }
    let ghost info = if effective == col.type_id {
        type_info_bytes(col@)
    } else {
        Seq::<u8>::empty()
    };
    assert(buf@ =~= mid + info);
    let name = encode_utf16(col.name.as_str());
    push_u8(buf, name.len() as u8);
    push_utf16_le(buf, name.as_slice());
    assert(buf@ =~= start + column_entry(col@));
}

/// Writes the COLMETADATA token for the columns.
fn write_colmetadata(columns: &Vec<BulkColumn>, buf: &mut Vec<u8>)
    ensures
        final(buf)@ == old(buf)@ + colmetadata_spec(column_views(columns@)),
{
    let ghost start = buf@;
    push_u8(buf, 0x81);
    push_u16_le(buf, columns.len() as u16);
    let ghost head = buf@;
    let mut i: usize = 0;
    while i < columns.len()
        invariant
            i <= columns@.len(),
            buf@ == head + column_entries(column_views(columns@).take(i as int)),
        decreases columns@.len() - i,
    {
        write_column_entry(&columns[i], buf);
        assert(column_views(columns@).take(i + 1).drop_last() =~= column_views(columns@).take(
            i as int,
        ));
        assert(buf@ =~= head + column_entries(column_views(columns@).take(i + 1)));
        i = i + 1;
    }
    assert(column_views(columns@).take(columns@.len() as int) =~= column_views(columns@));
    assert(buf@ =~= start + colmetadata_spec(column_views(columns@)));
}


// ---------------------------------------------------------------------------
// ROW and DONE tokens
// ---------------------------------------------------------------------------

/// Whether column `i` is written without length bytes (a missing entry
/// counts as not fixed).
pub open spec fn fixed_at(fixed: Seq<bool>, i: int) -> bool {
    if 0 <= i < fixed.len() {
        fixed[i]
    } else {
        false
    }
}

/// Writing the first `k` values of a row: the bytes written (ROW token
/// first) and, when a value failed, its index and what went wrong.  Values
/// after a failure are not written.
pub open spec fn row_state(cs: Seq<ColumnView>, fixed: Seq<bool>, vals: Seq<SqlValue>, k: nat) -> (
    Seq<u8>,
    Option<(nat, Encoded)>,
)
    decreases k,
{
    if k == 0 {
        (seq![0xD1u8], None)
    } else {
        let prev = row_state(cs, fixed, vals, (k - 1) as nat);
        if prev.1 is Some {
            prev
        } else {
            match encode_value_spec(cs[k - 1], vals[k - 1], fixed_at(fixed, k - 1)) {
                Encoded::Bytes(b) => (prev.0 + b, None),
                e => (prev.0, Some(((k - 1) as nat, e))),
            }
        }
    }
}

/// Writing a whole row: one value per column, as far as both go.
pub open spec fn row_spec(cs: Seq<ColumnView>, fixed: Seq<bool>, vals: Seq<SqlValue>) -> (
    Seq<u8>,
    Option<(nat, Encoded)>,
) {
    row_state(cs, fixed, vals, if cs.len() < vals.len() { cs.len() } else { vals.len() })
}

proof fn lemma_row_state_stops(cs: Seq<ColumnView>, fixed: Seq<bool>, vals: Seq<SqlValue>, k: nat, m: nat)
    requires
        k <= m,
        row_state(cs, fixed, vals, k).1 is Some,
    ensures
        row_state(cs, fixed, vals, m) == row_state(cs, fixed, vals, k),
    decreases m,
{
    if k < m {
        lemma_row_state_stops(cs, fixed, vals, k, (m - 1) as nat);
    }
}

/// The message of a row whose value at `i` failed.
pub open spec fn column_error_text(i: nat, e: Encoded) -> Seq<char> {
    "failed to encode column "@ + nat_decimal(i) + ": "@ + encoded_error_text(e)
}

/// The DONE token closing the load, with the row count.
pub open spec fn done_spec(total_rows: u64) -> Seq<u8> {
    seq![0xFDu8] + le2(0x0010) + le2(0) + le8(total_rows)
}

// ---------------------------------------------------------------------------
// Packets
// ---------------------------------------------------------------------------

/// Largest payload of a 4096-byte packet after its 8-byte header.
pub const MAX_PAYLOAD: usize = 4088;

/// Number of packets `n` bytes are cut into.
pub open spec fn packet_count(n: nat) -> nat {
    ((n + 4087) / 4088) as nat
}

/// Payload length of packet `i` of `n` bytes.
pub open spec fn payload_len(n: nat, i: nat) -> nat {
    if n - i * 4088 < 4088 {
        (n - i * 4088) as nat
    } else {
        4088
    }
}

/// Packet `i` of a BulkLoad message: the 8-byte header (type 0x07, status
/// END_OF_MESSAGE on the last packet, big-endian total length, SPID 0,
/// packet id, window 0) and the next slice of the data.
pub open spec fn packet_spec(data: Seq<u8>, first_id: u8, i: nat) -> Seq<u8> {
    let start = i * 4088;
    let plen = payload_len(data.len(), i);
    let last = start + plen >= data.len();
    seq![
        0x07u8,
        if last {
            1u8
        } else {
            0u8
        },
        ((8 + plen) / 256) as u8,
        ((8 + plen) % 256) as u8,
        0u8,
        0u8,
        ((first_id + i) % 256) as u8,
        0u8,
    ] + data.subrange(start as int, (start + plen) as int)
}

// ---------------------------------------------------------------------------
// The bulk insert
// ---------------------------------------------------------------------------

/// An active bulk insert: rows are encoded into a buffer, which is cut into
/// BulkLoad packets.
pub struct BulkInsert {
    columns: Vec<BulkColumn>,
    fixed_len: Vec<bool>,
    buffer: BytesMut,
    rows_in_batch: usize,
    total_rows: u64,
    batch_size: usize,
    batches_committed: u32,
    packet_id: u8,
}

/// The abstract state of a [`BulkInsert`].
pub ghost struct BulkInsertView {
    pub columns: Seq<ColumnView>,
    pub fixed_len: Seq<bool>,
    pub buffer: Seq<u8>,
    pub rows_in_batch: usize,
    pub total_rows: u64,
    pub batch_size: usize,
    pub batches_committed: u32,
    pub packet_id: u8,
}

impl View for BulkInsert {
    type V = BulkInsertView;

    closed spec fn view(&self) -> BulkInsertView {
        BulkInsertView {
            columns: column_views(self.columns@),
            fixed_len: self.fixed_len@,
            buffer: bytes_mut_contents(self.buffer),
            rows_in_batch: self.rows_in_batch,
            total_rows: self.total_rows,
            batch_size: self.batch_size,
            batches_committed: self.batches_committed,
            packet_id: self.packet_id,
        }
    }
}

/// The message for a row with `got` values where `want` columns exist.
pub open spec fn count_error_text(want: nat, got: nat) -> Seq<char> {
    "expected "@ + nat_decimal(want) + " values, got "@ + nat_decimal(got)
}

/// What sending a row of `values` needs: when the count matches the
/// columns, every string's UTF-16 byte length is representable, the row
/// fits in the buffer and the row counters can count one more.
pub open spec fn send_row_ready(s: BulkInsertView, values: Seq<SqlValue>) -> bool {
    values.len() == s.columns.len() ==> {
        &&& forall|i: int| 0 <= i < values.len() ==> value_fits(#[trigger] values[i])
        &&& s.buffer.len() + row_spec(s.columns, s.fixed_len, values).0.len() <= isize::MAX
        &&& s.rows_in_batch < usize::MAX
        &&& s.total_rows < u64::MAX
    }
}

/// Sending a row of `values` in state `s` gives `t` and `r`: a wrong count
/// is refused with nothing changed; otherwise the ROW token is buffered as
/// far as the values encode, and the row counts only when all of them did.
pub open spec fn send_row_outcome(
    s: BulkInsertView,
    values: Seq<SqlValue>,
    t: BulkInsertView,
    r: Result<(), Error>,
) -> bool {
    if values.len() != s.columns.len() {
        t == s && (r matches Err(Error::Config(m)) && m@ == count_error_text(
            s.columns.len(),
            values.len(),
        ))
    } else {
        let want = row_spec(s.columns, s.fixed_len, values);
        match want.1 {
            None => r is Ok && t == (BulkInsertView {
                buffer: s.buffer + want.0,
                rows_in_batch: (s.rows_in_batch + 1) as usize,
                total_rows: (s.total_rows + 1) as u64,
                ..s
            }),
            Some((i, e)) => (r matches Err(Error::Config(m)) && m@ == column_error_text(i, e)) && t
                == (BulkInsertView { buffer: s.buffer + want.0, ..s }),
        }
    }
}

/// Whether a value's UTF-16 byte length is representable, tested at run
/// time.
fn value_fits_now(v: &SqlValue) -> (b: bool)
    ensures
        b == value_fits(*v),
{
    match v {
        SqlValue::String(s) => encode_utf16(s.as_str()).len() <= usize::MAX / 2,
        SqlValue::Xml(x) => encode_utf16(x.as_str()).len() <= usize::MAX / 2,
        _ => true,
    }
}

/// The columns after adopting the server's collations where a column has
/// none.
pub open spec fn merged_columns(cs: Seq<ColumnView>, srv: Option<Seq<ServerColumn>>) -> Seq<ColumnView> {
    match srv {
        None => cs,
        Some(s) => Seq::new(
            cs.len(),
            |i: int|
                if i < s.len() && cs[i].collation is None {
                    ColumnView { collation: s[i].collation, ..cs[i] }
                } else {
                    cs[i]
                },
        ),
    }
}

/// Which columns are written without length bytes: the server's word when
/// it sent metadata, else the NOT NULL columns of types with a fixed-width
/// variant.
pub open spec fn fixed_spec(cs: Seq<ColumnView>, srv: Option<Seq<ServerColumn>>) -> Seq<bool> {
    match srv {
        Some(s) => s.map_values(|c: ServerColumn| c.fixed_length),
        None => cs.map_values(
            |c: ColumnView| !c.nullable && fixed_type_spec(c.type_id, c.max_length) is Some,
        ),
    }
}

pub open spec fn opt_slice_view(s: Option<&[ServerColumn]>) -> Option<Seq<ServerColumn>> {
    match s {
        Some(x) => Some(x@),
        None => None,
    }
}

/// The state a new bulk insert starts in.
pub open spec fn new_bulk_view(
    cs: Seq<ColumnView>,
    batch_size: usize,
    raw: Option<Seq<u8>>,
    srv: Option<Seq<ServerColumn>>,
) -> BulkInsertView {
    let merged = merged_columns(cs, srv);
    BulkInsertView {
        columns: merged,
        fixed_len: fixed_spec(cs, srv),
        buffer: match raw {
            Some(r) => r,
            None => colmetadata_spec(merged),
        },
        rows_in_batch: 0,
        total_rows: 0,
        batch_size: batch_size,
        batches_committed: 0,
        packet_id: 1,
    }
}

impl BulkInsert {
    /// A bulk insert whose COLMETADATA is built from the column
    /// definitions.
    pub fn new(columns: Vec<BulkColumn>, batch_size: usize) -> (r: Self)
        requires
            colmetadata_spec(column_views(columns@)).len() <= isize::MAX,
        ensures
            r@ == new_bulk_view(column_views(columns@), batch_size, None, None),
    {
        Self::new_with_server_metadata(columns, batch_size, None, None)
    }

    /// A bulk insert that echoes the server's own COLMETADATA bytes when
    /// given (`raw_colmetadata`) and takes from the server's column metadata
    /// which columns are fixed-length and, for columns without one, their
    /// collation.
    pub fn new_with_server_metadata(
        columns: Vec<BulkColumn>,
        batch_size: usize,
        raw_colmetadata: Option<Vec<u8>>,
        server_columns: Option<&[ServerColumn]>,
    ) -> (r: Self)
        requires
            raw_colmetadata matches Some(raw) ==> raw@.len() <= isize::MAX,
            raw_colmetadata is None ==> colmetadata_spec(
                merged_columns(column_views(columns@), opt_slice_view(server_columns)),
            ).len() <= isize::MAX,
        ensures
            r@ == new_bulk_view(
                column_views(columns@),
                batch_size,
                match raw_colmetadata {
                    Some(raw) => Some(raw@),
                    None => None,
                },
                opt_slice_view(server_columns),
            ),
    {
        let ghost cs = column_views(columns@);
        let mut columns = columns;
        let mut fixed_len: Vec<bool> = Vec::new();
        match server_columns {
            Some(srv) => {
                let mut i: usize = 0;
                while i < columns.len()
                    invariant
                        i <= columns@.len(),
                        columns@.len() == cs.len(),
                        forall|j: int|
                            0 <= j < columns@.len() ==> #[trigger] columns@[j]@ == (if j < i {
                                merged_columns(cs, Some(srv@))[j]
                            } else {
                                cs[j]
                            }),
                    decreases columns@.len() - i,
                {
                    if i < srv.len() {
                        columns[i].adopt_collation(srv[i].collation);
                    }
                    i = i + 1;
                }
                let mut k: usize = 0;
                while k < srv.len()
                    invariant
                        k <= srv@.len(),
                        fixed_len@ == srv@.take(k as int).map_values(
                            |c: ServerColumn| c.fixed_length,
                        ),
                    decreases srv@.len() - k,
                {
                    fixed_len.push(srv[k].fixed_length);
                    assert(srv@.take(k + 1).map_values(|c: ServerColumn| c.fixed_length)
                        =~= srv@.take(k as int).map_values(|c: ServerColumn| c.fixed_length).push(
                        srv@[k as int].fixed_length,
                    ));
                    k = k + 1;
                }
                assert(srv@.take(srv@.len() as int) =~= srv@);
                assert(column_views(columns@) =~= merged_columns(cs, Some(srv@)));
            },
            None => {
                let mut k: usize = 0;
                while k < columns.len()
                    invariant
                        k <= columns@.len(),
                        cs == column_views(columns@),
                        fixed_len@ == cs.take(k as int).map_values(
                            |c: ColumnView|
                                !c.nullable && fixed_type_spec(c.type_id, c.max_length) is Some,
                        ),
                    decreases columns@.len() - k,
                {
                    let c = &columns[k];
                    proof {
                        lemma_column_fields(*c);
                    }
                    let f = !c.nullable && nullable_to_fixed_type(c.type_id, c.max_length).is_some();
                    fixed_len.push(f);
                    assert(cs.take(k + 1).map_values(
                        |c: ColumnView| !c.nullable && fixed_type_spec(c.type_id, c.max_length) is Some,
                    ) =~= cs.take(k as int).map_values(
                        |c: ColumnView| !c.nullable && fixed_type_spec(c.type_id, c.max_length) is Some,
                    ).push(f));
                    k = k + 1;
                }
                assert(cs.take(cs.len() as int) =~= cs);
            },
        }
        let mut buffer = bytes_with_capacity(64 * 1024);
        match raw_colmetadata {
            Some(raw) => {
                bytes_extend(&mut buffer, raw.as_slice());
            },
            None => {
                let mut meta: Vec<u8> = Vec::new();
                write_colmetadata(&columns, &mut meta);
                bytes_extend(&mut buffer, meta.as_slice());
            },
        }
        BulkInsert {
            columns,
            fixed_len,
            buffer,
            rows_in_batch: 0,
            total_rows: 0,
            batch_size,
            batches_committed: 0,
            packet_id: 1,
        }
    }
}

impl BulkInsert {
    /// Encodes a ROW token for `values` into a fresh vector: the bytes
    /// written and, on failure, the index of the value that failed and its
    /// error.
    fn encode_row(&self, values: &[SqlValue]) -> (r: (Vec<u8>, Option<(usize, TypeError)>))
        requires
            forall|i: int| 0 <= i < values@.len() ==> value_fits(#[trigger] values@[i]),
        ensures
            ({
                let want = row_spec(self@.columns, self@.fixed_len, values@);
                &&& r.0@ == want.0
                &&& match want.1 {
                    None => r.1 is None,
                    Some((i, e)) => r.1 matches Some((j, err)) && j == i && encoded_error_ok(
                        e,
                        err,
                    ),
                }
            }),
    {
        let ghost cs = self@.columns;
        let ghost fixed = self@.fixed_len;
        let n = if self.columns.len() < values.len() {
            self.columns.len()
        } else {
            values.len()
        };
        let mut row: Vec<u8> = Vec::new();
        push_u8(&mut row, 0xD1);
        assert(row@ =~= seq![0xD1u8]);
        let mut i: usize = 0;
        while i < n
            invariant
                i <= n,
                n == (if self.columns@.len() < values@.len() {
                    self.columns@.len()
                } else {
                    values@.len()
                }),
                cs == column_views(self.columns@),
                fixed == self.fixed_len@,
                forall|j: int| 0 <= j < values@.len() ==> value_fits(#[trigger] values@[j]),
                row_state(cs, fixed, values@, i as nat) == (row@, None::<(nat, Encoded)>),
            decreases n - i,
        {
            let is_fixed = if i < self.fixed_len.len() {
                self.fixed_len[i]
            } else {
                false
            };
            let res = encode_column_value(&self.columns[i], &values[i], is_fixed, &mut row);
            match res {
                Ok(()) => {},
                Err(e) => {
                    proof {
                        let enc = encode_value_spec(cs[i as int], values@[i as int], fixed_at(fixed, i as int));
                        assert(is_fixed == fixed_at(fixed, i as int));
                        assert(cs[i as int] == self.columns@[i as int]@);
                        assert(!(enc is Bytes));
                        assert(row_state(cs, fixed, values@, (i + 1) as nat) == (row@, Some((i as nat, enc))));
                        lemma_row_state_stops(cs, fixed, values@, (i + 1) as nat, n as nat);
                        assert(row_spec(cs, fixed, values@) == row_state(cs, fixed, values@, n as nat));
                        assert(encoded_error_ok(enc, e));
                    }
                    return (row, Some((i, e)));
                },
            }
            i = i + 1;
        }
        assert(row_spec(cs, fixed, values@) == row_state(cs, fixed, values@, n as nat));
        (row, None)
    }

    /// Appends an encoded ROW token to the buffer.  On success the row
    /// counts; when a value failed, the bytes before it stay in the buffer
    /// and the error names the column.
    fn finish_row(
        &mut self,
        row: Vec<u8>,
        failed: Option<(usize, TypeError)>,
        Ghost(values): Ghost<Seq<SqlValue>>,
    ) -> (r: Result<(), Error>)
        requires
            values.len() == old(self)@.columns.len(),
            ({
                let want = row_spec(old(self)@.columns, old(self)@.fixed_len, values);
                &&& row@ == want.0
                &&& match want.1 {
                    None => failed is None,
                    Some((i, e)) => failed matches Some((j, err)) && j == i && encoded_error_ok(
                        e,
                        err,
                    ),
                }
            }),
            send_row_ready(old(self)@, values),
        ensures
            send_row_outcome(old(self)@, values, final(self)@, r),
    {
        bytes_extend(&mut self.buffer, row.as_slice());
        match failed {
            None => {
                self.rows_in_batch = self.rows_in_batch + 1;
                self.total_rows = self.total_rows + 1;
                Ok(())
            },
            Some((i, e)) => {
                let mut msg: Vec<char> = Vec::new();
                push_str_chars(&mut msg, "failed to encode column ");
                push_decimal_u64(&mut msg, i as u64);
                push_str_chars(&mut msg, ": ");
                let text = e.to_string();
                proof {
                    let want = row_spec(old(self)@.columns, old(self)@.fixed_len, values);
                    let enc = want.1.unwrap().1;
                    assert(type_error_text(e) == encoded_error_text(enc));
                }
                push_str_chars(&mut msg, text.as_str());
                Err(Error::Config(string_of(msg.as_slice())))
            },
        }
    }

    /// The error for a row with the wrong number of values.
    fn count_mismatch(&self, got: usize) -> (r: Result<(), Error>)
        ensures
            r matches Err(Error::Config(m)) && m@ == count_error_text(self@.columns.len(), got as nat),
    {
        let mut msg: Vec<char> = Vec::new();
        push_str_chars(&mut msg, "expected ");
        push_decimal_u64(&mut msg, self.columns.len() as u64);
        push_str_chars(&mut msg, " values, got ");
        push_decimal_u64(&mut msg, got as u64);
        Err(Error::Config(string_of(msg.as_slice())))
    }

    /// Sends a row of values, one per column in column order.
    pub fn send_row_values(&mut self, values: &[SqlValue]) -> (r: Result<(), Error>)
        requires
            send_row_ready(old(self)@, values@),
        ensures
            send_row_outcome(old(self)@, values@, final(self)@, r),
    {
        if values.len() != self.columns.len() {
            return self.count_mismatch(values.len());
        }
        let (row, failed) = self.encode_row(values);
        self.finish_row(row, failed, Ghost(values@))
    }

    /// Sends a row of values after checking at run time what
    /// [`BulkInsert::send_row_values`] requires: `None`, with nothing
    /// changed, when a string is too long to measure in UTF-16 bytes, when
    /// the row would overflow the buffer, or when a row counter is full.
    pub fn try_send_row_values(&mut self, values: &[SqlValue]) -> (r: Option<Result<(), Error>>)
        ensures
            match r {
                None => final(self)@ == old(self)@ && !send_row_ready(old(self)@, values@),
                Some(res) => send_row_outcome(old(self)@, values@, final(self)@, res),
            },
    {
        if values.len() != self.columns.len() {
            return Some(self.count_mismatch(values.len()));
        }
        if self.rows_in_batch == usize::MAX || self.total_rows == u64::MAX {
            return None;
        }
        let mut k: usize = 0;
        while k < values.len()
            invariant
                k <= values@.len(),
                values@.len() == old(self)@.columns.len(),
                *self == *old(self),
                forall|j: int| 0 <= j < k ==> value_fits(#[trigger] values@[j]),
            decreases values@.len() - k,
        {
            if !value_fits_now(&values[k]) {
                assert(!value_fits(values@[k as int]));
                return None;
            }
            k = k + 1;
        }
        let (row, failed) = self.encode_row(values);
        let buffered = bytes_as_slice(&self.buffer).len();
        let limit: usize = isize::MAX as usize;
        if buffered > limit || row.len() > limit - buffered {
            return None;
        }
        Some(self.finish_row(row, failed, Ghost(values@)))
    }

    /// Writes the DONE token closing the load.
    fn write_done(&mut self)
        requires
            old(self)@.buffer.len() + 15 <= isize::MAX,
        ensures
            final(self)@ == (BulkInsertView {
                buffer: old(self)@.buffer + done_spec(old(self)@.total_rows),
                ..old(self)@
            }),
    {
        let mut done: Vec<u8> = Vec::new();
        push_u8(&mut done, 0xFD);
        push_u16_le(&mut done, 0x0010);
        push_u16_le(&mut done, 0);
        push_u64_le(&mut done, self.total_rows);
        assert(done@ =~= done_spec(self.total_rows));
        bytes_extend(&mut self.buffer, done.as_slice());
    }

    /// Cuts the buffered bytes into BulkLoad packets of at most 4096 bytes,
    /// leaving the buffer empty.  Packet ids count on from the last packet
    /// sent, wrapping at 256.
    pub fn take_packets(&mut self) -> (r: Vec<BytesMut>)
        ensures
            r@.len() == packet_count(old(self)@.buffer.len()),
            forall|i: int|
                0 <= i < r@.len() ==> bytes_mut_contents(#[trigger] r@[i]) == packet_spec(
                    old(self)@.buffer,
                    old(self)@.packet_id,
                    i as nat,
                ),
            final(self)@ == (BulkInsertView {
                buffer: Seq::empty(),
                packet_id: ((old(self)@.packet_id + packet_count(old(self)@.buffer.len())) % 256) as u8,
                ..old(self)@
            }),
    {
        let ghost old_view = self@;
        let ghost first = self.packet_id;
        let data = bytes_split(&mut self.buffer);
        let d = bytes_as_slice(&data);
        let ghost all = d@;
        let n = d.len();
        let mut packets: Vec<BytesMut> = Vec::new();
        let mut offset: usize = 0;
        while offset < n
            invariant
                n == all.len(),
                d@ == all,
                all == old_view.buffer,
                offset <= n,
                offset == (if packets@.len() * 4088 <= n {
                    (packets@.len() * 4088) as int
                } else {
                    n as int
                }),
                packets@.len() == 0 || (packets@.len() - 1) * 4088 < n,
                self.packet_id == ((first + packets@.len()) % 256) as u8,
                self@ == (BulkInsertView {
                    buffer: Seq::empty(),
                    packet_id: self.packet_id,
                    ..old_view
                }),
                forall|i: int|
                    0 <= i < packets@.len() ==> bytes_mut_contents(#[trigger] packets@[i])
                        == packet_spec(all, first, i as nat),
            decreases n - offset,
        {
            let remaining = n - offset;
            let payload = if remaining < MAX_PAYLOAD {
                remaining
            } else {
                MAX_PAYLOAD
            };
            let is_last = offset + payload >= n;
            let total = 8 + payload;
            let mut header: Vec<u8> = Vec::new();
            header.push(0x07);
            header.push(
                if is_last {
                    1
                } else {
                    0
                },
            );
            header.push((total / 256) as u8);
            header.push((total % 256) as u8);
            header.push(0);
            header.push(0);
            header.push(self.packet_id);
            header.push(0);
            let mut packet = bytes_with_capacity(4096);
            bytes_extend(&mut packet, header.as_slice());
            bytes_extend(&mut packet, slice_subrange(d, offset, offset + payload));
            proof {
                let i = packets@.len() as nat;
                assert(offset == i * 4088);
                assert(payload == payload_len(n as nat, i));
                assert(bytes_mut_contents(packet) =~= packet_spec(all, first, i));
            }
            packets.push(packet);
            offset = offset + payload;
            self.packet_id = self.packet_id.wrapping_add(1);
        }
        packets
    }

    /// Total rows sent so far.
    pub fn total_rows(&self) -> (r: u64)
        ensures
            r == self@.total_rows,
    {
        self.total_rows
    }

    /// Rows in the current batch.
    pub fn rows_in_batch(&self) -> (r: usize)
        ensures
            r == self@.rows_in_batch,
    {
        self.rows_in_batch
    }

    /// Whether the current batch is full (never, with batch size 0).
    pub fn should_flush(&self) -> (r: bool)
        ensures
            r == (self@.batch_size > 0 && self@.rows_in_batch >= self@.batch_size),
    {
        self.batch_size > 0 && self.rows_in_batch >= self.batch_size
    }

    /// Writes the DONE token and cuts the buffer, DONE included, into the
    /// final packets.
    pub fn finish_packets(&mut self) -> (r: Vec<BytesMut>)
        requires
            old(self)@.buffer.len() + 15 <= isize::MAX,
        ensures
            ({
                let data = old(self)@.buffer + done_spec(old(self)@.total_rows);
                &&& r@.len() == packet_count(data.len())
                &&& forall|i: int|
                    0 <= i < r@.len() ==> bytes_mut_contents(#[trigger] r@[i]) == packet_spec(
                        data,
                        old(self)@.packet_id,
                        i as nat,
                    )
                &&& final(self)@ == (BulkInsertView {
                    buffer: Seq::empty(),
                    packet_id: ((old(self)@.packet_id + packet_count(data.len())) % 256) as u8,
                    ..old(self)@
                })
            }),
    {
        self.write_done();
        self.take_packets()
    }

    /// The result so far: rows sent, batches committed, no errors.
    pub fn result(&self) -> (r: BulkInsertResult)
        ensures
            r.rows_affected == self@.total_rows,
            r.batches_committed == self@.batches_committed,
            !r.has_errors,
    {
        BulkInsertResult {
            rows_affected: self.total_rows,
            batches_committed: self.batches_committed,
            has_errors: false,
        }
    }
}

/// The payloads of the first `k` packets, in order.
pub open spec fn payloads(data: Seq<u8>, first_id: u8, k: nat) -> Seq<u8>
    decreases k,
{
    if k == 0 {
        Seq::empty()
    } else {
        payloads(data, first_id, (k - 1) as nat) + packet_spec(data, first_id, (k - 1) as nat).skip(8)
    }
}

proof fn lemma_payloads_prefix(data: Seq<u8>, first_id: u8, k: nat)
    requires
        k <= packet_count(data.len()),
    ensures
        payloads(data, first_id, k) == data.take(
            if k * 4088 <= data.len() {
                (k * 4088) as int
            } else {
                data.len() as int
            },
        ),
    decreases k,
{
    if k > 0 {
        lemma_payloads_prefix(data, first_id, (k - 1) as nat);
        let i = (k - 1) as nat;
        assert(i * 4088 < data.len());
        let p = packet_spec(data, first_id, i);
        assert(p.skip(8) =~= data.subrange((i * 4088) as int, (i * 4088 + payload_len(data.len(), i)) as int));
        let end = if k * 4088 <= data.len() {
            (k * 4088) as int
        } else {
            data.len() as int
        };
        assert(i * 4088 + payload_len(data.len(), i) == end);
        assert(data.take((i * 4088) as int) + data.subrange((i * 4088) as int, end) =~= data.take(end));
    } else {
        assert(data.take(0) =~= Seq::<u8>::empty());
    }
}

/// Cutting a buffer into BulkLoad packets loses and reorders nothing: the
/// payloads of the packets, in order, are the buffer.  Every packet is at
/// most 4096 bytes, its header's length field is its length, and only the
/// last packet is marked END_OF_MESSAGE.
pub proof fn law_packets_carry_buffer(data: Seq<u8>, first_id: u8)
    ensures
        payloads(data, first_id, packet_count(data.len())) == data,
        forall|i: nat|
            i < packet_count(data.len()) ==> {
                let p = #[trigger] packet_spec(data, first_id, i);
                &&& 8 < p.len() <= 4096
                &&& p[2] * 256 + p[3] == p.len()
                &&& (p[1] == 1) == (i + 1 == packet_count(data.len()))
            },
{
    let n = data.len();
    let c = packet_count(n);
    lemma_payloads_prefix(data, first_id, c);
    assert(c * 4088 >= n);
    assert(data.take(n as int) =~= data);
    assert forall|i: nat| i < packet_count(data.len()) implies {
        let p = #[trigger] packet_spec(data, first_id, i);
        &&& 8 < p.len() <= 4096
        &&& p[2] * 256 + p[3] == p.len()
        &&& (p[1] == 1) == (i + 1 == packet_count(data.len()))
    } by {
        let plen = payload_len(n, i);
        assert(i * 4088 < n);
        assert(0 < plen <= 4088);
        let p = packet_spec(data, first_id, i);
        assert(p.len() == 8 + plen);
        assert(((8 + plen) / 256) * 256 + (8 + plen) % 256 == 8 + plen);
    }
}

} // verus!
