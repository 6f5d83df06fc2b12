//! Turning the plaintext of an Always Encrypted column back into a value.
//! The plaintext is the normalized form of the base type: integers as
//! eight bytes, text without length, fixed-size dates and times.
use vstd::prelude::*;
use vstd::slice::slice_subrange;
use crate::bulk_insert::{or_u32, or_u8};
use crate::calendar::{date_and_time, date_from_day_number, date_in_range};
use crate::column_dates::{
    ae_date_from_bytes, ae_date_spec, ae_time_from_bytes, ae_time_spec, datetime_from_wire, day_count,
    full_parts, small_parts, smalldatetime_from_wire,
};
use crate::column_money::{money_cents, parse_money_value};
use crate::column_parser::{
    decode_guid_bytes, decrypted_array, pad_fixed_char, pad_spec, string_from_utf16, take_u16_le,
    take_u32_le, take_u64_le, take_u8, units_of, utf16_decode, utf16_units, ColumnMeta,
};
use crate::decimal::{decimal_error_text, decimal_fits, decimal_from_i128_with_scale};
use crate::error::Error;
use crate::text::{chars_of, int_decimal, nat_decimal, push_decimal_i64, push_decimal_u64, push_str_chars, string_of};
use crate::value::{DateTimeOffset, SqlValue, ValueView};
use crate::wire::{guid_swap, u16_of, u32_of, u64_of};

verus! {

/// The text of Windows-1252 bytes as `encoding_rs` decodes them (a byte
/// order mark at the start selects UTF-8 or UTF-16 instead), or `None`
/// when the decoder reports malformed input.
pub uninterp spec fn windows_1252_decoded(b: Seq<u8>) -> Option<Seq<char>>;

/// `encoding_rs::WINDOWS_1252.decode`: the decoded text, `None` when the
/// decoder reports errors.  The result is named, not stated.
#[verifier::external_body]
pub(crate) fn decode_windows_1252(b: &[u8]) -> (r: Option<String>)
    ensures
        match windows_1252_decoded(b@) {
            Some(s) => r matches Some(x) && x@ == s,
            None => r is None,
        },
{
    let (s, _, had_errors) = encoding_rs::WINDOWS_1252.decode(b);
    if had_errors {
        None
    } else {
        Some(s.into_owned())
    }
}

/// Why decoding fails: malformed wire data or a malformed decrypted value.
pub ghost enum Failure {
    Protocol(Seq<char>),
    Encryption(Seq<char>),
}

/// How a result relates to the value or failure it should be.
pub open spec fn failure_ok(r: Result<SqlValue, Error>, want: Result<ValueView, Failure>) -> bool {
    match want {
        Ok(v) => r matches Ok(x) && x@ == v,
        Err(Failure::Protocol(m)) => r matches Err(Error::Protocol(t)) && t@ == m,
        Err(Failure::Encryption(m)) => r matches Err(Error::Encryption(t)) && t@ == m,
    }
}

/// A decrypted value of the wrong size.
pub open spec fn size_error(what: Seq<char>, len: nat, n: nat) -> Failure {
    Failure::Encryption(
        "decrypted "@ + what + " has "@ + nat_decimal(len) + " bytes, expected "@ + nat_decimal(n),
    )
}

/// BIT, BITN, TINYINT, SMALLINT, INT, BIGINT and INTN.
pub open spec fn is_int_type(t: u8) -> bool {
    t == 0x32 || t == 0x68 || t == 0x30 || t == 0x34 || t == 0x38 || t == 0x7F || t == 0x26
}

/// DECIMAL, NUMERIC and their nullable forms.
pub open spec fn is_decimal_type(t: u8) -> bool {
    t == 0x37 || t == 0x3F || t == 0x6A || t == 0x6C
}

/// An integer of the base type: BIT is whether it is non-zero, the others
/// keep the low bytes of their width (INTN's width is its maximum length,
/// four bytes when that is not 1, 2 or 8).
pub open spec fn int_value(t: u8, max_length: Option<u32>, v: i64) -> ValueView {
    if t == 0x32 || t == 0x68 {
        ValueView::Bool(v != 0)
    } else if t == 0x30 {
        ValueView::TinyInt(v as u8)
    } else if t == 0x34 {
        ValueView::SmallInt(v as i16)
    } else if t == 0x7F {
        ValueView::BigInt(v)
    } else if t == 0x26 {
        match max_length {
            Some(1) => ValueView::TinyInt(v as u8),
            Some(2) => ValueView::SmallInt(v as i16),
            Some(8) => ValueView::BigInt(v),
            _ => ValueView::Int(v as i32),
        }
    } else {
        ValueView::Int(v as i32)
    }
}

/// The sixteen magnitude bytes of a decrypted decimal as an unsigned
/// number.
pub open spec fn decimal_magnitude(p: Seq<u8>) -> int {
    u64_of(p.skip(1)) + 18446744073709551616 * u64_of(p.skip(9))
}

/// The signed mantissa of a decrypted decimal: the magnitude taken as a
/// 128-bit two's-complement number, negated when the sign byte is 0.
pub open spec fn decimal_signed(p: Seq<u8>) -> int {
    let m = decimal_magnitude(p);
    let wrapped = if m < 0x8000_0000_0000_0000_0000_0000_0000_0000 {
        m
    } else {
        m - 0x1_0000_0000_0000_0000_0000_0000_0000_0000
    };
    if p[0] == 0 {
        -wrapped
    } else {
        wrapped
    }
}

/// The one decimal plaintext whose negation overflows 128 bits: sign byte
/// 0 and magnitude 2^127.
pub open spec fn negation_overflows(p: Seq<u8>, t: u8) -> bool {
    is_decimal_type(t) && p.len() == 17 && p[0] == 0 && decimal_magnitude(p)
        == 0x8000_0000_0000_0000_0000_0000_0000_0000
}

/// A date-time from wire parts, its failure a protocol error.
pub open spec fn wire_datetime(p: Result<(int, int, int), Seq<char>>) -> Result<ValueView, Failure> {
    match p {
        Ok((d, s, n)) => Ok(ValueView::DateTime(d, s, n)),
        Err(m) => Err(Failure::Protocol(m)),
    }
}

/// The value of decrypted plaintext `p` of a column whose base type is
/// described by `m`; `base_type_name` names the base type in the error for
/// types not handled.
pub open spec fn denormalize_spec(p: Seq<u8>, m: ColumnMeta, base_type_name: Seq<char>) -> Result<ValueView, Failure> {
    let t = m.type_id;
    if is_int_type(t) {
        if p.len() != 8 {
            Err(size_error("integer"@, p.len(), 8))
        } else {
            Ok(int_value(t, m.max_length, u64_of(p) as i64))
        }
    } else if t == 0x3B || (t == 0x6D && m.max_length == Some(4u32)) {
        if p.len() != 4 {
            Err(size_error("REAL"@, p.len(), 4))
        } else {
            Ok(ValueView::Float(u32_of(p)))
        }
    } else if t == 0x3E || t == 0x6D {
        if p.len() != 8 {
            Err(size_error("FLOAT"@, p.len(), 8))
        } else {
            Ok(ValueView::Double(u64_of(p)))
        }
    } else if t == 0xE7 || t == 0xEF {
        if p.len() % 2 != 0 {
            Err(
                Failure::Encryption(
                    "decrypted NVARCHAR has an odd byte length ("@ + nat_decimal(p.len()) + ")"@,
                ),
            )
        } else {
            match utf16_decode(utf16_units(p)) {
                None => Err(Failure::Encryption("decrypted NVARCHAR is not valid UTF-16"@)),
                Some(s) => Ok(
                    ValueView::String(
                        if t == 0xEF {
                            pad_spec(s, or_u32(m.max_length, 0) as nat / 2)
                        } else {
                            s
                        },
                    ),
                ),
            }
        }
    } else if t == 0xAF || t == 0x2F || t == 0xA7 || t == 0x27 {
        match windows_1252_decoded(p) {
            None => Err(Failure::Encryption("decrypted CHAR is not valid Windows-1252"@)),
            Some(s) => Ok(
                ValueView::String(
                    if t == 0x2F || t == 0xAF {
                        pad_spec(s, or_u32(m.max_length, 0) as nat)
                    } else {
                        s
                    },
                ),
            ),
        }
    } else if t == 0xA5 || t == 0xAD || t == 0x25 || t == 0x2D {
        Ok(ValueView::Binary(p))
    } else if t == 0x24 {
        if p.len() != 16 {
            Err(size_error("uniqueidentifier"@, p.len(), 16))
        } else {
            Ok(ValueView::Uuid(guid_swap(p)))
        }
    } else if t == 0x28 {
        if p.len() != 3 {
            Err(size_error("date"@, p.len(), 3))
        } else if date_in_range(day_count(p) + 1) {
            Ok(ValueView::Date(day_count(p) + 1))
        } else {
            Err(
                Failure::Encryption(
                    "decrypted DATE day count "@ + nat_decimal(day_count(p) as nat)
                        + " is out of range"@,
                ),
            )
        }
    } else if is_decimal_type(t) {
        if p.len() != 17 {
            Err(size_error("decimal"@, p.len(), 17))
        } else {
            let v = decimal_signed(p);
            let sc = or_u8(m.scale, 0) as int;
            if decimal_fits(v, sc) {
                Ok(ValueView::Decimal(v, sc, v < 0))
            } else {
                Err(
                    Failure::Encryption(
                        "decrypted DECIMAL out of range: "@ + decimal_error_text(v, sc),
                    ),
                )
            }
        }
    } else if t == 0x3C || t == 0x7A || t == 0x6E {
        if p.len() != 8 {
            Err(
                Failure::Encryption(
                    "decrypted MONEY has "@ + nat_decimal(p.len()) + " bytes, expected 8"@,
                ),
            )
        } else {
            let c = money_cents(p, 8);
            Ok(ValueView::Decimal(c, 4, c < 0))
        }
    } else if t == 0x29 {
        match ae_time_spec(p) {
            Ok((s, n)) => Ok(ValueView::Time(s, n)),
            Err(e) => Err(Failure::Encryption(e)),
        }
    } else if t == 0x2A {
        if p.len() != 8 {
            Err(
                Failure::Encryption(
                    "decrypted DATETIME2 has "@ + nat_decimal(p.len()) + " bytes, expected 8"@,
                ),
            )
        } else {
            match ae_time_spec(p.take(5)) {
                Err(e) => Err(Failure::Encryption(e)),
                Ok((s, n)) => match ae_date_spec(p.subrange(5, 8)) {
                    Err(e) => Err(Failure::Encryption(e)),
                    Ok(d) => Ok(ValueView::DateTime(d, s, n)),
                },
            }
        }
    } else if t == 0x2B {
        if p.len() != 10 {
            Err(
                Failure::Encryption(
                    "decrypted DATETIMEOFFSET has "@ + nat_decimal(p.len()) + " bytes, expected 10"@,
                ),
            )
        } else {
            match ae_time_spec(p.take(5)) {
                Err(e) => Err(Failure::Encryption(e)),
                Ok((s, n)) => match ae_date_spec(p.subrange(5, 8)) {
                    Err(e) => Err(Failure::Encryption(e)),
                    Ok(d) => {
                        let off = u16_of(p.skip(8)) as i16;
                        if -1440 < off < 1440 {
                            Ok(ValueView::DateTimeOffset(d, s, n, off))
                        } else {
                            Err(
                                Failure::Encryption(
                                    "decrypted DATETIMEOFFSET offset "@ + int_decimal(off as int)
                                        + " invalid"@,
                                ),
                            )
                        }
                    },
                },
            }
        }
    } else if t == 0x3D || t == 0x3A || t == 0x6F {
        if p.len() == 8 {
            wire_datetime(full_parts(p))
        } else if p.len() == 4 {
            wire_datetime(small_parts(p))
        } else {
            Err(
                Failure::Encryption(
                    "decrypted DATETIME has "@ + nat_decimal(p.len()) + " bytes, expected 4 or 8"@,
                ),
            )
        }
    } else {
        Err(
            Failure::Encryption(
                "Always Encrypted read is not yet implemented for base type "@ + base_type_name,
            ),
        )
    }
}

/// An error with a message made of a prefix, a count and a suffix.
fn counted_error(prefix: &str, n: usize, suffix: &str) -> (r: Error)
    ensures
        r matches Error::Encryption(t) && t@ == prefix@ + nat_decimal(n as nat) + suffix@,
{
    let mut msg = chars_of(prefix);
    push_decimal_u64(&mut msg, n as u64);
    push_str_chars(&mut msg, suffix);
    Error::Encryption(string_of(msg.as_slice()))
}

/// An error with a fixed message.
fn fixed_error(m: &str) -> (r: Error)
    ensures
        r matches Error::Encryption(t) && t@ == m@,
{
    Error::Encryption(string_of(chars_of(m).as_slice()))
}

/// Decodes an integer-family plaintext.
fn denormalize_int(p: &[u8], base: &ColumnMeta) -> (r: Result<SqlValue, Error>)
    requires
        is_int_type(base.type_id),
    ensures
        failure_ok(r, denormalize_spec(p@, *base, Seq::empty())),
{
    match decrypted_array::<8>(p, "integer") {
        Err(e) => return Err(e),
        Ok(_) => {},
    }
    let t = base.type_id;
    let mut c: &[u8] = p;
    let v = take_u64_le(&mut c) as i64;
    let value = if t == 0x32 || t == 0x68 {
        SqlValue::Bool(v != 0)
    } else if t == 0x30 {
        SqlValue::TinyInt(v as u8)
    } else if t == 0x34 {
        SqlValue::SmallInt(v as i16)
    } else if t == 0x7F {
        SqlValue::BigInt(v)
    } else if t == 0x26 {
        match base.max_length {
            Some(1) => SqlValue::TinyInt(v as u8),
            Some(2) => SqlValue::SmallInt(v as i16),
            Some(8) => SqlValue::BigInt(v),
            _ => SqlValue::Int(v as i32),
        }
    } else {
        SqlValue::Int(v as i32)
    };
    Ok(value)
}

/// Decodes a DECIMAL plaintext: a sign byte and sixteen magnitude bytes.
fn denormalize_decimal(p: &[u8], base: &ColumnMeta) -> (r: Result<SqlValue, Error>)
    requires
        is_decimal_type(base.type_id),
        !negation_overflows(p@, base.type_id),
    ensures
        failure_ok(r, denormalize_spec(p@, *base, Seq::empty())),
{
    match decrypted_array::<17>(p, "decimal") {
        Err(e) => return Err(e),
        Ok(_) => {},
    }
    let ghost b = p@;
    let mut c: &[u8] = p;
    let sign = take_u8(&mut c);
    let lo = take_u64_le(&mut c);
    let hi = take_u64_le(&mut c);
    assert(b.skip(1).skip(8) =~= b.skip(9));
    let mag: u128 = (hi as u128) * 0x1_0000_0000_0000_0000 + (lo as u128);
    let wrapped: i128 = if mag < 0x8000_0000_0000_0000_0000_0000_0000_0000 {
        mag as i128
    } else {
        ((mag - 0x8000_0000_0000_0000_0000_0000_0000_0000) as i128) - 0x7FFF_FFFF_FFFF_FFFF_FFFF_FFFF_FFFF_FFFF - 1
    };
    let signed: i128 = if sign == 0 {
        -wrapped
    } else {
        wrapped
    };
    let scale: u32 = match base.scale {
        Some(s) => s as u32,
        None => 0,
    };
    match decimal_from_i128_with_scale(signed, scale) {
        Ok(d) => Ok(SqlValue::Decimal(d)),
        Err(e) => {
            let mut msg = chars_of("decrypted DECIMAL out of range: ");
            push_str_chars(&mut msg, e.as_str());
            Err(Error::Encryption(string_of(msg.as_slice())))
        },
    }
}

/// Decodes a text plaintext: UTF-16 for NVARCHAR and NCHAR, Windows-1252
/// for the single-byte types; fixed-width types are padded with spaces to
/// their declared length.
fn denormalize_text(p: &[u8], base: &ColumnMeta) -> (r: Result<SqlValue, Error>)
    requires
        base.type_id == 0xE7 || base.type_id == 0xEF || base.type_id == 0xAF || base.type_id == 0x2F
            || base.type_id == 0xA7 || base.type_id == 0x27,
    ensures
        failure_ok(r, denormalize_spec(p@, *base, Seq::empty())),
{
    let t = base.type_id;
    let declared: u32 = match base.max_length {
        Some(n) => n,
        None => 0,
    };
    if t == 0xE7 || t == 0xEF {
        if p.len() % 2 != 0 {
            return Err(counted_error("decrypted NVARCHAR has an odd byte length (", p.len(), ")"));
        }
        let units = units_of(p);
        match string_from_utf16(units.as_slice()) {
            None => Err(fixed_error("decrypted NVARCHAR is not valid UTF-16")),
            Some(s) => {
                if t == 0xEF {
                    Ok(SqlValue::String(pad_fixed_char(s, declared as usize / 2)))
                } else {
                    Ok(SqlValue::String(s))
                }
            },
        }
    } else {
        match decode_windows_1252(p) {
            None => Err(fixed_error("decrypted CHAR is not valid Windows-1252")),
            Some(s) => {
                if t == 0x2F || t == 0xAF {
                    Ok(SqlValue::String(pad_fixed_char(s, declared as usize)))
                } else {
                    Ok(SqlValue::String(s))
                }
            },
        }
    }
}

/// Decodes a date or time plaintext: DATE, TIME, DATETIME2, and the legacy
/// DATETIME and SMALLDATETIME (whose normalized form is the wire form).
fn denormalize_temporal(p: &[u8], base: &ColumnMeta) -> (r: Result<SqlValue, Error>)
    requires
        base.type_id == 0x28 || base.type_id == 0x29 || base.type_id == 0x2A || base.type_id == 0x2B
            || base.type_id == 0x3D || base.type_id == 0x3A || base.type_id == 0x6F,
    ensures
        failure_ok(r, denormalize_spec(p@, *base, Seq::empty())),
{
    let t = base.type_id;
    if t == 0x28 {
        match decrypted_array::<3>(p, "date") {
            Err(e) => return Err(e),
            Ok(_) => {},
        }
        let days: u32 = (p[0] as u32) + 256 * (p[1] as u32) + 65536 * (p[2] as u32);
        match date_from_day_number(days as i32 + 1) {
            Some(d) => Ok(SqlValue::Date(d)),
            None => Err(counted_error("decrypted DATE day count ", days as usize, " is out of range")),
        }
    } else if t == 0x29 {
        match ae_time_from_bytes(p) {
            Ok(time) => Ok(SqlValue::Time(time)),
            Err(e) => Err(e),
        }
    } else if t == 0x2A {
        if p.len() != 8 {
            return Err(counted_error("decrypted DATETIME2 has ", p.len(), " bytes, expected 8"));
        }
        let time = match ae_time_from_bytes(slice_subrange(p, 0, 5)) {
            Ok(x) => x,
            Err(e) => return Err(e),
        };
        assert(p@.subrange(0, 5) =~= p@.take(5));
        let date = match ae_date_from_bytes(slice_subrange(p, 5, 8)) {
            Ok(x) => x,
            Err(e) => return Err(e),
        };
        Ok(SqlValue::DateTime(date_and_time(&date, time)))
    } else if t == 0x2B {
        if p.len() != 10 {
            return Err(counted_error("decrypted DATETIMEOFFSET has ", p.len(), " bytes, expected 10"));
        }
        let time = match ae_time_from_bytes(slice_subrange(p, 0, 5)) {
            Ok(x) => x,
            Err(e) => return Err(e),
        };
        assert(p@.subrange(0, 5) =~= p@.take(5));
        let date = match ae_date_from_bytes(slice_subrange(p, 5, 8)) {
            Ok(x) => x,
            Err(e) => return Err(e),
        };
        let mut c: &[u8] = slice_subrange(p, 8, 10);
        assert(c@ =~= p@.skip(8));
        let off = take_u16_le(&mut c) as i16;
        if -1440 < off && off < 1440 {
            Ok(SqlValue::DateTimeOffset(DateTimeOffset { utc: date_and_time(&date, time), offset_minutes: off }))
        } else {
            let mut msg = chars_of("decrypted DATETIMEOFFSET offset ");
            push_decimal_i64(&mut msg, off as i64);
            push_str_chars(&mut msg, " invalid");
            Err(Error::Encryption(string_of(msg.as_slice())))
        }
    } else if p.len() == 8 {
        let ghost b = p@;
        let mut c: &[u8] = p;
        let days = take_u32_le(&mut c) as i32;
        let ticks = take_u32_le(&mut c);
        match datetime_from_wire(days as i64, ticks as u64) {
            Ok(dt) => Ok(SqlValue::DateTime(dt)),
            Err(e) => Err(e),
        }
    } else if p.len() == 4 {
        let ghost b = p@;
        let mut c: &[u8] = p;
        let days = take_u16_le(&mut c);
        let minutes = take_u16_le(&mut c);
        match smalldatetime_from_wire(days as i64, minutes as u32) {
            Ok(dt) => Ok(SqlValue::DateTime(dt)),
            Err(e) => Err(e),
        }
    } else {
        Err(counted_error("decrypted DATETIME has ", p.len(), " bytes, expected 4 or 8"))
    }
}

/// Turns decrypted plaintext back into a value of the column's base type.
/// Base types this reader does not handle are an error naming the type by
/// `base_type_name`.
pub fn denormalize_decrypted(plaintext: Vec<u8>, base: &ColumnMeta, base_type_name: &str) -> (r: Result<SqlValue, Error>)
    requires
        !negation_overflows(plaintext@, base.type_id),
    ensures
        failure_ok(r, denormalize_spec(plaintext@, *base, base_type_name@)),
{
    let t = base.type_id;
    let p = plaintext.as_slice();
    if t == 0x32 || t == 0x68 || t == 0x30 || t == 0x34 || t == 0x38 || t == 0x7F || t == 0x26 {
        denormalize_int(p, base)
    } else if t == 0x3B || (t == 0x6D && base.max_length == Some(4u32)) {
        match decrypted_array::<4>(p, "REAL") {
            Err(e) => Err(e),
            Ok(_) => {
                let mut c: &[u8] = p;
                Ok(SqlValue::Float(take_u32_le(&mut c)))
            },
        }
    } else if t == 0x3E || t == 0x6D {
        match decrypted_array::<8>(p, "FLOAT") {
            Err(e) => Err(e),
            Ok(_) => {
                let mut c: &[u8] = p;
                Ok(SqlValue::Double(take_u64_le(&mut c)))
            },
        }
    } else if t == 0xE7 || t == 0xEF || t == 0xAF || t == 0x2F || t == 0xA7 || t == 0x27 {
        denormalize_text(p, base)
    } else if t == 0xA5 || t == 0xAD || t == 0x25 || t == 0x2D {
        Ok(SqlValue::Binary(plaintext))
    } else if t == 0x24 {
        match decrypted_array::<16>(p, "uniqueidentifier") {
            Err(e) => Err(e),
            Ok(_) => {
                let mut c: &[u8] = p;
                assert(p@.take(16) =~= p@);
                Ok(decode_guid_bytes(&mut c))
            },
        }
    } else if t == 0x37 || t == 0x3F || t == 0x6A || t == 0x6C {
        denormalize_decimal(p, base)
    } else if t == 0x3C || t == 0x7A || t == 0x6E {
        if p.len() != 8 {
            return Err(counted_error("decrypted MONEY has ", p.len(), " bytes, expected 8"));
        }
        let mut c: &[u8] = p;
        parse_money_value(&mut c, 8)
    } else if t == 0x28 || t == 0x29 || t == 0x2A || t == 0x2B || t == 0x3D || t == 0x3A || t == 0x6F {
        denormalize_temporal(p, base)
    } else {
        let mut msg = chars_of("Always Encrypted read is not yet implemented for base type ");
        push_str_chars(&mut msg, base_type_name);
        Err(Error::Encryption(string_of(msg.as_slice())))
    }
}


/// A decrypted DATETIMEOFFSET carries the signed 16-bit little-endian
/// minutes of its last two bytes as its offset, west of UTC negative; a
/// value is only produced when that offset is less than a day either way.
pub proof fn law_decrypted_offset_is_kept(p: Seq<u8>, m: ColumnMeta, name: Seq<char>)
    ensures
        denormalize_spec(p, m, name) matches Ok(ValueView::DateTimeOffset(_, _, _, off)) ==> {
            let raw = p[8] + 256 * p[9];
            let w = if raw >= 32768 {
                raw - 65536
            } else {
                raw
            };
            &&& p.len() == 10
            &&& off == w
            &&& -1440 < w < 1440
        },
{
    if p.len() == 10 {
        let x = u16_of(p.skip(8));
        assert(p.skip(8)[0] == p[8] && p.skip(8)[1] == p[9]);
        crate::column_time::lemma_i16_of_u16(x);
    }
}

} // verus!
