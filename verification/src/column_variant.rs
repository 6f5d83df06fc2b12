//! Reading the value of a SQL_VARIANT for the base types whose value is
//! money, a date-time, a date or Unicode text.  Each reader gets the count
//! of property bytes and of value bytes that the variant's header gives,
//! takes the property bytes and reads the value from what follows.
use vstd::prelude::*;
use crate::column_dates::{
    datetime_read, datetime_value, date_read, day_count, full_parts, read_date, read_full,
    read_small, small_parts,
};
use crate::column_money::{money_value_spec, parse_money_value, read_after};
use crate::column_parser::{
    read_ok, string_from_utf16, take_bytes, take_u32_le, take_u64_le, take_u8, units_of, utf16_decode,
    utf16_units, ReadResult,
};
use crate::wire::{u32_of, u64_of};
use crate::error::Error;
use crate::text::{chars_of, string_of};
use crate::value::{SqlValue, ValueView};

verus! {

/// The first property byte, when there is one, else `default`.
pub open spec fn first_prop(b: Seq<u8>, props: nat, default: u8) -> u8 {
    if props >= 1 {
        b[0]
    } else {
        default
    }
}

/// Takes the property bytes, giving the first one (or `default` when there
/// are none).
pub(crate) fn take_props(buf: &mut &[u8], props: usize, default: u8) -> (r: u8)
    requires
        old(buf)@.len() >= props,
    ensures
        r == first_prop(old(buf)@, props as nat, default),
        final(buf)@ == old(buf)@.skip(props as int),
{
    let ghost b = buf@;
    if props >= 1 {
        let v = take_u8(buf);
        let _ = take_bytes(buf, props - 1);
        assert(b.skip(1).skip(props - 1) =~= b.skip(props as int));
        v
    } else {
        assert(b.skip(0) =~= b);
        default
    }
}

/// FLOATN in a variant: one property byte, the length (8 when absent).  A
/// length of 4 with four bytes of data is a REAL; otherwise eight bytes of
/// data are a FLOAT; less is NULL.
pub open spec fn variant_floatn_spec(b: Seq<u8>, props: nat, data_len: nat) -> ReadResult {
    let len = first_prop(b, props, 8);
    let rest = b.skip(props as int);
    if len == 4 && data_len >= 4 {
        Ok((ValueView::Float(u32_of(rest)), props + 4))
    } else if data_len >= 8 {
        Ok((ValueView::Double(u64_of(rest)), props + 8))
    } else {
        Ok((ValueView::Null, props))
    }
}

/// Reads the FLOATN value of a variant.
pub fn variant_floatn(buf: &mut &[u8], prop_count: usize, data_len: usize) -> (r: Result<SqlValue, Error>)
    requires
        old(buf)@.len() >= prop_count + data_len,
    ensures
        read_ok(r, old(buf)@, final(buf)@, variant_floatn_spec(old(buf)@, prop_count as nat, data_len as nat)),
{
    let ghost b = buf@;
    let len = take_props(buf, prop_count, 8);
    if len == 4 && data_len >= 4 {
        assert(b.skip(prop_count as int).skip(4) =~= b.skip(prop_count + 4));
        Ok(SqlValue::Float(take_u32_le(buf)))
    } else if data_len >= 8 {
        assert(b.skip(prop_count as int).skip(8) =~= b.skip(prop_count + 8));
        Ok(SqlValue::Double(take_u64_le(buf)))
    } else {
        Ok(SqlValue::Null)
    }
}

/// MONEYN in a variant: one property byte, the money length (8 when
/// absent).  A zero length or no data is NULL; a length that the data does
/// not carry skips the data and gives NULL.
pub open spec fn variant_moneyn_spec(b: Seq<u8>, props: nat, data_len: nat) -> ReadResult {
    let len = first_prop(b, props, 8);
    if len == 0 || data_len == 0 {
        Ok((ValueView::Null, props))
    } else if (len == 4 && data_len >= 4) || (len == 8 && data_len >= 8) {
        read_after(props, money_value_spec(b.skip(props as int), len as nat))
    } else {
        Ok((ValueView::Null, props + data_len))
    }
}

/// Reads the MONEYN value of a variant.
pub fn variant_moneyn(buf: &mut &[u8], prop_count: usize, data_len: usize) -> (r: Result<SqlValue, Error>)
    requires
        old(buf)@.len() >= prop_count + data_len,
    ensures
        read_ok(r, old(buf)@, final(buf)@, variant_moneyn_spec(old(buf)@, prop_count as nat, data_len as nat)),
{
    let ghost b = buf@;
    let len = take_props(buf, prop_count, 8);
    if len == 0 || data_len == 0 {
        return Ok(SqlValue::Null);
    }
    if (len == 4 && data_len >= 4) || (len == 8 && data_len >= 8) {
        let ghost mid = buf@;
        let r = parse_money_value(buf, len as usize);
        proof {
            match money_value_spec(mid, len as nat) {
                Ok((v, n)) => {
                    assert(b.skip(prop_count as int).skip(n as int) =~= b.skip(n + prop_count));
                },
                Err(_) => {},
            }
        }
        r
    } else {
        let _ = take_bytes(buf, data_len);
        assert(b.skip(prop_count as int).skip(data_len as int) =~= b.skip(prop_count + data_len));
        Ok(SqlValue::Null)
    }
}

/// DATETIMEN in a variant: one property byte, the length (8 when absent).
/// A length of 4 with four bytes of data is a SMALLDATETIME; otherwise
/// eight bytes of data are a DATETIME; less is NULL.
pub open spec fn variant_datetimen_spec(b: Seq<u8>, props: nat, data_len: nat) -> ReadResult {
    let len = first_prop(b, props, 8);
    let rest = b.skip(props as int);
    if len == 4 && data_len >= 4 {
        read_after(props, datetime_read(small_parts(rest), 4))
    } else if data_len >= 8 {
        read_after(props, datetime_read(full_parts(rest), 8))
    } else {
        Ok((ValueView::Null, props))
    }
}

/// Reads the DATETIMEN value of a variant.
pub fn variant_datetimen(buf: &mut &[u8], prop_count: usize, data_len: usize) -> (r: Result<SqlValue, Error>)
    requires
        old(buf)@.len() >= prop_count + data_len,
    ensures
        read_ok(r, old(buf)@, final(buf)@, variant_datetimen_spec(old(buf)@, prop_count as nat, data_len as nat)),
{
    let ghost b = buf@;
    let len = take_props(buf, prop_count, 8);
    if len == 4 && data_len >= 4 {
        assert(b.skip(prop_count as int).skip(4) =~= b.skip(prop_count + 4));
        datetime_value(read_small(buf))
    } else if data_len >= 8 {
        assert(b.skip(prop_count as int).skip(8) =~= b.skip(prop_count + 8));
        datetime_value(read_full(buf))
    } else {
        Ok(SqlValue::Null)
    }
}

/// DATE in a variant: no properties; three bytes of days after 0001-01-01,
/// NULL when the data is shorter.
pub open spec fn variant_date_spec(b: Seq<u8>, props: nat, data_len: nat) -> ReadResult {
    if data_len < 3 {
        Ok((ValueView::Null, props))
    } else {
        date_read(day_count(b.skip(props as int)), props + 3)
    }
}

/// Reads the DATE value of a variant.
pub fn variant_date(buf: &mut &[u8], prop_count: usize, data_len: usize) -> (r: Result<SqlValue, Error>)
    requires
        old(buf)@.len() >= prop_count + data_len,
    ensures
        read_ok(r, old(buf)@, final(buf)@, variant_date_spec(old(buf)@, prop_count as nat, data_len as nat)),
{
    let ghost b = buf@;
    let _ = take_bytes(buf, prop_count);
    if data_len < 3 {
        return Ok(SqlValue::Null);
    }
    assert(b.skip(prop_count as int).skip(3) =~= b.skip(prop_count + 3));
    read_date(buf)
}

/// NVARCHAR in a variant: the properties (collation and length) are
/// skipped and the data is UTF-16 text (an odd last byte ignored); no data
/// is the empty string.
pub open spec fn variant_nvarchar_spec(b: Seq<u8>, props: nat, data_len: nat) -> ReadResult {
    if data_len == 0 {
        Ok((ValueView::String(Seq::empty()), props))
    } else {
        match utf16_decode(utf16_units(b.skip(props as int).take(data_len as int))) {
            Some(s) => Ok((ValueView::String(s), props + data_len)),
            None => Err("invalid UTF-16 in SQL_VARIANT nvarchar"@),
        }
    }
}

/// Reads the NVARCHAR value of a variant.
pub fn variant_nvarchar(buf: &mut &[u8], prop_count: usize, data_len: usize) -> (r: Result<SqlValue, Error>)
    requires
        old(buf)@.len() >= prop_count + data_len,
    ensures
        read_ok(r, old(buf)@, final(buf)@, variant_nvarchar_spec(old(buf)@, prop_count as nat, data_len as nat)),
{
    let ghost b = buf@;
    let _ = take_bytes(buf, prop_count);
    if data_len == 0 {
        return Ok(SqlValue::String(String::new()));
    }
    let data = take_bytes(buf, data_len);
    assert(b.skip(prop_count as int).skip(data_len as int) =~= b.skip(prop_count + data_len));
    let units = units_of(data);
    match string_from_utf16(units.as_slice()) {
        Some(s) => Ok(SqlValue::String(s)),
        None => Err(Error::Protocol(string_of(chars_of("invalid UTF-16 in SQL_VARIANT nvarchar").as_slice()))),
    }
}

} // verus!
