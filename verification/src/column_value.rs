//! Reading one column value of any type from a row of a TDS result, and
//! the SQL_VARIANT value, which carries its own base type.
use vstd::prelude::*;
use crate::bulk_insert::or_u8;
use crate::column_dates::{
    date_spec, datetimen_spec, legacy_datetime_spec, legacy_smalldatetime_spec, parse_date,
    parse_datetimen, parse_legacy_datetime, parse_legacy_smalldatetime,
};
use crate::column_decimal::{decimal_spec, parse_decimal, variant_decimal, variant_decimal_spec};
use crate::column_money::{money_spec, parse_money, read_after};
use crate::column_parser::{
    bigvarbinary_spec, bitn_spec, decode_guid_bytes, default_binary_spec, floatn_spec, guid_spec,
    intn_spec, legacy_varbinary_spec, nvarchar_spec, parse_bigvarbinary, parse_bitn,
    parse_default_binary, parse_floatn, parse_guid, parse_intn, parse_legacy_varbinary,
    parse_nvarchar, parse_plp_nvarchar, parse_plp_varbinary, parse_xml, plp_spec, plp_text_spec,
    protocol_error, read_ok, take_bytes, take_u16_le, take_u32_le, take_u64_le, take_u8,
    ColumnMeta, ReadResult,
};
use crate::column_text::{
    bigvarchar_spec, legacy_varchar_spec, parse_bigvarchar, parse_legacy_varchar,
    parse_plp_varchar, plp_varchar_spec, variant_varchar, variant_varchar_spec,
};
use crate::column_time::{
    datetime2_spec, datetimeoffset_spec, parse_datetime2, parse_datetimeoffset, parse_time,
    time_spec, variant_datetime2, variant_datetime2_spec, variant_datetimeoffset,
    variant_datetimeoffset_spec, variant_time, variant_time_spec,
};
use crate::column_variant::{
    variant_date, variant_date_spec, variant_datetimen, variant_datetimen_spec, variant_floatn,
    variant_floatn_spec, variant_moneyn, variant_moneyn_spec, variant_nvarchar,
    variant_nvarchar_spec,
};
use crate::error::Error;
use crate::text::{chars_of, nat_decimal, push_decimal_u64, string_of};
use crate::value::{SqlValue, ValueView};
use crate::wire::{guid_swap, u16_of, u32_of, u64_of};

verus! {

/// A PLP value read as binary data.
pub open spec fn plp_binary_read(b: Seq<u8>) -> ReadResult {
    match plp_spec(b) {
        Ok((None, n)) => Ok((ValueView::Null, n)),
        Ok((Some(d), n)) => Ok((ValueView::Binary(d), n)),
        Err(m) => Err(m),
    }
}

/// A PLP value read as UTF-16 text.
pub open spec fn plp_nvarchar_read(b: Seq<u8>) -> ReadResult {
    match plp_text_spec(b) {
        Ok((None, n)) => Ok((ValueView::Null, n)),
        Ok((Some(s), n)) => Ok((ValueView::String(s), n)),
        Err(m) => Err(m),
    }
}

/// A PLP value read as XML text.
pub open spec fn xml_read(b: Seq<u8>) -> ReadResult {
    match plp_text_spec(b) {
        Ok((None, n)) => Ok((ValueView::Null, n)),
        Ok((Some(s), n)) => Ok((ValueView::Xml(s), n)),
        Err(m) => Err(m),
    }
}

// ---------------------------------------------------------------------------
// SQL_VARIANT
// ---------------------------------------------------------------------------

/// A fixed-width integer of a variant: NULL when the data is shorter.
pub open spec fn variant_int(r: Seq<u8>, props: nat, data_len: nat, width: nat, v: ValueView) -> ReadResult {
    if data_len < width {
        Ok((ValueView::Null, props))
    } else {
        Ok((v, props + width))
    }
}

/// The value of a variant whose base type is a fixed-width integer, BIT
/// or UNIQUEIDENTIFIER.
pub open spec fn variant_fixed_spec(base: u8, r: Seq<u8>, props: nat, data_len: nat) -> ReadResult {
    let v = r.skip(props as int);
    if base == 0x30 {
        variant_int(r, props, data_len, 1, ValueView::TinyInt(v[0]))
    } else if base == 0x32 {
        variant_int(r, props, data_len, 1, ValueView::Bool(v[0] != 0))
    } else if base == 0x34 {
        variant_int(r, props, data_len, 2, ValueView::SmallInt(u16_of(v) as i16))
    } else if base == 0x38 {
        variant_int(r, props, data_len, 4, ValueView::Int(u32_of(v) as i32))
    } else if base == 0x7F {
        variant_int(r, props, data_len, 8, ValueView::BigInt(u64_of(v) as i64))
    } else {
        variant_int(r, props, data_len, 16, ValueView::Uuid(guid_swap(v.take(16))))
    }
}

/// The value of a variant of base type `base`, read from `r` (after the
/// header) with its property and data byte counts.  Types without a reader
/// of their own are binary data.
pub open spec fn variant_value_spec(base: u8, r: Seq<u8>, props: nat, data_len: nat) -> ReadResult {
    let v = r.skip(props as int);
    if base == 0x30 || base == 0x32 || base == 0x34 || base == 0x38 || base == 0x7F || base == 0x24 {
        variant_fixed_spec(base, r, props, data_len)
    } else if base == 0x6D {
        variant_floatn_spec(r, props, data_len)
    } else if base == 0x6E {
        variant_moneyn_spec(r, props, data_len)
    } else if base == 0x6F {
        variant_datetimen_spec(r, props, data_len)
    } else if base == 0x6A || base == 0x6C {
        variant_decimal_spec(r, props, data_len)
    } else if base == 0x28 {
        variant_date_spec(r, props, data_len)
    } else if base == 0x29 {
        variant_time_spec(r, props, data_len)
    } else if base == 0x2A {
        variant_datetime2_spec(r, props, data_len)
    } else if base == 0x2B {
        variant_datetimeoffset_spec(r, props, data_len)
    } else if base == 0xA7 || base == 0x2F || base == 0x27 {
        variant_varchar_spec(r, props, data_len)
    } else if base == 0xE7 || base == 0xEF {
        variant_nvarchar_spec(r, props, data_len)
    } else {
        Ok((ValueView::Binary(v.take(data_len as int)), props + data_len))
    }
}

/// SQL_VARIANT: a 4-byte total length (0 for NULL), the base type, the
/// count of property bytes, the properties and the value.
pub open spec fn sql_variant_spec(b: Seq<u8>) -> ReadResult {
    if b.len() < 4 {
        Err("unexpected EOF reading SQL_VARIANT length"@)
    } else if u32_of(b) == 0 {
        Ok((ValueView::Null, 4))
    } else if b.len() - 4 < u32_of(b) {
        Err("unexpected EOF reading SQL_VARIANT data"@)
    } else if u32_of(b) < 2 {
        Err("SQL_VARIANT too short for type info"@)
    } else if b.len() - 6 < b[5] {
        Err("unexpected EOF reading SQL_VARIANT properties"@)
    } else {
        let d = u32_of(b) - 2 - b[5];
        read_after(
            6,
            variant_value_spec(
                b[4],
                b.skip(6),
                b[5] as nat,
                if d >= 0 {
                    d as nat
                } else {
                    0
                },
            ),
        )
    }
}

/// Reads a fixed-width integer of a variant.
fn variant_fixed(buf: &mut &[u8], base: u8, prop_count: usize, data_len: usize) -> (r: Result<SqlValue, Error>)
    requires
        old(buf)@.len() >= prop_count + data_len,
        base == 0x30 || base == 0x32 || base == 0x34 || base == 0x38 || base == 0x7F || base == 0x24,
    ensures
        read_ok(r, old(buf)@, final(buf)@, variant_fixed_spec(base, old(buf)@, prop_count as nat, data_len as nat)),
{
    let ghost b = buf@;
    let _ = take_bytes(buf, prop_count);
    let width: usize = if base == 0x30 || base == 0x32 {
        1
    } else if base == 0x34 {
        2
    } else if base == 0x38 {
        4
    } else if base == 0x7F {
        8
    } else {
        16
    };
    if data_len < width {
        return Ok(SqlValue::Null);
    }
    assert(b.skip(prop_count as int).skip(width as int) =~= b.skip(prop_count + width));
    if base == 0x30 {
        Ok(SqlValue::TinyInt(take_u8(buf)))
    } else if base == 0x32 {
        Ok(SqlValue::Bool(take_u8(buf) != 0))
    } else if base == 0x34 {
        Ok(SqlValue::SmallInt(take_u16_le(buf) as i16))
    } else if base == 0x38 {
        Ok(SqlValue::Int(take_u32_le(buf) as i32))
    } else if base == 0x7F {
        Ok(SqlValue::BigInt(take_u64_le(buf) as i64))
    } else {
        Ok(decode_guid_bytes(buf))
    }
}

/// Reads the value of a variant of base type `base`.
fn variant_value(buf: &mut &[u8], base: u8, prop_count: usize, data_len: usize) -> (r: Result<SqlValue, Error>)
    requires
        old(buf)@.len() >= prop_count + data_len,
    ensures
        read_ok(r, old(buf)@, final(buf)@, variant_value_spec(base, old(buf)@, prop_count as nat, data_len as nat)),
{
    if base == 0x30 || base == 0x32 || base == 0x34 || base == 0x38 || base == 0x7F || base == 0x24 {
        variant_fixed(buf, base, prop_count, data_len)
    } else if base == 0x6D {
        variant_floatn(buf, prop_count, data_len)
    } else if base == 0x6E {
        variant_moneyn(buf, prop_count, data_len)
    } else if base == 0x6F {
        variant_datetimen(buf, prop_count, data_len)
    } else if base == 0x6A || base == 0x6C {
        variant_decimal(buf, prop_count, data_len)
    } else if base == 0x28 {
        variant_date(buf, prop_count, data_len)
    } else if base == 0x29 {
        variant_time(buf, prop_count, data_len)
    } else if base == 0x2A {
        variant_datetime2(buf, prop_count, data_len)
    } else if base == 0x2B {
        variant_datetimeoffset(buf, prop_count, data_len)
    } else if base == 0xA7 || base == 0x2F || base == 0x27 {
        variant_varchar(buf, prop_count, data_len)
    } else if base == 0xE7 || base == 0xEF {
        variant_nvarchar(buf, prop_count, data_len)
    } else {
        let ghost b = buf@;
        let _ = take_bytes(buf, prop_count);
        let data = take_bytes(buf, data_len);
        assert(b.skip(prop_count as int).skip(data_len as int) =~= b.skip(prop_count + data_len));
        Ok(SqlValue::Binary(crate::column_parser::copy_bytes(data)))
    }
}

/// Reads a SQL_VARIANT value.
pub fn parse_sql_variant(buf: &mut &[u8]) -> (r: Result<SqlValue, Error>)
    ensures
        read_ok(r, old(buf)@, final(buf)@, sql_variant_spec(old(buf)@)),
{
    let ghost b = buf@;
    if buf.len() < 4 {
        return Err(protocol_error("unexpected EOF reading SQL_VARIANT length"));
    }
    let total = take_u32_le(buf) as usize;
    if total == 0 {
        return Ok(SqlValue::Null);
    }
    if buf.len() < total {
        return Err(protocol_error("unexpected EOF reading SQL_VARIANT data"));
    }
    if total < 2 {
        return Err(protocol_error("SQL_VARIANT too short for type info"));
    }
    let base = take_u8(buf);
    let prop_count = take_u8(buf) as usize;
    assert(b.skip(4).skip(1).skip(1) =~= b.skip(6));
    if buf.len() < prop_count {
        return Err(protocol_error("unexpected EOF reading SQL_VARIANT properties"));
    }
    let data_len: usize = if total >= 2 + prop_count {
        total - 2 - prop_count
    } else {
        0
    };
    let ghost rest = buf@;
    let r = variant_value(buf, base, prop_count, data_len);
    proof {
        match variant_value_spec(base, rest, prop_count as nat, data_len as nat) {
            Ok((v, n)) => {
                assert(b.skip(6).skip(n as int) =~= b.skip(n + 6 as int));
            },
            Err(_) => {},
        }
    }
    r
}

// ---------------------------------------------------------------------------
// Any column
// ---------------------------------------------------------------------------

/// A fixed-width value of `width` bytes, or the EOF error `eof`.
pub open spec fn fixed_read(b: Seq<u8>, width: nat, eof: Seq<char>, v: ValueView) -> ReadResult {
    if b.len() < width {
        Err(eof)
    } else {
        Ok((v, width))
    }
}

/// TINYINT, BIT, SMALLINT, INT, REAL, BIGINT and FLOAT: fixed widths
/// without length bytes.
pub open spec fn fixed_spec(t: u8, b: Seq<u8>) -> ReadResult {
    if t == 0x30 {
        fixed_read(b, 1, "unexpected EOF reading TINYINT"@, ValueView::TinyInt(b[0]))
    } else if t == 0x32 {
        fixed_read(b, 1, "unexpected EOF reading BIT"@, ValueView::Bool(b[0] != 0))
    } else if t == 0x34 {
        fixed_read(b, 2, "unexpected EOF reading SMALLINT"@, ValueView::SmallInt(u16_of(b) as i16))
    } else if t == 0x38 {
        fixed_read(b, 4, "unexpected EOF reading INT"@, ValueView::Int(u32_of(b) as i32))
    } else if t == 0x3B {
        fixed_read(b, 4, "unexpected EOF reading REAL"@, ValueView::Float(u32_of(b)))
    } else if t == 0x7F {
        fixed_read(b, 8, "unexpected EOF reading BIGINT"@, ValueView::BigInt(u64_of(b) as i64))
    } else {
        fixed_read(b, 8, "unexpected EOF reading FLOAT"@, ValueView::Double(u64_of(b)))
    }
}

/// The name by which the error of a type without a reader of its own
/// names it: its type id in decimal.
pub open spec fn other_type_name(t: u8) -> Seq<char> {
    "type "@ + nat_decimal(t as nat)
}

/// The value of a column with metadata `col` read from the front of `b`.
pub open spec fn column_value_spec(col: ColumnMeta, b: Seq<u8>) -> ReadResult {
    let t = col.type_id;
    let coll = col.collation is Some;
    if t == 0x1F {
        Ok((ValueView::Null, 0))
    } else if t == 0x30 || t == 0x32 || t == 0x34 || t == 0x38 || t == 0x3B || t == 0x7F || t == 0x3E {
        fixed_spec(t, b)
    } else if t == 0x3C || t == 0x7A || t == 0x6E {
        money_spec(b, t)
    } else if t == 0x26 {
        intn_spec(b)
    } else if t == 0x6D {
        floatn_spec(b)
    } else if t == 0x68 {
        bitn_spec(b)
    } else if t == 0x37 || t == 0x3F || t == 0x6A || t == 0x6C {
        decimal_spec(b, or_u8(col.scale, 0) as int)
    } else if t == 0x6F {
        datetimen_spec(b)
    } else if t == 0x3D {
        legacy_datetime_spec(b)
    } else if t == 0x3A {
        legacy_smalldatetime_spec(b)
    } else if t == 0x28 {
        date_spec(b)
    } else if t == 0x29 {
        time_spec(b, or_u8(col.scale, 7))
    } else if t == 0x2A {
        datetime2_spec(b, or_u8(col.scale, 7))
    } else if t == 0x2B {
        datetimeoffset_spec(b, or_u8(col.scale, 7))
    } else if t == 0x23 {
        plp_varchar_spec(b, coll)
    } else if t == 0x2F || t == 0x27 {
        legacy_varchar_spec(b, coll)
    } else if t == 0xA7 || t == 0xAF {
        bigvarchar_spec(b, col.max_length, coll)
    } else if t == 0x63 {
        plp_nvarchar_read(b)
    } else if t == 0xE7 || t == 0xEF {
        nvarchar_spec(b, col.max_length)
    } else if t == 0x22 || t == 0xF0 {
        plp_binary_read(b)
    } else if t == 0x2D || t == 0x25 {
        legacy_varbinary_spec(b)
    } else if t == 0xA5 || t == 0xAD {
        bigvarbinary_spec(b, col.max_length)
    } else if t == 0xF1 {
        xml_read(b)
    } else if t == 0x24 {
        guid_spec(b)
    } else if t == 0x62 {
        sql_variant_spec(b)
    } else {
        default_binary_spec(b, other_type_name(t))
    }
}

/// Reads a fixed-width integer, REAL or FLOAT column.
fn parse_fixed(buf: &mut &[u8], t: u8) -> (r: Result<SqlValue, Error>)
    requires
        t == 0x30 || t == 0x32 || t == 0x34 || t == 0x38 || t == 0x3B || t == 0x7F || t == 0x3E,
    ensures
        read_ok(r, old(buf)@, final(buf)@, fixed_spec(t, old(buf)@)),
{
    if t == 0x30 {
        if buf.len() < 1 {
            return Err(protocol_error("unexpected EOF reading TINYINT"));
        }
        Ok(SqlValue::TinyInt(take_u8(buf)))
    } else if t == 0x32 {
        if buf.len() < 1 {
            return Err(protocol_error("unexpected EOF reading BIT"));
        }
        Ok(SqlValue::Bool(take_u8(buf) != 0))
    } else if t == 0x34 {
        if buf.len() < 2 {
            return Err(protocol_error("unexpected EOF reading SMALLINT"));
        }
        Ok(SqlValue::SmallInt(take_u16_le(buf) as i16))
    } else if t == 0x38 {
        if buf.len() < 4 {
            return Err(protocol_error("unexpected EOF reading INT"));
        }
        Ok(SqlValue::Int(take_u32_le(buf) as i32))
    } else if t == 0x3B {
        if buf.len() < 4 {
            return Err(protocol_error("unexpected EOF reading REAL"));
        }
        Ok(SqlValue::Float(take_u32_le(buf)))
    } else if t == 0x7F {
        if buf.len() < 8 {
            return Err(protocol_error("unexpected EOF reading BIGINT"));
        }
        Ok(SqlValue::BigInt(take_u64_le(buf) as i64))
    } else {
        if buf.len() < 8 {
            return Err(protocol_error("unexpected EOF reading FLOAT"));
        }
        Ok(SqlValue::Double(take_u64_le(buf)))
    }
}

/// Reads one column value according to the column's metadata.
pub fn parse_column_value(buf: &mut &[u8], col: &ColumnMeta) -> (r: Result<SqlValue, Error>)
    ensures
        read_ok(r, old(buf)@, final(buf)@, column_value_spec(*col, old(buf)@)),
{
    let t = col.type_id;
    if t == 0x1F {
        assert(buf@.skip(0) =~= buf@);
        Ok(SqlValue::Null)
    } else if t == 0x30 || t == 0x32 || t == 0x34 || t == 0x38 || t == 0x3B || t == 0x7F || t == 0x3E {
        parse_fixed(buf, t)
    } else if t == 0x3C || t == 0x7A || t == 0x6E {
        parse_money(buf, t)
    } else if t == 0x26 {
        parse_intn(buf)
    } else if t == 0x6D {
        parse_floatn(buf)
    } else if t == 0x68 {
        parse_bitn(buf)
    } else if t == 0x37 || t == 0x3F || t == 0x6A || t == 0x6C {
        parse_decimal(buf, col)
    } else if t == 0x6F {
        parse_datetimen(buf)
    } else if t == 0x3D {
        parse_legacy_datetime(buf)
    } else if t == 0x3A {
        parse_legacy_smalldatetime(buf)
    } else if t == 0x28 {
        parse_date(buf)
    } else if t == 0x29 {
        parse_time(buf, col)
    } else if t == 0x2A {
        parse_datetime2(buf, col)
    } else if t == 0x2B {
        parse_datetimeoffset(buf, col)
    } else if t == 0x23 {
        parse_plp_varchar(buf, col.collation)
    } else if t == 0x2F || t == 0x27 {
        parse_legacy_varchar(buf, col)
    } else if t == 0xA7 || t == 0xAF {
        parse_bigvarchar(buf, col)
    } else if t == 0x63 {
        parse_plp_nvarchar(buf)
    } else if t == 0xE7 || t == 0xEF {
        parse_nvarchar(buf, col)
    } else if t == 0x22 || t == 0xF0 {
        parse_plp_varbinary(buf)
    } else if t == 0x2D || t == 0x25 {
        parse_legacy_varbinary(buf)
    } else if t == 0xA5 || t == 0xAD {
        parse_bigvarbinary(buf, col)
    } else if t == 0xF1 {
        parse_xml(buf)
    } else if t == 0x24 {
        parse_guid(buf)
    } else if t == 0x62 {
        parse_sql_variant(buf)
    } else {
        let mut name = chars_of("type ");
        push_decimal_u64(&mut name, t as u64);
        let name = string_of(name.as_slice());
        parse_default_binary(buf, name.as_str())
    }
}

} // verus!
