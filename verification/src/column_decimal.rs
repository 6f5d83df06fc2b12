//! Reading DECIMAL and NUMERIC from a row of a TDS result and from a
//! SQL_VARIANT: a sign byte (0 for negative) and up to sixteen
//! little-endian mantissa bytes, at the column's scale.  Values that an
//! exact 96-bit decimal cannot hold are errors.
use vstd::prelude::*;
use vstd::slice::slice_subrange;
use crate::bulk_insert::or_u8;
use crate::column_parser::{protocol_error, read_ok, take_bytes, take_u8, ColumnMeta, ReadResult};
use crate::decimal::{decimal_error_text, decimal_from_i128_with_scale, max_mantissa};
use crate::error::Error;
use crate::text::{chars_of, nat_decimal, push_decimal_u64, push_str_chars, string_of};
use crate::value::{SqlValue, ValueView};
use crate::wire::{le_value, lemma_le_value_bound, lemma_pow256_mono, pow256, read_le};

verus! {

/// The value of a decimal payload (sign byte and mantissa) at `scale`:
/// NULL when empty, an error when longer than seventeen bytes or out of the
/// decimal's range.
pub open spec fn decimal_payload_spec(p: Seq<u8>, scale: int) -> Result<ValueView, Seq<char>> {
    if p.len() == 0 {
        Ok(ValueView::Null)
    } else if p.len() > 17 {
        Err("invalid DECIMAL length: "@ + nat_decimal(p.len()))
    } else {
        let m = le_value(p.skip(1)) as int;
        let v = if p[0] == 0 {
            -m
        } else {
            m
        };
        if m <= max_mantissa() && scale <= 28 {
            Ok(ValueView::Decimal(v, scale, v < 0))
        } else {
            Err("DECIMAL value out of rust_decimal range: "@ + decimal_error_text(v, scale))
        }
    }
}

/// Decodes a decimal payload at a scale.
fn decode_decimal_payload(p: &[u8], scale: u8) -> (r: Result<SqlValue, Error>)
    ensures
        match decimal_payload_spec(p@, scale as int) {
            Ok(v) => r matches Ok(x) && x@ == v,
            Err(m) => r matches Err(Error::Protocol(t)) && t@ == m,
        },
{
    if p.len() == 0 {
        return Ok(SqlValue::Null);
    }
    if p.len() > 17 {
        let mut msg = chars_of("invalid DECIMAL length: ");
        push_decimal_u64(&mut msg, p.len() as u64);
        return Err(Error::Protocol(string_of(msg.as_slice())));
    }
    let mant = slice_subrange(p, 1, p.len());
    assert(mant@ =~= p@.skip(1));
    let m = read_le(mant);
    let max: u128 = 0xFFFF_FFFF_FFFF_FFFF_FFFF_FFFF;
    let probe: i128 = if m > max {
        if p[0] == 0 {
            -0x1_0000_0000_0000_0000_0000_0000
        } else {
            0x1_0000_0000_0000_0000_0000_0000
        }
    } else if p[0] == 0 {
        -(m as i128)
    } else {
        m as i128
    };
    match decimal_from_i128_with_scale(probe, scale as u32) {
        Ok(d) => Ok(SqlValue::Decimal(d)),
        Err(t) => {
            let mut msg = chars_of("DECIMAL value out of rust_decimal range: ");
            push_str_chars(&mut msg, t.as_str());
            Err(Error::Protocol(string_of(msg.as_slice())))
        },
    }
}

/// DECIMAL / NUMERIC: a length byte (0 for NULL) and the payload.
pub open spec fn decimal_spec(b: Seq<u8>, scale: int) -> ReadResult {
    if b.len() < 1 {
        Err("unexpected EOF reading DECIMAL length"@)
    } else if b.len() - 1 < b[0] {
        Err("unexpected EOF reading DECIMAL"@)
    } else {
        match decimal_payload_spec(b.subrange(1, 1 + b[0]), scale) {
            Ok(v) => Ok((v, (1 + b[0]) as nat)),
            Err(m) => Err(m),
        }
    }
}

/// Reads a DECIMAL or NUMERIC value at the column's scale (0 when it has
/// none).
pub fn parse_decimal(buf: &mut &[u8], col: &ColumnMeta) -> (r: Result<SqlValue, Error>)
    ensures
        read_ok(r, old(buf)@, final(buf)@, decimal_spec(old(buf)@, or_u8(col.scale, 0) as int)),
{
    let ghost b = buf@;
    if buf.len() < 1 {
        return Err(protocol_error("unexpected EOF reading DECIMAL length"));
    }
    let len = take_u8(buf);
    if buf.len() < len as usize {
        return Err(protocol_error("unexpected EOF reading DECIMAL"));
    }
    let scale = match col.scale {
        Some(s) => s,
        None => 0,
    };
    let payload = take_bytes(buf, len as usize);
    assert(payload@ =~= b.subrange(1, 1 + len));
    assert(b.skip(1).skip(len as int) =~= b.skip(1 + len));
    decode_decimal_payload(payload, scale)
}

/// DECIMALN / NUMERICN in a variant: two property bytes, precision and
/// scale (0 when absent); a payload over seventeen bytes is skipped as
/// NULL; the whole data is consumed.
pub open spec fn variant_decimal_spec(b: Seq<u8>, props: nat, data_len: nat) -> ReadResult {
    let scale = if props >= 2 {
        b[1] as int
    } else {
        0
    };
    let rest = b.skip(props as int);
    if data_len > 17 {
        Ok((ValueView::Null, props + data_len))
    } else {
        match decimal_payload_spec(rest.take(data_len as int), scale) {
            Ok(v) => Ok((v, props + data_len)),
            Err(m) => Err(m),
        }
    }
}

/// Reads the DECIMALN or NUMERICN value of a variant.
pub fn variant_decimal(buf: &mut &[u8], prop_count: usize, data_len: usize) -> (r: Result<SqlValue, Error>)
    requires
        old(buf)@.len() >= prop_count + data_len,
    ensures
        read_ok(r, old(buf)@, final(buf)@, variant_decimal_spec(old(buf)@, prop_count as nat, data_len as nat)),
{
    let ghost b = buf@;
    let props = take_bytes(buf, prop_count);
    let scale: u8 = if prop_count >= 2 {
        props[1]
    } else {
        0
    };
    let data = take_bytes(buf, data_len);
    assert(b.skip(prop_count as int).skip(data_len as int) =~= b.skip(prop_count + data_len));
    if data_len > 17 {
        return Ok(SqlValue::Null);
    }
    decode_decimal_payload(data, scale)
}

} // verus!
