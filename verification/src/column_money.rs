//! Reading MONEY and SMALLMONEY from a row of a TDS result: a count of
//! ten-thousandths, read as an exact decimal with four places.
use vstd::prelude::*;
use crate::column_parser::{protocol_error, read_ok, take_u32_le, take_u8, ReadResult};
use crate::decimal::decimal_from_i128_with_scale;
use crate::error::Error;
use crate::text::{chars_of, nat_decimal, push_decimal_u64, push_str_chars, string_of};
use crate::value::{SqlValue, ValueView};
use crate::wire::u32_of;

verus! {

/// The count of ten-thousandths in money bytes: four bytes as a signed
/// integer, or eight as a signed high half followed by an unsigned low
/// half.
pub open spec fn money_cents(b: Seq<u8>, bytes: nat) -> int {
    if bytes == 4 {
        (u32_of(b) as i32) as int
    } else {
        (u32_of(b) as i32) * 4294967296 + u32_of(b.skip(4))
    }
}

/// A money value of `bytes` bytes (0 for NULL, 4 or 8).
pub open spec fn money_value_spec(b: Seq<u8>, bytes: nat) -> ReadResult {
    if bytes == 0 {
        Ok((ValueView::Null, 0))
    } else if bytes == 4 || bytes == 8 {
        let c = money_cents(b, bytes);
        Ok((ValueView::Decimal(c, 4, c < 0), bytes))
    } else {
        Err("invalid money length: "@ + nat_decimal(bytes))
    }
}

/// Reads a money value of `bytes` bytes.
pub fn parse_money_value(buf: &mut &[u8], bytes: usize) -> (r: Result<SqlValue, Error>)
    requires
        bytes == 4 || bytes == 8 ==> old(buf)@.len() >= bytes,
    ensures
        read_ok(r, old(buf)@, final(buf)@, money_value_spec(old(buf)@, bytes as nat)),
{
    let ghost b = buf@;
    if bytes == 0 {
        assert(b.skip(0) =~= b);
        return Ok(SqlValue::Null);
    }
    let cents: i64 = if bytes == 4 {
        take_u32_le(buf) as i32 as i64
    } else if bytes == 8 {
        let high = take_u32_le(buf) as i32;
        let low = take_u32_le(buf);
        assert(b.skip(4).skip(4) =~= b.skip(8));
        (high as i64) * 4294967296 + (low as i64)
    } else {
        let mut msg = chars_of("invalid money length: ");
        push_decimal_u64(&mut msg, bytes as u64);
        return Err(Error::Protocol(string_of(msg.as_slice())));
    };
    match decimal_from_i128_with_scale(cents as i128, 4) {
        Ok(d) => Ok(SqlValue::Decimal(d)),
        Err(_) => {
            // A 64-bit count always fits the 96-bit mantissa.
            proof {
                assert(false);
            }
            Ok(SqlValue::Null)
        },
    }
}

/// Money read after `k` bytes of header.
pub open spec fn read_after(k: nat, r: ReadResult) -> ReadResult {
    match r {
        Ok((v, n)) => Ok((v, n + k)),
        Err(m) => Err(m),
    }
}

/// MONEY (0x3C, eight bytes), SMALLMONEY (0x7A, four bytes) or MONEYN
/// (0x6E, a length byte and that many bytes).
pub open spec fn money_spec(b: Seq<u8>, type_id: u8) -> ReadResult {
    if type_id == 0x6E {
        if b.len() < 1 {
            Err("unexpected EOF reading MoneyN length"@)
        } else if b.len() - 1 < b[0] {
            Err("unexpected EOF reading money data ("@ + nat_decimal(b[0] as nat) + " bytes)"@)
        } else {
            read_after(1, money_value_spec(b.skip(1), b[0] as nat))
        }
    } else {
        let n: nat = if type_id == 0x3C {
            8
        } else {
            4
        };
        if b.len() < n {
            Err("unexpected EOF reading money data ("@ + nat_decimal(n) + " bytes)"@)
        } else {
            money_value_spec(b, n)
        }
    }
}

/// Reads a MONEY, SMALLMONEY or MONEYN value.
pub fn parse_money(buf: &mut &[u8], type_id: u8) -> (r: Result<SqlValue, Error>)
    requires
        type_id == 0x3C || type_id == 0x7A || type_id == 0x6E,
    ensures
        read_ok(r, old(buf)@, final(buf)@, money_spec(old(buf)@, type_id)),
{
    let ghost b = buf@;
    let bytes: usize = if type_id == 0x3C {
        8
    } else if type_id == 0x7A {
        4
    } else {
        if buf.len() < 1 {
            return Err(protocol_error("unexpected EOF reading MoneyN length"));
        }
        take_u8(buf) as usize
    };
    if buf.len() < bytes {
        let mut msg = chars_of("unexpected EOF reading money data (");
        push_decimal_u64(&mut msg, bytes as u64);
        push_str_chars(&mut msg, " bytes)");
        return Err(Error::Protocol(string_of(msg.as_slice())));
    }
    let ghost mid = buf@;
    let r = parse_money_value(buf, bytes);
    proof {
        if type_id == 0x6E {
            assert(mid == b.skip(1));
            match money_value_spec(mid, bytes as nat) {
                Ok((v, n)) => {
                    assert(b.skip(1).skip(n as int) =~= b.skip(n + 1 as int));
                },
                Err(_) => {},
            }
        }
    }
    r
}

} // verus!
