//! Reading single-byte character data (CHAR, VARCHAR, their MAX and TEXT
//! forms) from a row of a TDS result and from a SQL_VARIANT.  With a
//! collation the bytes are decoded as Windows-1252, the code page of the
//! default Latin1 collations; without one, or when that decoding reports
//! errors, as UTF-8 with malformed sequences replaced.
use vstd::prelude::*;
use crate::bulk::Collation;
use crate::column_decrypt::{decode_windows_1252, windows_1252_decoded};
use crate::column_parser::{
    plp_spec, protocol_error, read_ok, read_plp, take_bytes, take_u16_le, take_u8, u16_len_bytes,
    ColumnMeta, ReadResult,
};
use crate::error::Error;
use crate::value::{SqlValue, ValueView};
use crate::wire::u16_of;

verus! {

/// The text `String::from_utf8_lossy` makes of bytes.
pub uninterp spec fn utf8_lossy(b: Seq<u8>) -> Seq<char>;

/// `String::from_utf8_lossy`: the bytes as UTF-8, malformed sequences
/// replaced by U+FFFD.  The result is named, not stated.
#[verifier::external_body]
fn string_from_utf8_lossy(b: &[u8]) -> (r: String)
    ensures
        r@ == utf8_lossy(b@),
{
    String::from_utf8_lossy(b).into_owned()
}

/// The text of single-byte character data.
pub open spec fn varchar_text(d: Seq<u8>, has_collation: bool) -> Seq<char> {
    if has_collation && windows_1252_decoded(d) is Some {
        windows_1252_decoded(d)->0
    } else {
        utf8_lossy(d)
    }
}

/// Decodes single-byte character data.
pub fn decode_varchar_string(data: &[u8], collation: Option<Collation>) -> (r: String)
    ensures
        r@ == varchar_text(data@, collation is Some),
{
    if collation.is_some() {
        match decode_windows_1252(data) {
            Some(s) => return s,
            None => {},
        }
    }
    string_from_utf8_lossy(data)
}

/// CHAR / VARCHAR (legacy): a length byte (0xFF for NULL) and the bytes.
pub open spec fn legacy_varchar_spec(b: Seq<u8>, has_collation: bool) -> ReadResult {
    if b.len() < 1 {
        Err("unexpected EOF reading legacy varchar length"@)
    } else if b[0] == 0xFF {
        Ok((ValueView::Null, 1))
    } else if b[0] == 0 {
        Ok((ValueView::String(Seq::empty()), 1))
    } else if b.len() - 1 < b[0] {
        Err("unexpected EOF reading legacy varchar data"@)
    } else {
        Ok((ValueView::String(varchar_text(b.subrange(1, 1 + b[0]), has_collation)), (1 + b[0]) as nat))
    }
}

/// Reads a legacy CHAR or VARCHAR value.
pub fn parse_legacy_varchar(buf: &mut &[u8], col: &ColumnMeta) -> (r: Result<SqlValue, Error>)
    ensures
        read_ok(r, old(buf)@, final(buf)@, legacy_varchar_spec(old(buf)@, col.collation is Some)),
{
    let ghost b = buf@;
    if buf.len() < 1 {
        return Err(protocol_error("unexpected EOF reading legacy varchar length"));
    }
    let len = take_u8(buf);
    if len == 0xFF {
        return Ok(SqlValue::Null);
    }
    if len == 0 {
        return Ok(SqlValue::String(String::new()));
    }
    if buf.len() < len as usize {
        return Err(protocol_error("unexpected EOF reading legacy varchar data"));
    }
    let data = take_bytes(buf, len as usize);
    assert(data@ =~= b.subrange(1, 1 + len));
    assert(b.skip(1).skip(len as int) =~= b.skip(1 + len));
    Ok(SqlValue::String(decode_varchar_string(data, col.collation)))
}

/// VARCHAR(MAX) and TEXT: a PLP value of single-byte character data.
pub open spec fn plp_varchar_spec(b: Seq<u8>, has_collation: bool) -> ReadResult {
    match plp_spec(b) {
        Ok((None, n)) => Ok((ValueView::Null, n)),
        Ok((Some(d), n)) => Ok((ValueView::String(varchar_text(d, has_collation)), n)),
        Err(m) => Err(m),
    }
}

/// Reads a PLP value of single-byte character data.
pub fn parse_plp_varchar(buf: &mut &[u8], collation: Option<Collation>) -> (r: Result<SqlValue, Error>)
    ensures
        read_ok(r, old(buf)@, final(buf)@, plp_varchar_spec(old(buf)@, collation is Some)),
{
    match read_plp(buf) {
        Err(e) => Err(e),
        Ok(None) => Ok(SqlValue::Null),
        Ok(Some(d)) => Ok(SqlValue::String(decode_varchar_string(d.as_slice(), collation))),
    }
}

/// BIGVARCHAR / BIGCHAR: PLP for MAX columns, else a 2-byte length (0xFFFF
/// for NULL) and the bytes.
pub open spec fn bigvarchar_spec(b: Seq<u8>, max_length: Option<u32>, has_collation: bool) -> ReadResult {
    if max_length == Some(0xFFFFu32) {
        plp_varchar_spec(b, has_collation)
    } else {
        match u16_len_bytes(b, "varchar"@) {
            Err(m) => Err(m),
            Ok((None, n)) => Ok((ValueView::Null, n)),
            Ok((Some(d), n)) => Ok((ValueView::String(varchar_text(d, has_collation)), n)),
        }
    }
}

/// Reads a BIGVARCHAR or BIGCHAR value.
pub fn parse_bigvarchar(buf: &mut &[u8], col: &ColumnMeta) -> (r: Result<SqlValue, Error>)
    ensures
        read_ok(r, old(buf)@, final(buf)@, bigvarchar_spec(old(buf)@, col.max_length, col.collation is Some)),
{
    if col.max_length == Some(0xFFFFu32) {
        return parse_plp_varchar(buf, col.collation);
    }
    proof {
        reveal_strlit("varchar");
        reveal_strlit("unexpected EOF reading varchar length");
        reveal_strlit("unexpected EOF reading varchar data");
        reveal_strlit("unexpected EOF reading ");
        reveal_strlit(" length");
        reveal_strlit(" data");
        assert("unexpected EOF reading varchar length"@ =~= "unexpected EOF reading "@ + "varchar"@ + " length"@);
        assert("unexpected EOF reading varchar data"@ =~= "unexpected EOF reading "@ + "varchar"@ + " data"@);
    }
    let ghost b = buf@;
    if buf.len() < 2 {
        return Err(protocol_error("unexpected EOF reading varchar length"));
    }
    let len = take_u16_le(buf);
    if len == 0xFFFF {
        return Ok(SqlValue::Null);
    }
    if buf.len() < len as usize {
        return Err(protocol_error("unexpected EOF reading varchar data"));
    }
    let data = take_bytes(buf, len as usize);
    assert(data@ =~= b.subrange(2, 2 + len));
    assert(b.skip(2).skip(len as int) =~= b.skip(2 + len));
    Ok(SqlValue::String(decode_varchar_string(data, col.collation)))
}

/// VARCHAR in a variant: seven property bytes, the collation first (taken
/// when there are at least five); no data is the empty string.
pub open spec fn variant_varchar_spec(b: Seq<u8>, props: nat, data_len: nat) -> ReadResult {
    if data_len == 0 {
        Ok((ValueView::String(Seq::empty()), props))
    } else {
        Ok((ValueView::String(varchar_text(b.skip(props as int).take(data_len as int), props >= 5)), props + data_len))
    }
}

/// Reads the VARCHAR value of a variant.
pub fn variant_varchar(buf: &mut &[u8], prop_count: usize, data_len: usize) -> (r: Result<SqlValue, Error>)
    requires
        old(buf)@.len() >= prop_count + data_len,
    ensures
        read_ok(r, old(buf)@, final(buf)@, variant_varchar_spec(old(buf)@, prop_count as nat, data_len as nat)),
{
    let ghost b = buf@;
    let props = take_bytes(buf, prop_count);
    let collation = if prop_count >= 5 {
        Some(Collation {
            lcid: (props[0] as u32) + 256 * (props[1] as u32) + 65536 * (props[2] as u32) + 16777216 * (props[3] as u32),
            sort_id: props[4],
        })
    } else {
        None
    };
    if data_len == 0 {
        return Ok(SqlValue::String(String::new()));
    }
    let data = take_bytes(buf, data_len);
    assert(b.skip(prop_count as int).skip(data_len as int) =~= b.skip(prop_count + data_len));
    Ok(SqlValue::String(decode_varchar_string(data, collation)))
}

} // verus!
