//! Reading column values from a row of a TDS result: integers, bits,
//! binary and Unicode text, plain and PLP-framed.
use vstd::prelude::*;
use vstd::slice::slice_subrange;
use crate::error::{owned, Error};
use crate::text::{chars_of, nat_decimal, push_decimal_u64, string_of};
use crate::value::{uuid_bytes, uuid_from_bytes, SqlValue, ValueView};
use crate::bulk_insert::{encode_value_spec, is_plp_column, Encoded};
use crate::bulk::{Collation, ColumnView};
use crate::wire::{
    guid_swap, lemma_guid_swap_twice, le2, le4, le8, lemma_le4_roundtrip, lemma_le8_roundtrip, lemma_utf16_bytes_len, plp_single_chunk,
    u16_of, u32_of, u64_of, utf16_bytes, utf16_char, utf16_of, PLP_NULL, PLP_UNKNOWN_LEN,
};

verus! {

/// What reading one value from the front of some bytes gives: the value
/// and the number of bytes it took, or the error's message.
pub type ReadResult = Result<(ValueView, nat), Seq<char>>;

/// Takes the first `n` bytes off the front of a cursor.
pub(crate) fn take_bytes<'a>(buf: &mut &'a [u8], n: usize) -> (r: &'a [u8])
    requires
        n <= old(buf)@.len(),
    ensures
        r@ == old(buf)@.take(n as int),
        final(buf)@ == old(buf)@.skip(n as int),
{
    let all: &'a [u8] = *buf;
    let head = slice_subrange(all, 0, n);
    *buf = slice_subrange(all, n, all.len());
    head
}

/// Takes one byte off the front of a cursor.
pub(crate) fn take_u8(buf: &mut &[u8]) -> (r: u8)
    requires
        old(buf)@.len() >= 1,
    ensures
        r == old(buf)@[0],
        final(buf)@ == old(buf)@.skip(1),
{
    let b = take_bytes(buf, 1);
    b[0]
}

/// Takes a little-endian `u16` off the front of a cursor.
pub(crate) fn take_u16_le(buf: &mut &[u8]) -> (r: u16)
    requires
        old(buf)@.len() >= 2,
    ensures
        r == u16_of(old(buf)@),
        final(buf)@ == old(buf)@.skip(2),
{
    let b = take_bytes(buf, 2);
    (b[0] as u16) + 256 * (b[1] as u16)
}

/// Takes a little-endian `u32` off the front of a cursor.
pub(crate) fn take_u32_le(buf: &mut &[u8]) -> (r: u32)
    requires
        old(buf)@.len() >= 4,
    ensures
        r == u32_of(old(buf)@),
        final(buf)@ == old(buf)@.skip(4),
{
    let b = take_bytes(buf, 4);
    (b[0] as u32) + 256 * (b[1] as u32) + 65536 * (b[2] as u32) + 16777216 * (b[3] as u32)
}

/// Takes a little-endian `u64` off the front of a cursor.
pub(crate) fn take_u64_le(buf: &mut &[u8]) -> (r: u64)
    requires
        old(buf)@.len() >= 8,
    ensures
        r == u64_of(old(buf)@),
        final(buf)@ == old(buf)@.skip(8),
{
    let ghost b = old(buf)@;
    let lo = take_u32_le(buf);
    let hi = take_u32_le(buf);
    assert(b.subrange(0, 4) =~= b.take(4));
    assert(b.subrange(4, 8) =~= b.skip(4).take(4));
    assert(b.skip(4).skip(4) =~= b.skip(8));
    assert(u32_of(b.subrange(0, 4)) == u32_of(b));
    assert(u32_of(b.subrange(4, 8)) == u32_of(b.skip(4)));
    (lo as u64) + 4294967296 * (hi as u64)
}

pub(crate) fn protocol_error(m: &str) -> (r: Error)
    ensures
        r matches Error::Protocol(t) && t@ == m@,
{
    Error::Protocol(owned(m))
}

/// How a cursor stands after a successful read: the value's view and the
/// bytes left.
pub open spec fn read_ok(r: Result<SqlValue, Error>, before: Seq<u8>, after: Seq<u8>, want: ReadResult) -> bool {
    match want {
        Ok((v, n)) => r matches Ok(x) && x@ == v && n <= before.len() && after == before.skip(
            n as int,
        ),
        Err(m) => r matches Err(Error::Protocol(t)) && t@ == m,
    }
}

// ---------------------------------------------------------------------------
// Integers and bits
// ---------------------------------------------------------------------------

/// INTN: a length byte (0 for NULL, else 1, 2, 4 or 8) and the integer.
pub open spec fn intn_spec(b: Seq<u8>) -> ReadResult {
    if b.len() < 1 {
        Err("unexpected EOF reading IntN length"@)
    } else if b.len() - 1 < b[0] {
        Err("unexpected EOF reading IntN data"@)
    } else {
        let d = b.skip(1);
        if b[0] == 0 {
            Ok((ValueView::Null, 1))
        } else if b[0] == 1 {
            Ok((ValueView::TinyInt(d[0]), 2))
        } else if b[0] == 2 {
            Ok((ValueView::SmallInt(u16_of(d) as i16), 3))
        } else if b[0] == 4 {
            Ok((ValueView::Int(u32_of(d) as i32), 5))
        } else if b[0] == 8 {
            Ok((ValueView::BigInt(u64_of(d) as i64), 9))
        } else {
            Err("invalid IntN length: "@ + nat_decimal(b[0] as nat))
        }
    }
}

/// Reads an INTN value.
pub fn parse_intn(buf: &mut &[u8]) -> (r: Result<SqlValue, Error>)
    ensures
        read_ok(r, old(buf)@, final(buf)@, intn_spec(old(buf)@)),
{
    let ghost b = buf@;
    if buf.len() < 1 {
        return Err(protocol_error("unexpected EOF reading IntN length"));
    }
    let len = take_u8(buf);
    if buf.len() < len as usize {
        return Err(protocol_error("unexpected EOF reading IntN data"));
    }
    proof {
        if b.len() >= 2 {
            assert(b.skip(1).skip(1) =~= b.skip(2));
        }
        if b.len() >= 3 {
            assert(b.skip(1).skip(2) =~= b.skip(3));
        }
        if b.len() >= 5 {
            assert(b.skip(1).skip(4) =~= b.skip(5));
        }
        if b.len() >= 9 {
            assert(b.skip(1).skip(8) =~= b.skip(9));
        }
    }
    match len {
        0 => Ok(SqlValue::Null),
        1 => Ok(SqlValue::TinyInt(take_u8(buf))),
        2 => Ok(SqlValue::SmallInt(take_u16_le(buf) as i16)),
        4 => Ok(SqlValue::Int(take_u32_le(buf) as i32)),
        8 => Ok(SqlValue::BigInt(take_u64_le(buf) as i64)),
        _ => {
            let mut msg = chars_of("invalid IntN length: ");
            push_decimal_u64(&mut msg, len as u64);
            Err(Error::Protocol(string_of(msg.as_slice())))
        },
    }
}

/// FLOATN: a length byte (0 for NULL, 4 for REAL, 8 for FLOAT) and the
/// number's bits.
pub open spec fn floatn_spec(b: Seq<u8>) -> ReadResult {
    if b.len() < 1 {
        Err("unexpected EOF reading FloatN length"@)
    } else if b.len() - 1 < b[0] {
        Err("unexpected EOF reading FloatN data"@)
    } else if b[0] == 0 {
        Ok((ValueView::Null, 1))
    } else if b[0] == 4 {
        Ok((ValueView::Float(u32_of(b.skip(1))), 5))
    } else if b[0] == 8 {
        Ok((ValueView::Double(u64_of(b.skip(1))), 9))
    } else {
        Err("invalid FloatN length: "@ + nat_decimal(b[0] as nat))
    }
}

/// Reads a FLOATN value.
pub fn parse_floatn(buf: &mut &[u8]) -> (r: Result<SqlValue, Error>)
    ensures
        read_ok(r, old(buf)@, final(buf)@, floatn_spec(old(buf)@)),
{
    let ghost b = buf@;
    if buf.len() < 1 {
        return Err(protocol_error("unexpected EOF reading FloatN length"));
    }
    let len = take_u8(buf);
    if buf.len() < len as usize {
        return Err(protocol_error("unexpected EOF reading FloatN data"));
    }
    proof {
        if b.len() >= 5 {
            assert(b.skip(1).skip(4) =~= b.skip(5));
        }
        if b.len() >= 9 {
            assert(b.skip(1).skip(8) =~= b.skip(9));
        }
    }
    match len {
        0 => Ok(SqlValue::Null),
        4 => Ok(SqlValue::Float(take_u32_le(buf))),
        8 => Ok(SqlValue::Double(take_u64_le(buf))),
        _ => {
            let mut msg = chars_of("invalid FloatN length: ");
            push_decimal_u64(&mut msg, len as u64);
            Err(Error::Protocol(string_of(msg.as_slice())))
        },
    }
}

/// BITN: a length byte (0 for NULL, else 1) and the bit.
pub open spec fn bitn_spec(b: Seq<u8>) -> ReadResult {
    if b.len() < 1 {
        Err("unexpected EOF reading BitN length"@)
    } else if b.len() - 1 < b[0] {
        Err("unexpected EOF reading BitN data"@)
    } else if b[0] == 0 {
        Ok((ValueView::Null, 1))
    } else if b[0] == 1 {
        Ok((ValueView::Bool(b[1] != 0), 2))
    } else {
        Err("invalid BitN length: "@ + nat_decimal(b[0] as nat))
    }
}

/// Reads a BITN value.
pub fn parse_bitn(buf: &mut &[u8]) -> (r: Result<SqlValue, Error>)
    ensures
        read_ok(r, old(buf)@, final(buf)@, bitn_spec(old(buf)@)),
{
    let ghost b = buf@;
    if buf.len() < 1 {
        return Err(protocol_error("unexpected EOF reading BitN length"));
    }
    let len = take_u8(buf);
    if buf.len() < len as usize {
        return Err(protocol_error("unexpected EOF reading BitN data"));
    }
    proof {
        if b.len() >= 2 {
            assert(b.skip(1).skip(1) =~= b.skip(2));
        }
    }
    match len {
        0 => Ok(SqlValue::Null),
        1 => Ok(SqlValue::Bool(take_u8(buf) != 0)),
        _ => {
            let mut msg = chars_of("invalid BitN length: ");
            push_decimal_u64(&mut msg, len as u64);
            Err(Error::Protocol(string_of(msg.as_slice())))
        },
    }
}

// ---------------------------------------------------------------------------
// PLP values
// ---------------------------------------------------------------------------

/// The chunks of a PLP value from position `i` on: each a 4-byte length
/// and that many bytes, up to a zero length.  Gives the data of all chunks
/// and the position after the terminator.
pub open spec fn plp_chunks(b: Seq<u8>, i: int, acc: Seq<u8>) -> Result<(Seq<u8>, nat), Seq<char>>
    decreases b.len() - i,
{
    if i < 0 || b.len() - i < 4 {
        Err("unexpected EOF reading PLP chunk length"@)
    } else {
        let n = u32_of(b.skip(i));
        if n == 0 {
            Ok((acc, (i + 4) as nat))
        } else if b.len() - (i + 4) < n {
            Err("unexpected EOF reading PLP chunk data"@)
        } else {
            plp_chunks(b, i + 4 + n, acc + b.subrange(i + 4, i + 4 + n))
        }
    }
}

/// A PLP value: the 8-byte total length (all ones for NULL, given as
/// `None`) and the chunks; the total length is not otherwise used.
pub open spec fn plp_spec(b: Seq<u8>) -> Result<(Option<Seq<u8>>, nat), Seq<char>> {
    if b.len() < 8 {
        Err("unexpected EOF reading PLP total length"@)
    } else if u64_of(b) == PLP_NULL {
        Ok((None, 8))
    } else {
        match plp_chunks(b, 8, Seq::empty()) {
            Ok((d, n)) => Ok((Some(d), n)),
            Err(m) => Err(m),
        }
    }
}

pub open spec fn opt_bytes_view(x: Option<Vec<u8>>) -> Option<Seq<u8>> {
    match x {
        Some(v) => Some(v@),
        None => None,
    }
}

pub open spec fn opt_text_view(x: Option<String>) -> Option<Seq<char>> {
    match x {
        Some(v) => Some(v@),
        None => None,
    }
}

/// Reads the data of a PLP value (`None` for NULL).
pub(crate) fn read_plp(buf: &mut &[u8]) -> (r: Result<Option<Vec<u8>>, Error>)
    ensures
        match plp_spec(old(buf)@) {
            Ok((d, n)) => r matches Ok(x) && opt_bytes_view(x) == d && n <= old(buf)@.len()
                && final(buf)@ == old(buf)@.skip(n as int),
            Err(m) => r matches Err(Error::Protocol(t)) && t@ == m,
        },
{
    let ghost b = buf@;
    if buf.len() < 8 {
        return Err(protocol_error("unexpected EOF reading PLP total length"));
    }
    let total = take_u64_le(buf);
    if total == 0xFFFFFFFFFFFFFFFF {
        return Ok(None);
    }
    let mut data: Vec<u8> = Vec::new();
    let ghost mut pos: int = 8;
    loop
        invariant
            8 <= pos <= b.len(),
            b == old(buf)@,
            buf@ == b.skip(pos),
            b.len() >= 8,
            u64_of(b) != PLP_NULL,
            plp_chunks(b, 8, Seq::empty()) == plp_chunks(b, pos, data@),
        decreases b.len() - pos,
    {
        if buf.len() < 4 {
            return Err(protocol_error("unexpected EOF reading PLP chunk length"));
        }
        let chunk_len = take_u32_le(buf) as usize;
        proof {
            assert(b.skip(pos).skip(4) =~= b.skip(pos + 4));
        }
        if chunk_len == 0 {
            proof {
                pos = pos + 4;
            }
            return Ok(Some(data));
        }
        if buf.len() < chunk_len {
            return Err(protocol_error("unexpected EOF reading PLP chunk data"));
        }
        let chunk = take_bytes(buf, chunk_len);
        let mut k: usize = 0;
        let ghost before = data@;
        while k < chunk.len()
            invariant
                k <= chunk@.len(),
                data@ == before + chunk@.take(k as int),
            decreases chunk@.len() - k,
        {
            data.push(chunk[k]);
            assert(before + chunk@.take(k + 1) =~= (before + chunk@.take(k as int)).push(chunk@[k as int]));
            k = k + 1;
        }
        proof {
            assert(chunk@.take(chunk@.len() as int) =~= chunk@);
            assert(chunk@ =~= b.subrange(pos + 4, pos + 4 + chunk_len));
            assert(b.skip(pos + 4).skip(chunk_len as int) =~= b.skip(pos + 4 + chunk_len));
            pos = pos + 4 + chunk_len;
        }
    }
}

/// Reads a PLP VARBINARY(MAX) (or IMAGE, UDT) value.
pub fn parse_plp_varbinary(buf: &mut &[u8]) -> (r: Result<SqlValue, Error>)
    ensures
        read_ok(
            r,
            old(buf)@,
            final(buf)@,
            match plp_spec(old(buf)@) {
                Ok((None, n)) => Ok((ValueView::Null, n)),
                Ok((Some(d), n)) => Ok((ValueView::Binary(d), n)),
                Err(m) => Err(m),
            },
        ),
{
    match read_plp(buf) {
        Err(e) => Err(e),
        Ok(None) => Ok(SqlValue::Null),
        Ok(Some(d)) => Ok(SqlValue::Binary(d)),
    }
}

// ---------------------------------------------------------------------------
// UTF-16 text
// ---------------------------------------------------------------------------

pub open spec fn is_high_surrogate(u: u16) -> bool {
    0xD800 <= u <= 0xDBFF
}

pub open spec fn is_low_surrogate(u: u16) -> bool {
    0xDC00 <= u <= 0xDFFF
}

/// The character a surrogate pair stands for.
pub open spec fn pair_char(h: u16, l: u16) -> char {
    (0x10000 + (h - 0xD800) * 1024 + (l - 0xDC00)) as char
}

/// UTF-16 decoding (`String::from_utf16`): `None` when a surrogate is
/// unpaired.
pub open spec fn utf16_decode(u: Seq<u16>) -> Option<Seq<char>>
    decreases u.len(),
{
    if u.len() == 0 {
        Some(Seq::empty())
    } else if is_high_surrogate(u[0]) {
        if u.len() >= 2 && is_low_surrogate(u[1]) {
            match utf16_decode(u.skip(2)) {
                Some(r) => Some(seq![pair_char(u[0], u[1])] + r),
                None => None,
            }
        } else {
            None
        }
    } else if is_low_surrogate(u[0]) {
        None
    } else {
        match utf16_decode(u.skip(1)) {
            Some(r) => Some(seq![(u[0] as u32) as char] + r),
            None => None,
        }
    }
}

/// Bytes read as little-endian UTF-16 code units; an odd last byte is
/// ignored.
pub open spec fn utf16_units(b: Seq<u8>) -> Seq<u16> {
    Seq::new(b.len() / 2, |i: int| u16_of(b.subrange(2 * i, 2 * i + 2)))
}

/// `String::from_utf16`: the decoded string, or `None` for an unpaired
/// surrogate.
#[verifier::external_body]
pub(crate) fn string_from_utf16(u: &[u16]) -> (r: Option<String>)
    ensures
        match utf16_decode(u@) {
            Some(s) => r matches Some(x) && x@ == s,
            None => r is None,
        },
{
    String::from_utf16(u).ok()
}

/// Collects little-endian code units (an odd last byte is ignored).
pub(crate) fn units_of(data: &[u8]) -> (r: Vec<u16>)
    ensures
        r@ == utf16_units(data@),
{
    let n = data.len() / 2;
    assert(2 * n <= data@.len());
    let mut out: Vec<u16> = Vec::new();
    let mut i: usize = 0;
    while i < n
        invariant
            i <= n,
            n == data@.len() / 2,
            2 * n <= data@.len(),
            data@.len() <= usize::MAX,
            out@ == utf16_units(data@).take(i as int),
        decreases n - i,
    {
        let u = (data[2 * i] as u16) + 256 * (data[2 * i + 1] as u16);
        out.push(u);
        assert(u == u16_of(data@.subrange(2 * i, 2 * i + 2)));
        assert(out@ =~= utf16_units(data@).take(i + 1));
        i = i + 1;
    }
    assert(out@ =~= utf16_units(data@));
    out
}

/// UTF-16 text of a PLP value as a string value (`None` for NULL).
pub open spec fn plp_text_spec(b: Seq<u8>) -> Result<(Option<Seq<char>>, nat), Seq<char>> {
    match plp_spec(b) {
        Err(m) => Err(m),
        Ok((None, n)) => Ok((None, n)),
        Ok((Some(d), n)) => match utf16_decode(utf16_units(d)) {
            Some(s) => Ok((Some(s), n)),
            None => Err("invalid UTF-16 in PLP nvarchar"@),
        },
    }
}

fn read_plp_text(buf: &mut &[u8]) -> (r: Result<Option<String>, Error>)
    ensures
        match plp_text_spec(old(buf)@) {
            Ok((d, n)) => r matches Ok(x) && opt_text_view(x) == d && n <= old(buf)@.len()
                && final(buf)@ == old(buf)@.skip(n as int),
            Err(m) => r matches Err(Error::Protocol(t)) && t@ == m,
        },
{
    match read_plp(buf) {
        Err(e) => Err(e),
        Ok(None) => Ok(None),
        Ok(Some(d)) => {
            let units = units_of(d.as_slice());
            match string_from_utf16(units.as_slice()) {
                Some(s) => Ok(Some(s)),
                None => Err(protocol_error("invalid UTF-16 in PLP nvarchar")),
            }
        },
    }
}

/// Reads a PLP NVARCHAR(MAX) (or NTEXT) value.
pub fn parse_plp_nvarchar(buf: &mut &[u8]) -> (r: Result<SqlValue, Error>)
    ensures
        read_ok(
            r,
            old(buf)@,
            final(buf)@,
            match plp_text_spec(old(buf)@) {
                Ok((None, n)) => Ok((ValueView::Null, n)),
                Ok((Some(s), n)) => Ok((ValueView::String(s), n)),
                Err(m) => Err(m),
            },
        ),
{
    match read_plp_text(buf) {
        Err(e) => Err(e),
        Ok(None) => Ok(SqlValue::Null),
        Ok(Some(s)) => Ok(SqlValue::String(s)),
    }
}

/// Reads an XML value (PLP UTF-16 text).
pub fn parse_xml(buf: &mut &[u8]) -> (r: Result<SqlValue, Error>)
    ensures
        read_ok(
            r,
            old(buf)@,
            final(buf)@,
            match plp_text_spec(old(buf)@) {
                Ok((None, n)) => Ok((ValueView::Null, n)),
                Ok((Some(s), n)) => Ok((ValueView::Xml(s), n)),
                Err(m) => Err(m),
            },
        ),
{
    match read_plp_text(buf) {
        Err(e) => Err(e),
        Ok(None) => Ok(SqlValue::Null),
        Ok(Some(s)) => Ok(SqlValue::Xml(s)),
    }
}

// ---------------------------------------------------------------------------
// Length-prefixed values
// ---------------------------------------------------------------------------

/// What a value parser reads from the server's metadata of a column.
#[derive(Debug, Clone, Copy)]
pub struct ColumnMeta {
    /// The TDS type id.
    pub type_id: u8,
    /// Maximum length; `Some(0xFFFF)` marks a MAX type sent in PLP format.
    pub max_length: Option<u32>,
    /// Precision of decimal types.
    pub precision: Option<u8>,
    /// Scale of decimal and time types.
    pub scale: Option<u8>,
    /// Collation of character types.
    pub collation: Option<Collation>,
}

/// Whether a column is a MAX type sent in PLP chunks that can be streamed:
/// VARCHAR(MAX), VARBINARY(MAX), NVARCHAR(MAX), and XML always.
pub open spec fn plp_max_spec(type_id: u8, max_length: Option<u32>) -> bool {
    if type_id == 0xA7 || type_id == 0xA5 || type_id == 0xE7 {
        max_length == Some(0xFFFFu32)
    } else {
        type_id == 0xF1
    }
}

/// Whether a column is a MAX type sent in PLP chunks that can be streamed.
pub fn is_plp_max(col: &ColumnMeta) -> (r: bool)
    ensures
        r == plp_max_spec(col.type_id, col.max_length),
{
    match col.type_id {
        0xA7 | 0xA5 | 0xE7 => col.max_length == Some(0xFFFFu32),
        0xF1 => true,
        _ => false,
    }
}

/// The number of streamable MAX columns among `cs`.
pub open spec fn plp_max_count(cs: Seq<ColumnMeta>) -> nat
    decreases cs.len(),
{
    if cs.len() == 0 {
        0
    } else {
        plp_max_count(cs.drop_last()) + if plp_max_spec(cs.last().type_id, cs.last().max_length) {
            1nat
        } else {
            0nat
        }
    }
}

/// Whether a result set can be streamed blob by blob: not encrypted, with
/// exactly one streamable MAX column, and that the last.  Gives its index
/// or the error's message.
pub open spec fn blob_result_spec(cs: Seq<ColumnMeta>, encrypted: bool) -> Result<nat, Seq<char>> {
    if encrypted {
        Err("query_stream_blob does not support Always Encrypted result sets"@)
    } else if plp_max_count(cs) == 0 {
        Err("query_stream_blob: result set has no MAX column \u{2014} use query_stream"@)
    } else if plp_max_count(cs) > 1 {
        Err("query_stream_blob: result set has more than one MAX column"@)
    } else if plp_max_spec(cs.last().type_id, cs.last().max_length) {
        Ok((cs.len() - 1) as nat)
    } else {
        Err("query_stream_blob: the MAX column must be the last column"@)
    }
}

/// Checks that a result set can be streamed blob by blob and gives the
/// index of its MAX column.  `encrypted` tells whether the result set
/// carries Always Encrypted keys.
pub fn validate_blob_result_set(columns: &[ColumnMeta], encrypted: bool) -> (r: Result<usize, Error>)
    ensures
        match blob_result_spec(columns@, encrypted) {
            Ok(i) => r == Ok::<usize, Error>(i as usize),
            Err(m) => r matches Err(Error::Protocol(t)) && t@ == m,
        },
{
    if encrypted {
        return Err(protocol_error("query_stream_blob does not support Always Encrypted result sets"));
    }
    let mut count: usize = 0;
    let mut i: usize = 0;
    while i < columns.len()
        invariant
            i <= columns@.len(),
            count == plp_max_count(columns@.take(i as int)),
            count <= i,
        decreases columns@.len() - i,
    {
        assert(columns@.take(i + 1).drop_last() =~= columns@.take(i as int));
        if is_plp_max(&columns[i]) {
            count = count + 1;
        }
        i = i + 1;
    }
    assert(columns@.take(columns@.len() as int) =~= columns@);
    if count == 0 {
        Err(protocol_error("query_stream_blob: result set has no MAX column \u{2014} use query_stream"))
    } else if count > 1 {
        Err(protocol_error("query_stream_blob: result set has more than one MAX column"))
    } else if is_plp_max(&columns[columns.len() - 1]) {
        Ok(columns.len() - 1)
    } else {
        Err(protocol_error("query_stream_blob: the MAX column must be the last column"))
    }
}

/// A 2-byte length (0xFFFF for NULL) and that many bytes.
pub open spec fn u16_len_bytes(b: Seq<u8>, what: Seq<char>) -> Result<(Option<Seq<u8>>, nat), Seq<char>> {
    if b.len() < 2 {
        Err("unexpected EOF reading "@ + what + " length"@)
    } else {
        let n = u16_of(b);
        if n == 0xFFFF {
            Ok((None, 2))
        } else if b.len() - 2 < n {
            Err("unexpected EOF reading "@ + what + " data"@)
        } else {
            Ok((Some(b.subrange(2, 2 + n)), (2 + n) as nat))
        }
    }
}

/// NVARCHAR / NCHAR: PLP for MAX columns, else a 2-byte byte length and
/// UTF-16 text.
pub open spec fn nvarchar_spec(b: Seq<u8>, max_length: Option<u32>) -> ReadResult {
    if max_length == Some(0xFFFFu32) {
        match plp_text_spec(b) {
            Ok((None, n)) => Ok((ValueView::Null, n)),
            Ok((Some(s), n)) => Ok((ValueView::String(s), n)),
            Err(m) => Err(m),
        }
    } else {
        match u16_len_bytes(b, "nvarchar"@) {
            Err(m) => Err(m),
            Ok((None, n)) => Ok((ValueView::Null, n)),
            Ok((Some(d), n)) => match utf16_decode(utf16_units(d)) {
                Some(s) => Ok((ValueView::String(s), n)),
                None => Err("invalid UTF-16 in nvarchar"@),
            },
        }
    }
}

/// Reads an NVARCHAR or NCHAR value.
pub fn parse_nvarchar(buf: &mut &[u8], col: &ColumnMeta) -> (r: Result<SqlValue, Error>)
    ensures
        read_ok(r, old(buf)@, final(buf)@, nvarchar_spec(old(buf)@, col.max_length)),
{
    if col.max_length == Some(0xFFFFu32) {
        return parse_plp_nvarchar(buf);
    }
    proof {
        reveal_strlit("nvarchar");
        reveal_strlit("unexpected EOF reading nvarchar length");
        reveal_strlit("unexpected EOF reading nvarchar data");
        reveal_strlit("unexpected EOF reading ");
        reveal_strlit(" length");
        reveal_strlit(" data");
        assert("unexpected EOF reading nvarchar length"@ =~= "unexpected EOF reading "@ + "nvarchar"@ + " length"@);
        assert("unexpected EOF reading nvarchar data"@ =~= "unexpected EOF reading "@ + "nvarchar"@ + " data"@);
    }
    let ghost b = buf@;
    if buf.len() < 2 {
        return Err(protocol_error("unexpected EOF reading nvarchar length"));
    }
    let len = take_u16_le(buf);
    if len == 0xFFFF {
        return Ok(SqlValue::Null);
    }
    if buf.len() < len as usize {
        return Err(protocol_error("unexpected EOF reading nvarchar data"));
    }
    let data = take_bytes(buf, len as usize);
    proof {
        assert(data@ =~= b.subrange(2, 2 + len));
        assert(b.skip(2).skip(len as int) =~= b.skip(2 + len));
    }
    let units = units_of(data);
    match string_from_utf16(units.as_slice()) {
        Some(s) => Ok(SqlValue::String(s)),
        None => Err(protocol_error("invalid UTF-16 in nvarchar")),
    }
}

/// BIGVARBINARY / BIGBINARY: PLP for MAX columns, else a 2-byte length and
/// the bytes.
pub open spec fn bigvarbinary_spec(b: Seq<u8>, max_length: Option<u32>) -> ReadResult {
    if max_length == Some(0xFFFFu32) {
        match plp_spec(b) {
            Ok((None, n)) => Ok((ValueView::Null, n)),
            Ok((Some(d), n)) => Ok((ValueView::Binary(d), n)),
            Err(m) => Err(m),
        }
    } else {
        match u16_len_bytes(b, "varbinary"@) {
            Err(m) => Err(m),
            Ok((None, n)) => Ok((ValueView::Null, n)),
            Ok((Some(d), n)) => Ok((ValueView::Binary(d), n)),
        }
    }
}

pub(crate) fn copy_bytes(s: &[u8]) -> (r: Vec<u8>)
    ensures
        r@ == s@,
{
    let mut v: Vec<u8> = Vec::new();
    crate::wire::push_bytes(&mut v, s);
    assert(v@ =~= s@);
    v
}

/// Reads a BIGVARBINARY or BIGBINARY value.
pub fn parse_bigvarbinary(buf: &mut &[u8], col: &ColumnMeta) -> (r: Result<SqlValue, Error>)
    ensures
        read_ok(r, old(buf)@, final(buf)@, bigvarbinary_spec(old(buf)@, col.max_length)),
{
    if col.max_length == Some(0xFFFFu32) {
        return parse_plp_varbinary(buf);
    }
    proof {
        reveal_strlit("varbinary");
        reveal_strlit("unexpected EOF reading varbinary length");
        reveal_strlit("unexpected EOF reading varbinary data");
        reveal_strlit("unexpected EOF reading ");
        reveal_strlit(" length");
        reveal_strlit(" data");
        assert("unexpected EOF reading varbinary length"@ =~= "unexpected EOF reading "@ + "varbinary"@ + " length"@);
        assert("unexpected EOF reading varbinary data"@ =~= "unexpected EOF reading "@ + "varbinary"@ + " data"@);
    }
    let ghost b = buf@;
    if buf.len() < 2 {
        return Err(protocol_error("unexpected EOF reading varbinary length"));
    }
    let len = take_u16_le(buf);
    if len == 0xFFFF {
        return Ok(SqlValue::Null);
    }
    if buf.len() < len as usize {
        return Err(protocol_error("unexpected EOF reading varbinary data"));
    }
    let data = take_bytes(buf, len as usize);
    proof {
        assert(data@ =~= b.subrange(2, 2 + len));
        assert(b.skip(2).skip(len as int) =~= b.skip(2 + len));
    }
    Ok(SqlValue::Binary(copy_bytes(data)))
}

/// Any other type: a 2-byte length (0xFFFF for NULL) and that many bytes,
/// read as binary; errors name the type by `name`.
pub open spec fn default_binary_spec(b: Seq<u8>, name: Seq<char>) -> ReadResult {
    if b.len() < 2 {
        Err("unexpected EOF reading "@ + name)
    } else if u16_of(b) == 0xFFFF {
        Ok((ValueView::Null, 2))
    } else if b.len() - 2 < u16_of(b) {
        Err("unexpected EOF reading "@ + name + " data"@)
    } else {
        Ok((ValueView::Binary(b.subrange(2, 2 + u16_of(b))), (2 + u16_of(b)) as nat))
    }
}

/// Reads a value of a type without a reader of its own as binary data with
/// a 2-byte length; `name` names the type in errors.
pub fn parse_default_binary(buf: &mut &[u8], name: &str) -> (r: Result<SqlValue, Error>)
    ensures
        read_ok(r, old(buf)@, final(buf)@, default_binary_spec(old(buf)@, name@)),
{
    let ghost b = buf@;
    if buf.len() < 2 {
        let mut msg = chars_of("unexpected EOF reading ");
        crate::text::push_str_chars(&mut msg, name);
        return Err(Error::Protocol(string_of(msg.as_slice())));
    }
    let len = take_u16_le(buf);
    if len == 0xFFFF {
        return Ok(SqlValue::Null);
    }
    if buf.len() < len as usize {
        let mut msg = chars_of("unexpected EOF reading ");
        crate::text::push_str_chars(&mut msg, name);
        crate::text::push_str_chars(&mut msg, " data");
        return Err(Error::Protocol(string_of(msg.as_slice())));
    }
    let data = take_bytes(buf, len as usize);
    proof {
        assert(data@ =~= b.subrange(2, 2 + len));
        assert(b.skip(2).skip(len as int) =~= b.skip(2 + len));
    }
    Ok(SqlValue::Binary(copy_bytes(data)))
}

/// BINARY / VARBINARY (legacy): a 1-byte length (0xFF for NULL) and the
/// bytes.
pub open spec fn legacy_varbinary_spec(b: Seq<u8>) -> ReadResult {
    if b.len() < 1 {
        Err("unexpected EOF reading legacy varbinary length"@)
    } else if b[0] == 0xFF {
        Ok((ValueView::Null, 1))
    } else if b[0] == 0 {
        Ok((ValueView::Binary(Seq::empty()), 1))
    } else if b.len() - 1 < b[0] {
        Err("unexpected EOF reading legacy varbinary data"@)
    } else {
        Ok((ValueView::Binary(b.subrange(1, 1 + b[0])), (1 + b[0]) as nat))
    }
}

/// Reads a legacy BINARY or VARBINARY value.
pub fn parse_legacy_varbinary(buf: &mut &[u8]) -> (r: Result<SqlValue, Error>)
    ensures
        read_ok(r, old(buf)@, final(buf)@, legacy_varbinary_spec(old(buf)@)),
{
    let ghost b = buf@;
    if buf.len() < 1 {
        return Err(protocol_error("unexpected EOF reading legacy varbinary length"));
    }
    let len = take_u8(buf);
    if len == 0xFF {
        return Ok(SqlValue::Null);
    }
    if len == 0 {
        return Ok(SqlValue::Binary(Vec::new()));
    }
    if buf.len() < len as usize {
        return Err(protocol_error("unexpected EOF reading legacy varbinary data"));
    }
    let data = take_bytes(buf, len as usize);
    proof {
        assert(data@ =~= b.subrange(1, 1 + len));
        assert(b.skip(1).skip(len as int) =~= b.skip(1 + len));
    }
    Ok(SqlValue::Binary(copy_bytes(data)))
}

// ---------------------------------------------------------------------------
// GUIDs
// ---------------------------------------------------------------------------

/// Reads the sixteen bytes of a GUID in SQL Server's mixed-endian order and
/// gives the UUID they stand for.
pub(crate) fn decode_guid_bytes(buf: &mut &[u8]) -> (r: SqlValue)
    requires
        old(buf)@.len() >= 16,
    ensures
        r@ == ValueView::Uuid(guid_swap(old(buf)@.take(16))),
        final(buf)@ == old(buf)@.skip(16),
{
    let w = take_bytes(buf, 16);
    let bytes: [u8; 16] = [
        w[3],
        w[2],
        w[1],
        w[0],
        w[5],
        w[4],
        w[7],
        w[6],
        w[8],
        w[9],
        w[10],
        w[11],
        w[12],
        w[13],
        w[14],
        w[15],
    ];
    assert(bytes@ =~= guid_swap(w@));
    SqlValue::Uuid(uuid_from_bytes(bytes))
}

/// UNIQUEIDENTIFIER: a length byte (0 for NULL, else 16) and the GUID.
pub open spec fn guid_spec(b: Seq<u8>) -> ReadResult {
    if b.len() < 1 {
        Err("unexpected EOF reading GUID length"@)
    } else if b[0] == 0 {
        Ok((ValueView::Null, 1))
    } else if b[0] != 16 {
        Err("invalid GUID length: "@ + nat_decimal(b[0] as nat))
    } else if b.len() - 1 < 16 {
        Err("unexpected EOF reading GUID"@)
    } else {
        Ok((ValueView::Uuid(guid_swap(b.subrange(1, 17))), 17))
    }
}

/// Reads a UNIQUEIDENTIFIER value.
pub fn parse_guid(buf: &mut &[u8]) -> (r: Result<SqlValue, Error>)
    ensures
        read_ok(r, old(buf)@, final(buf)@, guid_spec(old(buf)@)),
{
    let ghost b = buf@;
    if buf.len() < 1 {
        return Err(protocol_error("unexpected EOF reading GUID length"));
    }
    let len = take_u8(buf);
    if len == 0 {
        return Ok(SqlValue::Null);
    }
    if len != 16 {
        let mut msg = chars_of("invalid GUID length: ");
        push_decimal_u64(&mut msg, len as u64);
        return Err(Error::Protocol(string_of(msg.as_slice())));
    }
    if buf.len() < 16 {
        return Err(protocol_error("unexpected EOF reading GUID"));
    }
    proof {
        assert(b.skip(1).take(16) =~= b.subrange(1, 17));
        assert(b.skip(1).skip(16) =~= b.skip(17));
    }
    Ok(decode_guid_bytes(buf))
}

// ---------------------------------------------------------------------------
// Decrypted (Always Encrypted) values
// ---------------------------------------------------------------------------

/// `s` followed by spaces up to `target` characters (unchanged when it is
/// already that long).
pub open spec fn pad_spec(s: Seq<char>, target: nat) -> Seq<char> {
    if s.len() < target {
        s + Seq::new((target - s.len()) as nat, |i: int| ' ')
    } else {
        s
    }
}

/// Pads a decrypted fixed-width CHAR/NCHAR value with spaces to its declared
/// length in characters.
pub fn pad_fixed_char(s: String, target_chars: usize) -> (r: String)
    ensures
        r@ == pad_spec(s@, target_chars as nat),
{
    let mut out = chars_of(s.as_str());
    let cur = out.len();
    if cur < target_chars {
        let ghost start = out@;
        let mut k: usize = cur;
        while k < target_chars
            invariant
                cur <= k <= target_chars,
                start.len() == cur,
                out@ == start + Seq::new((k - cur) as nat, |i: int| ' '),
            decreases target_chars - k,
        {
            out.push(' ');
            assert(out@ =~= start + Seq::new((k + 1 - cur) as nat, |i: int| ' '));
            k = k + 1;
        }
    }
    string_of(out.as_slice())
}

/// `<[u8; N] as TryFrom<&[u8]>>::try_from`: the array when the slice has
/// exactly `N` bytes.
#[verifier::external_body]
fn slice_to_array<const N: usize>(s: &[u8]) -> (r: Option<[u8; N]>)
    ensures
        r is Some <==> s@.len() == N,
        r matches Some(a) ==> a@ == s@,
{
    s.try_into().ok()
}

/// A decrypted value as an array of exactly `N` bytes; any other length is
/// an error naming the value.
pub fn decrypted_array<const N: usize>(plaintext: &[u8], what: &str) -> (r: Result<[u8; N], Error>)
    ensures
        plaintext@.len() == N ==> (r matches Ok(a) && a@ == plaintext@),
        plaintext@.len() != N ==> (r matches Err(Error::Encryption(m)) && m@ == "decrypted "@ + what@
            + " has "@ + nat_decimal(plaintext@.len()) + " bytes, expected "@ + nat_decimal(
            N as nat,
        )),
{
    match slice_to_array::<N>(plaintext) {
        Some(a) => Ok(a),
        None => {
            let mut msg = chars_of("decrypted ");
            crate::text::push_str_chars(&mut msg, what);
            crate::text::push_str_chars(&mut msg, " has ");
            push_decimal_u64(&mut msg, plaintext.len() as u64);
            crate::text::push_str_chars(&mut msg, " bytes, expected ");
            push_decimal_u64(&mut msg, N as u64);
            Err(Error::Encryption(string_of(msg.as_slice())))
        },
    }
}

// ---------------------------------------------------------------------------
// Reading back what the bulk writer writes
// ---------------------------------------------------------------------------

proof fn lemma_u32_prefix(b: Seq<u8>, v: u32)
    requires
        b.len() >= 4,
        b.take(4) == le4(v),
    ensures
        u32_of(b) == v,
{
    lemma_le4_roundtrip(v);
    assert(b[0] == le4(v)[0] && b[1] == le4(v)[1] && b[2] == le4(v)[2] && b[3] == le4(v)[3]) by {
        assert(b[0] == b.take(4)[0]);
        assert(b[1] == b.take(4)[1]);
        assert(b[2] == b.take(4)[2]);
        assert(b[3] == b.take(4)[3]);
    }
}

proof fn lemma_u64_prefix(b: Seq<u8>, v: u64)
    requires
        b.len() >= 8,
        b.take(8) == le8(v),
    ensures
        u64_of(b) == v,
{
    lemma_le8_roundtrip(v);
    assert(b.subrange(0, 4) =~= le8(v).subrange(0, 4));
    assert(b.subrange(4, 8) =~= le8(v).subrange(4, 8));
}

proof fn lemma_plp_single_chunk_reads(d: Seq<u8>, rest: Seq<u8>)
    requires
        d.len() < 0x1_0000_0000,
    ensures
        plp_spec(plp_single_chunk(d) + rest) == Ok::<(Option<Seq<u8>>, nat), Seq<char>>(
            (Some(d), plp_single_chunk(d).len()),
        ),
{
    let p = plp_single_chunk(d);
    let b = p + rest;
    let mid = if d.len() > 0 {
        le4(d.len() as u32) + d
    } else {
        Seq::empty()
    };
    assert(p =~= le8(PLP_UNKNOWN_LEN) + mid + le4(0));
    assert(b.take(8) =~= le8(PLP_UNKNOWN_LEN));
    lemma_u64_prefix(b, PLP_UNKNOWN_LEN);
    let end: int = 8 + mid.len() as int;
    assert(b.skip(end).take(4) =~= le4(0));
    lemma_u32_prefix(b.skip(end), 0);
    if d.len() > 0 {
        assert(b.skip(8).take(4) =~= le4(d.len() as u32));
        lemma_u32_prefix(b.skip(8), d.len() as u32);
        assert(b.subrange(12, 12 + d.len() as int) =~= d);
        assert(Seq::<u8>::empty() + d =~= d);
        assert(plp_chunks(b, 12 + d.len() as int, d) == Ok::<(Seq<u8>, nat), Seq<char>>((d, (end + 4) as nat)));
        assert(plp_chunks(b, 8, Seq::empty()) == plp_chunks(b, 12 + d.len() as int, Seq::<u8>::empty() + b.subrange(12, 12 + d.len() as int)));
        assert(plp_chunks(b, 8, Seq::empty()) == Ok::<(Seq<u8>, nat), Seq<char>>((d, (end + 4) as nat)));
    } else {
        assert(d =~= Seq::<u8>::empty());
        assert(plp_chunks(b, 8, Seq::empty()) == Ok::<(Seq<u8>, nat), Seq<char>>((d, (end + 4) as nat)));
    }
    assert(p.len() == end + 4);
}

/// Binary data that the bulk writer writes to a MAX column (in PLP
/// format) reads back as the same bytes, and the reader stops right after
/// the value.
pub proof fn law_plp_binary_reads_back(c: ColumnView, v: SqlValue, is_fixed: bool, rest: Seq<u8>)
    requires
        is_plp_column(c),
        v matches SqlValue::Binary(b) && b@.len() < 0x1_0000_0000,
    ensures
        ({
            let data = v->Binary_0@;
            &&& encode_value_spec(c, v, is_fixed) == Encoded::Bytes(plp_single_chunk(data))
            &&& plp_spec(plp_single_chunk(data) + rest) == Ok::<(Option<Seq<u8>>, nat), Seq<char>>(
                (Some(data), plp_single_chunk(data).len()),
            )
        }),
{
    lemma_plp_single_chunk_reads(v->Binary_0@, rest);
}

proof fn lemma_utf16_bytes_index(u: Seq<u16>, i: int)
    requires
        0 <= i < u.len(),
    ensures
        utf16_bytes(u).len() == 2 * u.len(),
        utf16_bytes(u).subrange(2 * i, 2 * i + 2) == le2(u[i]),
    decreases u.len(),
{
    lemma_utf16_bytes_len(u);
    let p = u.drop_last();
    lemma_utf16_bytes_len(p);
    if i < u.len() - 1 {
        lemma_utf16_bytes_index(p, i);
        assert(utf16_bytes(u).subrange(2 * i, 2 * i + 2) =~= utf16_bytes(p).subrange(2 * i, 2 * i + 2));
    } else {
        assert(utf16_bytes(u).subrange(2 * i, 2 * i + 2) =~= le2(u.last()));
    }
}

proof fn lemma_units_of_bytes(u: Seq<u16>)
    ensures
        utf16_units(utf16_bytes(u)) == u,
{
    lemma_utf16_bytes_len(u);
    assert forall|i: int| 0 <= i < u.len() implies utf16_units(utf16_bytes(u))[i] == u[i] by {
        lemma_utf16_bytes_index(u, i);
        crate::wire::lemma_le2_roundtrip(u[i]);
    }
    assert(utf16_units(utf16_bytes(u)) =~= u);
}

proof fn lemma_decode_append(a: Seq<u16>, b: Seq<u16>)
    requires
        utf16_decode(a) is Some,
    ensures
        utf16_decode(a + b) == match utf16_decode(b) {
            Some(y) => Some(utf16_decode(a)->0 + y),
            None => None::<Seq<char>>,
        },
    decreases a.len(),
{
    if a.len() == 0 {
        assert(a + b =~= b);
        assert(utf16_decode(a)->0 =~= Seq::<char>::empty());
        if let Some(y) = utf16_decode(b) {
            assert(Seq::<char>::empty() + y =~= y);
        }
    } else if is_high_surrogate(a[0]) {
        assert((a + b).skip(2) =~= a.skip(2) + b);
        lemma_decode_append(a.skip(2), b);
        assert((a + b)[0] == a[0] && (a + b)[1] == a[1]);
        if let Some(y) = utf16_decode(b) {
            let x = utf16_decode(a.skip(2))->0;
            assert(seq![pair_char(a[0], a[1])] + (x + y) =~= (seq![pair_char(a[0], a[1])] + x) + y);
        }
    } else {
        assert((a + b).skip(1) =~= a.skip(1) + b);
        lemma_decode_append(a.skip(1), b);
        assert((a + b)[0] == a[0]);
        if let Some(y) = utf16_decode(b) {
            let x = utf16_decode(a.skip(1))->0;
            assert(seq![(a[0] as u32) as char] + (x + y) =~= (seq![(a[0] as u32) as char] + x) + y);
        }
    }
}

proof fn lemma_decode_char(c: char)
    ensures
        utf16_decode(utf16_char(c)) == Some(seq![c]),
{
    broadcast use vstd::utf8::char_is_scalar, vstd::utf8::char_u32_cast;
    let n = c as u32;
    assert(vstd::utf8::is_scalar(n));
    let u = utf16_char(c);
    if n < 0x10000 {
        assert(!(0xD800 <= n <= 0xDFFF));
        assert(u.skip(1) =~= Seq::<u16>::empty());
        assert(((n as u16) as u32) == n);
        assert(u[0] == n as u16);
        assert(!is_high_surrogate(u[0]) && !is_low_surrogate(u[0]));
        assert(utf16_decode(u.skip(1)) == Some(Seq::<char>::empty()));
        assert((u[0] as u32) as char == c);
        assert(seq![((n as u16) as u32) as char] + Seq::<char>::empty() =~= seq![c]);
    } else {
        assert(n <= 0x10FFFF);
        let m = (n - 0x10000) as u32;
        let h = (0xD800 + m / 1024) as u16;
        let l = (0xDC00 + m % 1024) as u16;
        assert(u.skip(2) =~= Seq::<u16>::empty());
        assert((m / 1024) * 1024 + m % 1024 == m);
        assert(0x10000 + (h - 0xD800) * 1024 + (l - 0xDC00) == n);
        assert(pair_char(h, l) == c);
        assert(u[0] == h && u[1] == l);
        assert(is_high_surrogate(h) && is_low_surrogate(l));
        assert(utf16_decode(u.skip(2)) == Some(Seq::<char>::empty()));
        assert(seq![pair_char(h, l)] + Seq::<char>::empty() =~= seq![c]);
    }
}

proof fn lemma_decode_utf16_of(s: Seq<char>)
    ensures
        utf16_decode(utf16_of(s)) == Some(s),
    decreases s.len(),
{
    if s.len() == 0 {
        assert(utf16_of(s) =~= Seq::<u16>::empty());
        assert(s =~= Seq::<char>::empty());
    } else {
        lemma_decode_utf16_of(s.drop_last());
        lemma_decode_char(s.last());
        lemma_decode_append(utf16_of(s.drop_last()), utf16_char(s.last()));
        assert(s.drop_last() + seq![s.last()] =~= s);
    }
}

/// Text that the bulk writer writes to an NVARCHAR(MAX) column (UTF-16 in
/// PLP format) reads back as the same string, and the reader stops right
/// after the value.
pub proof fn law_plp_text_reads_back(c: ColumnView, v: SqlValue, is_fixed: bool, rest: Seq<u8>)
    requires
        is_plp_column(c),
        c.type_id == 0xE7,
        v matches SqlValue::String(t) && utf16_bytes(utf16_of(t@)).len() < 0x1_0000_0000,
    ensures
        ({
            let s = v->String_0@;
            let data = utf16_bytes(utf16_of(s));
            &&& encode_value_spec(c, v, is_fixed) == Encoded::Bytes(plp_single_chunk(data))
            &&& plp_text_spec(plp_single_chunk(data) + rest) == Ok::<(Option<Seq<char>>, nat), Seq<char>>(
                (Some(s), plp_single_chunk(data).len()),
            )
        }),
{
    let s = v->String_0@;
    let data = utf16_bytes(utf16_of(s));
    lemma_plp_single_chunk_reads(data, rest);
    lemma_units_of_bytes(utf16_of(s));
    lemma_decode_utf16_of(s);
}

proof fn lemma_u16_prefix(b: Seq<u8>, v: u16)
    requires
        b.len() >= 2,
        b.take(2) == le2(v),
    ensures
        u16_of(b) == v,
{
    crate::wire::lemma_le2_roundtrip(v);
    assert(b[0] == b.take(2)[0]);
    assert(b[1] == b.take(2)[1]);
}

/// Integers that the bulk writer writes to an INTN column (with their
/// length byte) read back as the same values, NULL included.
pub proof fn law_intn_reads_back(c: ColumnView, v: SqlValue, rest: Seq<u8>)
    requires
        c.type_id == 0x26,
        v is Null || v is TinyInt || v is SmallInt || v is Int || v is BigInt,
    ensures
        encode_value_spec(c, v, false) is Bytes,
        intn_spec(encode_value_spec(c, v, false)->Bytes_0 + rest) == Ok::<(ValueView, nat), Seq<char>>(
            (v@, encode_value_spec(c, v, false)->Bytes_0.len()),
        ),
{
    let b = encode_value_spec(c, v, false)->Bytes_0;
    let all = b + rest;
    match v {
        SqlValue::Null => {
            assert(all[0] == 0);
        },
        SqlValue::TinyInt(x) => {
            assert(all[0] == 1 && all[1] == x);
            assert(all.skip(1)[0] == x);
        },
        SqlValue::SmallInt(x) => {
            assert(all.skip(1).take(2) =~= le2(x as u16));
            lemma_u16_prefix(all.skip(1), x as u16);
            assert((x as u16) as i16 == x) by (bit_vector);
        },
        SqlValue::Int(x) => {
            assert(all.skip(1).take(4) =~= le4(x as u32));
            lemma_u32_prefix(all.skip(1), x as u32);
            assert((x as u32) as i32 == x) by (bit_vector);
        },
        SqlValue::BigInt(x) => {
            assert(all.skip(1).take(8) =~= le8(x as u64));
            lemma_u64_prefix(all.skip(1), x as u64);
            assert((x as u64) as i64 == x) by (bit_vector);
        },
        _ => {},
    }
}

/// Floating-point numbers that the bulk writer writes to a FLOATN column
/// (with their length byte) read back with the same bits, NULL included.
pub proof fn law_floatn_reads_back(c: ColumnView, v: SqlValue, rest: Seq<u8>)
    requires
        c.type_id == 0x6D,
        v is Null || v is Float || v is Double,
    ensures
        encode_value_spec(c, v, false) is Bytes,
        floatn_spec(encode_value_spec(c, v, false)->Bytes_0 + rest) == Ok::<(ValueView, nat), Seq<char>>(
            (v@, encode_value_spec(c, v, false)->Bytes_0.len()),
        ),
{
    let b = encode_value_spec(c, v, false)->Bytes_0;
    let all = b + rest;
    match v {
        SqlValue::Null => {
            assert(all[0] == 0);
        },
        SqlValue::Float(x) => {
            assert(all.skip(1).take(4) =~= le4(x));
            lemma_u32_prefix(all.skip(1), x);
        },
        SqlValue::Double(x) => {
            assert(all.skip(1).take(8) =~= le8(x));
            lemma_u64_prefix(all.skip(1), x);
        },
        _ => {},
    }
}

/// Bits that the bulk writer writes to a BITN column read back as the
/// same values, NULL included.
pub proof fn law_bitn_reads_back(c: ColumnView, v: SqlValue, rest: Seq<u8>)
    requires
        c.type_id == 0x68,
        v is Null || v is Bool,
    ensures
        encode_value_spec(c, v, false) is Bytes,
        bitn_spec(encode_value_spec(c, v, false)->Bytes_0 + rest) == Ok::<(ValueView, nat), Seq<char>>(
            (v@, encode_value_spec(c, v, false)->Bytes_0.len()),
        ),
{
    let b = encode_value_spec(c, v, false)->Bytes_0;
    let all = b + rest;
    assert(all[0] == b[0]);
    if v is Bool {
        assert(all[1] == b[1]);
    }
}

/// A UUID that the bulk writer writes reads back as the same UUID.
pub proof fn law_guid_reads_back(c: ColumnView, v: SqlValue, is_fixed: bool, rest: Seq<u8>)
    requires
        v matches SqlValue::Uuid(u) && uuid_bytes(u).len() == 16,
    ensures
        encode_value_spec(c, v, is_fixed) is Bytes,
        guid_spec(encode_value_spec(c, v, is_fixed)->Bytes_0 + rest) == Ok::<(ValueView, nat), Seq<char>>(
            (v@, 17),
        ),
{
    let u = v->Uuid_0;
    let b = encode_value_spec(c, v, is_fixed)->Bytes_0;
    lemma_guid_swap_twice(uuid_bytes(u));
    let all = b + rest;
    assert(all.subrange(1, 17) =~= guid_swap(uuid_bytes(u)));
}

} // verus!
