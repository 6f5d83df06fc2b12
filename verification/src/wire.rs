//! Little-endian integers, UTF-16 text and PLP framing as they appear in a
//! TDS byte stream, and the `BytesMut` buffer the bulk loader writes to.
use vstd::prelude::*;
use bytes::BytesMut;

verus! {

// ---------------------------------------------------------------------------
// Little-endian integers
// ---------------------------------------------------------------------------

/// The two little-endian bytes of a `u16`.
pub open spec fn le2(v: u16) -> Seq<u8> {
    seq![(v % 256) as u8, (v / 256) as u8]
}

/// The four little-endian bytes of a `u32`.
pub open spec fn le4(v: u32) -> Seq<u8> {
    seq![(v % 256) as u8, ((v / 256) % 256) as u8, ((v / 65536) % 256) as u8, (v / 16777216) as u8]
}

/// The eight little-endian bytes of a `u64`.
pub open spec fn le8(v: u64) -> Seq<u8> {
    le4((v % 4294967296) as u32) + le4((v / 4294967296) as u32)
}

/// The value of two little-endian bytes.
pub open spec fn u16_of(b: Seq<u8>) -> u16 {
    (b[0] + 256 * b[1]) as u16
}

/// The value of four little-endian bytes.
pub open spec fn u32_of(b: Seq<u8>) -> u32 {
    (b[0] + 256 * b[1] + 65536 * b[2] + 16777216 * b[3]) as u32
}

/// The value of eight little-endian bytes.
pub open spec fn u64_of(b: Seq<u8>) -> u64 {
    (u32_of(b.subrange(0, 4)) + 4294967296 * u32_of(b.subrange(4, 8))) as u64
}

pub proof fn lemma_le2_roundtrip(v: u16)
    ensures
        le2(v).len() == 2,
        u16_of(le2(v)) == v,
{
}

pub proof fn lemma_le4_roundtrip(v: u32)
    ensures
        le4(v).len() == 4,
        u32_of(le4(v)) == v,
{
}

pub proof fn lemma_le8_roundtrip(v: u64)
    ensures
        le8(v).len() == 8,
        u64_of(le8(v)) == v,
{
    let lo = (v % 4294967296) as u32;
    let hi = (v / 4294967296) as u32;
    lemma_le4_roundtrip(lo);
    lemma_le4_roundtrip(hi);
    assert(le8(v).subrange(0, 4) =~= le4(lo));
    assert(le8(v).subrange(4, 8) =~= le4(hi));
}

/// Appends one byte.
pub fn push_u8(buf: &mut Vec<u8>, v: u8)
    ensures
        final(buf)@ == old(buf)@ + seq![v],
{
    buf.push(v);
    assert(buf@ =~= old(buf)@ + seq![v]);
}

/// Appends a `u16` in little-endian order.
pub fn push_u16_le(buf: &mut Vec<u8>, v: u16)
    ensures
        final(buf)@ == old(buf)@ + le2(v),
{
    buf.push((v % 256) as u8);
    buf.push((v / 256) as u8);
    assert(buf@ =~= old(buf)@ + le2(v));
}

/// Appends a `u32` in little-endian order.
pub fn push_u32_le(buf: &mut Vec<u8>, v: u32)
    ensures
        final(buf)@ == old(buf)@ + le4(v),
{
    buf.push((v % 256) as u8);
    buf.push(((v / 256) % 256) as u8);
    buf.push(((v / 65536) % 256) as u8);
    buf.push((v / 16777216) as u8);
    assert(buf@ =~= old(buf)@ + le4(v));
}

/// Appends a `u64` in little-endian order.
pub fn push_u64_le(buf: &mut Vec<u8>, v: u64)
    ensures
        final(buf)@ == old(buf)@ + le8(v),
{
    push_u32_le(buf, (v % 4294967296) as u32);
    push_u32_le(buf, (v / 4294967296) as u32);
    assert(buf@ =~= old(buf)@ + le8(v));
}

/// Appends the bytes of a slice.
pub fn push_bytes(buf: &mut Vec<u8>, src: &[u8])
    ensures
        final(buf)@ == old(buf)@ + src@,
{
    let ghost start = buf@;
    let mut i: usize = 0;
    while i < src.len()
        invariant
            i <= src@.len(),
            buf@ == start + src@.take(i as int),
        decreases src@.len() - i,
    {
        buf.push(src[i]);
        assert(start + src@.take(i as int).push(src@[i as int]) =~= start + src@.take(i + 1));
        i = i + 1;
    }
    assert(src@.take(src@.len() as int) =~= src@);
}

/// The low `k` bytes of `n`, least significant first.
pub open spec fn le_bytes(n: nat, k: nat) -> Seq<u8>
    decreases k,
{
    if k == 0 {
        Seq::empty()
    } else {
        seq![(n % 256) as u8] + le_bytes(n / 256, (k - 1) as nat)
    }
}

/// Appends the low `k` bytes of `n`, least significant first.
pub fn push_le_bytes(buf: &mut Vec<u8>, n: u128, k: u8)
    ensures
        final(buf)@ == old(buf)@ + le_bytes(n as nat, k as nat),
{
    let ghost start = buf@;
    let mut m: u128 = n;
    let mut i: u8 = 0;
    while i < k
        invariant
            i <= k,
            buf@ + le_bytes(m as nat, (k - i) as nat) == start + le_bytes(n as nat, k as nat),
        decreases k - i,
    {
        let ghost rest = le_bytes((m / 256) as nat, (k - i - 1) as nat);
        assert(le_bytes(m as nat, (k - i) as nat) == seq![(m % 256) as u8] + rest);
        let ghost prev = buf@;
        buf.push((m % 256) as u8);
        assert(buf@ + rest =~= prev + le_bytes(m as nat, (k - i) as nat));
        m = m / 256;
        i = i + 1;
    }
    assert(le_bytes(m as nat, 0) =~= Seq::<u8>::empty());
    assert(buf@ =~= buf@ + le_bytes(m as nat, 0));
}

/// Little-endian bytes as a number.
pub open spec fn le_value(b: Seq<u8>) -> nat
    decreases b.len(),
{
    if b.len() == 0 {
        0
    } else {
        (b[0] + 256 * le_value(b.skip(1))) as nat
    }
}

/// 256 to the `k`.
pub open spec fn pow256(k: nat) -> nat
    decreases k,
{
    if k == 0 {
        1
    } else {
        256 * pow256((k - 1) as nat)
    }
}

pub proof fn lemma_le_value_bound(b: Seq<u8>)
    ensures
        le_value(b) < pow256(b.len()),
    decreases b.len(),
{
    if b.len() > 0 {
        lemma_le_value_bound(b.skip(1));
    }
}

pub proof fn lemma_pow256_mono(a: nat, b: nat)
    requires
        a <= b,
    ensures
        pow256(a) <= pow256(b),
    decreases b,
{
    if a < b {
        lemma_pow256_mono(a, (b - 1) as nat);
    }
}

/// Reads up to sixteen little-endian bytes as a number.
pub fn read_le(b: &[u8]) -> (r: u128)
    requires
        b@.len() <= 16,
    ensures
        r == le_value(b@),
{
    proof {
        reveal_with_fuel(pow256, 17);
        assert(pow256(16) == 0x1_0000_0000_0000_0000_0000_0000_0000_0000);
    }
    let n = b.len();
    let mut acc: u128 = 0;
    let mut i: usize = n;
    assert(b@.subrange(n as int, n as int) =~= Seq::<u8>::empty());
    while i > 0
        invariant
            i <= n,
            n == b@.len(),
            n <= 16,
            acc == le_value(b@.subrange(i as int, n as int)),
            pow256(16) == 0x1_0000_0000_0000_0000_0000_0000_0000_0000,
        decreases i,
    {
        proof {
            lemma_le_value_bound(b@.subrange(i as int, n as int));
            lemma_pow256_mono((n - i) as nat, 15);
            assert(b@.subrange(i - 1, n as int).skip(1) =~= b@.subrange(i as int, n as int));
            assert(pow256(16) == 256 * pow256(15));
        }
        acc = (b[i - 1] as u128) + 256 * acc;
        i = i - 1;
    }
    assert(b@.subrange(0, n as int) =~= b@);
    acc
}

// ---------------------------------------------------------------------------
// UTF-16
// ---------------------------------------------------------------------------

/// The UTF-16 code units of one character.
pub open spec fn utf16_char(c: char) -> Seq<u16> {
    let n = c as u32;
    if n < 0x10000 {
        seq![n as u16]
    } else {
        let m = (n - 0x10000) as u32;
        seq![(0xD800 + m / 1024) as u16, (0xDC00 + m % 1024) as u16]
    }
}

/// The UTF-16 code units of a string (`str::encode_utf16`).
pub open spec fn utf16_of(s: Seq<char>) -> Seq<u16>
    decreases s.len(),
{
    if s.len() == 0 {
        Seq::empty()
    } else {
        utf16_of(s.drop_last()) + utf16_char(s.last())
    }
}

/// UTF-16 code units as little-endian bytes.
pub open spec fn utf16_bytes(u: Seq<u16>) -> Seq<u8>
    decreases u.len(),
{
    if u.len() == 0 {
        Seq::empty()
    } else {
        utf16_bytes(u.drop_last()) + le2(u.last())
    }
}

pub proof fn lemma_utf16_bytes_len(u: Seq<u16>)
    ensures
        utf16_bytes(u).len() == 2 * u.len(),
    decreases u.len(),
{
    if u.len() > 0 {
        lemma_utf16_bytes_len(u.drop_last());
    }
}

pub proof fn lemma_utf16_len_bound(s: Seq<char>)
    ensures
        s.len() <= utf16_of(s).len() <= 2 * s.len(),
    decreases s.len(),
{
    if s.len() > 0 {
        lemma_utf16_len_bound(s.drop_last());
    }
}

/// The UTF-16 code units of a string.
pub fn encode_utf16(s: &str) -> (r: Vec<u16>)
    ensures
        r@ == utf16_of(s@),
{
    let cs = crate::text::chars_of(s);
    let mut out: Vec<u16> = Vec::new();
    let mut i: usize = 0;
    while i < cs.len()
        invariant
            i <= cs@.len(),
            cs@ == s@,
            out@ == utf16_of(cs@.take(i as int)),
        decreases cs@.len() - i,
    {
        let c = cs[i];
        let n = c as u32;
        if n < 0x10000 {
            out.push(n as u16);
        } else {
            let m = n - 0x10000;
            out.push((0xD800 + m / 1024) as u16);
            out.push((0xDC00 + m % 1024) as u16);
        }
        assert(cs@.take(i + 1).drop_last() =~= cs@.take(i as int));
        assert(out@ =~= utf16_of(cs@.take(i + 1)));
        i = i + 1;
    }
    assert(cs@.take(cs@.len() as int) =~= cs@);
    out
}

/// Appends UTF-16 code units as little-endian bytes.
pub fn push_utf16_le(buf: &mut Vec<u8>, units: &[u16])
    ensures
        final(buf)@ == old(buf)@ + utf16_bytes(units@),
{
    let ghost start = buf@;
    let mut i: usize = 0;
    while i < units.len()
        invariant
            i <= units@.len(),
            buf@ == start + utf16_bytes(units@.take(i as int)),
        decreases units@.len() - i,
    {
        push_u16_le(buf, units[i]);
        assert(units@.take(i + 1).drop_last() =~= units@.take(i as int));
        assert(buf@ =~= start + utf16_bytes(units@.take(i + 1)));
        i = i + 1;
    }
    assert(units@.take(units@.len() as int) =~= units@);
}

// ---------------------------------------------------------------------------
// GUIDs
// ---------------------------------------------------------------------------

/// The mixed-endian order SQL Server uses for a GUID's sixteen bytes: the
/// first three groups (4, 2 and 2 bytes) byte-swapped, the last eight bytes
/// as they are.  The reordering is its own inverse.
pub open spec fn guid_swap(b: Seq<u8>) -> Seq<u8> {
    seq![b[3], b[2], b[1], b[0], b[5], b[4], b[7], b[6]] + b.subrange(8, 16)
}

pub proof fn lemma_guid_swap_twice(b: Seq<u8>)
    requires
        b.len() == 16,
    ensures
        guid_swap(b).len() == 16,
        guid_swap(guid_swap(b)) == b,
{
    assert(guid_swap(guid_swap(b)) =~= b);
}

/// Appends sixteen GUID bytes in SQL Server's mixed-endian order.
pub fn push_guid(buf: &mut Vec<u8>, b: &[u8; 16])
    ensures
        final(buf)@ == old(buf)@ + guid_swap(b@),
{
    buf.push(b[3]);
    buf.push(b[2]);
    buf.push(b[1]);
    buf.push(b[0]);
    buf.push(b[5]);
    buf.push(b[4]);
    buf.push(b[7]);
    buf.push(b[6]);
    let mut i: usize = 8;
    let ghost mid = buf@;
    while i < 16
        invariant
            8 <= i <= 16,
            b@.len() == 16,
            buf@ == mid + b@.subrange(8, i as int),
        decreases 16 - i,
    {
        buf.push(b[i]);
        assert(mid + b@.subrange(8, i + 1) =~= (mid + b@.subrange(8, i as int)).push(b@[i as int]));
        i = i + 1;
    }
    assert(buf@ =~= old(buf)@ + guid_swap(b@));
}

// ---------------------------------------------------------------------------
// PLP (partially length-prefixed) values
// ---------------------------------------------------------------------------

/// Total-length marker of a PLP value whose length is not announced.
pub const PLP_UNKNOWN_LEN: u64 = 0xFFFFFFFFFFFFFFFE;

/// Total-length marker of a NULL PLP value.
pub const PLP_NULL: u64 = 0xFFFFFFFFFFFFFFFF;

/// A PLP value sent as one chunk: the unknown-length marker, then (when
/// there is any data) a 4-byte chunk length and the data, then the
/// zero-length terminator chunk.
pub open spec fn plp_single_chunk(data: Seq<u8>) -> Seq<u8> {
    le8(PLP_UNKNOWN_LEN) + (if data.len() > 0 {
        le4(data.len() as u32) + data
    } else {
        Seq::empty()
    }) + le4(0)
}

/// Appends binary data in PLP format, as a single chunk.
pub fn encode_plp_binary(data: &[u8], buf: &mut Vec<u8>)
    ensures
        final(buf)@ == old(buf)@ + plp_single_chunk(data@),
{
    push_u64_le(buf, PLP_UNKNOWN_LEN);
    if data.len() > 0 {
        push_u32_le(buf, data.len() as u32);
        push_bytes(buf, data);
    }
    push_u32_le(buf, 0);
    assert(buf@ =~= old(buf)@ + plp_single_chunk(data@));
}

/// Appends UTF-16 code units (as little-endian bytes) in PLP format, as a
/// single chunk.
pub fn encode_plp_string(utf16: &[u16], buf: &mut Vec<u8>)
    requires
        utf16@.len() * 2 <= usize::MAX,
    ensures
        final(buf)@ == old(buf)@ + plp_single_chunk(utf16_bytes(utf16@)),
{
    proof {
        lemma_utf16_bytes_len(utf16@);
    }
    let byte_len = utf16.len() * 2;
    push_u64_le(buf, PLP_UNKNOWN_LEN);
    if byte_len > 0 {
        push_u32_le(buf, byte_len as u32);
        push_utf16_le(buf, utf16);
    }
    push_u32_le(buf, 0);
    assert(buf@ =~= old(buf)@ + plp_single_chunk(utf16_bytes(utf16@)));
}

// ---------------------------------------------------------------------------
// The `bytes::BytesMut` buffer
// ---------------------------------------------------------------------------

/// The buffer type `bytes::BytesMut`, opaque; its bytes are named by
/// `bytes_mut_contents`.
#[verifier::external_type_specification]
#[verifier::external_body]
pub struct ExBytesMut(bytes::BytesMut);

/// The bytes held by a `BytesMut`.
pub uninterp spec fn bytes_mut_contents(b: BytesMut) -> Seq<u8>;

/// `BytesMut::with_capacity`: an empty buffer.
#[verifier::external_body]
pub(crate) fn bytes_with_capacity(capacity: usize) -> (r: BytesMut)
    ensures
        bytes_mut_contents(r) == Seq::<u8>::empty(),
{
    BytesMut::with_capacity(capacity)
}

/// `BytesMut::extend_from_slice`: appends the bytes of `src`.  It panics
/// only when the new length overflows the allocator's limit, which the
/// precondition rules out.
#[verifier::external_body]
pub(crate) fn bytes_extend(buf: &mut BytesMut, src: &[u8])
    requires
        bytes_mut_contents(*old(buf)).len() + src@.len() <= isize::MAX,
    ensures
        bytes_mut_contents(*final(buf)) == bytes_mut_contents(*old(buf)) + src@,
{
    buf.extend_from_slice(src)
}

/// `BytesMut::split`: takes all the bytes out, leaving the buffer empty.
#[verifier::external_body]
pub(crate) fn bytes_split(buf: &mut BytesMut) -> (r: BytesMut)
    ensures
        bytes_mut_contents(r) == bytes_mut_contents(*old(buf)),
        bytes_mut_contents(*final(buf)) == Seq::<u8>::empty(),
{
    buf.split()
}

/// `<BytesMut as AsRef<[u8]>>::as_ref`: the bytes as a slice.
#[verifier::external_body]
pub(crate) fn bytes_as_slice(b: &BytesMut) -> (r: &[u8])
    ensures
        r@ == bytes_mut_contents(*b),
{
    b.as_ref()
}

} // verus!
