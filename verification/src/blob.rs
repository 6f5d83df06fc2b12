//! A reader over a large binary value held in memory.
use vstd::prelude::*;
use bytes::Bytes;
use vstd::slice::slice_subrange;
use vstd::string::StringSliceAdditionalSpecFns;
use crate::text::{chars_of, nat_decimal, push_decimal_u64, push_str_chars, string_of};

verus! {

/// The shared byte buffer `bytes::Bytes`, opaque; its bytes are named by
/// `bytes_contents`.
#[verifier::external_type_specification]
#[verifier::external_body]
pub struct ExBytes(bytes::Bytes);

/// The bytes held by a `Bytes`.
pub uninterp spec fn bytes_contents(b: Bytes) -> Seq<u8>;

/// `Bytes::new`: no bytes.
#[verifier::external_body]
fn bytes_new() -> (r: Bytes)
    ensures
        bytes_contents(r) == Seq::<u8>::empty(),
{
    Bytes::new()
}

/// `Bytes::copy_from_slice`: a copy of the slice.
#[verifier::external_body]
fn bytes_copy_from_slice(data: &[u8]) -> (r: Bytes)
    ensures
        bytes_contents(r) == data@,
{
    Bytes::copy_from_slice(data)
}

/// `<Bytes as Deref>::deref`: the bytes as a slice.
#[verifier::external_body]
fn bytes_as_slice(b: &Bytes) -> (r: &[u8])
    ensures
        r@ == bytes_contents(*b),
{
    b.as_ref()
}

/// `<Bytes as Clone>::clone`: another handle on the same bytes.
#[verifier::external_body]
fn bytes_clone(b: &Bytes) -> (r: Bytes)
    ensures
        bytes_contents(r) == bytes_contents(*b),
{
    b.clone()
}

/// A reader over a binary value: the whole value and a read position.
#[derive(Debug)]
pub struct BlobReader {
    buffer: Bytes,
    position: usize,
}

/// The abstract state of a [`BlobReader`].
pub ghost struct BlobView {
    pub data: Seq<u8>,
    pub position: nat,
}

impl View for BlobReader {
    type V = BlobView;

    closed spec fn view(&self) -> BlobView {
        BlobView { data: bytes_contents(self.buffer), position: self.position as nat }
    }
}

impl BlobReader {
    #[verifier::type_invariant]
    closed spec fn position_in_data(&self) -> bool {
        self.position <= bytes_contents(self.buffer).len()
    }

    /// A reader at the start of the given bytes.
    pub fn from_bytes(buffer: Bytes) -> (r: Self)
        ensures
            r@ == (BlobView { data: bytes_contents(buffer), position: 0 }),
    {
        BlobReader { buffer, position: 0 }
    }

    /// A reader over no data.
    pub fn empty() -> (r: Self)
        ensures
            r@ == (BlobView { data: Seq::empty(), position: 0 }),
    {
        BlobReader { buffer: bytes_new(), position: 0 }
    }

    /// A reader at the start of a copy of the slice.
    pub fn from_slice(data: &[u8]) -> (r: Self)
        ensures
            r@ == (BlobView { data: data@, position: 0 }),
    {
        BlobReader { buffer: bytes_copy_from_slice(data), position: 0 }
    }

    /// The total length (always known for an in-memory value).
    pub fn len(&self) -> (r: Option<u64>)
        ensures
            r == Some(self@.data.len() as u64),
    {
        Some(bytes_as_slice(&self.buffer).len() as u64)
    }

    /// Whether the value has no bytes.
    pub fn is_empty(&self) -> (r: bool)
        ensures
            r == (self@.data.len() == 0),
    {
        bytes_as_slice(&self.buffer).len() == 0
    }

    /// The number of bytes read so far.
    pub fn bytes_read(&self) -> (r: u64)
        ensures
            r == self@.position,
    {
        self.position as u64
    }

    /// The number of bytes not read yet.
    pub fn remaining(&self) -> (r: Option<u64>)
        ensures
            r == Some((self@.data.len() - self@.position) as u64),
    {
        proof {
            use_type_invariant(self);
        }
        let total = bytes_as_slice(&self.buffer).len() as u64;
        Some(total - self.position as u64)
    }

    /// A one-line description of the reader: its total length, position
    /// and remaining bytes, written as a struct literal.
    pub fn debug_text(&self) -> (r: String)
        ensures
            r@ == "BlobReader { total_len: "@ + nat_decimal(self@.data.len()) + ", position: "@
                + nat_decimal(self@.position) + ", remaining: Some("@ + nat_decimal(
                (self@.data.len() - self@.position) as nat,
            ) + ") }"@,
    {
        proof {
            use_type_invariant(self);
        }
        let total = bytes_as_slice(&self.buffer).len();
        let mut out = chars_of("BlobReader { total_len: ");
        push_decimal_u64(&mut out, total as u64);
        push_str_chars(&mut out, ", position: ");
        push_decimal_u64(&mut out, self.position as u64);
        push_str_chars(&mut out, ", remaining: Some(");
        push_decimal_u64(&mut out, (total - self.position) as u64);
        push_str_chars(&mut out, ") }");
        string_of(out.as_slice())
    }

    /// Goes back to the start.
    pub fn rewind(&mut self)
        ensures
            final(self)@ == (BlobView { position: 0, ..old(self)@ }),
    {
        self.position = 0;
    }

    /// The whole value, read or not.
    pub fn into_bytes(self) -> (r: Bytes)
        ensures
            bytes_contents(r) == self@.data,
    {
        self.buffer
    }

    /// The whole value, read or not.
    pub fn as_bytes(&self) -> (r: &Bytes)
        ensures
            bytes_contents(*r) == self@.data,
    {
        &self.buffer
    }

    /// The bytes not read yet.
    pub fn unread_slice(&self) -> (r: &[u8])
        ensures
            r@ == self@.data.skip(self@.position as int),
    {
        proof {
            use_type_invariant(self);
        }
        let all = bytes_as_slice(&self.buffer);
        slice_subrange(all, self.position, all.len())
    }

    /// Whether everything has been read.
    pub fn is_exhausted(&self) -> (r: bool)
        ensures
            r == (self@.position >= self@.data.len()),
    {
        self.position >= bytes_as_slice(&self.buffer).len()
    }

    /// Reads the next bytes, at most `max` of them: the next
    /// `min(max, remaining)` bytes, none at the end.
    pub fn read_up_to(&mut self, max: usize) -> (r: Vec<u8>)
        ensures
            ({
                let rem = (old(self)@.data.len() - old(self)@.position) as nat;
                let k = if rem < max {
                    rem
                } else {
                    max as nat
                };
                &&& r@ == old(self)@.data.subrange(
                    old(self)@.position as int,
                    (old(self)@.position + k) as int,
                )
                &&& final(self)@ == (BlobView {
                    position: old(self)@.position + k,
                    ..old(self)@
                })
            }),
    {
        proof {
            use_type_invariant(&*self);
        }
        let all = bytes_as_slice(&self.buffer);
        let remaining = all.len() - self.position;
        let to_read = if remaining < max {
            remaining
        } else {
            max
        };
        let end = self.position + to_read;
        let part = slice_subrange(all, self.position, end);
        let mut out: Vec<u8> = Vec::new();
        crate::wire::push_bytes(&mut out, part);
        assert(out@ =~= part@);
        self.position = end;
        out
    }
}

impl Default for BlobReader {
    fn default() -> (r: Self)
        ensures
            r@ == (BlobView { data: Seq::empty(), position: 0 }),
    {
        BlobReader::empty()
    }
}

impl Clone for BlobReader {
    /// Another reader over the same bytes, starting from the beginning.
    fn clone(&self) -> (r: Self)
        ensures
            r@ == (BlobView { data: self@.data, position: 0 }),
    {
        BlobReader { buffer: bytes_clone(&self.buffer), position: 0 }
    }
}

impl From<Bytes> for BlobReader {
    /// A reader at the start of the bytes.
    fn from(bytes: Bytes) -> (r: Self)
        ensures
            r@ == (BlobView { data: bytes_contents(bytes), position: 0 }),
    {
        BlobReader::from_bytes(bytes)
    }
}

impl vstd::std_specs::convert::FromSpecImpl<Bytes> for BlobReader {
    /// Nothing is claimed of the value beyond its view, which `from`
    /// states.
    open spec fn obeys_from_spec() -> bool {
        false
    }

    open spec fn from_spec(v: Bytes) -> BlobReader {
        vstd::pervasive::arbitrary()
    }
}

impl From<Vec<u8>> for BlobReader {
    /// A reader at the start of the vector's bytes.
    fn from(v: Vec<u8>) -> (r: Self)
        ensures
            r@ == (BlobView { data: v@, position: 0 }),
    {
        BlobReader::from_slice(v.as_slice())
    }
}

impl vstd::std_specs::convert::FromSpecImpl<Vec<u8>> for BlobReader {
    /// Nothing is claimed of the value beyond its view, which `from`
    /// states.
    open spec fn obeys_from_spec() -> bool {
        false
    }

    open spec fn from_spec(v: Vec<u8>) -> BlobReader {
        vstd::pervasive::arbitrary()
    }
}

impl<'a> From<&'a [u8]> for BlobReader {
    /// A reader at the start of a copy of the slice.
    fn from(s: &'a [u8]) -> (r: Self)
        ensures
            r@ == (BlobView { data: s@, position: 0 }),
    {
        BlobReader::from_slice(s)
    }
}

impl<'a> vstd::std_specs::convert::FromSpecImpl<&'a [u8]> for BlobReader {
    /// Nothing is claimed of the value beyond its view, which `from`
    /// states.
    open spec fn obeys_from_spec() -> bool {
        false
    }

    open spec fn from_spec(v: &'a [u8]) -> BlobReader {
        vstd::pervasive::arbitrary()
    }
}

impl<'a> From<&'a str> for BlobReader {
    /// A reader at the start of the text's UTF-8 bytes.
    fn from(s: &'a str) -> (r: Self)
        ensures
            r@ == (BlobView { data: s.spec_bytes(), position: 0 }),
    {
        BlobReader::from_slice(s.as_bytes())
    }
}

impl<'a> vstd::std_specs::convert::FromSpecImpl<&'a str> for BlobReader {
    /// Nothing is claimed of the value beyond its view, which `from`
    /// states.
    open spec fn obeys_from_spec() -> bool {
        false
    }

    open spec fn from_spec(v: &'a str) -> BlobReader {
        vstd::pervasive::arbitrary()
    }
}

impl From<String> for BlobReader {
    /// A reader at the start of the string's UTF-8 bytes.
    fn from(s: String) -> (r: Self)
        ensures
            r@ == (BlobView { data: vstd::utf8::encode_utf8(s@), position: 0 }),
    {
        BlobReader::from_slice(s.as_str().as_bytes())
    }
}

impl vstd::std_specs::convert::FromSpecImpl<String> for BlobReader {
    /// Nothing is claimed of the value beyond its view, which `from`
    /// states.
    open spec fn obeys_from_spec() -> bool {
        false
    }

    open spec fn from_spec(v: String) -> BlobReader {
        vstd::pervasive::arbitrary()
    }
}

/// The bytes a read of at most `max` bytes at `pos` gives.
pub open spec fn read_count(len: int, pos: int, max: int) -> int {
    if len - pos < max {
        len - pos
    } else {
        max
    }
}

/// Reading a value chunk by chunk loses and reorders nothing: reading `a`
/// bytes and then `b` bytes gives the same bytes as reading `a + b` at once,
/// and the reader ends at the same position.
pub proof fn law_reads_concatenate(data: Seq<u8>, pos: int, a: int, b: int)
    requires
        0 <= pos <= data.len(),
        0 <= a,
        0 <= b,
    ensures
        ({
            let ka = read_count(data.len() as int, pos, a);
            let kb = read_count(data.len() as int, pos + ka, b);
            &&& ka + kb == read_count(data.len() as int, pos, a + b)
            &&& data.subrange(pos, pos + ka) + data.subrange(pos + ka, pos + ka + kb)
                == data.subrange(pos, pos + ka + kb)
        }),
{
    let ka = read_count(data.len() as int, pos, a);
    let kb = read_count(data.len() as int, pos + ka, b);
    assert(data.subrange(pos, pos + ka) + data.subrange(pos + ka, pos + ka + kb) =~= data.subrange(
        pos,
        pos + ka + kb,
    ));
}

} // verus!
