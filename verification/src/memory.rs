//! The pointer marshaler: length-prefixed buffers in one linear memory region.
//!
//! A buffer on the wire is a four-byte big-endian length followed by that
//! many payload bytes. A pointer is the offset of the length field.

use crate::numeric::{lemma_u32_round_trip, u32_bytes, u32_to_u8_vec, u32_value, u8_vec_to_u32};
use vstd::prelude::*;
use vstd::slice::{slice_subrange, slice_to_vec};

verus! {

/// Width in bytes of the length field in front of every buffer.
pub const LENGTH_BYTE_COUNT: usize = 4;

/// An offset into linear memory.
pub type Pointer = usize;

/// A payload behind its length field.
pub open spec fn length_prefixed(payload: Seq<u8>) -> Seq<u8>
    recommends
        payload.len() <= u32::MAX,
{
    u32_bytes(payload.len() as u32, true) + payload
}

/// The payload length that the four bytes at `offset` declare.
pub open spec fn declared_length(region: Seq<u8>, offset: int) -> int
    recommends
        0 <= offset,
        offset + 4 <= region.len(),
{
    u32_value(region.subrange(offset, offset + 4), true)
}

/// Whether a whole buffer, length field and declared payload, lies inside
/// the region at `offset`.
pub open spec fn holds_buffer(region: Seq<u8>, offset: int) -> bool {
    &&& 0 <= offset
    &&& offset + 4 <= region.len()
    &&& offset + 4 + declared_length(region, offset) <= region.len()
}

/// The payload of the buffer at `offset`.
pub open spec fn buffer_at(region: Seq<u8>, offset: int) -> Seq<u8>
    recommends
        holds_buffer(region, offset),
{
    region.subrange(offset + 4, offset + 4 + declared_length(region, offset))
}

/// Whether every buffer of the region `before` still lies where it lay in
/// the region `after`, with the payload it had.
pub open spec fn keeps_buffers(before: Seq<u8>, after: Seq<u8>) -> bool {
    forall|offset: int| #[trigger]
        holds_buffer(before, offset) ==> holds_buffer(after, offset) && buffer_at(after, offset)
            == buffer_at(before, offset)
}

/// Puts the length field in front of a payload.
pub fn with_length_prefix(payload: &[u8]) -> (buffer: Vec<u8>)
    requires
        payload@.len() <= u32::MAX,
    ensures
        buffer@ == length_prefixed(payload@),
{
    let mut buffer = u32_to_u8_vec(payload.len() as u32, true);
    let mut rest = slice_to_vec(payload);
    buffer.append(&mut rest);
    buffer
}

/// Reads the buffer at `offset`, if a whole buffer lies there: the length
/// field first, then exactly as many bytes as it declares.
pub fn read_buffer(region: &[u8], offset: Pointer) -> (payload: Option<Vec<u8>>)
    ensures
        payload is Some <==> holds_buffer(region@, offset as int),
        payload matches Some(p) ==> p@ == buffer_at(region@, offset as int),
{
    let len = region.len();
    if len < LENGTH_BYTE_COUNT || offset > len - LENGTH_BYTE_COUNT {
        return None;
    }
    let start = offset + LENGTH_BYTE_COUNT;
    let length = u8_vec_to_u32(slice_to_vec(slice_subrange(region, offset, start)), true) as usize;
    if length > len - start {
        return None;
    }
    Some(slice_to_vec(slice_subrange(region, start, start + length)))
}

/// Reading where a buffer was written gives its payload back, whatever
/// the payload holds and whatever stood in the region before.
pub proof fn lemma_read_after_write(region: Seq<u8>, payload: Seq<u8>)
    requires
        payload.len() <= u32::MAX,
    ensures
        holds_buffer(region + length_prefixed(payload), region.len() as int),
        buffer_at(region + length_prefixed(payload), region.len() as int) == payload,
{
    let grown = region + length_prefixed(payload);
    let at = region.len() as int;
    lemma_u32_round_trip(payload.len() as u32, true);
    assert(grown.subrange(at, at + 4) =~= u32_bytes(payload.len() as u32, true));
    assert(grown.subrange(at + 4, at + 4 + payload.len()) =~= payload);
}

/// Whatever is written behind the region leaves every buffer that was
/// there where it was, with the payload it had.
pub proof fn lemma_growth_keeps_buffers(region: Seq<u8>, added: Seq<u8>)
    ensures
        keeps_buffers(region, region + added),
{
    let grown = region + added;
    assert forall|offset: int| #[trigger] holds_buffer(region, offset) implies holds_buffer(
        grown,
        offset,
    ) && buffer_at(grown, offset) == buffer_at(region, offset) by {
        assert(grown.subrange(offset, offset + 4) =~= region.subrange(offset, offset + 4));
        let end = offset + 4 + declared_length(region, offset);
        assert(grown.subrange(offset + 4, end) =~= region.subrange(offset + 4, end));
    }
}

/// One contiguous, byte-addressable region that only ever grows at its end.
#[derive(Debug)]
pub struct LinearMemory {
    bytes: Vec<u8>,
}

impl View for LinearMemory {
    type V = Seq<u8>;

    closed spec fn view(&self) -> Seq<u8> {
        self.bytes@
    }
}

impl LinearMemory {
    /// An empty region.
    pub fn new() -> (memory: LinearMemory)
        ensures
            memory@ == Seq::<u8>::empty(),
    {
        LinearMemory { bytes: Vec::new() }
    }

    /// A region that holds what the host has put there.
    pub fn from_vec(bytes: Vec<u8>) -> (memory: LinearMemory)
        ensures
            memory@ == bytes@,
    {
        LinearMemory { bytes }
    }

    /// The size of the region in bytes.
    pub fn len(&self) -> (len: usize)
        ensures
            len == self@.len(),
    {
        self.bytes.len()
    }

    /// The region's bytes.
    pub fn as_slice(&self) -> (bytes: &[u8])
        ensures
            bytes@ == self@,
    {
        self.bytes.as_slice()
    }

    /// The payload of the buffer at `ptr`, if a whole buffer lies there.
    pub fn read(&self, ptr: Pointer) -> (payload: Option<Vec<u8>>)
        ensures
            payload is Some <==> holds_buffer(self@, ptr as int),
            payload matches Some(p) ==> p@ == buffer_at(self@, ptr as int),
    {
        read_buffer(self.bytes.as_slice(), ptr)
    }

    /// Writes `payload` as a new buffer behind everything that the region
    /// holds and returns where it starts. A payload too long for the length
    /// field is not written.
    pub fn write(&mut self, payload: &[u8]) -> (ptr: Option<Pointer>)
        ensures
            ptr is Some <==> payload@.len() <= u32::MAX,
            ptr is None ==> final(self)@ == old(self)@,
            ptr matches Some(p) ==> {
                &&& p == old(self)@.len()
                &&& final(self)@ == old(self)@ + length_prefixed(payload@)
                &&& holds_buffer(final(self)@, p as int)
                &&& buffer_at(final(self)@, p as int) == payload@
                &&& keeps_buffers(old(self)@, final(self)@)
            },
    {
        if payload.len() > u32::MAX as usize {
            return None;
        }
        let ptr = self.bytes.len();
        let mut buffer = with_length_prefix(payload);
        self.bytes.append(&mut buffer);
        proof {
            lemma_read_after_write(old(self)@, payload@);
            lemma_growth_keeps_buffers(old(self)@, length_prefixed(payload@));
        }
        Some(ptr)
    }
}

/// What can be handed to the host as a buffer in linear memory.
pub trait Referenceable {
    /// The bytes that make up the buffer's payload.
    spec fn payload(&self) -> Seq<u8>;

    /// Writes the payload as a new buffer at the end of `memory` and returns
    /// the offset of its length field. Reading there gives the payload
    /// back, and nothing that `memory` held is moved or changed.
    fn as_pointer(&self, memory: &mut LinearMemory) -> (ptr: Pointer)
        requires
            self.payload().len() <= u32::MAX,
        ensures
            ptr == old(memory)@.len(),
            final(memory)@ == old(memory)@ + length_prefixed(self.payload()),
            holds_buffer(final(memory)@, ptr as int),
            buffer_at(final(memory)@, ptr as int) == self.payload(),
            keeps_buffers(old(memory)@, final(memory)@),
    ;
}

impl Referenceable for Vec<u8> {
    open spec fn payload(&self) -> Seq<u8> {
        self@
    }

    fn as_pointer(&self, memory: &mut LinearMemory) -> (ptr: Pointer) {
        memory.write(self.as_slice()).unwrap()
    }
}

impl Referenceable for String {
    /// A string travels as its UTF-8 bytes.
    open spec fn payload(&self) -> Seq<u8> {
        vstd::utf8::encode_utf8(self@)
    }

    fn as_pointer(&self, memory: &mut LinearMemory) -> (ptr: Pointer) {
        slice_to_vec(self.as_str().as_bytes()).as_pointer(memory)
    }
}

/// What points at a buffer in linear memory.
pub trait Dereferenceable {
    /// The offset that is pointed at.
    spec fn offset(&self) -> int;

    /// The payload of the buffer that is pointed at: the bytes behind the
    /// length field, as many as it declares.
    fn as_raw_bytes(&self, memory: &LinearMemory) -> (raw: Vec<u8>)
        requires
            holds_buffer(memory@, self.offset()),
        ensures
            raw@ == buffer_at(memory@, self.offset()),
    ;
}

impl Dereferenceable for Pointer {
    open spec fn offset(&self) -> int {
        *self as int
    }

    fn as_raw_bytes(&self, memory: &LinearMemory) -> (raw: Vec<u8>) {
        memory.read(*self).unwrap()
    }
}

} // verus!
