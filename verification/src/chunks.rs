//! The PNG container structure: the fixed eight-byte file signature and the
//! sequence of length-prefixed chunks that follows it.

use vstd::prelude::*;

verus! {

/// The fixed eight-byte magic prefix that identifies a byte stream as a PNG
/// file.
pub open spec fn spec_png_signature() -> Seq<u8> {
    seq![137u8, 80u8, 78u8, 71u8, 13u8, 10u8, 26u8, 10u8]
}

/// A buffer carries the PNG signature when it is at least eight bytes long
/// and its first eight bytes are exactly the signature.
pub open spec fn spec_has_signature(s: Seq<u8>) -> bool {
    s.len() >= 8 && s.subrange(0, 8) == spec_png_signature()
}

/// Strips the eight-byte PNG signature: returns the remainder of the buffer
/// when the signature is present, and nothing when the buffer is too short or
/// its first eight bytes differ from the signature.
pub fn drop_png_signature(bytes: &[u8]) -> (r: Option<&[u8]>)
    ensures
        match r {
            Some(rest) => spec_has_signature(bytes@) && rest@ == bytes@.skip(8),
            None => !spec_has_signature(bytes@),
        },
{
    if bytes.len() < 8 {
        return None;
    }
    if bytes[0] == 137 && bytes[1] == 80 && bytes[2] == 78 && bytes[3] == 71 && bytes[4] == 13
        && bytes[5] == 10 && bytes[6] == 26 && bytes[7] == 10 {
        proof {
            assert(bytes@.subrange(0, 8) =~= spec_png_signature());
        }
        Some(vstd::slice::slice_subrange(bytes, 8, bytes.len()))
    } else {
        proof {
            assert(bytes@.subrange(0, 8) != spec_png_signature()) by {
                if bytes@.subrange(0, 8) == spec_png_signature() {
                    assert(bytes@.subrange(0, 8)[0] == 137u8);
                    assert(bytes@.subrange(0, 8)[1] == 80u8);
                    assert(bytes@.subrange(0, 8)[2] == 78u8);
                    assert(bytes@.subrange(0, 8)[3] == 71u8);
                    assert(bytes@.subrange(0, 8)[4] == 13u8);
                    assert(bytes@.subrange(0, 8)[5] == 10u8);
                    assert(bytes@.subrange(0, 8)[6] == 26u8);
                    assert(bytes@.subrange(0, 8)[7] == 10u8);
                }
            }
        }
        None
    }
}

/// The 32-bit big-endian value held by a four-byte sequence.
pub open spec fn spec_u32_be(s: Seq<u8>) -> u32
    recommends
        s.len() == 4,
{
    ((s[0] as u32) << 24) | ((s[1] as u32) << 16) | ((s[2] as u32) << 8) | (s[3] as u32)
}

/// The declared payload length of the chunk that starts at the head of `s`:
/// its first four bytes, read big-endian.
pub open spec fn spec_chunk_length(s: Seq<u8>) -> u32
    recommends
        s.len() >= 4,
{
    spec_u32_be(s.subrange(0, 4))
}

/// Whether the head of `s` frames one complete chunk: the twelve fixed bytes
/// (length, type tag, trailing checksum) plus the declared number of payload
/// bytes must all be present.
pub open spec fn spec_has_chunk(s: Seq<u8>) -> bool {
    s.len() >= 12 && s.len() >= 12 + spec_chunk_length(s)
}

/// The four-byte type tag of the chunk at the head of `s`.
pub open spec fn spec_chunk_type(s: Seq<u8>) -> Seq<u8>
    recommends
        spec_has_chunk(s),
{
    s.subrange(4, 8)
}

/// The payload of the chunk at the head of `s`: the declared number of bytes
/// just past the eight-byte header.
pub open spec fn spec_chunk_data(s: Seq<u8>) -> Seq<u8>
    recommends
        spec_has_chunk(s),
{
    s.subrange(8, 8 + spec_chunk_length(s))
}

/// The declared checksum of the chunk at the head of `s`: the four bytes
/// just past the payload, read big-endian.
pub open spec fn spec_chunk_crc(s: Seq<u8>) -> u32
    recommends
        spec_has_chunk(s),
{
    spec_u32_be(s.subrange(8 + spec_chunk_length(s), 12 + spec_chunk_length(s)))
}

/// What remains of `s` once the chunk at its head has been consumed.
pub open spec fn spec_chunk_rest(s: Seq<u8>) -> Seq<u8>
    recommends
        spec_has_chunk(s),
{
    s.skip(12 + spec_chunk_length(s))
}

/// The four-byte big-endian encoding of a 32-bit value.
pub open spec fn spec_u32_be_bytes(x: u32) -> Seq<u8> {
    seq![(x >> 24) as u8, (x >> 16) as u8, (x >> 8) as u8, x as u8]
}

/// Reading back the four-byte big-endian encoding of a value gives the value.
pub proof fn lemma_u32_be_bytes_roundtrip(x: u32)
    ensures
        spec_u32_be(spec_u32_be_bytes(x)) == x,
{
    let s = spec_u32_be_bytes(x);
    assert(s[0] == (x >> 24) as u8);
    assert(s[1] == (x >> 16) as u8);
    assert(s[2] == (x >> 8) as u8);
    assert(s[3] == x as u8);
    assert(((((x >> 24) as u8) as u32) << 24) | ((((x >> 16) as u8) as u32) << 16)
        | ((((x >> 8) as u8) as u32) << 8) | ((x as u8) as u32) == x) by (bit_vector);
}

/// The wire form of one whole chunk: big-endian length, four-byte type tag,
/// payload, big-endian declared checksum.
pub open spec fn spec_chunk_bytes(l: u32, t: Seq<u8>, p: Seq<u8>, c: u32) -> Seq<u8> {
    spec_u32_be_bytes(l) + t + p + spec_u32_be_bytes(c)
}

/// A well-formed chunk at the head of a buffer parses to exactly the fields
/// it was built from, whatever follows it, and consuming it leaves exactly
/// what followed.
pub proof fn lemma_chunk_then_tail_parses(l: u32, t: Seq<u8>, p: Seq<u8>, c: u32, tail: Seq<u8>)
    requires
        t.len() == 4,
        p.len() == l,
    ensures
        ({
            let s = spec_chunk_bytes(l, t, p, c) + tail;
            &&& spec_has_chunk(s)
            &&& spec_chunk_length(s) == l
            &&& spec_chunk_type(s) == t
            &&& spec_chunk_data(s) == p
            &&& spec_chunk_crc(s) == c
            &&& spec_chunk_rest(s) == tail
        }),
{
    let s = spec_chunk_bytes(l, t, p, c) + tail;
    assert(s.len() == 12 + p.len() + tail.len());
    assert(s.subrange(0, 4) =~= spec_u32_be_bytes(l));
    lemma_u32_be_bytes_roundtrip(l);
    assert(spec_chunk_length(s) == l);
    assert(s.subrange(4, 8) =~= t);
    assert(s.subrange(8, 8 + l) =~= p);
    assert(s.subrange(8 + l, 12 + l) =~= spec_u32_be_bytes(c));
    lemma_u32_be_bytes_roundtrip(c);
    assert(s.skip(12 + l) =~= tail);
}

/// A well-formed single chunk, alone in the buffer, parses to exactly the
/// four fields it was built from, and consuming it exhausts the buffer:
/// no further chunk can be framed from what remains.
pub proof fn lemma_single_chunk_parses(l: u32, t: Seq<u8>, p: Seq<u8>, c: u32)
    requires
        t.len() == 4,
        p.len() == l,
    ensures
        ({
            let s = spec_chunk_bytes(l, t, p, c);
            &&& spec_has_chunk(s)
            &&& spec_chunk_length(s) == l
            &&& spec_chunk_type(s) == t
            &&& spec_chunk_data(s) == p
            &&& spec_chunk_crc(s) == c
            &&& spec_chunk_rest(s) == Seq::<u8>::empty()
            &&& !spec_has_chunk(spec_chunk_rest(s))
        }),
{
    lemma_chunk_then_tail_parses(l, t, p, c, Seq::<u8>::empty());
    assert(spec_chunk_bytes(l, t, p, c) + Seq::<u8>::empty() =~= spec_chunk_bytes(l, t, p, c));
}

/// Two well-formed chunks laid back to back parse in file order: the first
/// record carries the first chunk's fields, what remains after it is exactly
/// the second chunk's bytes, the second record carries the second chunk's
/// fields, and after the second chunk the buffer is fully consumed.
pub proof fn lemma_two_chunks_parse(
    l1: u32, t1: Seq<u8>, p1: Seq<u8>, c1: u32,
    l2: u32, t2: Seq<u8>, p2: Seq<u8>, c2: u32,
)
    requires
        t1.len() == 4,
        p1.len() == l1,
        t2.len() == 4,
        p2.len() == l2,
    ensures
        ({
            let s = spec_chunk_bytes(l1, t1, p1, c1) + spec_chunk_bytes(l2, t2, p2, c2);
            let rest = spec_chunk_rest(s);
            &&& spec_has_chunk(s)
            &&& spec_chunk_length(s) == l1
            &&& spec_chunk_type(s) == t1
            &&& spec_chunk_data(s) == p1
            &&& spec_chunk_crc(s) == c1
            &&& rest == spec_chunk_bytes(l2, t2, p2, c2)
            &&& spec_has_chunk(rest)
            &&& spec_chunk_length(rest) == l2
            &&& spec_chunk_type(rest) == t2
            &&& spec_chunk_data(rest) == p2
            &&& spec_chunk_crc(rest) == c2
            &&& spec_chunk_rest(rest) == Seq::<u8>::empty()
            &&& !spec_has_chunk(spec_chunk_rest(rest))
        }),
{
    lemma_chunk_then_tail_parses(l1, t1, p1, c1, spec_chunk_bytes(l2, t2, p2, c2));
    lemma_single_chunk_parses(l2, t2, p2, c2);
}

/// Reads the big-endian 32-bit value at offset `off` of `s`.
fn read_u32_be(s: &[u8], off: usize) -> (r: u32)
    requires
        off + 4 <= s@.len(),
    ensures
        r == spec_u32_be(s@.subrange(off as int, off + 4)),
{
    let r = ((s[off] as u32) << 24u32) | ((s[off + 1] as u32) << 16u32)
        | ((s[off + 2] as u32) << 8u32) | (s[off + 3] as u32);
    proof {
        let sub = s@.subrange(off as int, off + 4);
        assert(sub[0] == s@[off as int]);
        assert(sub[1] == s@[off + 1]);
        assert(sub[2] == s@[off + 2]);
        assert(sub[3] == s@[off + 3]);
    }
    r
}

/// A chunk's four-byte type tag. The case of each ASCII letter (bit `0x20`
/// of the corresponding byte) encodes one property of the chunk.
#[derive(Debug, Copy, Clone)]
pub struct ChunkType(pub [u8; 4]);

impl View for ChunkType {
    type V = Seq<u8>;

    open spec fn view(&self) -> Seq<u8> {
        self.0@
    }
}

impl ChunkType {
    /// Tests bit `0x20` of the first tag byte (the case of the first letter).
    pub fn is_critical(self) -> (r: bool)
        ensures
            r == (self@[0] & 0x20u8 != 0),
    {
        (self.0[0] & 32) > 0
    }

    /// Tests bit `0x20` of the second tag byte (the case of the second letter).
    pub fn is_public(self) -> (r: bool)
        ensures
            r == (self@[1] & 0x20u8 != 0),
    {
        (self.0[1] & 32) > 0
    }

    /// Tests bit `0x20` of the third tag byte (the reserved bit of the naming
    /// convention).
    pub fn is_not_reserved(self) -> (r: bool)
        ensures
            r == (self@[2] & 0x20u8 != 0),
    {
        (self.0[2] & 32) > 0
    }

    /// Tests bit `0x20` of the fourth tag byte (the copy-safety letter).
    pub fn is_trouble_to_copy(self) -> (r: bool)
        ensures
            r == (self@[3] & 0x20u8 != 0),
    {
        (self.0[3] & 32) > 0
    }
}

/// One chunk of a PNG file, as the iterator yields it: the declared payload
/// length, the four-byte type tag, a borrowed view of the payload, and the
/// checksum the file declares for the chunk. The payload is not copied; it
/// remains a slice of the caller's buffer.
#[derive(Debug, Copy, Clone)]
pub struct PngChunk<'b> {
    pub length: u32,
    pub chunk_type: ChunkType,
    pub chunk_data: &'b [u8],
    pub declared_crc: u32,
}

impl<'b> PngChunk<'b> {
    /// Recomputes the chunk's checksum: the CRC-32 (PNG/zlib variant) over
    /// the four type-tag bytes followed by the payload bytes. The length
    /// field and the declared checksum take no part in the computation; a
    /// caller detects corruption by comparing this value against
    /// `declared_crc`.
    pub fn get_actual_crc(&self) -> (r: u32)
        ensures
            r == crate::crc::spec_crc32(self.chunk_type@ + self.chunk_data@),
    {
        crate::crc::crc32_of_concat(self.chunk_type.0.as_slice(), self.chunk_data)
    }
}

/// A forward-only cursor over the chunk sequence of a PNG byte buffer. Its
/// view is the sequence of bytes not yet consumed.
pub struct PngChunkIter<'b> {
    bytes: &'b [u8],
}

impl<'b> View for PngChunkIter<'b> {
    type V = Seq<u8>;

    closed spec fn view(&self) -> Seq<u8> {
        self.bytes@
    }
}

impl<'b> PngChunkIter<'b> {
    /// Makes an iterator over the chunks of `bytes`: succeeds, positioned
    /// just past the signature, exactly when the buffer starts with the PNG
    /// signature.
    pub fn from_png_bytes(bytes: &'b [u8]) -> (r: Option<Self>)
        ensures
            match r {
                Some(it) => spec_has_signature(bytes@) && it@ == bytes@.skip(8),
                None => !spec_has_signature(bytes@),
            },
    {
        match drop_png_signature(bytes) {
            Some(rest) => Some(Self { bytes: rest }),
            None => None,
        }
    }

    /// Yields the chunk at the head of the remaining bytes and advances past
    /// it, or reports exhaustion — without distinguishing a clean end of the
    /// sequence from a truncated trailing chunk — and leaves the cursor
    /// unchanged.
    pub fn next(&mut self) -> (r: Option<PngChunk<'b>>)
        ensures
            match r {
                Some(c) => {
                    &&& spec_has_chunk(old(self)@)
                    &&& c.length == spec_chunk_length(old(self)@)
                    &&& c.chunk_type@ == spec_chunk_type(old(self)@)
                    &&& c.chunk_data@ == spec_chunk_data(old(self)@)
                    &&& c.declared_crc == spec_chunk_crc(old(self)@)
                    &&& final(self)@ == spec_chunk_rest(old(self)@)
                },
                None => !spec_has_chunk(old(self)@) && final(self)@ == old(self)@,
            },
    {
        let n = self.bytes.len();
        if n < 12 {
            return None;
        }
        let length = read_u32_be(self.bytes, 0);
        proof {
            assert(self.bytes@.subrange(0, 4) == self@.subrange(0, 4));
        }
        let length_us = length as usize;
        if n - 12 < length_us {
            return None;
        }
        let chunk_type = ChunkType(
            [self.bytes[4], self.bytes[5], self.bytes[6], self.bytes[7]],
        );
        let chunk_data = vstd::slice::slice_subrange(self.bytes, 8, 8 + length_us);
        let declared_crc = read_u32_be(self.bytes, 8 + length_us);
        self.bytes = vstd::slice::slice_subrange(self.bytes, 12 + length_us, n);
        proof {
            assert(chunk_type@ =~= spec_chunk_type(old(self)@));
        }
        Some(PngChunk { length, chunk_type, chunk_data, declared_crc })
    }
}

} // verus!
