//! Byte-level encoding shared by all packets: big-endian integers,
//! length-prefixed UTF-8 strings, and a read cursor over a received payload.
use crate::error::PacketError;
use vstd::prelude::*;
use vstd::utf8::{decode_utf8, encode_utf8, valid_utf8};

verus! {

broadcast use vstd::utf8::group_utf8_lib;

/// The big-endian `u16` made of two bytes.
pub open spec fn u16_be(hi: u8, lo: u8) -> u16 {
    (hi as int * 256 + lo as int) as u16
}

/// The big-endian two's complement `i32` made of four bytes.
pub open spec fn i32_be(b0: u8, b1: u8, b2: u8, b3: u8) -> i32 {
    let u = b0 as int * 0x100_0000 + b1 as int * 0x1_0000 + b2 as int * 0x100 + b3 as int;
    if u < 0x8000_0000 {
        u as i32
    } else {
        (u - 0x1_0000_0000) as i32
    }
}

/// The two big-endian bytes of a `u16`.
pub open spec fn u16_be_bytes(v: u16) -> Seq<u8> {
    seq![(v / 256) as u8, (v % 256) as u8]
}

/// The four big-endian two's complement bytes of an `i32`.
pub open spec fn i32_be_bytes(v: i32) -> Seq<u8> {
    let u: int = if v < 0 { v + 0x1_0000_0000 } else { v as int };
    seq![
        (u / 0x100_0000) as u8,
        ((u / 0x1_0000) % 256) as u8,
        ((u / 0x100) % 256) as u8,
        (u % 256) as u8,
    ]
}

/// The `u16` length header of a byte string: its length, cut to 16 bits.
pub open spec fn len_header(n: nat) -> Seq<u8> {
    u16_be_bytes((n % 0x1_0000) as u16)
}

/// A string as written on the wire: its UTF-8 length as a `u16` (cut to
/// 16 bits), then its UTF-8 bytes.
pub open spec fn string_bytes(s: Seq<char>) -> Seq<u8> {
    len_header(encode_utf8(s).len()) + encode_utf8(s)
}

/// What reading a string at position `i` of `data` gives: the string and
/// the position after it, or why it failed.
pub open spec fn string_at(data: Seq<u8>, i: int) -> Result<(Seq<char>, int), PacketError> {
    if data.len() - i < 2 {
        Err(PacketError::MissingStringLength((data.len() - i) as usize))
    } else {
        let len = u16_be(data[i], data[i + 1]) as int;
        let rem = data.len() - (i + 2);
        if rem < len {
            Err(PacketError::MissingStringContent(len as usize, rem as usize))
        } else {
            let bytes = data.subrange(i + 2, i + 2 + len);
            if valid_utf8(bytes) {
                Ok((decode_utf8(bytes), i + 2 + len))
            } else {
                Err(PacketError::InvalidUtf8)
            }
        }
    }
}

/// Reading the two bytes written for a `u16` gives it back.
pub proof fn lemma_u16_roundtrip(v: u16)
    ensures
        u16_be(u16_be_bytes(v)[0], u16_be_bytes(v)[1]) == v,
{
}

/// Reading the four bytes written for an `i32` gives it back.
pub proof fn lemma_i32_roundtrip(v: i32)
    ensures
        i32_be(i32_be_bytes(v)[0], i32_be_bytes(v)[1], i32_be_bytes(v)[2], i32_be_bytes(v)[3])
            == v,
{
}

/// A read position over the bytes of one received payload.
pub struct ByteCursor {
    data: Vec<u8>,
    pos: usize,
}

impl ByteCursor {
    #[verifier::type_invariant]
    spec fn inv(&self) -> bool {
        self.pos <= self.data@.len()
    }

    /// All bytes of the payload.
    pub closed spec fn data(&self) -> Seq<u8> {
        self.data@
    }

    /// The position of the next byte to read.
    pub closed spec fn pos(&self) -> int {
        self.pos as int
    }

    /// The bytes not yet read.
    pub open spec fn rest(&self) -> Seq<u8> {
        self.data().subrange(self.pos(), self.data().len() as int)
    }

    /// A cursor at the start of `data`.
    pub fn new(data: Vec<u8>) -> (c: ByteCursor)
        ensures
            c.data() == data@,
            c.pos() == 0,
    {
        ByteCursor { data, pos: 0 }
    }

    /// The position of the next byte to read.
    pub fn position(&self) -> (p: usize)
        ensures
            p == self.pos(),
    {
        self.pos
    }

    /// The number of bytes not yet read.
    pub fn remaining(&self) -> (n: usize)
        ensures
            n == self.data().len() - self.pos(),
    {
        proof {
            use_type_invariant(self);
        }
        self.data.len() - self.pos
    }

    /// Moves the read position.
    pub fn set_position(&mut self, pos: usize)
        requires
            pos <= old(self).data().len(),
        ensures
            final(self).data() == old(self).data(),
            final(self).pos() == pos,
    {
        self.pos = pos;
    }

    /// Reads one byte.
    pub fn get_u8(&mut self) -> (b: u8)
        requires
            old(self).data().len() - old(self).pos() >= 1,
        ensures
            b == old(self).data()[old(self).pos()],
            final(self).data() == old(self).data(),
            final(self).pos() == old(self).pos() + 1,
    {
        proof {
            use_type_invariant(&*self);
        }
        let _len = self.data.len();
        let b = self.data[self.pos];
        self.pos = self.pos + 1;
        b
    }

    /// Reads a big-endian `u16`.
    pub fn get_u16(&mut self) -> (v: u16)
        requires
            old(self).data().len() - old(self).pos() >= 2,
        ensures
            v == u16_be(old(self).data()[old(self).pos()], old(self).data()[old(self).pos() + 1]),
            final(self).data() == old(self).data(),
            final(self).pos() == old(self).pos() + 2,
    {
        let hi = self.get_u8();
        let lo = self.get_u8();
        hi as u16 * 256 + lo as u16
    }

    /// Reads a big-endian two's complement `i32`.
    pub fn get_i32(&mut self) -> (v: i32)
        requires
            old(self).data().len() - old(self).pos() >= 4,
        ensures
            v == i32_be(
                old(self).data()[old(self).pos()],
                old(self).data()[old(self).pos() + 1],
                old(self).data()[old(self).pos() + 2],
                old(self).data()[old(self).pos() + 3],
            ),
            final(self).data() == old(self).data(),
            final(self).pos() == old(self).pos() + 4,
    {
        let b0 = self.get_u8();
        let b1 = self.get_u8();
        let b2 = self.get_u8();
        let b3 = self.get_u8();
        let u: u32 = b0 as u32 * 0x100_0000 + b1 as u32 * 0x1_0000 + b2 as u32 * 0x100 + b3 as u32;
        if u < 0x8000_0000 {
            u as i32
        } else {
            let low = (u - 0x8000_0000) as i32;
            low - 0x4000_0000 - 0x4000_0000
        }
    }

    /// Reads `n` bytes.
    pub fn take_bytes(&mut self, n: usize) -> (out: Vec<u8>)
        requires
            old(self).data().len() - old(self).pos() >= n,
        ensures
            out@ == old(self).data().subrange(old(self).pos(), old(self).pos() + n),
            final(self).data() == old(self).data(),
            final(self).pos() == old(self).pos() + n,
    {
        proof {
            use_type_invariant(&*self);
        }
        let _len = self.data.len();
        let out = vstd::slice::slice_to_vec(
            vstd::slice::slice_subrange(self.data.as_slice(), self.pos, self.pos + n),
        );
        self.pos = self.pos + n;
        out
    }

    /// Reads every byte not yet read.
    pub fn take_rest(&mut self) -> (out: Vec<u8>)
        ensures
            out@ == old(self).rest(),
            final(self).data() == old(self).data(),
            final(self).pos() == old(self).data().len(),
    {
        proof {
            use_type_invariant(&*self);
        }
        let n = self.data.len() - self.pos;
        self.take_bytes(n)
    }
}

/// `String::from_utf8`: by its documentation the bytes become a `String`
/// exactly when they are valid UTF-8, and its characters are the ones the
/// bytes encode.
#[verifier::external_body]
fn string_from_utf8(bytes: Vec<u8>) -> (r: Option<String>)
    ensures
        r is Some <==> valid_utf8(bytes@),
        r matches Some(s) ==> s@ == decode_utf8(bytes@),
{
    match String::from_utf8(bytes) {
        Ok(s) => Some(s),
        Err(_) => None,
    }
}

/// Where reading a string at position `i` leaves the cursor: nothing is
/// read when the length is missing; the length alone when the content is
/// missing; the length and the content otherwise, valid UTF-8 or not.
pub open spec fn string_read_end(data: Seq<u8>, i: int) -> int {
    if data.len() - i < 2 {
        i
    } else if data.len() - (i + 2) < u16_be(data[i], data[i + 1]) as int {
        i + 2
    } else {
        i + 2 + u16_be(data[i], data[i + 1]) as int
    }
}

/// Reads a length-prefixed UTF-8 string.
pub fn read_string(buf: &mut ByteCursor) -> (r: Result<String, PacketError>)
    ensures
        final(buf).data() == old(buf).data(),
        match string_at(old(buf).data(), old(buf).pos()) {
            Ok((s, next)) => r matches Ok(v) && v@ == s && final(buf).pos() == next,
            Err(e) => r == Err::<String, PacketError>(e),
        },
        final(buf).pos() == string_read_end(old(buf).data(), old(buf).pos()),
{
    let remaining = buf.remaining();
    if remaining < 2 {
        return Err(PacketError::MissingStringLength(remaining));
    }
    let len = buf.get_u16() as usize;
    let remaining = buf.remaining();
    if remaining < len {
        return Err(PacketError::MissingStringContent(len, remaining));
    }
    let bytes = buf.take_bytes(len);
    match string_from_utf8(bytes) {
        Some(s) => Ok(s),
        None => Err(PacketError::InvalidUtf8),
    }
}

/// Appends one byte.
pub fn put_u8(buf: &mut Vec<u8>, v: u8)
    ensures
        final(buf)@ == old(buf)@.push(v),
{
    buf.push(v);
}

/// Appends a big-endian `u16`.
pub fn put_u16(buf: &mut Vec<u8>, v: u16)
    ensures
        final(buf)@ == old(buf)@ + u16_be_bytes(v),
{
    buf.push((v / 256) as u8);
    buf.push((v % 256) as u8);
    assert(buf@ =~= old(buf)@ + u16_be_bytes(v));
}

/// Appends a big-endian two's complement `i32`.
pub fn put_i32(buf: &mut Vec<u8>, v: i32)
    ensures
        final(buf)@ == old(buf)@ + i32_be_bytes(v),
{
    let u: u32 = if v < 0 {
        ((v + 0x4000_0000 + 0x4000_0000) as u32) + 0x8000_0000
    } else {
        v as u32
    };
    buf.push((u / 0x100_0000) as u8);
    buf.push(((u / 0x1_0000) % 256) as u8);
    buf.push(((u / 0x100) % 256) as u8);
    buf.push((u % 256) as u8);
    assert(buf@ =~= old(buf)@ + i32_be_bytes(v));
}

/// Appends bytes.
pub fn put_slice(buf: &mut Vec<u8>, bytes: &[u8])
    ensures
        final(buf)@ == old(buf)@ + bytes@,
{
    let mut i: usize = 0;
    while i < bytes.len()
        invariant
            i <= bytes@.len(),
            buf@ == old(buf)@ + bytes@.subrange(0, i as int),
        decreases bytes@.len() - i,
    {
        buf.push(bytes[i]);
        i = i + 1;
        assert(buf@ =~= old(buf)@ + bytes@.subrange(0, i as int));
    }
    assert(bytes@.subrange(0, bytes@.len() as int) =~= bytes@);
}

/// Appends a string: its UTF-8 length as a `u16` (cut to 16 bits), then its
/// UTF-8 bytes.
pub fn write_string(buf: &mut Vec<u8>, s: &str)
    ensures
        final(buf)@ == old(buf)@ + string_bytes(s@),
{
    let bytes = s.as_bytes();
    put_u16(buf, (bytes.len() % 0x1_0000) as u16);
    put_slice(buf, bytes);
    assert(buf@ =~= old(buf)@ + string_bytes(s@));
}

} // verus!
