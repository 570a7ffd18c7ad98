//! The TLS presentation-language encoding that MLS structures use: big-endian
//! integers, byte vectors with a length prefix of one, two or four bytes, and
//! optional values with a presence byte. Each reader is proved to return what
//! the matching writer wrote.

use vstd::prelude::*;

use crate::crypto::{push_bytes, push_u16, push_u32, u16_bytes, u32_bytes};

verus! {

/// Errors of encoding and decoding.
#[derive(Clone, Copy, Debug, PartialEq, Eq, Structural)]
pub enum CodecError {
    EncodingError,
    DecodingError,
    EndOfStream,
}

/// Big-endian encoding of a 64-bit value.
pub open spec fn u64_bytes(x: nat) -> Seq<u8> {
    u32_bytes((x / 0x1_0000_0000) % 0x1_0000_0000) + u32_bytes(x % 0x1_0000_0000)
}

/// The value of the first two bytes, big-endian.
pub open spec fn be_u16(s: Seq<u8>) -> nat {
    s[0] as nat * 0x100 + s[1] as nat
}

/// The value of the first four bytes, big-endian.
pub open spec fn be_u32(s: Seq<u8>) -> nat {
    s[0] as nat * 0x1000000 + s[1] as nat * 0x10000 + s[2] as nat * 0x100 + s[3] as nat
}

/// The value of the first eight bytes, big-endian.
pub open spec fn be_u64(s: Seq<u8>) -> nat {
    be_u32(s) * 0x1_0000_0000 + be_u32(s.skip(4))
}

/// `opaque data<0..255>`: a one-byte length, then the bytes.
pub open spec fn opaque8(d: Seq<u8>) -> Seq<u8> {
    seq![d.len() as u8] + d
}

/// `opaque data<0..2^16-1>`: a two-byte length, then the bytes.
pub open spec fn opaque16(d: Seq<u8>) -> Seq<u8> {
    u16_bytes(d.len()) + d
}

/// `opaque data<0..2^32-1>`: a four-byte length, then the bytes.
pub open spec fn opaque32(d: Seq<u8>) -> Seq<u8> {
    u32_bytes(d.len()) + d
}

/// Reads a byte at the front of `s`: the value and the bytes consumed.
pub open spec fn parse_u8(s: Seq<u8>) -> Option<(u8, nat)> {
    if s.len() < 1 {
        None
    } else {
        Some((s[0], 1))
    }
}

/// Reads a big-endian 16-bit value at the front of `s`.
pub open spec fn parse_u16(s: Seq<u8>) -> Option<(u16, nat)> {
    if s.len() < 2 {
        None
    } else {
        Some((be_u16(s) as u16, 2))
    }
}

/// Reads a big-endian 32-bit value at the front of `s`.
pub open spec fn parse_u32(s: Seq<u8>) -> Option<(u32, nat)> {
    if s.len() < 4 {
        None
    } else {
        Some((be_u32(s) as u32, 4))
    }
}

/// Reads a big-endian 64-bit value at the front of `s`.
pub open spec fn parse_u64(s: Seq<u8>) -> Option<(u64, nat)> {
    if s.len() < 8 {
        None
    } else {
        Some((be_u64(s) as u64, 8))
    }
}

/// Reads a byte vector whose length prefix has `width` bytes (1, 2 or 4).
pub open spec fn parse_opaque(s: Seq<u8>, width: nat) -> Option<(Seq<u8>, nat)> {
    let len: nat = if width == 1 {
        if s.len() >= 1 { s[0] as nat } else { 0 }
    } else if width == 2 {
        if s.len() >= 2 { be_u16(s) } else { 0 }
    } else {
        if s.len() >= 4 { be_u32(s) } else { 0 }
    };
    if s.len() < width || s.len() < width + len {
        None
    } else {
        Some((s.subrange(width as int, (width + len) as int), width + len))
    }
}

/// The encoding of a byte vector with a length prefix of `width` bytes.
pub open spec fn opaque(d: Seq<u8>, width: nat) -> Seq<u8> {
    if width == 1 {
        opaque8(d)
    } else if width == 2 {
        opaque16(d)
    } else {
        opaque32(d)
    }
}

/// Whether `d` fits a length prefix of `width` bytes.
pub open spec fn fits(d: Seq<u8>, width: nat) -> bool {
    if width == 1 {
        d.len() <= 0xff
    } else if width == 2 {
        d.len() <= 0xffff
    } else {
        d.len() <= 0xffff_ffff
    }
}

pub proof fn lemma_u16_roundtrip(x: nat)
    requires
        x <= 0xffff,
    ensures
        be_u16(u16_bytes(x)) == x,
        u16_bytes(x).len() == 2,
{
    let a = (x / 256) % 256;
    let b = x % 256;
    assert(a == x / 256);
    assert(a * 256 + b == x);
}

pub proof fn lemma_u32_roundtrip(x: nat)
    requires
        x <= 0xffff_ffff,
    ensures
        be_u32(u32_bytes(x)) == x,
        u32_bytes(x).len() == 4,
{
    let a = (x / 0x1000000) % 256;
    let b = (x / 0x10000) % 256;
    let c = (x / 0x100) % 256;
    let d = x % 256;
    assert(a == x / 0x1000000);
    assert(x / 0x10000 == a * 256 + b);
    assert(x / 0x100 == (x / 0x10000) * 256 + c);
    assert(x == (x / 0x100) * 256 + d);
}

pub proof fn lemma_u64_roundtrip(x: nat)
    requires
        x <= 0xffff_ffff_ffff_ffff,
    ensures
        be_u64(u64_bytes(x)) == x,
        u64_bytes(x).len() == 8,
{
    let hi = (x / 0x1_0000_0000) % 0x1_0000_0000;
    let lo = x % 0x1_0000_0000;
    assert(hi == x / 0x1_0000_0000);
    lemma_u32_roundtrip(hi);
    lemma_u32_roundtrip(lo);
    let e = u64_bytes(x);
    assert(e.skip(4) =~= u32_bytes(lo));
    assert(e.subrange(0, 4) =~= u32_bytes(hi));
    assert(be_u32(e) == be_u32(u32_bytes(hi)));
}

/// A byte vector that fits its length prefix reads back, whatever follows it.
pub proof fn lemma_opaque_roundtrip(d: Seq<u8>, width: nat, rest: Seq<u8>)
    requires
        width == 1 || width == 2 || width == 4,
        fits(d, width),
    ensures
        parse_opaque(opaque(d, width) + rest, width) == Some((d, opaque(d, width).len())),
        opaque(d, width).len() == width + d.len(),
{
    let s = opaque(d, width) + rest;
    if width == 1 {
        assert(s[0] == d.len() as u8);
    } else if width == 2 {
        lemma_u16_roundtrip(d.len());
        assert(s.subrange(0, 2) =~= u16_bytes(d.len()));
        assert(be_u16(s) == be_u16(u16_bytes(d.len())));
    } else {
        lemma_u32_roundtrip(d.len());
        assert(s.subrange(0, 4) =~= u32_bytes(d.len()));
        assert(be_u32(s) == be_u32(u32_bytes(d.len())));
    }
    assert(s.subrange(width as int, (width + d.len()) as int) =~= d);
}

pub proof fn lemma_parse_u16_roundtrip(x: u16, rest: Seq<u8>)
    ensures
        parse_u16(u16_bytes(x as nat) + rest) == Some((x, 2nat)),
{
    lemma_u16_roundtrip(x as nat);
    let s = u16_bytes(x as nat) + rest;
    assert(s.subrange(0, 2) =~= u16_bytes(x as nat));
    assert(be_u16(s) == be_u16(u16_bytes(x as nat)));
}

pub proof fn lemma_parse_u32_roundtrip(x: u32, rest: Seq<u8>)
    ensures
        parse_u32(u32_bytes(x as nat) + rest) == Some((x, 4nat)),
{
    lemma_u32_roundtrip(x as nat);
    let s = u32_bytes(x as nat) + rest;
    assert(s.subrange(0, 4) =~= u32_bytes(x as nat));
    assert(be_u32(s) == be_u32(u32_bytes(x as nat)));
}

/// Appends the big-endian encoding of a 64-bit value.
pub fn push_u64(buf: &mut Vec<u8>, x: u64)
    ensures
        final(buf)@ == old(buf)@ + u64_bytes(x as nat),
{
    push_u32(buf, (x / 0x1_0000_0000) as u32);
    push_u32(buf, (x % 0x1_0000_0000) as u32);
    assert(((x / 0x1_0000_0000) as u32) as nat == ((x as nat) / 0x1_0000_0000) % 0x1_0000_0000);
    assert(final(buf)@ =~= old(buf)@ + u64_bytes(x as nat));
}

/// Appends a byte vector with a length prefix of `width` bytes (1, 2 or 4);
/// fails with `EncodingError`, leaving the buffer as it was, when the length
/// does not fit the prefix.
pub fn push_opaque(buf: &mut Vec<u8>, d: &[u8], width: usize) -> (res: Result<(), CodecError>)
    requires
        width == 1 || width == 2 || width == 4,
    ensures
        fits(d@, width as nat) ==> res is Ok && final(buf)@ == old(buf)@ + opaque(d@, width as nat),
        !fits(d@, width as nat) ==> res == Err::<(), CodecError>(CodecError::EncodingError)
            && final(buf)@ == old(buf)@,
{
    if width == 1 {
        if d.len() > 0xff {
            return Err(CodecError::EncodingError);
        }
        buf.push(d.len() as u8);
    } else if width == 2 {
        if d.len() > 0xffff {
            return Err(CodecError::EncodingError);
        }
        push_u16(buf, d.len() as u16);
    } else {
        if d.len() > 0xffff_ffff {
            return Err(CodecError::EncodingError);
        }
        push_u32(buf, d.len() as u32);
    }
    push_bytes(buf, d);
    assert(final(buf)@ =~= old(buf)@ + opaque(d@, width as nat));
    Ok(())
}

/// Reads a byte at position `pos`.
pub fn read_u8(bytes: &[u8], pos: usize) -> (res: Option<(u8, usize)>)
    requires
        pos <= bytes@.len(),
    ensures
        match parse_u8(bytes@.skip(pos as int)) {
            Some((v, n)) => res matches Some((x, p)) && x == v && p == pos + n,
            None => res is None,
        },
        res matches Some((v, p)) ==> pos <= p <= bytes@.len(),
{
    if pos >= bytes.len() {
        None
    } else {
        Some((bytes[pos], pos + 1))
    }
}

/// Reads a big-endian 16-bit value at position `pos`.
pub fn read_u16(bytes: &[u8], pos: usize) -> (res: Option<(u16, usize)>)
    requires
        pos <= bytes@.len(),
    ensures
        match parse_u16(bytes@.skip(pos as int)) {
            Some((v, n)) => res matches Some((x, p)) && x == v && p == pos + n,
            None => res is None,
        },
        res matches Some((v, p)) ==> pos <= p <= bytes@.len(),
{
    if bytes.len() - pos < 2 {
        None
    } else {
        let v = bytes[pos] as u16 * 256 + bytes[pos + 1] as u16;
        Some((v, pos + 2))
    }
}

/// Reads a big-endian 32-bit value at position `pos`.
pub fn read_u32(bytes: &[u8], pos: usize) -> (res: Option<(u32, usize)>)
    requires
        pos <= bytes@.len(),
    ensures
        match parse_u32(bytes@.skip(pos as int)) {
            Some((v, n)) => res matches Some((x, p)) && x == v && p == pos + n,
            None => res is None,
        },
        res matches Some((v, p)) ==> pos <= p <= bytes@.len(),
{
    if bytes.len() - pos < 4 {
        None
    } else {
        let v = bytes[pos] as u32 * 0x1000000 + bytes[pos + 1] as u32 * 0x10000 + bytes[pos + 2] as u32
            * 0x100 + bytes[pos + 3] as u32;
        Some((v, pos + 4))
    }
}

/// Reads a big-endian 64-bit value at position `pos`.
pub fn read_u64(bytes: &[u8], pos: usize) -> (res: Option<(u64, usize)>)
    requires
        pos <= bytes@.len(),
    ensures
        match parse_u64(bytes@.skip(pos as int)) {
            Some((v, n)) => res matches Some((x, p)) && x == v && p == pos + n,
            None => res is None,
        },
        res matches Some((v, p)) ==> pos <= p <= bytes@.len(),
{
    if bytes.len() - pos < 8 {
        None
    } else {
        let (hi, p) = match read_u32(bytes, pos) {
            Some(r) => r,
            None => return None,
        };
        let (lo, q) = match read_u32(bytes, p) {
            Some(r) => r,
            None => return None,
        };
        proof {
            assert(bytes@.skip(pos as int).skip(4) =~= bytes@.skip(p as int));
        }
        Some((hi as u64 * 0x1_0000_0000 + lo as u64, q))
    }
}

/// Reads a byte vector with a length prefix of `width` bytes (1, 2 or 4) at
/// position `pos`.
pub fn read_opaque(bytes: &[u8], pos: usize, width: usize) -> (res: Option<(Vec<u8>, usize)>)
    requires
        pos <= bytes@.len(),
        width == 1 || width == 2 || width == 4,
    ensures
        match parse_opaque(bytes@.skip(pos as int), width as nat) {
            Some((d, n)) => res matches Some((v, p)) && v@ == d && p == pos + n,
            None => res is None,
        },
        res matches Some((v, p)) ==> pos <= p <= bytes@.len(),
{
    let ghost s = bytes@.skip(pos as int);
    let (len, p): (usize, usize) = if width == 1 {
        match read_u8(bytes, pos) {
            Some((l, p)) => (l as usize, p),
            None => return None,
        }
    } else if width == 2 {
        match read_u16(bytes, pos) {
            Some((l, p)) => (l as usize, p),
            None => return None,
        }
    } else {
        match read_u32(bytes, pos) {
            Some((l, p)) => (l as usize, p),
            None => return None,
        }
    };
    if bytes.len() - p < len {
        return None;
    }
    let v = vstd::slice::slice_to_vec(vstd::slice::slice_subrange(bytes, p, p + len));
    assert(v@ =~= s.subrange(width as int, (width + len) as int));
    Some((v, p + len))
}

} // verus!
