//! The byte-level layout of the primitive values of the wire format.
//!
//! Every multi-byte number is big-endian. Signed integers travel as their
//! two's complement, floats as their IEEE 754 bit pattern, booleans as one
//! byte, strings as a `u32` byte count followed by their UTF-8 bytes.

use vstd::prelude::*;
use vstd::utf8::*;

verus! {

/// The four big-endian bytes of `v`.
#[verifier::opaque]
pub open spec fn u32_bytes(v: u32) -> Seq<u8> {
    seq![
        (v / 0x100_0000) as u8,
        ((v / 0x1_0000) % 0x100) as u8,
        ((v / 0x100) % 0x100) as u8,
        (v % 0x100) as u8,
    ]
}

/// The number whose big-endian bytes are `b0 b1 b2 b3`.
#[verifier::opaque]
pub open spec fn u32_of(b0: u8, b1: u8, b2: u8, b3: u8) -> u32 {
    (b0 * 0x100_0000 + b1 * 0x1_0000 + b2 * 0x100 + b3) as u32
}

/// The two's complement of `v` as an unsigned number.
pub open spec fn i32_bits(v: i32) -> u32 {
    if v >= 0 {
        v as u32
    } else {
        (v + 0x1_0000_0000) as u32
    }
}

/// The signed number whose two's complement is `bits`.
pub open spec fn bits_i32(bits: u32) -> i32 {
    if bits < 0x8000_0000 {
        bits as i32
    } else {
        (bits - 0x1_0000_0000) as i32
    }
}

/// The byte that stands for a boolean.
pub open spec fn bool_byte(b: bool) -> u8 {
    if b {
        1
    } else {
        0
    }
}

/// A byte block with its length in front.
pub open spec fn block_bytes(body: Seq<u8>) -> Seq<u8> {
    u32_bytes(body.len() as u32) + body
}

/// A string on the wire: the length of its UTF-8 form, then that form.
pub open spec fn string_bytes(s: Seq<char>) -> Seq<u8> {
    block_bytes(encode_utf8(s))
}

/// Whether the UTF-8 form of `s` is short enough for its length prefix.
pub open spec fn string_fits(s: Seq<char>) -> bool {
    encode_utf8(s).len() <= u32::MAX
}

/// Reads one byte from the front of `s`.
pub open spec fn parse_u8(s: Seq<u8>) -> Option<(u8, Seq<u8>)> {
    if s.len() >= 1 {
        Some((s[0], s.skip(1)))
    } else {
        None
    }
}

/// Reads a big-endian `u32` from the front of `s`.
pub open spec fn parse_u32(s: Seq<u8>) -> Option<(u32, Seq<u8>)> {
    if s.len() >= 4 {
        Some((u32_of(s[0], s[1], s[2], s[3]), s.skip(4)))
    } else {
        None
    }
}

/// Reads a big-endian two's complement `i32` from the front of `s`.
pub open spec fn parse_i32(s: Seq<u8>) -> Option<(i32, Seq<u8>)> {
    match parse_u32(s) {
        Some((bits, rest)) => Some((bits_i32(bits), rest)),
        None => None,
    }
}

/// Reads a boolean from the front of `s`: any byte but zero is `true`.
pub open spec fn parse_bool(s: Seq<u8>) -> Option<(bool, Seq<u8>)> {
    match parse_u8(s) {
        Some((byte, rest)) => Some((byte != 0, rest)),
        None => None,
    }
}

/// Reads exactly `n` bytes from the front of `s`.
pub open spec fn parse_bytes(s: Seq<u8>, n: nat) -> Option<(Seq<u8>, Seq<u8>)> {
    if s.len() >= n {
        Some((s.take(n as int), s.skip(n as int)))
    } else {
        None
    }
}

/// Reads a length-prefixed byte block from the front of `s`.
pub open spec fn parse_block(s: Seq<u8>) -> Option<(Seq<u8>, Seq<u8>)> {
    match parse_u32(s) {
        Some((n, rest)) => parse_bytes(rest, n as nat),
        None => None,
    }
}

/// Reads a length-prefixed string from the front of `s`. Bytes that are not
/// UTF-8 are no string.
pub open spec fn parse_string(s: Seq<u8>) -> Option<(Seq<char>, Seq<u8>)> {
    match parse_block(s) {
        Some((raw, rest)) => if valid_utf8(raw) {
            Some((decode_utf8(raw), rest))
        } else {
            None
        },
        None => None,
    }
}

/// A `u32` read back from its own bytes is unchanged.
pub proof fn lemma_u32_round_trip(v: u32)
    ensures
        u32_bytes(v).len() == 4,
        u32_of(u32_bytes(v)[0], u32_bytes(v)[1], u32_bytes(v)[2], u32_bytes(v)[3]) == v,
{
    reveal(u32_bytes);
    reveal(u32_of);
}

/// An `i32` read back from its two's complement is unchanged.
pub proof fn lemma_i32_round_trip(v: i32)
    ensures
        bits_i32(i32_bits(v)) == v,
{
}

/// A `u32` that was written, with anything behind it, is read back, and what
/// was behind it is left.
pub proof fn lemma_parse_u32_written(v: u32, tail: Seq<u8>)
    ensures
        parse_u32(u32_bytes(v) + tail) == Some((v, tail)),
{
    lemma_u32_round_trip(v);
    let s = u32_bytes(v) + tail;
    assert(s.skip(4) =~= tail);
}

/// An `i32` that was written, with anything behind it, is read back, and what
/// was behind it is left.
pub proof fn lemma_parse_i32_written(v: i32, tail: Seq<u8>)
    ensures
        parse_i32(u32_bytes(i32_bits(v)) + tail) == Some((v, tail)),
{
    lemma_parse_u32_written(i32_bits(v), tail);
}

/// A byte that was written, with anything behind it, is read back, and what
/// was behind it is left.
pub proof fn lemma_parse_u8_written(v: u8, tail: Seq<u8>)
    ensures
        parse_u8(seq![v] + tail) == Some((v, tail)),
{
    assert((seq![v] + tail).skip(1) =~= tail);
}

/// A boolean that was written, with anything behind it, is read back, and
/// what was behind it is left.
pub proof fn lemma_parse_bool_written(v: bool, tail: Seq<u8>)
    ensures
        parse_bool(seq![bool_byte(v)] + tail) == Some((v, tail)),
{
    lemma_parse_u8_written(bool_byte(v), tail);
}

/// A block that was written, with anything behind it, is read back, and what
/// was behind it is left.
pub proof fn lemma_parse_block_written(body: Seq<u8>, tail: Seq<u8>)
    requires
        body.len() <= u32::MAX,
    ensures
        parse_block(block_bytes(body) + tail) == Some((body, tail)),
{
    let n = body.len() as u32;
    assert(block_bytes(body) + tail =~= u32_bytes(n) + (body + tail));
    lemma_parse_u32_written(n, body + tail);
    assert((body + tail).take(n as int) =~= body);
    assert((body + tail).skip(n as int) =~= tail);
}

/// A string that was written, with anything behind it, is read back, and what
/// was behind it is left.
pub proof fn lemma_parse_string_written(s: Seq<char>, tail: Seq<u8>)
    requires
        string_fits(s),
    ensures
        parse_string(string_bytes(s) + tail) == Some((s, tail)),
{
    lemma_parse_block_written(encode_utf8(s), tail);
    encode_utf8_valid_utf8(s);
    encode_utf8_decode_utf8(s);
}

/// The big-endian bytes of `v`.
pub fn u32_to_bytes(v: u32) -> (r: [u8; 4])
    ensures
        r@ == u32_bytes(v),
{
    reveal(u32_bytes);
    let r = [
        (v / 0x100_0000) as u8,
        ((v / 0x1_0000) % 0x100) as u8,
        ((v / 0x100) % 0x100) as u8,
        (v % 0x100) as u8,
    ];
    assert(r@ =~= u32_bytes(v));
    r
}

/// The number spelled by four big-endian bytes.
pub fn u32_from_bytes(b0: u8, b1: u8, b2: u8, b3: u8) -> (r: u32)
    ensures
        r == u32_of(b0, b1, b2, b3),
{
    reveal(u32_of);
    (b0 as u32) * 0x100_0000 + (b1 as u32) * 0x1_0000 + (b2 as u32) * 0x100 + (b3 as u32)
}

/// The two's complement of `v`.
pub fn i32_to_bits(v: i32) -> (r: u32)
    ensures
        r == i32_bits(v),
{
    if v >= 0 {
        v as u32
    } else {
        ((v as i64) + 0x1_0000_0000) as u32
    }
}

/// The signed number whose two's complement is `bits`.
pub fn i32_from_bits(bits: u32) -> (r: i32)
    ensures
        r == bits_i32(bits),
{
    if bits < 0x8000_0000 {
        bits as i32
    } else {
        ((bits as i64) - 0x1_0000_0000) as i32
    }
}

} // verus!
