//! Reading the primitive values of the wire format from a buffer, front to
//! back.

use crate::wire::{
    i32_from_bits, parse_bool, parse_bytes, parse_i32, parse_string, parse_u32, parse_u8,
    u32_from_bytes,
};
use vstd::prelude::*;
use vstd::utf8::{encode_utf8, encode_utf8_decode_utf8, valid_utf8};

verus! {

/// Makes text of bytes, if they are UTF-8. The text then has exactly these
/// bytes as its UTF-8 form. This is `String::from_utf8`, whose error is
/// turned into `None`.
#[verifier::external_body]
fn string_from_utf8(bytes: Vec<u8>) -> (r: Option<String>)
    ensures
        r is Some <==> valid_utf8(bytes@),
        r matches Some(s) ==> encode_utf8(s@) == bytes@,
{
    String::from_utf8(bytes).ok()
}

/// A cursor over a buffer. A read that finds too few bytes gives `None` and
/// leaves the cursor where it was.
pub struct ByteReader<'a> {
    bytes: &'a Vec<u8>,
    position: usize,
}

impl<'a> ByteReader<'a> {
    /// The cursor is within the buffer or at its end.
    #[verifier::type_invariant]
    spec fn in_range(self) -> bool {
        self.position <= self.bytes@.len()
    }

    /// The bytes that were not read yet.
    pub closed spec fn remaining(&self) -> Seq<u8> {
        self.bytes@.skip(self.position as int)
    }

    /// The whole buffer, read or not.
    pub closed spec fn buffer(&self) -> Seq<u8> {
        self.bytes@
    }

    /// A cursor at the front of `bytes`.
    pub fn new(bytes: &'a Vec<u8>) -> (reader: ByteReader<'a>)
        ensures
            reader.remaining() == bytes@,
            reader.buffer() == bytes@,
    {
        let reader = ByteReader { bytes, position: 0 };
        assert(bytes@.skip(0) =~= bytes@);
        reader
    }

    /// How many bytes are left to read.
    pub fn left(&self) -> (n: usize)
        ensures
            n == self.remaining().len(),
    {
        proof {
            use_type_invariant(self);
        }
        self.bytes.len() - self.position
    }

    /// The next byte, without reading it.
    pub fn peek_byte(&self) -> (r: Option<u8>)
        ensures
            match r {
                Some(v) => self.remaining().len() > 0 && v == self.remaining()[0],
                None => self.remaining().len() == 0,
            },
    {
        proof {
            use_type_invariant(self);
        }
        if self.position < self.bytes.len() {
            Some(self.bytes[self.position])
        } else {
            None
        }
    }

    /// Reads one byte.
    pub fn read_byte(&mut self) -> (r: Option<u8>)
        ensures
            final(self).buffer() == old(self).buffer(),
            match parse_u8(old(self).remaining()) {
                Some((v, rest)) => r == Some(v) && final(self).remaining() == rest,
                None => r is None && final(self).remaining() == old(self).remaining(),
            },
    {
        proof {
            use_type_invariant(&*self);
        }
        if self.position < self.bytes.len() {
            let v = self.bytes[self.position];
            self.position = self.position + 1;
            assert(self.remaining() =~= old(self).remaining().skip(1));
            Some(v)
        } else {
            None
        }
    }

    /// Reads a big-endian `u32`.
    pub fn read_u32(&mut self) -> (r: Option<u32>)
        ensures
            final(self).buffer() == old(self).buffer(),
            match parse_u32(old(self).remaining()) {
                Some((v, rest)) => r == Some(v) && final(self).remaining() == rest,
                None => r is None && final(self).remaining() == old(self).remaining(),
            },
    {
        proof {
            use_type_invariant(&*self);
        }
        if self.bytes.len() - self.position >= 4 {
            let at = self.position;
            let v = u32_from_bytes(
                self.bytes[at],
                self.bytes[at + 1],
                self.bytes[at + 2],
                self.bytes[at + 3],
            );
            self.position = at + 4;
            assert(self.remaining() =~= old(self).remaining().skip(4));
            Some(v)
        } else {
            None
        }
    }

    /// Reads a big-endian two's complement `i32`.
    pub fn read_i32(&mut self) -> (r: Option<i32>)
        ensures
            final(self).buffer() == old(self).buffer(),
            match parse_i32(old(self).remaining()) {
                Some((v, rest)) => r == Some(v) && final(self).remaining() == rest,
                None => r is None && final(self).remaining() == old(self).remaining(),
            },
    {
        match self.read_u32() {
            Some(bits) => Some(i32_from_bits(bits)),
            None => None,
        }
    }

    /// Reads a float: the four big-endian bytes of its binary32 bit pattern,
    /// which is what comes back.
    pub fn read_f32(&mut self) -> (r: Option<u32>)
        ensures
            final(self).buffer() == old(self).buffer(),
            match parse_u32(old(self).remaining()) {
                Some((v, rest)) => r == Some(v) && final(self).remaining() == rest,
                None => r is None && final(self).remaining() == old(self).remaining(),
            },
    {
        self.read_u32()
    }

    /// Reads a boolean: one byte, `true` unless it is zero.
    pub fn read_bool(&mut self) -> (r: Option<bool>)
        ensures
            final(self).buffer() == old(self).buffer(),
            match parse_bool(old(self).remaining()) {
                Some((v, rest)) => r == Some(v) && final(self).remaining() == rest,
                None => r is None && final(self).remaining() == old(self).remaining(),
            },
    {
        match self.read_byte() {
            Some(byte) => Some(byte != 0),
            None => None,
        }
    }

    /// Reads exactly `n` bytes.
    pub fn read_bytes(&mut self, n: usize) -> (r: Option<Vec<u8>>)
        ensures
            final(self).buffer() == old(self).buffer(),
            match parse_bytes(old(self).remaining(), n as nat) {
                Some((v, rest)) => r is Some && r.unwrap()@ == v && final(self).remaining() == rest,
                None => r is None && final(self).remaining() == old(self).remaining(),
            },
    {
        proof {
            use_type_invariant(&*self);
        }
        if self.bytes.len() - self.position < n {
            return None;
        }
        let start = self.position;
        let total = self.bytes.len();
        let mut out: Vec<u8> = Vec::new();
        let mut i: usize = 0;
        while i < n
            invariant
                i <= n,
                start + n <= total,
                total == self.bytes@.len(),
                out@.len() == i,
                forall|j: int| 0 <= j < i ==> out@[j] == self.bytes@[start + j],
            decreases n - i,
        {
            out.push(self.bytes[start + i]);
            i += 1;
        }
        self.position = start + n;
        assert(out@ =~= old(self).remaining().take(n as int));
        assert(self.remaining() =~= old(self).remaining().skip(n as int));
        Some(out)
    }

    /// Reads a string: a `u32` byte count, then that many bytes of UTF-8.
    /// Too few bytes, or bytes that are no UTF-8, are no string; the cursor
    /// then stays where it was.
    pub fn read_string(&mut self) -> (r: Option<String>)
        ensures
            final(self).buffer() == old(self).buffer(),
            match parse_string(old(self).remaining()) {
                Some((v, rest)) => r is Some && r.unwrap()@ == v && final(self).remaining() == rest,
                None => r is None && final(self).remaining() == old(self).remaining(),
            },
    {
        proof {
            use_type_invariant(&*self);
        }
        let start = self.position;
        let n = match self.read_u32() {
            Some(n) => n,
            None => {
                return None;
            },
        };
        let raw = match self.read_bytes(n as usize) {
            Some(raw) => raw,
            None => {
                self.position = start;
                return None;
            },
        };
        match string_from_utf8(raw) {
            Some(s) => {
                proof {
                    encode_utf8_decode_utf8(s@);
                }
                Some(s)
            },
            None => {
                self.position = start;
                None
            },
        }
    }
}

} // verus!
