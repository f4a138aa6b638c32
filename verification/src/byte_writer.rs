//! Writing the primitive values of the wire format to the end of a buffer.

use crate::wire::{
    bool_byte, i32_bits, i32_to_bits, string_bytes, string_fits, u32_bytes, u32_to_bytes,
};
use vstd::prelude::*;

verus! {

/// Appends `bytes`.
pub fn write_bytes(buffer: &mut Vec<u8>, bytes: &[u8])
    ensures
        final(buffer)@ == old(buffer)@ + bytes@,
{
    let mut i: usize = 0;
    assert(bytes@.take(0) =~= Seq::<u8>::empty());
    assert(buffer@ =~= old(buffer)@ + bytes@.take(0));
    while i < bytes.len()
        invariant
            i <= bytes.len(),
            buffer@ == old(buffer)@ + bytes@.take(i as int),
        decreases bytes.len() - i,
    {
        buffer.push(bytes[i]);
        assert(bytes@.take(i + 1) =~= bytes@.take(i as int).push(bytes@[i as int]));
        assert(buffer@ =~= old(buffer)@ + bytes@.take(i + 1));
        i += 1;
    }
    assert(bytes@.take(bytes@.len() as int) =~= bytes@);
}

/// Appends one byte.
pub fn write_byte(buffer: &mut Vec<u8>, value: u8)
    ensures
        final(buffer)@ == old(buffer)@ + seq![value],
{
    buffer.push(value);
    assert(buffer@ =~= old(buffer)@ + seq![value]);
}

/// Appends a `u32`, big-endian.
pub fn write_u32(buffer: &mut Vec<u8>, value: u32)
    ensures
        final(buffer)@ == old(buffer)@ + u32_bytes(value),
{
    let bytes = u32_to_bytes(value);
    write_bytes(buffer, bytes.as_slice());
}

/// Appends an `i32` as its two's complement, big-endian.
pub fn write_i32(buffer: &mut Vec<u8>, value: i32)
    ensures
        final(buffer)@ == old(buffer)@ + u32_bytes(i32_bits(value)),
{
    write_u32(buffer, i32_to_bits(value));
}

/// Appends a float, given as its binary32 bit pattern, big-endian.
pub fn write_f32(buffer: &mut Vec<u8>, bits: u32)
    ensures
        final(buffer)@ == old(buffer)@ + u32_bytes(bits),
{
    write_u32(buffer, bits);
}

/// Appends a boolean: the byte 1 or the byte 0.
pub fn write_bool(buffer: &mut Vec<u8>, value: bool)
    ensures
        final(buffer)@ == old(buffer)@ + seq![bool_byte(value)],
{
    write_byte(
        buffer,
        if value {
            1
        } else {
            0
        },
    );
}

/// Appends a string: the byte count of its UTF-8 form, then that form.
pub fn write_string(buffer: &mut Vec<u8>, value: &str)
    requires
        string_fits(value@),
    ensures
        final(buffer)@ == old(buffer)@ + string_bytes(value@),
{
    let bytes = value.as_bytes();
    write_u32(buffer, bytes.len() as u32);
    write_bytes(buffer, bytes);
    assert(buffer@ =~= old(buffer)@ + string_bytes(value@));
}

} // verus!
