//! Decoding goes on behind what it has decoded: bytes that hold instructions,
//! with more bytes behind them, hold those instructions and then whatever
//! the bytes behind them hold.

use crate::bytecode::ByteCode;
use crate::decoding::{
    decode_ops, join, lemma_join_prepend, lemma_parse_body_shrinks, lemma_parse_frame_shrinks,
    parse_body, parse_else, parse_frame, prepend, DecodeError, Field, Frame,
};
use crate::instruction::Op;
use crate::round_trip::{lemma_function_body_too_long, no_else_ahead};
use crate::wire::{
    parse_bool, parse_bytes, parse_i32, parse_string, parse_u32, parse_u8, string_bytes,
    string_fits, u32_bytes,
};
use vstd::prelude::*;

verus! {

/// A byte that is read from `s` is read from `s` with `t` behind it, and
/// `t` stays behind what is left.
pub proof fn lemma_parse_u8_tail(s: Seq<u8>, t: Seq<u8>)
    ensures
        parse_u8(s) matches Some((v, rest)) ==> parse_u8(s + t) == Some((v, rest + t)),
        parse_bool(s) matches Some((v, rest)) ==> parse_bool(s + t) == Some((v, rest + t)),
{
    if s.len() >= 1 {
        assert((s + t).skip(1) =~= s.skip(1) + t);
    }
}

/// A number that is read from `s` is read from `s` with `t` behind it, and
/// `t` stays behind what is left.
pub proof fn lemma_parse_u32_tail(s: Seq<u8>, t: Seq<u8>)
    ensures
        parse_u32(s) matches Some((v, rest)) ==> parse_u32(s + t) == Some((v, rest + t)),
        parse_i32(s) matches Some((v, rest)) ==> parse_i32(s + t) == Some((v, rest + t)),
{
    if s.len() >= 4 {
        assert((s + t).skip(4) =~= s.skip(4) + t);
    }
}

/// Bytes that are read from `s` are read from `s` with `t` behind it, and
/// `t` stays behind what is left.
pub proof fn lemma_parse_bytes_tail(s: Seq<u8>, n: nat, t: Seq<u8>)
    ensures
        parse_bytes(s, n) matches Some((v, rest)) ==> parse_bytes(s + t, n) == Some((v, rest + t)),
{
    if s.len() >= n {
        assert((s + t).take(n as int) =~= s.take(n as int));
        assert((s + t).skip(n as int) =~= s.skip(n as int) + t);
    }
}

/// A string that is read from `s` is read from `s` with `t` behind it, and
/// `t` stays behind what is left.
pub proof fn lemma_parse_string_tail(s: Seq<u8>, t: Seq<u8>)
    ensures
        parse_string(s) matches Some((v, rest)) ==> parse_string(s + t) == Some((v, rest + t)),
{
    lemma_parse_u32_tail(s, t);
    if let Some((n, rest)) = parse_u32(s) {
        lemma_parse_bytes_tail(rest, n as nat, t);
    }
}

/// A block that is read from `s` is read from `s` with `t` behind it, and
/// `t` stays behind what is left.
pub proof fn lemma_parse_body_tail(s: Seq<u8>, t: Seq<u8>)
    ensures
        parse_body(s) matches Ok((body, rest)) ==> parse_body(s + t) == Ok::<
            (Seq<u8>, Seq<u8>),
            DecodeError,
        >((body, rest + t)),
{
    lemma_parse_u32_tail(s, t);
    if let Some((n, rest)) = parse_u32(s) {
        lemma_parse_bytes_tail(rest, n as nat, t);
    }
}

/// What is found behind the first block of an `If` in `s` is found there
/// with `t` behind `s`, unless `t` starts with `Else`, and `t` stays behind
/// what is left.
pub proof fn lemma_parse_else_tail(s: Seq<u8>, t: Seq<u8>)
    requires
        no_else_ahead(t),
    ensures
        parse_else(s) matches Ok((body, rest)) ==> parse_else(s + t) == Ok::<
            (Seq<u8>, Seq<u8>),
            DecodeError,
        >((body, rest + t)),
{
    if s.len() > 0 {
        if s[0] == ByteCode::Else.code() {
            assert((s + t).skip(1) =~= s.skip(1) + t);
            lemma_parse_body_tail(s.skip(1), t);
        }
    } else {
        assert(s + t =~= t);
        assert(Seq::<u8>::empty() + t =~= t);
    }
}

/// Whether what is framed from `s` behind the opcode `byte` is framed from
/// `s` with `t` behind it, with `t` behind what is left.
pub open spec fn frame_goes_on(byte: u8, s: Seq<u8>, t: Seq<u8>) -> bool {
    parse_frame(byte, s) matches Ok((frame, rest)) ==> parse_frame(byte, s + t) == Ok::<
        (Frame, Seq<u8>),
        DecodeError,
    >((frame, rest + t))
}

/// An instruction with a string or two behind its opcode goes on.
proof fn lemma_frame_tail_text(byte: u8, s: Seq<u8>, t: Seq<u8>)
    requires
        ByteCode::of(byte) == Some(ByteCode::Call) || ByteCode::of(byte) == Some(
            ByteCode::PushConstString,
        ),
    ensures
        frame_goes_on(byte, s, t),
{
    lemma_parse_string_tail(s, t);
    if let Some((_, rest)) = parse_string(s) {
        lemma_parse_string_tail(rest, t);
    }
}

/// A function definition goes on.
proof fn lemma_frame_tail_func(byte: u8, s: Seq<u8>, t: Seq<u8>)
    requires
        ByteCode::of(byte) == Some(ByteCode::Func),
    ensures
        frame_goes_on(byte, s, t),
{
    lemma_parse_u32_tail(s, t);
    if let Some((n, s1)) = parse_u32(s) {
        lemma_parse_string_tail(s1, t);
        if let Some((_, s2)) = parse_string(s1) {
            lemma_parse_bytes_tail(s2, n as nat, t);
        }
    }
}

/// A `Version` goes on.
proof fn lemma_frame_tail_version(byte: u8, s: Seq<u8>, t: Seq<u8>)
    requires
        ByteCode::of(byte) == Some(ByteCode::Version),
    ensures
        frame_goes_on(byte, s, t),
{
    lemma_parse_u8_tail(s, t);
    if let Some((_, s1)) = parse_u8(s) {
        lemma_parse_u8_tail(s1, t);
        if let Some((_, s2)) = parse_u8(s1) {
            lemma_parse_u8_tail(s2, t);
        }
    }
}

/// An instruction with one number, one boolean or one block behind its
/// opcode goes on.
proof fn lemma_frame_tail_single(byte: u8, s: Seq<u8>, t: Seq<u8>)
    requires
        ByteCode::of(byte) matches Some(opcode) && (opcode == ByteCode::PushConstInt || opcode
            == ByteCode::PushConstFloat || opcode == ByteCode::PushConstBoolean || opcode
            == ByteCode::GetLocal || opcode == ByteCode::SetLocal || opcode
            == ByteCode::ReserveLocal || opcode == ByteCode::If || opcode == ByteCode::Loop),
    ensures
        frame_goes_on(byte, s, t),
{
    lemma_parse_u8_tail(s, t);
    lemma_parse_u32_tail(s, t);
    lemma_parse_body_tail(s, t);
}

/// What is framed from `s` behind an opcode is framed from `s` with `t`
/// behind it, and `t` stays behind what is left.
pub proof fn lemma_parse_frame_tail(byte: u8, s: Seq<u8>, t: Seq<u8>)
    ensures
        frame_goes_on(byte, s, t),
{
    match ByteCode::of(byte) {
        Some(ByteCode::Call) | Some(ByteCode::PushConstString) => lemma_frame_tail_text(
            byte,
            s,
            t,
        ),
        Some(ByteCode::Func) => lemma_frame_tail_func(byte, s, t),
        Some(ByteCode::Version) => lemma_frame_tail_version(byte, s, t),
        Some(ByteCode::PushConstInt) | Some(ByteCode::PushConstFloat) | Some(
            ByteCode::PushConstBoolean,
        ) | Some(ByteCode::GetLocal) | Some(ByteCode::SetLocal) | Some(ByteCode::ReserveLocal)
        | Some(ByteCode::If) | Some(ByteCode::Loop) => lemma_frame_tail_single(byte, s, t),
        _ => {},
    }
}

/// Nothing in front of what follows is what follows.
proof fn lemma_join_nothing(following: Result<Seq<Op>, DecodeError>)
    ensures
        join(Seq::empty(), following) == following,
{
    if let Ok(ops) = following {
        assert(Seq::<Op>::empty() + ops =~= ops);
    }
}

/// `op` in front of `front` and what follows is `op` and `front` in front
/// of what follows.
proof fn lemma_prepend_join(op: Op, front: Seq<Op>, following: Result<Seq<Op>, DecodeError>)
    ensures
        prepend(op, join(front, following)) == join(seq![op] + front, following),
{
    if let Ok(ops) = following {
        assert(seq![op] + (front + ops) =~= (seq![op] + front) + ops);
    }
}

/// Bytes that hold instructions, with `behind` behind them, hold those
/// instructions and then what `behind` holds; and where `behind` holds none,
/// its fault is the fault of the whole. `behind` must not start with the
/// opcode `Else`, which would belong to an `If` at the end of the bytes in
/// front.
pub proof fn lemma_decoding_goes_on(front: Seq<u8>, behind: Seq<u8>)
    requires
        decode_ops(front) is Ok,
        no_else_ahead(behind),
    ensures
        decode_ops(front + behind) == join(decode_ops(front)->Ok_0, decode_ops(behind)),
    decreases front.len(),
{
    let whole = front + behind;
    let following = decode_ops(behind);
    if front.len() == 0 {
        assert(whole =~= behind);
        lemma_join_nothing(following);
    } else {
        let byte = front[0];
        let s = front.skip(1);
        assert(whole[0] == byte);
        assert(whole.skip(1) =~= s + behind);
        lemma_parse_frame_shrinks(byte, s);
        lemma_parse_frame_tail(byte, s, behind);
        match parse_frame(byte, s) {
            Ok((Frame::Plain(op), rest)) => {
                lemma_decoding_goes_on(rest, behind);
                lemma_prepend_join(op, decode_ops(rest)->Ok_0, following);
            },
            Ok((Frame::Func { name, body }, rest)) => {
                lemma_decoding_goes_on(rest, behind);
                lemma_prepend_join(
                    Op::Func { name, code: decode_ops(body)->Ok_0 },
                    decode_ops(rest)->Ok_0,
                    following,
                );
            },
            Ok((Frame::Loop { body }, rest)) => {
                lemma_decoding_goes_on(rest, behind);
                lemma_prepend_join(
                    Op::Loop { block: decode_ops(body)->Ok_0 },
                    decode_ops(rest)->Ok_0,
                    following,
                );
            },
            Ok((Frame::If { first }, rest)) => {
                lemma_parse_body_shrinks(rest);
                lemma_parse_else_tail(rest, behind);
                match parse_else(rest) {
                    Ok((second, after)) => {
                        lemma_decoding_goes_on(after, behind);
                        lemma_prepend_join(
                            Op::If {
                                if_block: decode_ops(first)->Ok_0,
                                else_block: decode_ops(second)->Ok_0,
                            },
                            decode_ops(after)->Ok_0,
                            following,
                        );
                    },
                    Err(_) => {},
                }
            },
            Err(_) => {},
        }
    }
}

/// Wherever a function definition stands behind other instructions, if it
/// declares a body longer than what is left of the bytes, the bytes are no
/// instructions: the body is what is found missing.
pub proof fn lemma_function_body_too_long_anywhere(
    front: Seq<u8>,
    declared: u32,
    name: Seq<char>,
    left: Seq<u8>,
)
    requires
        decode_ops(front) is Ok,
        string_fits(name),
        left.len() < declared,
    ensures
        decode_ops(
            front + (seq![ByteCode::Func.code()] + u32_bytes(declared) + string_bytes(name) + left),
        ) == Err::<Seq<Op>, DecodeError>(DecodeError::Expected { field: Field::FunctionCode }),
{
    let faulty = seq![ByteCode::Func.code()] + u32_bytes(declared) + string_bytes(name) + left;
    lemma_function_body_too_long(declared, name, left);
    assert(faulty[0] == ByteCode::Func.code());
    lemma_decoding_goes_on(front, faulty);
}

} // verus!
