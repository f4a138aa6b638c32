//! Decoding gives back what was encoded.

use crate::builder::{function_bytes, functions_bytes, module_bytes, spliced, Finished};
use crate::bytecode::ByteCode;
use crate::decoding::{
    decode_ops, decoded, parse_body, parse_else, parse_frame, DecodeError, Field, Frame,
};
use crate::instruction::{code_view, Code};
use crate::encoding::{lemma_encode_ops_concat, lemma_encode_ops_single};
use crate::module::{load_bytes, register_all};
use crate::encoding::{
    all_encodable, block_fits, else_bytes, encodable, encode_op, encode_ops, opcode_of,
    operand_bytes,
};
use crate::instruction::Op;
use crate::wire::{
    block_bytes, lemma_parse_bool_written,
    lemma_parse_i32_written, lemma_parse_string_written, lemma_parse_u32_written,
    lemma_parse_u8_written, string_bytes, string_fits, u32_bytes,
};
use vstd::prelude::*;

verus! {

/// An instruction as the decoder first sees it: the bodies of its blocks
/// still encoded.
pub open spec fn framed(op: Op) -> Frame {
    match op {
        Op::Func { name, code } => Frame::Func { name, body: encode_ops(code) },
        Op::If { if_block, .. } => Frame::If { first: encode_ops(if_block) },
        Op::Loop { block } => Frame::Loop { body: encode_ops(block) },
        _ => Frame::Plain(op),
    }
}

/// What the decoder has in front of it once it has framed `op`, when `tail`
/// stands behind the bytes of `op`.
pub open spec fn behind(op: Op, tail: Seq<u8>) -> Seq<u8> {
    match op {
        Op::If { else_block, .. } => else_bytes(else_block) + tail,
        _ => tail,
    }
}

/// Whether `tail` does not start with the opcode `Else`.
pub open spec fn no_else_ahead(tail: Seq<u8>) -> bool {
    tail.len() == 0 || tail[0] != ByteCode::Else.code()
}

/// A written block in front of `tail` is read back as the block, and `tail`
/// is left.
proof fn lemma_parse_body_written(body: Seq<u8>, tail: Seq<u8>)
    requires
        body.len() <= u32::MAX,
    ensures
        parse_body(block_bytes(body) + tail) == Ok::<(Seq<u8>, Seq<u8>), DecodeError>((body, tail)),
{
    let n = body.len() as u32;
    assert(block_bytes(body) + tail =~= u32_bytes(n) + (body + tail));
    lemma_parse_u32_written(n, body + tail);
    assert((body + tail).take(n as int) =~= body);
    assert((body + tail).skip(n as int) =~= tail);
}

/// The second block of an `If` in front of `tail` is read back, and `tail`
/// is left.
proof fn lemma_parse_else_written(block: Seq<Op>, tail: Seq<u8>)
    requires
        block_fits(block),
        no_else_ahead(tail),
    ensures
        parse_else(else_bytes(block) + tail) == Ok::<(Seq<u8>, Seq<u8>), DecodeError>(
            (encode_ops(block), tail),
        ),
{
    let s = else_bytes(block) + tail;
    if block.len() > 0 {
        let body = encode_ops(block);
        assert(s[0] == ByteCode::Else.code());
        assert(s.skip(1) =~= block_bytes(body) + tail);
        lemma_parse_body_written(body, tail);
    } else {
        assert(s =~= tail);
        assert(encode_ops(block) =~= Seq::<u8>::empty());
    }
}

/// The bytes of an instruction start with its opcode, which is never `Else`.
pub proof fn lemma_encode_op_starts(op: Op)
    ensures
        encode_op(op).len() >= 1,
        encode_op(op)[0] == opcode_of(op).code(),
        opcode_of(op) != ByteCode::Else,
        ByteCode::of(opcode_of(op).code()) == Some(opcode_of(op)),
{
}

/// The bytes of a sequence of instructions do not start with `Else`.
pub proof fn lemma_encode_ops_starts(ops: Seq<Op>)
    ensures
        no_else_ahead(encode_ops(ops)),
{
    if ops.len() > 0 {
        lemma_encode_op_starts(ops[0]);
        assert(encode_ops(ops)[0] == encode_op(ops[0])[0]);
    }
}

/// Whether `op`, with `tail` behind its bytes, is framed as itself.
pub open spec fn frames_back(op: Op, tail: Seq<u8>) -> bool {
    parse_frame(opcode_of(op).code(), operand_bytes(op) + tail) == Ok::<
        (Frame, Seq<u8>),
        DecodeError,
    >((framed(op), behind(op, tail)))
}

/// A `Version` is framed as itself.
proof fn lemma_frame_version(major: u8, minor: u8, patch: u8, tail: Seq<u8>)
    ensures
        frames_back(Op::Version { major, minor, patch }, tail),
{
    let op = Op::Version { major, minor, patch };
    let s = operand_bytes(op) + tail;
    assert(s =~= seq![major] + (seq![minor] + (seq![patch] + tail)));
    lemma_parse_u8_written(major, seq![minor] + (seq![patch] + tail));
    lemma_parse_u8_written(minor, seq![patch] + tail);
    lemma_parse_u8_written(patch, tail);
}

/// A function definition is framed as itself.
proof fn lemma_frame_func(name: Seq<char>, code: Seq<Op>, tail: Seq<u8>)
    requires
        encodable(Op::Func { name, code }),
    ensures
        frames_back(Op::Func { name, code }, tail),
{
    let op = Op::Func { name, code };
    let s = operand_bytes(op) + tail;
    let body = encode_ops(code);
    let n = body.len() as u32;
    assert(s =~= u32_bytes(n) + (string_bytes(name) + (body + tail)));
    lemma_parse_u32_written(n, string_bytes(name) + (body + tail));
    lemma_parse_string_written(name, body + tail);
    assert((body + tail).take(n as int) =~= body);
    assert((body + tail).skip(n as int) =~= tail);
}

/// A `Call` is framed as itself.
proof fn lemma_frame_call(module: Seq<char>, function: Seq<char>, tail: Seq<u8>)
    requires
        encodable(Op::Call { module, function }),
    ensures
        frames_back(Op::Call { module, function }, tail),
{
    let op = Op::Call { module, function };
    let s = operand_bytes(op) + tail;
    assert(s =~= string_bytes(module) + (string_bytes(function) + tail));
    lemma_parse_string_written(module, string_bytes(function) + tail);
    lemma_parse_string_written(function, tail);
}

/// An instruction that pushes a constant is framed as itself.
proof fn lemma_frame_constant(op: Op, tail: Seq<u8>)
    requires
        encodable(op),
        op is PushConstString || op is PushConstInteger || op is PushConstFloat
            || op is PushConstBoolean,
    ensures
        frames_back(op, tail),
{
    match op {
        Op::PushConstString { value } => {
            lemma_parse_string_written(value, tail);
        },
        Op::PushConstInteger { value } => {
            lemma_parse_i32_written(value, tail);
        },
        Op::PushConstFloat { value } => {
            lemma_parse_u32_written(value, tail);
        },
        Op::PushConstBoolean { value } => {
            lemma_parse_bool_written(value, tail);
        },
        _ => {},
    }
}

/// An instruction on a local is framed as itself.
proof fn lemma_frame_local(op: Op, tail: Seq<u8>)
    requires
        op is GetLocal || op is SetLocal || op is ReserveLocal,
    ensures
        frames_back(op, tail),
{
    match op {
        Op::GetLocal { index } => {
            lemma_parse_u32_written(index, tail);
        },
        Op::SetLocal { index } => {
            lemma_parse_u32_written(index, tail);
        },
        Op::ReserveLocal { size } => {
            lemma_parse_u32_written(size, tail);
        },
        _ => {},
    }
}

/// An `If` and a `Loop` are framed as themselves.
proof fn lemma_frame_block(op: Op, tail: Seq<u8>)
    requires
        encodable(op),
        op is If || op is Loop,
    ensures
        frames_back(op, tail),
{
    let s = operand_bytes(op) + tail;
    match op {
        Op::If { if_block, else_block } => {
            let first = encode_ops(if_block);
            assert(s =~= block_bytes(first) + (else_bytes(else_block) + tail));
            lemma_parse_body_written(first, else_bytes(else_block) + tail);
        },
        Op::Loop { block } => {
            lemma_parse_body_written(encode_ops(block), tail);
        },
        _ => {},
    }
}

/// An instruction without operands is framed as itself.
proof fn lemma_frame_bare(op: Op, tail: Seq<u8>)
    requires
        operand_bytes(op) == Seq::<u8>::empty(),
        framed(op) == Frame::Plain(op),
        !(op is Version || op is Call || op is PushConstString || op is PushConstInteger
            || op is PushConstFloat || op is PushConstBoolean || op is GetLocal || op is SetLocal
            || op is ReserveLocal),
    ensures
        frames_back(op, tail),
{
    assert(operand_bytes(op) + tail =~= tail);
}

/// The bytes of an instruction in front of `tail` are framed as that
/// instruction.
pub proof fn lemma_frame_written(op: Op, tail: Seq<u8>)
    requires
        encodable(op),
    ensures
        frames_back(op, tail),
{
    match op {
        Op::Version { major, minor, patch } => lemma_frame_version(major, minor, patch, tail),
        Op::Func { name, code } => lemma_frame_func(name, code, tail),
        Op::Call { module, function } => lemma_frame_call(module, function, tail),
        Op::PushConstString { .. } | Op::PushConstInteger { .. } | Op::PushConstFloat { .. }
        | Op::PushConstBoolean { .. } => lemma_frame_constant(op, tail),
        Op::GetLocal { .. } | Op::SetLocal { .. } | Op::ReserveLocal { .. } => lemma_frame_local(
            op,
            tail,
        ),
        Op::If { .. } | Op::Loop { .. } => lemma_frame_block(op, tail),
        _ => lemma_frame_bare(op, tail),
    }
}

/// Whether decoding the bytes of `ops` gives `ops` back.
pub open spec fn round_trips(ops: Seq<Op>) -> bool {
    decode_ops(encode_ops(ops)) == Ok::<Seq<Op>, DecodeError>(ops)
}

/// An instruction whose blocks are decoded back, in front of instructions
/// that are decoded back, is decoded back with them.
#[verifier::rlimit(50)]
proof fn lemma_decode_front(op: Op, rest: Seq<Op>)
    requires
        encodable(op),
        round_trips(rest),
        op matches Op::Func { code, .. } ==> round_trips(code),
        op matches Op::Loop { block } ==> round_trips(block),
        op matches Op::If { if_block, else_block } ==> round_trips(if_block) && round_trips(
            else_block,
        ),
    ensures
        decode_ops(encode_op(op) + encode_ops(rest)) == Ok::<Seq<Op>, DecodeError>(
            seq![op] + rest,
        ),
{
    let tail = encode_ops(rest);
    let s = encode_op(op) + tail;
    lemma_encode_op_starts(op);
    lemma_encode_ops_starts(rest);
    assert(s.len() > 0);
    assert(s[0] == opcode_of(op).code());
    assert(s.skip(1) =~= operand_bytes(op) + tail);
    lemma_frame_written(op, tail);
    let parsed = parse_frame(s[0], s.skip(1));
    assert(parsed == Ok::<(Frame, Seq<u8>), DecodeError>((framed(op), behind(op, tail))));
    match op {
        Op::Func { name, code } => {
            assert(decode_ops(s) == Ok::<Seq<Op>, DecodeError>(seq![op] + rest));
        },
        Op::Loop { block } => {
            assert(decode_ops(s) == Ok::<Seq<Op>, DecodeError>(seq![op] + rest));
        },
        Op::If { if_block, else_block } => {
            lemma_parse_else_written(else_block, tail);
            assert(decode_ops(s) == Ok::<Seq<Op>, DecodeError>(seq![op] + rest));
        },
        _ => {
            assert(framed(op) == Frame::Plain(op));
            assert(decode_ops(s) == Ok::<Seq<Op>, DecodeError>(seq![op] + rest));
        },
    }
}

/// Decoding the bytes of a sequence of instructions gives the sequence back,
/// whenever the sequence fits the format.
pub proof fn lemma_decode_encode(ops: Seq<Op>)
    requires
        all_encodable(ops),
    ensures
        decode_ops(encode_ops(ops)) == Ok::<Seq<Op>, DecodeError>(ops),
    decreases ops,
{
    if ops.len() == 0 {
        assert(encode_ops(ops) =~= Seq::<u8>::empty());
        assert(ops =~= Seq::<Op>::empty());
    } else {
        let op = ops[0];
        let rest = ops.drop_first();
        assert(encodable(op) && all_encodable(rest));
        lemma_decode_encode(rest);
        match op {
            Op::Func { name, code } => {
                assert(block_fits(code));
                lemma_decode_encode(code);
            },
            Op::Loop { block } => {
                assert(block_fits(block));
                lemma_decode_encode(block);
            },
            Op::If { if_block, else_block } => {
                assert(block_fits(if_block) && block_fits(else_block));
                lemma_decode_encode(if_block);
                lemma_decode_encode(else_block);
            },
            _ => {},
        }
        lemma_decode_front(op, rest);
        assert(seq![op] + rest =~= ops);
        assert(encode_ops(ops) == encode_op(op) + encode_ops(rest));
    }
}

/// What `from_bytecode` makes of what `code_to_bytes` made of `code` are the
/// instructions of `code` again.
pub proof fn lemma_decoded_is_encoded(code: Code, bytes: Vec<u8>, back: Result<Code, DecodeError>)
    requires
        all_encodable(code_view(code@)),
        bytes@ == encode_ops(code_view(code@)),
        decoded(bytes@, back),
    ensures
        back matches Ok(again) && code_view(again@) == code_view(code@),
{
    lemma_decode_encode(code_view(code@));
}

/// Bytes that declare a function body longer than what is left of them
/// are no instructions: the body is what is found missing.
pub proof fn lemma_function_body_too_long(declared: u32, name: Seq<char>, left: Seq<u8>)
    requires
        string_fits(name),
        left.len() < declared,
    ensures
        decode_ops(seq![ByteCode::Func.code()] + u32_bytes(declared) + string_bytes(name) + left)
            == Err::<Seq<Op>, DecodeError>(DecodeError::Expected { field: Field::FunctionCode }),
{
    let s = seq![ByteCode::Func.code()] + u32_bytes(declared) + string_bytes(name) + left;
    assert(s[0] == ByteCode::Func.code());
    assert(s.skip(1) =~= u32_bytes(declared) + (string_bytes(name) + left));
    lemma_parse_u32_written(declared, string_bytes(name) + left);
    lemma_parse_string_written(name, left);
}

/// A loop that the builder splices into the block around it stands there as
/// the instruction `Loop` does.
pub proof fn lemma_spliced_loop(block: Seq<Op>)
    ensures
        spliced(ByteCode::Loop, encode_ops(block)) == encode_op(Op::Loop { block }),
{
}

/// The blocks of an `If` that the builder splices into the block around
/// them, the second right behind the first, stand there as the instruction
/// `If` does; and so does the first alone, for an `If` with nothing in its
/// second block.
pub proof fn lemma_spliced_if(if_block: Seq<Op>, else_block: Seq<Op>)
    ensures
        spliced(ByteCode::If, encode_ops(if_block)) == encode_op(
            Op::If { if_block, else_block: Seq::empty() },
        ),
        else_block.len() > 0 ==> spliced(ByteCode::If, encode_ops(if_block)) + spliced(
            ByteCode::Else,
            encode_ops(else_block),
        ) == encode_op(Op::If { if_block, else_block }),
{
    let none = Seq::<Op>::empty();
    assert(else_bytes(none) =~= Seq::<u8>::empty());
    assert(spliced(ByteCode::If, encode_ops(if_block)) =~= encode_op(
        Op::If { if_block, else_block: none },
    ));
    if else_block.len() > 0 {
        assert(spliced(ByteCode::If, encode_ops(if_block)) + spliced(
            ByteCode::Else,
            encode_ops(else_block),
        ) =~= encode_op(Op::If { if_block, else_block }));
    }
}

/// A finished function of the builder stands in the module as the
/// instruction `Func` does.
pub proof fn lemma_function_bytes(name: Seq<char>, code: Seq<Op>)
    ensures
        function_bytes((name, encode_ops(code))) == encode_op(Op::Func { name, code }),
{
    assert(function_bytes((name, encode_ops(code))) =~= encode_op(Op::Func { name, code }));
}

/// The function definitions that finished functions stand for, when the body
/// of each is the encoding of the instructions in the same place of
/// `bodies`.
pub open spec fn defined(functions: Seq<Finished>, bodies: Seq<Seq<Op>>) -> Seq<Op> {
    Seq::new(functions.len(), |i: int| Op::Func { name: functions[i].0, code: bodies[i] })
}

/// Whether every finished function holds the encoding of the instructions
/// in the same place of `bodies`, and fits the format.
pub open spec fn built_from(functions: Seq<Finished>, bodies: Seq<Seq<Op>>) -> bool {
    &&& functions.len() == bodies.len()
    &&& forall|i: int|
        0 <= i < functions.len() ==> (#[trigger] functions[i]).1 == encode_ops(bodies[i])
            && string_fits(functions[i].0) && block_fits(bodies[i])
}

/// The functions of a built module are the encoding of their definitions,
/// and those definitions fit the format.
pub proof fn lemma_functions_bytes(functions: Seq<Finished>, bodies: Seq<Seq<Op>>)
    requires
        built_from(functions, bodies),
    ensures
        functions_bytes(functions) == encode_ops(defined(functions, bodies)),
        all_encodable(defined(functions, bodies)),
    decreases functions.len(),
{
    let all = defined(functions, bodies);
    if functions.len() == 0 {
        assert(all =~= Seq::<Op>::empty());
        assert(encode_ops(all) =~= Seq::<u8>::empty());
    } else {
        let front = functions.drop_last();
        let front_bodies = bodies.drop_last();
        let last = functions.last();
        let op = Op::Func { name: last.0, code: bodies.last() };
        assert forall|i: int| 0 <= i < front.len() implies (#[trigger] front[i]).1 == encode_ops(
            front_bodies[i],
        ) && string_fits(front[i].0) && block_fits(front_bodies[i]) by {
            assert(front[i] == functions[i]);
        }
        lemma_functions_bytes(front, front_bodies);
        assert(all =~= defined(front, front_bodies) + seq![op]);
        lemma_encode_ops_concat(defined(front, front_bodies), seq![op]);
        lemma_encode_ops_single(op);
        lemma_function_bytes(last.0, bodies.last());
        assert(functions[functions.len() - 1] == last);
    }
}

/// What the builder emits decodes to what was built: behind the version,
/// the bytes of the module decode to the definitions of the functions.
pub proof fn lemma_built_module_decodes(functions: Seq<Finished>, bodies: Seq<Seq<Op>>)
    requires
        built_from(functions, bodies),
    ensures
        decode_ops(module_bytes(functions).skip(3)) == Ok::<Seq<Op>, DecodeError>(
            defined(functions, bodies),
        ),
{
    lemma_functions_bytes(functions, bodies);
    lemma_decode_encode(defined(functions, bodies));
    assert(module_bytes(functions).skip(3) =~= functions_bytes(functions));
}

/// What the builder emits loads as what was built: if every finished
/// function holds the encoding of some instructions, the bytes of the module
/// load as the definitions of those functions with those instructions.
pub proof fn lemma_built_module_loads(functions: Seq<Finished>, bodies: Seq<Seq<Op>>)
    requires
        built_from(functions, bodies),
    ensures
        load_bytes(module_bytes(functions)) == register_all(defined(functions, bodies)),
{
    lemma_functions_bytes(functions, bodies);
    lemma_decode_encode(defined(functions, bodies));
    let bytes = module_bytes(functions);
    assert(bytes.skip(3) =~= functions_bytes(functions));
}

} // verus!
