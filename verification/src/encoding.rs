//! Instructions as bytes.
//!
//! An instruction is its opcode, then its operands. A block is the byte
//! count of its encoded body as a `u32`, then the body. A function has the
//! byte count of its body first, then its name, then the body. The second
//! block of an `If` is there only if it holds an instruction; the opcode
//! `Else` stands in front of it.

use crate::byte_writer::{write_bool, write_byte, write_bytes, write_i32, write_string, write_u32};
use crate::bytecode::ByteCode;
use crate::instruction::{code_view, Code, Instruction, Op};
use crate::wire::{block_bytes, bool_byte, i32_bits, string_bytes, string_fits, u32_bytes};
use vstd::prelude::*;

verus! {

/// The opcode of an instruction.
pub open spec fn opcode_of(op: Op) -> ByteCode {
    match op {
        Op::Nop => ByteCode::Nop,
        Op::Version { .. } => ByteCode::Version,
        Op::Dump => ByteCode::Dump,
        Op::Hi => ByteCode::Hi,
        Op::Func { .. } => ByteCode::Func,
        Op::Call { .. } => ByteCode::Call,
        Op::PushConstString { .. } => ByteCode::PushConstString,
        Op::PushConstInteger { .. } => ByteCode::PushConstInt,
        Op::PushConstFloat { .. } => ByteCode::PushConstFloat,
        Op::PushConstBoolean { .. } => ByteCode::PushConstBoolean,
        Op::GetLocal { .. } => ByteCode::GetLocal,
        Op::SetLocal { .. } => ByteCode::SetLocal,
        Op::ReserveLocal { .. } => ByteCode::ReserveLocal,
        Op::PushArg => ByteCode::PushArg,
        Op::PopArg => ByteCode::PopArg,
        Op::Pop => ByteCode::Pop,
        Op::Dup => ByteCode::Dup,
        Op::Add => ByteCode::Add,
        Op::Sub => ByteCode::Sub,
        Op::Mul => ByteCode::Mul,
        Op::Div => ByteCode::Div,
        Op::Eq => ByteCode::Eq,
        Op::Ne => ByteCode::Ne,
        Op::Lt => ByteCode::Lt,
        Op::Le => ByteCode::Le,
        Op::Gt => ByteCode::Gt,
        Op::Ge => ByteCode::Ge,
        Op::Return => ByteCode::Return,
        Op::If { .. } => ByteCode::If,
        Op::Loop { .. } => ByteCode::Loop,
        Op::Break => ByteCode::Break,
        Op::Continue => ByteCode::Continue,
    }
}

/// The second block of an `If` on the wire: nothing if the block is empty.
pub open spec fn else_bytes(block: Seq<Op>) -> Seq<u8>
    decreases block, 1nat,
{
    if block.len() > 0 {
        seq![ByteCode::Else.code()] + block_bytes(encode_ops(block))
    } else {
        Seq::empty()
    }
}

/// What stands behind the opcode of an instruction.
pub open spec fn operand_bytes(op: Op) -> Seq<u8>
    decreases op, 0nat,
{
    match op {
        Op::Version { major, minor, patch } => seq![major, minor, patch],
        Op::Func { name, code } => u32_bytes(encode_ops(code).len() as u32) + string_bytes(name)
            + encode_ops(code),
        Op::Call { module, function } => string_bytes(module) + string_bytes(function),
        Op::PushConstString { value } => string_bytes(value),
        Op::PushConstInteger { value } => u32_bytes(i32_bits(value)),
        Op::PushConstFloat { value } => u32_bytes(value),
        Op::PushConstBoolean { value } => seq![bool_byte(value)],
        Op::GetLocal { index } => u32_bytes(index),
        Op::SetLocal { index } => u32_bytes(index),
        Op::ReserveLocal { size } => u32_bytes(size),
        Op::If { if_block, else_block } => block_bytes(encode_ops(if_block)) + else_bytes(
            else_block,
        ),
        Op::Loop { block } => block_bytes(encode_ops(block)),
        _ => Seq::empty(),
    }
}

/// The bytes of one instruction.
pub open spec fn encode_op(op: Op) -> Seq<u8>
    decreases op, 1nat,
{
    seq![opcode_of(op).code()] + operand_bytes(op)
}

/// The bytes of a sequence of instructions: those of each, in order.
pub open spec fn encode_ops(ops: Seq<Op>) -> Seq<u8>
    decreases ops, 0nat,
{
    if ops.len() == 0 {
        Seq::empty()
    } else {
        encode_op(ops[0]) + encode_ops(ops.drop_first())
    }
}

/// Whether a block fits the format: its instructions do, and its encoded
/// body is short enough for the length in front of it.
pub open spec fn block_fits(block: Seq<Op>) -> bool
    decreases block, 1nat,
{
    all_encodable(block) && encode_ops(block).len() <= u32::MAX
}

/// Whether an instruction fits the format: every length in it, of a text or
/// of a block, fits a `u32`.
pub open spec fn encodable(op: Op) -> bool
    decreases op, 0nat,
{
    match op {
        Op::Func { name, code } => string_fits(name) && block_fits(code),
        Op::Call { module, function } => string_fits(module) && string_fits(function),
        Op::PushConstString { value } => string_fits(value),
        Op::If { if_block, else_block } => block_fits(if_block) && block_fits(else_block),
        Op::Loop { block } => block_fits(block),
        _ => true,
    }
}

/// Whether every instruction of a sequence fits the format.
pub open spec fn all_encodable(ops: Seq<Op>) -> bool
    decreases ops, 0nat,
{
    if ops.len() == 0 {
        true
    } else {
        encodable(ops[0]) && all_encodable(ops.drop_first())
    }
}

/// The bytes of a sequence are those of its front, then those of its back.
pub proof fn lemma_encode_ops_concat(front: Seq<Op>, back: Seq<Op>)
    ensures
        encode_ops(front + back) == encode_ops(front) + encode_ops(back),
        all_encodable(front + back) == (all_encodable(front) && all_encodable(back)),
    decreases front.len(),
{
    if front.len() == 0 {
        assert(front + back =~= back);
        assert(encode_ops(front) + encode_ops(back) =~= encode_ops(back));
    } else {
        let whole = front + back;
        assert(whole[0] == front[0]);
        assert(whole.drop_first() =~= front.drop_first() + back);
        lemma_encode_ops_concat(front.drop_first(), back);
        assert(encode_ops(whole) =~= encode_ops(front) + encode_ops(back));
    }
}

/// The bytes of a sequence of one instruction are those of the instruction.
pub proof fn lemma_encode_ops_single(op: Op)
    ensures
        encode_ops(seq![op]) == encode_op(op),
        all_encodable(seq![op]) == encodable(op),
{
    let one = seq![op];
    let none = Seq::<Op>::empty();
    assert(one.drop_first() =~= none);
    assert(encode_ops(none) =~= Seq::<u8>::empty());
    assert(all_encodable(none));
    assert(encode_ops(one) =~= encode_op(op) + encode_ops(none));
    assert(encode_ops(one) =~= encode_op(op));
}

/// What a sequence of instructions is up to its instruction `i`, with and
/// without that instruction.
pub proof fn lemma_encode_ops_step(ops: Seq<Op>, i: int)
    requires
        0 <= i < ops.len(),
    ensures
        encode_ops(ops.take(i + 1)) == encode_ops(ops.take(i)) + encode_op(ops[i]),
        all_encodable(ops.take(i + 1)) == (all_encodable(ops.take(i)) && encodable(ops[i])),
{
    assert(ops.take(i + 1) =~= ops.take(i) + seq![ops[i]]);
    lemma_encode_ops_concat(ops.take(i), seq![ops[i]]);
    lemma_encode_ops_single(ops[i]);
}

impl Instruction {
    /// Appends the bytes of a block to `buffer`: the byte count of `body`,
    /// then `body`. Gives `false`, with `buffer` as it was, if `body` is too
    /// long for its count.
    fn put_block(buffer: &mut Vec<u8>, body: &Vec<u8>) -> (fits: bool)
        ensures
            fits == (body@.len() <= u32::MAX),
            fits ==> final(buffer)@ == old(buffer)@ + block_bytes(body@),
            !fits ==> final(buffer)@ == old(buffer)@,
    {
        if body.len() > u32::MAX as usize {
            return false;
        }
        write_u32(buffer, body.len() as u32);
        write_bytes(buffer, body.as_slice());
        assert(buffer@ =~= old(buffer)@ + block_bytes(body@));
        true
    }

    /// Appends the bytes of a string to `buffer`. Gives `false` if the
    /// string is too long for its count.
    fn put_string(buffer: &mut Vec<u8>, value: &String) -> (fits: bool)
        ensures
            fits == string_fits(value@),
            fits ==> final(buffer)@ == old(buffer)@ + string_bytes(value@),
    {
        let text = value.as_str();
        if text.as_bytes().len() > u32::MAX as usize {
            return false;
        }
        write_string(buffer, text);
        true
    }

    /// The bytes of the instruction, if it fits the format.
    pub fn encode(&self) -> (r: Option<Vec<u8>>)
        ensures
            r is Some <==> encodable(self@),
            r matches Some(bytes) ==> bytes@ == encode_op(self@),
        decreases self, 0nat,
    {
        let mut bytes: Vec<u8> = Vec::new();
        match self {
            Instruction::Nop => write_byte(&mut bytes, ByteCode::Nop.to_u8()),
            Instruction::Version { major, minor, patch } => {
                write_byte(&mut bytes, ByteCode::Version.to_u8());
                write_byte(&mut bytes, *major);
                write_byte(&mut bytes, *minor);
                write_byte(&mut bytes, *patch);
            },
            Instruction::Dump => write_byte(&mut bytes, ByteCode::Dump.to_u8()),
            Instruction::Hi => write_byte(&mut bytes, ByteCode::Hi.to_u8()),
            Instruction::Func { name, code } => {
                write_byte(&mut bytes, ByteCode::Func.to_u8());
                let body = match Instruction::encode_code(code) {
                    Some(body) => body,
                    None => {
                        return None;
                    },
                };
                if body.len() > u32::MAX as usize {
                    return None;
                }
                write_u32(&mut bytes, body.len() as u32);
                if !Instruction::put_string(&mut bytes, name) {
                    return None;
                }
                write_bytes(&mut bytes, body.as_slice());
            },
            Instruction::Call { module, function } => {
                write_byte(&mut bytes, ByteCode::Call.to_u8());
                if !Instruction::put_string(&mut bytes, module) {
                    return None;
                }
                if !Instruction::put_string(&mut bytes, function) {
                    return None;
                }
            },
            Instruction::PushConstString { value } => {
                write_byte(&mut bytes, ByteCode::PushConstString.to_u8());
                if !Instruction::put_string(&mut bytes, value) {
                    return None;
                }
            },
            Instruction::PushConstInteger { value } => {
                write_byte(&mut bytes, ByteCode::PushConstInt.to_u8());
                write_i32(&mut bytes, *value);
            },
            Instruction::PushConstFloat { value } => {
                write_byte(&mut bytes, ByteCode::PushConstFloat.to_u8());
                write_u32(&mut bytes, *value);
            },
            Instruction::PushConstBoolean { value } => {
                write_byte(&mut bytes, ByteCode::PushConstBoolean.to_u8());
                write_bool(&mut bytes, *value);
            },
            Instruction::GetLocal { index } => {
                write_byte(&mut bytes, ByteCode::GetLocal.to_u8());
                write_u32(&mut bytes, *index);
            },
            Instruction::SetLocal { index } => {
                write_byte(&mut bytes, ByteCode::SetLocal.to_u8());
                write_u32(&mut bytes, *index);
            },
            Instruction::ReserveLocal { size } => {
                write_byte(&mut bytes, ByteCode::ReserveLocal.to_u8());
                write_u32(&mut bytes, *size);
            },
            Instruction::PushArg => write_byte(&mut bytes, ByteCode::PushArg.to_u8()),
            Instruction::PopArg => write_byte(&mut bytes, ByteCode::PopArg.to_u8()),
            Instruction::Pop => write_byte(&mut bytes, ByteCode::Pop.to_u8()),
            Instruction::Dup => write_byte(&mut bytes, ByteCode::Dup.to_u8()),
            Instruction::Add => write_byte(&mut bytes, ByteCode::Add.to_u8()),
            Instruction::Sub => write_byte(&mut bytes, ByteCode::Sub.to_u8()),
            Instruction::Mul => write_byte(&mut bytes, ByteCode::Mul.to_u8()),
            Instruction::Div => write_byte(&mut bytes, ByteCode::Div.to_u8()),
            Instruction::Eq => write_byte(&mut bytes, ByteCode::Eq.to_u8()),
            Instruction::Ne => write_byte(&mut bytes, ByteCode::Ne.to_u8()),
            Instruction::Lt => write_byte(&mut bytes, ByteCode::Lt.to_u8()),
            Instruction::Le => write_byte(&mut bytes, ByteCode::Le.to_u8()),
            Instruction::Gt => write_byte(&mut bytes, ByteCode::Gt.to_u8()),
            Instruction::Ge => write_byte(&mut bytes, ByteCode::Ge.to_u8()),
            Instruction::Return => write_byte(&mut bytes, ByteCode::Return.to_u8()),
            Instruction::If { if_block, else_block } => {
                write_byte(&mut bytes, ByteCode::If.to_u8());
                let first = match Instruction::encode_code(if_block) {
                    Some(first) => first,
                    None => {
                        return None;
                    },
                };
                if !Instruction::put_block(&mut bytes, &first) {
                    return None;
                }
                let second = match Instruction::encode_code(else_block) {
                    Some(second) => second,
                    None => {
                        return None;
                    },
                };
                if second.len() > u32::MAX as usize {
                    return None;
                }
                if else_block.len() > 0 {
                    write_byte(&mut bytes, ByteCode::Else.to_u8());
                    Instruction::put_block(&mut bytes, &second);
                }
            },
            Instruction::Loop { block } => {
                write_byte(&mut bytes, ByteCode::Loop.to_u8());
                let body = match Instruction::encode_code(block) {
                    Some(body) => body,
                    None => {
                        return None;
                    },
                };
                if !Instruction::put_block(&mut bytes, &body) {
                    return None;
                }
            },
            Instruction::Break => write_byte(&mut bytes, ByteCode::Break.to_u8()),
            Instruction::Continue => write_byte(&mut bytes, ByteCode::Continue.to_u8()),
        }
        assert(bytes@ =~= encode_op(self@));
        Some(bytes)
    }

    /// The bytes of a sequence of instructions, if every one of them fits the
    /// format.
    pub fn encode_code(code: &Code) -> (r: Option<Vec<u8>>)
        ensures
            r is Some <==> all_encodable(code_view(code@)),
            r matches Some(bytes) ==> bytes@ == encode_ops(code_view(code@)),
        decreases code, 1nat,
    {
        let ghost ops = code_view(code@);
        let mut bytes: Vec<u8> = Vec::new();
        let mut i: usize = 0;
        assert(ops.take(0) =~= Seq::<Op>::empty());
        while i < code.len()
            invariant
                i <= code.len(),
                ops == code_view(code@),
                all_encodable(ops.take(i as int)),
                bytes@ == encode_ops(ops.take(i as int)),
            decreases code.len() - i,
        {
            proof {
                lemma_encode_ops_step(ops, i as int);
            }
            match code[i].encode() {
                Some(one) => {
                    write_bytes(&mut bytes, one.as_slice());
                },
                None => {
                    proof {
                        assert(ops =~= ops.take(i + 1) + ops.skip(i + 1));
                        lemma_encode_ops_concat(ops.take(i + 1), ops.skip(i + 1));
                    }
                    return None;
                },
            }
            i += 1;
        }
        assert(ops.take(code.len() as int) =~= ops);
        Some(bytes)
    }

    /// The bytes of the instruction.
    pub fn to_bytes(&self) -> (bytes: Vec<u8>)
        requires
            encodable(self@),
        ensures
            bytes@ == encode_op(self@),
    {
        match self.encode() {
            Some(bytes) => bytes,
            None => Vec::new(),
        }
    }

    /// The bytes of a sequence of instructions.
    pub fn code_to_bytes(code: &Code) -> (bytes: Vec<u8>)
        requires
            all_encodable(code_view(code@)),
        ensures
            bytes@ == encode_ops(code_view(code@)),
    {
        match Instruction::encode_code(code) {
            Some(bytes) => bytes,
            None => Vec::new(),
        }
    }
}

} // verus!
