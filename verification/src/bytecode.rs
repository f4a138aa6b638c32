//! The opcode table: one byte for each kind of instruction.
//!
//! The values are fixed. A new kind of instruction gets the next free value.

use vstd::prelude::*;

verus! {

/// The kind of an instruction, as it stands in front of the instruction's
/// operands on the wire. `Else` is no instruction of its own: it introduces
/// the second block of an `If`.
#[derive(Debug, Copy, Clone, PartialEq, Eq, Structural)]
pub enum ByteCode {
    /// No operation.
    Nop,
    /// Show the stack and the locals.
    Dump,
    /// Say hello.
    Hi,
    /// Define a function.
    Func,
    /// Call a function.
    Call,
    /// Push a string: a `u32` length, then the text.
    PushConstString,
    /// Push an integer: an `i32`.
    PushConstInt,
    /// Push a float: four bytes.
    PushConstFloat,
    /// Move the top of the stack to the end of the staged arguments.
    PushArg,
    /// Move the oldest staged argument to the top of the stack.
    PopArg,
    /// Drop the top of the stack.
    Pop,
    /// Duplicate the top of the stack.
    Dup,
    Version,
    PushConstBoolean,
    GetLocal,
    SetLocal,
    ReserveLocal,
    Add,
    Sub,
    Mul,
    Div,
    Eq,
    Ne,
    Lt,
    Le,
    Gt,
    Ge,
    Return,
    If,
    Else,
    Loop,
    Break,
    Continue,
}

impl ByteCode {
    /// The byte of an opcode.
    pub open spec fn code(self) -> u8 {
        match self {
            ByteCode::Nop => 0x00,
            ByteCode::Dump => 0x01,
            ByteCode::Hi => 0x02,
            ByteCode::Func => 0x03,
            ByteCode::Call => 0x04,
            ByteCode::PushConstString => 0x06,
            ByteCode::PushConstInt => 0x07,
            ByteCode::PushConstFloat => 0x08,
            ByteCode::PushArg => 0x09,
            ByteCode::PopArg => 0x0a,
            ByteCode::Pop => 0x0b,
            ByteCode::Dup => 0x0c,
            ByteCode::Version => 0x0d,
            ByteCode::PushConstBoolean => 0x0e,
            ByteCode::GetLocal => 0x0f,
            ByteCode::SetLocal => 0x10,
            ByteCode::ReserveLocal => 0x11,
            ByteCode::Add => 0x12,
            ByteCode::Sub => 0x13,
            ByteCode::Mul => 0x14,
            ByteCode::Div => 0x15,
            ByteCode::Eq => 0x16,
            ByteCode::Ne => 0x17,
            ByteCode::Lt => 0x18,
            ByteCode::Le => 0x19,
            ByteCode::Gt => 0x1a,
            ByteCode::Ge => 0x1b,
            ByteCode::Return => 0x1c,
            ByteCode::If => 0x1d,
            ByteCode::Else => 0x1e,
            ByteCode::Loop => 0x1f,
            ByteCode::Break => 0x20,
            ByteCode::Continue => 0x21,
        }
    }

    /// The opcode that a byte stands for, if it stands for one.
    pub open spec fn of(value: u8) -> Option<ByteCode> {
        match value {
            0x00 => Some(ByteCode::Nop),
            0x01 => Some(ByteCode::Dump),
            0x02 => Some(ByteCode::Hi),
            0x03 => Some(ByteCode::Func),
            0x04 => Some(ByteCode::Call),
            0x06 => Some(ByteCode::PushConstString),
            0x07 => Some(ByteCode::PushConstInt),
            0x08 => Some(ByteCode::PushConstFloat),
            0x09 => Some(ByteCode::PushArg),
            0x0a => Some(ByteCode::PopArg),
            0x0b => Some(ByteCode::Pop),
            0x0c => Some(ByteCode::Dup),
            0x0d => Some(ByteCode::Version),
            0x0e => Some(ByteCode::PushConstBoolean),
            0x0f => Some(ByteCode::GetLocal),
            0x10 => Some(ByteCode::SetLocal),
            0x11 => Some(ByteCode::ReserveLocal),
            0x12 => Some(ByteCode::Add),
            0x13 => Some(ByteCode::Sub),
            0x14 => Some(ByteCode::Mul),
            0x15 => Some(ByteCode::Div),
            0x16 => Some(ByteCode::Eq),
            0x17 => Some(ByteCode::Ne),
            0x18 => Some(ByteCode::Lt),
            0x19 => Some(ByteCode::Le),
            0x1a => Some(ByteCode::Gt),
            0x1b => Some(ByteCode::Ge),
            0x1c => Some(ByteCode::Return),
            0x1d => Some(ByteCode::If),
            0x1e => Some(ByteCode::Else),
            0x1f => Some(ByteCode::Loop),
            0x20 => Some(ByteCode::Break),
            0x21 => Some(ByteCode::Continue),
            _ => None,
        }
    }

    /// The opcode that `value` stands for, if it stands for one.
    pub fn from_u8(value: u8) -> (r: Option<ByteCode>)
        ensures
            r == ByteCode::of(value),
    {
        match value {
            0x00 => Some(ByteCode::Nop),
            0x01 => Some(ByteCode::Dump),
            0x02 => Some(ByteCode::Hi),
            0x03 => Some(ByteCode::Func),
            0x04 => Some(ByteCode::Call),
            0x06 => Some(ByteCode::PushConstString),
            0x07 => Some(ByteCode::PushConstInt),
            0x08 => Some(ByteCode::PushConstFloat),
            0x09 => Some(ByteCode::PushArg),
            0x0a => Some(ByteCode::PopArg),
            0x0b => Some(ByteCode::Pop),
            0x0c => Some(ByteCode::Dup),
            0x0d => Some(ByteCode::Version),
            0x0e => Some(ByteCode::PushConstBoolean),
            0x0f => Some(ByteCode::GetLocal),
            0x10 => Some(ByteCode::SetLocal),
            0x11 => Some(ByteCode::ReserveLocal),
            0x12 => Some(ByteCode::Add),
            0x13 => Some(ByteCode::Sub),
            0x14 => Some(ByteCode::Mul),
            0x15 => Some(ByteCode::Div),
            0x16 => Some(ByteCode::Eq),
            0x17 => Some(ByteCode::Ne),
            0x18 => Some(ByteCode::Lt),
            0x19 => Some(ByteCode::Le),
            0x1a => Some(ByteCode::Gt),
            0x1b => Some(ByteCode::Ge),
            0x1c => Some(ByteCode::Return),
            0x1d => Some(ByteCode::If),
            0x1e => Some(ByteCode::Else),
            0x1f => Some(ByteCode::Loop),
            0x20 => Some(ByteCode::Break),
            0x21 => Some(ByteCode::Continue),
            _ => None,
        }
    }

    /// The byte of the opcode.
    pub fn to_u8(&self) -> (r: u8)
        ensures
            r == self.code(),
    {
        match self {
            ByteCode::Nop => 0x00,
            ByteCode::Dump => 0x01,
            ByteCode::Hi => 0x02,
            ByteCode::Func => 0x03,
            ByteCode::Call => 0x04,
            ByteCode::PushConstString => 0x06,
            ByteCode::PushConstInt => 0x07,
            ByteCode::PushConstFloat => 0x08,
            ByteCode::PushArg => 0x09,
            ByteCode::PopArg => 0x0a,
            ByteCode::Pop => 0x0b,
            ByteCode::Dup => 0x0c,
            ByteCode::Version => 0x0d,
            ByteCode::PushConstBoolean => 0x0e,
            ByteCode::GetLocal => 0x0f,
            ByteCode::SetLocal => 0x10,
            ByteCode::ReserveLocal => 0x11,
            ByteCode::Add => 0x12,
            ByteCode::Sub => 0x13,
            ByteCode::Mul => 0x14,
            ByteCode::Div => 0x15,
            ByteCode::Eq => 0x16,
            ByteCode::Ne => 0x17,
            ByteCode::Lt => 0x18,
            ByteCode::Le => 0x19,
            ByteCode::Gt => 0x1a,
            ByteCode::Ge => 0x1b,
            ByteCode::Return => 0x1c,
            ByteCode::If => 0x1d,
            ByteCode::Else => 0x1e,
            ByteCode::Loop => 0x1f,
            ByteCode::Break => 0x20,
            ByteCode::Continue => 0x21,
        }
    }
}

/// A byte stands for the opcode whose byte it is, and for no other.
pub proof fn lemma_opcode_table(opcode: ByteCode, value: u8)
    ensures
        ByteCode::of(opcode.code()) == Some(opcode),
        ByteCode::of(value) == Some(opcode) <==> opcode.code() == value,
{
}

} // verus!
