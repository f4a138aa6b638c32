//! The instructions of the machine and what they are as plain data.

use vstd::prelude::*;

verus! {

/// One operation. Control flow is structural: a block holds its body as a
/// sequence of instructions, never as an address.
///
/// A float constant is held as its IEEE 754 binary32 bit pattern.
#[allow(inconsistent_fields)]
#[derive(Debug, PartialEq)]
pub enum Instruction {
    /// Does nothing.
    Nop,
    Version { major: u8, minor: u8, patch: u8 },
    Dump,
    Hi,
    Func { name: String, code: Code },
    Call { module: String, function: String },
    PushConstString { value: String },
    PushConstInteger { value: i32 },
    PushConstFloat { value: u32 },
    PushConstBoolean { value: bool },
    GetLocal { index: u32 },
    SetLocal { index: u32 },
    ReserveLocal { size: u32 },
    PushArg,
    PopArg,
    Pop,
    Dup,
    Add,
    Sub,
    Mul,
    Div,
    Eq,
    Ne,
    Lt,
    Le,
    Gt,
    Ge,
    Return,
    If { if_block: Code, else_block: Code },
    Loop { block: Code },
    Break,
    Continue,
}

/// A sequence of instructions.
pub type Code = Vec<Instruction>;

/// What an [`Instruction`] is: text as a sequence of characters, a body as a
/// sequence of operations.
#[allow(inconsistent_fields)]
pub enum Op {
    Nop,
    Version { major: u8, minor: u8, patch: u8 },
    Dump,
    Hi,
    Func { name: Seq<char>, code: Seq<Op> },
    Call { module: Seq<char>, function: Seq<char> },
    PushConstString { value: Seq<char> },
    PushConstInteger { value: i32 },
    PushConstFloat { value: u32 },
    PushConstBoolean { value: bool },
    GetLocal { index: u32 },
    SetLocal { index: u32 },
    ReserveLocal { size: u32 },
    PushArg,
    PopArg,
    Pop,
    Dup,
    Add,
    Sub,
    Mul,
    Div,
    Eq,
    Ne,
    Lt,
    Le,
    Gt,
    Ge,
    Return,
    If { if_block: Seq<Op>, else_block: Seq<Op> },
    Loop { block: Seq<Op> },
    Break,
    Continue,
}

impl View for Instruction {
    type V = Op;

    open spec fn view(&self) -> Op
        decreases self,
    {
        match self {
            Instruction::Nop => Op::Nop,
            Instruction::Version { major, minor, patch } => Op::Version {
                major: *major,
                minor: *minor,
                patch: *patch,
            },
            Instruction::Dump => Op::Dump,
            Instruction::Hi => Op::Hi,
            Instruction::Func { name, code } => Op::Func { name: name@, code: code_view(code@) },
            Instruction::Call { module, function } => Op::Call {
                module: module@,
                function: function@,
            },
            Instruction::PushConstString { value } => Op::PushConstString { value: value@ },
            Instruction::PushConstInteger { value } => Op::PushConstInteger { value: *value },
            Instruction::PushConstFloat { value } => Op::PushConstFloat { value: *value },
            Instruction::PushConstBoolean { value } => Op::PushConstBoolean { value: *value },
            Instruction::GetLocal { index } => Op::GetLocal { index: *index },
            Instruction::SetLocal { index } => Op::SetLocal { index: *index },
            Instruction::ReserveLocal { size } => Op::ReserveLocal { size: *size },
            Instruction::PushArg => Op::PushArg,
            Instruction::PopArg => Op::PopArg,
            Instruction::Pop => Op::Pop,
            Instruction::Dup => Op::Dup,
            Instruction::Add => Op::Add,
            Instruction::Sub => Op::Sub,
            Instruction::Mul => Op::Mul,
            Instruction::Div => Op::Div,
            Instruction::Eq => Op::Eq,
            Instruction::Ne => Op::Ne,
            Instruction::Lt => Op::Lt,
            Instruction::Le => Op::Le,
            Instruction::Gt => Op::Gt,
            Instruction::Ge => Op::Ge,
            Instruction::Return => Op::Return,
            Instruction::If { if_block, else_block } => Op::If {
                if_block: code_view(if_block@),
                else_block: code_view(else_block@),
            },
            Instruction::Loop { block } => Op::Loop { block: code_view(block@) },
            Instruction::Break => Op::Break,
            Instruction::Continue => Op::Continue,
        }
    }
}

/// The operations of a sequence of instructions, one for one.
pub open spec fn code_view(code: Seq<Instruction>) -> Seq<Op>
    decreases code,
{
    Seq::new(
        code.len(),
        |i: int|
            if 0 <= i < code.len() {
                code[i]@
            } else {
                Op::Nop
            },
    )
}

impl Clone for Instruction {
    fn clone(&self) -> (r: Self)
        ensures
            r@ == self@,
        decreases self,
    {
        match self {
            Instruction::Nop => Instruction::Nop,
            Instruction::Version { major, minor, patch } => Instruction::Version {
                major: *major,
                minor: *minor,
                patch: *patch,
            },
            Instruction::Dump => Instruction::Dump,
            Instruction::Hi => Instruction::Hi,
            Instruction::Func { name, code } => Instruction::Func {
                name: name.clone(),
                code: clone_code(code),
            },
            Instruction::Call { module, function } => Instruction::Call {
                module: module.clone(),
                function: function.clone(),
            },
            Instruction::PushConstString { value } => Instruction::PushConstString {
                value: value.clone(),
            },
            Instruction::PushConstInteger { value } => Instruction::PushConstInteger {
                value: *value,
            },
            Instruction::PushConstFloat { value } => Instruction::PushConstFloat { value: *value },
            Instruction::PushConstBoolean { value } => Instruction::PushConstBoolean {
                value: *value,
            },
            Instruction::GetLocal { index } => Instruction::GetLocal { index: *index },
            Instruction::SetLocal { index } => Instruction::SetLocal { index: *index },
            Instruction::ReserveLocal { size } => Instruction::ReserveLocal { size: *size },
            Instruction::PushArg => Instruction::PushArg,
            Instruction::PopArg => Instruction::PopArg,
            Instruction::Pop => Instruction::Pop,
            Instruction::Dup => Instruction::Dup,
            Instruction::Add => Instruction::Add,
            Instruction::Sub => Instruction::Sub,
            Instruction::Mul => Instruction::Mul,
            Instruction::Div => Instruction::Div,
            Instruction::Eq => Instruction::Eq,
            Instruction::Ne => Instruction::Ne,
            Instruction::Lt => Instruction::Lt,
            Instruction::Le => Instruction::Le,
            Instruction::Gt => Instruction::Gt,
            Instruction::Ge => Instruction::Ge,
            Instruction::Return => Instruction::Return,
            Instruction::If { if_block, else_block } => Instruction::If {
                if_block: clone_code(if_block),
                else_block: clone_code(else_block),
            },
            Instruction::Loop { block } => Instruction::Loop { block: clone_code(block) },
            Instruction::Break => Instruction::Break,
            Instruction::Continue => Instruction::Continue,
        }
    }
}

/// A copy of a sequence of instructions.
pub fn clone_code(code: &Code) -> (r: Code)
    ensures
        code_view(r@) == code_view(code@),
    decreases code,
{
    let mut out: Vec<Instruction> = Vec::new();
    let mut i: usize = 0;
    while i < code.len()
        invariant
            i <= code.len(),
            out.len() == i,
            forall|j: int| 0 <= j < i ==> out[j]@ == code[j]@,
        decreases code.len() - i,
    {
        out.push(code[i].clone());
        i += 1;
    }
    assert(code_view(out@) =~= code_view(code@));
    out
}

} // verus!
