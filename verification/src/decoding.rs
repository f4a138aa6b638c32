//! Bytes as instructions.
//!
//! Decoding goes through the bytes front to back, one instruction at a time.
//! The body of a block is cut out by the length in front of it and decoded
//! on its own before the scan goes on behind it.

use crate::byte_reader::ByteReader;
use crate::bytecode::ByteCode;
use crate::instruction::{code_view, Code, Instruction, Op};
use crate::wire::{
    parse_bool, parse_bytes, parse_i32, parse_string, parse_u32, parse_u8,
};
use vstd::prelude::*;
use vstd::string::StringExecFns;

verus! {

/// What the decoder looked for when the bytes ended, named a length beyond
/// their end, or held text that is no UTF-8.
#[derive(Clone, Copy, Debug, PartialEq, Eq, Structural)]
pub enum Field {
    MajorVersion,
    MinorVersion,
    PatchVersion,
    FunctionCodeLength,
    FunctionName,
    FunctionCode,
    ModuleName,
    StringValue,
    IntegerValue,
    FloatValue,
    BooleanValue,
    LocalIndex,
    LocalSize,
    BlockCodeLength,
    BlockCode,
}

/// Why bytes are no instructions.
#[derive(Clone, Copy, Debug, PartialEq, Eq, Structural)]
pub enum DecodeError {
    /// A byte in the place of an opcode that stands for no instruction.
    UnknownOpcode { byte: u8 },
    /// The opcode `Else` anywhere but right behind the first block of an
    /// `If`.
    StrayElse,
    /// A field of an instruction is not there.
    Expected { field: Field },
}

impl Field {
    /// What the field is called in a message.
    pub open spec fn name(self) -> Seq<char> {
        match self {
            Field::MajorVersion => "major version"@,
            Field::MinorVersion => "minor version"@,
            Field::PatchVersion => "patch version"@,
            Field::FunctionCodeLength => "function code length"@,
            Field::FunctionName => "function name"@,
            Field::FunctionCode => "function code"@,
            Field::ModuleName => "module name"@,
            Field::StringValue => "string value"@,
            Field::IntegerValue => "integer value"@,
            Field::FloatValue => "float value"@,
            Field::BooleanValue => "boolean value"@,
            Field::LocalIndex => "local index"@,
            Field::LocalSize => "local size"@,
            Field::BlockCodeLength => "block code length"@,
            Field::BlockCode => "block code"@,
        }
    }

    /// What the field is called in a message.
    pub fn describe(&self) -> (r: &'static str)
        ensures
            r@ == self.name(),
    {
        match self {
            Field::MajorVersion => "major version",
            Field::MinorVersion => "minor version",
            Field::PatchVersion => "patch version",
            Field::FunctionCodeLength => "function code length",
            Field::FunctionName => "function name",
            Field::FunctionCode => "function code",
            Field::ModuleName => "module name",
            Field::StringValue => "string value",
            Field::IntegerValue => "integer value",
            Field::FloatValue => "float value",
            Field::BooleanValue => "boolean value",
            Field::LocalIndex => "local index",
            Field::LocalSize => "local size",
            Field::BlockCodeLength => "block code length",
            Field::BlockCode => "block code",
        }
    }
}

/// The character of a hexadecimal digit, in upper case.
pub open spec fn hex_char(d: int) -> char {
    if d == 0 {
        '0'
    } else if d == 1 {
        '1'
    } else if d == 2 {
        '2'
    } else if d == 3 {
        '3'
    } else if d == 4 {
        '4'
    } else if d == 5 {
        '5'
    } else if d == 6 {
        '6'
    } else if d == 7 {
        '7'
    } else if d == 8 {
        '8'
    } else if d == 9 {
        '9'
    } else if d == 10 {
        'A'
    } else if d == 11 {
        'B'
    } else if d == 12 {
        'C'
    } else if d == 13 {
        'D'
    } else if d == 14 {
        'E'
    } else {
        'F'
    }
}

/// A hexadecimal digit as text.
fn hex_digit(d: u8) -> (r: &'static str)
    requires
        d < 16,
    ensures
        r@ == seq![hex_char(d as int)],
{
    proof {
        reveal_strlit("0");
        reveal_strlit("1");
        reveal_strlit("2");
        reveal_strlit("3");
        reveal_strlit("4");
        reveal_strlit("5");
        reveal_strlit("6");
        reveal_strlit("7");
        reveal_strlit("8");
        reveal_strlit("9");
        reveal_strlit("A");
        reveal_strlit("B");
        reveal_strlit("C");
        reveal_strlit("D");
        reveal_strlit("E");
        reveal_strlit("F");
    }
    let r = if d == 0 {
        "0"
    } else if d == 1 {
        "1"
    } else if d == 2 {
        "2"
    } else if d == 3 {
        "3"
    } else if d == 4 {
        "4"
    } else if d == 5 {
        "5"
    } else if d == 6 {
        "6"
    } else if d == 7 {
        "7"
    } else if d == 8 {
        "8"
    } else if d == 9 {
        "9"
    } else if d == 10 {
        "A"
    } else if d == 11 {
        "B"
    } else if d == 12 {
        "C"
    } else if d == 13 {
        "D"
    } else if d == 14 {
        "E"
    } else {
        "F"
    };
    assert(r@ =~= seq![hex_char(d as int)]);
    r
}

impl DecodeError {
    /// The fault in words.
    pub open spec fn text(self) -> Seq<char> {
        match self {
            DecodeError::UnknownOpcode { byte } => "Invalid instruction: 0x"@ + seq![
                hex_char(byte as int / 16),
                hex_char(byte as int % 16),
            ],
            DecodeError::StrayElse => "Invalid instruction ELSE without IF"@,
            DecodeError::Expected { field } => "Expected "@ + field.name(),
        }
    }

    /// The fault in words.
    pub fn message(&self) -> (r: String)
        ensures
            r@ == self.text(),
    {
        match self {
            DecodeError::UnknownOpcode { byte } => {
                let mut text = String::from_str("Invalid instruction: 0x");
                text.append(hex_digit(*byte / 16));
                text.append(hex_digit(*byte % 16));
                assert(text@ =~= self.text());
                text
            },
            DecodeError::StrayElse => String::from_str("Invalid instruction ELSE without IF"),
            DecodeError::Expected { field } => {
                let mut text = String::from_str("Expected ");
                text.append(field.describe());
                text
            },
        }
    }
}

/// One instruction, with the bodies of its blocks still as bytes. Of an `If`
/// only the first block: the second is looked for once the first is decoded.
pub enum Frame {
    /// An instruction without blocks.
    Plain(Op),
    Func { name: Seq<char>, body: Seq<u8> },
    If { first: Seq<u8> },
    Loop { body: Seq<u8> },
}

/// A field that has to be there.
pub open spec fn need<T>(parsed: Option<(T, Seq<u8>)>, field: Field) -> Result<
    (T, Seq<u8>),
    DecodeError,
> {
    match parsed {
        Some(found) => Ok(found),
        None => Err(DecodeError::Expected { field }),
    }
}

/// A block: its length, then as many bytes.
pub open spec fn parse_body(s: Seq<u8>) -> Result<(Seq<u8>, Seq<u8>), DecodeError> {
    match need(parse_u32(s), Field::BlockCodeLength) {
        Err(e) => Err(e),
        Ok((n, rest)) => need(parse_bytes(rest, n as nat), Field::BlockCode),
    }
}

/// What is behind the first block of an `If`: the second block, if the
/// opcode `Else` comes next, and an empty one if not.
pub open spec fn parse_else(s: Seq<u8>) -> Result<(Seq<u8>, Seq<u8>), DecodeError> {
    if s.len() > 0 && s[0] == ByteCode::Else.code() {
        parse_body(s.skip(1))
    } else {
        Ok((Seq::empty(), s))
    }
}

/// The instruction that starts with the opcode byte `byte` and goes on in
/// `s`, and what of `s` is behind it.
pub open spec fn parse_frame(byte: u8, s: Seq<u8>) -> Result<(Frame, Seq<u8>), DecodeError> {
    match ByteCode::of(byte) {
        None => Err(DecodeError::UnknownOpcode { byte }),
        Some(opcode) => match opcode {
            ByteCode::Nop => Ok((Frame::Plain(Op::Nop), s)),
            ByteCode::Dump => Ok((Frame::Plain(Op::Dump), s)),
            ByteCode::Hi => Ok((Frame::Plain(Op::Hi), s)),
            ByteCode::Func => match need(parse_u32(s), Field::FunctionCodeLength) {
                Err(e) => Err(e),
                Ok((n, s1)) => match need(parse_string(s1), Field::FunctionName) {
                    Err(e) => Err(e),
                    Ok((name, s2)) => match need(parse_bytes(s2, n as nat), Field::FunctionCode) {
                        Err(e) => Err(e),
                        Ok((body, s3)) => Ok((Frame::Func { name, body }, s3)),
                    },
                },
            },
            ByteCode::Call => match need(parse_string(s), Field::ModuleName) {
                Err(e) => Err(e),
                Ok((module, s1)) => match need(parse_string(s1), Field::FunctionName) {
                    Err(e) => Err(e),
                    Ok((function, s2)) => Ok((Frame::Plain(Op::Call { module, function }), s2)),
                },
            },
            ByteCode::PushConstString => match need(parse_string(s), Field::StringValue) {
                Err(e) => Err(e),
                Ok((value, s1)) => Ok((Frame::Plain(Op::PushConstString { value }), s1)),
            },
            ByteCode::PushConstInt => match need(parse_i32(s), Field::IntegerValue) {
                Err(e) => Err(e),
                Ok((value, s1)) => Ok((Frame::Plain(Op::PushConstInteger { value }), s1)),
            },
            ByteCode::PushConstFloat => match need(parse_u32(s), Field::FloatValue) {
                Err(e) => Err(e),
                Ok((value, s1)) => Ok((Frame::Plain(Op::PushConstFloat { value }), s1)),
            },
            ByteCode::PushArg => Ok((Frame::Plain(Op::PushArg), s)),
            ByteCode::PopArg => Ok((Frame::Plain(Op::PopArg), s)),
            ByteCode::Pop => Ok((Frame::Plain(Op::Pop), s)),
            ByteCode::Dup => Ok((Frame::Plain(Op::Dup), s)),
            ByteCode::Version => match need(parse_u8(s), Field::MajorVersion) {
                Err(e) => Err(e),
                Ok((major, s1)) => match need(parse_u8(s1), Field::MinorVersion) {
                    Err(e) => Err(e),
                    Ok((minor, s2)) => match need(parse_u8(s2), Field::PatchVersion) {
                        Err(e) => Err(e),
                        Ok((patch, s3)) => Ok(
                            (Frame::Plain(Op::Version { major, minor, patch }), s3),
                        ),
                    },
                },
            },
            ByteCode::PushConstBoolean => match need(parse_bool(s), Field::BooleanValue) {
                Err(e) => Err(e),
                Ok((value, s1)) => Ok((Frame::Plain(Op::PushConstBoolean { value }), s1)),
            },
            ByteCode::GetLocal => match need(parse_u32(s), Field::LocalIndex) {
                Err(e) => Err(e),
                Ok((index, s1)) => Ok((Frame::Plain(Op::GetLocal { index }), s1)),
            },
            ByteCode::SetLocal => match need(parse_u32(s), Field::LocalIndex) {
                Err(e) => Err(e),
                Ok((index, s1)) => Ok((Frame::Plain(Op::SetLocal { index }), s1)),
            },
            ByteCode::ReserveLocal => match need(parse_u32(s), Field::LocalSize) {
                Err(e) => Err(e),
                Ok((size, s1)) => Ok((Frame::Plain(Op::ReserveLocal { size }), s1)),
            },
            ByteCode::Add => Ok((Frame::Plain(Op::Add), s)),
            ByteCode::Sub => Ok((Frame::Plain(Op::Sub), s)),
            ByteCode::Mul => Ok((Frame::Plain(Op::Mul), s)),
            ByteCode::Div => Ok((Frame::Plain(Op::Div), s)),
            ByteCode::Eq => Ok((Frame::Plain(Op::Eq), s)),
            ByteCode::Ne => Ok((Frame::Plain(Op::Ne), s)),
            ByteCode::Lt => Ok((Frame::Plain(Op::Lt), s)),
            ByteCode::Le => Ok((Frame::Plain(Op::Le), s)),
            ByteCode::Gt => Ok((Frame::Plain(Op::Gt), s)),
            ByteCode::Ge => Ok((Frame::Plain(Op::Ge), s)),
            ByteCode::Return => Ok((Frame::Plain(Op::Return), s)),
            ByteCode::If => match parse_body(s) {
                Err(e) => Err(e),
                Ok((first, s1)) => Ok((Frame::If { first }, s1)),
            },
            ByteCode::Else => Err(DecodeError::StrayElse),
            ByteCode::Loop => match parse_body(s) {
                Err(e) => Err(e),
                Ok((body, s1)) => Ok((Frame::Loop { body }, s1)),
            },
            ByteCode::Break => Ok((Frame::Plain(Op::Break), s)),
            ByteCode::Continue => Ok((Frame::Plain(Op::Continue), s)),
        },
    }
}

/// A body and what is behind it are both within what they were cut from.
pub proof fn lemma_parse_body_shrinks(s: Seq<u8>)
    ensures
        parse_body(s) matches Ok((body, rest)) ==> body.len() <= s.len() && rest.len() <= s.len(),
        parse_else(s) matches Ok((body, rest)) ==> body.len() <= s.len() && rest.len() <= s.len(),
{
}

/// The bodies of a frame and what is behind the frame are within what the
/// frame was cut from.
pub proof fn lemma_parse_frame_shrinks(byte: u8, s: Seq<u8>)
    ensures
        parse_frame(byte, s) matches Ok((frame, rest)) ==> rest.len() <= s.len() && match frame {
            Frame::Plain(_) => true,
            Frame::Func { body, .. } => body.len() <= s.len(),
            Frame::If { first } => first.len() <= s.len(),
            Frame::Loop { body } => body.len() <= s.len(),
        },
{
    lemma_parse_body_shrinks(s);
}

/// `op` in front of what follows it, if anything does.
pub open spec fn prepend(op: Op, following: Result<Seq<Op>, DecodeError>) -> Result<
    Seq<Op>,
    DecodeError,
> {
    match following {
        Ok(ops) => Ok(seq![op] + ops),
        Err(e) => Err(e),
    }
}

/// The instructions that `s` holds, or why it holds none. The first fault
/// met on the way from front to back is the one that is reported.
pub open spec fn decode_ops(s: Seq<u8>) -> Result<Seq<Op>, DecodeError>
    decreases s.len(),
{
    if s.len() == 0 {
        Ok(Seq::empty())
    } else {
        proof {
            lemma_parse_frame_shrinks(s[0], s.skip(1));
        }
        match parse_frame(s[0], s.skip(1)) {
            Err(e) => Err(e),
            Ok((Frame::Plain(op), rest)) => prepend(op, decode_ops(rest)),
            Ok((Frame::Func { name, body }, rest)) => match decode_ops(body) {
                Err(e) => Err(e),
                Ok(code) => prepend(Op::Func { name, code }, decode_ops(rest)),
            },
            Ok((Frame::Loop { body }, rest)) => match decode_ops(body) {
                Err(e) => Err(e),
                Ok(block) => prepend(Op::Loop { block }, decode_ops(rest)),
            },
            Ok((Frame::If { first }, rest)) => match decode_ops(first) {
                Err(e) => Err(e),
                Ok(if_block) => {
                    proof {
                        lemma_parse_body_shrinks(rest);
                    }
                    match parse_else(rest) {
                        Err(e) => Err(e),
                        Ok((second, behind)) => match decode_ops(second) {
                            Err(e) => Err(e),
                            Ok(else_block) => prepend(
                                Op::If { if_block, else_block },
                                decode_ops(behind),
                            ),
                        },
                    }
                },
            },
        }
    }
}

/// `front`, then what follows, if anything does.
pub open spec fn join(front: Seq<Op>, following: Result<Seq<Op>, DecodeError>) -> Result<
    Seq<Op>,
    DecodeError,
> {
    match following {
        Ok(ops) => Ok(front + ops),
        Err(e) => Err(e),
    }
}

/// Putting `op` behind `front` or in front of what follows is the same.
pub proof fn lemma_join_prepend(front: Seq<Op>, op: Op, following: Result<Seq<Op>, DecodeError>)
    ensures
        join(front, prepend(op, following)) == join(front.push(op), following),
{
    if let Ok(ops) = following {
        assert(front + (seq![op] + ops) =~= front.push(op) + ops);
    }
}

/// One instruction as it was read, with the bodies of its blocks still as
/// bytes.
enum Framed {
    Plain(Instruction),
    Func { name: String, body: Vec<u8> },
    If { first: Vec<u8> },
    Loop { body: Vec<u8> },
}

impl View for Framed {
    type V = Frame;

    closed spec fn view(&self) -> Frame {
        match self {
            Framed::Plain(instruction) => Frame::Plain(instruction@),
            Framed::Func { name, body } => Frame::Func { name: name@, body: body@ },
            Framed::If { first } => Frame::If { first: first@ },
            Framed::Loop { body } => Frame::Loop { body: body@ },
        }
    }
}

/// Reads a block: its length, then as many bytes.
fn read_body(reader: &mut ByteReader) -> (r: Result<Vec<u8>, DecodeError>)
    ensures
        final(reader).buffer() == old(reader).buffer(),
        match parse_body(old(reader).remaining()) {
            Ok((body, rest)) => r is Ok && r.unwrap()@ == body && final(reader).remaining()
                == rest,
            Err(e) => r == Err::<Vec<u8>, DecodeError>(e),
        },
{
    let n = match reader.read_u32() {
        Some(n) => n,
        None => {
            return Err(DecodeError::Expected { field: Field::BlockCodeLength });
        },
    };
    match reader.read_bytes(n as usize) {
        Some(body) => Ok(body),
        None => Err(DecodeError::Expected { field: Field::BlockCode }),
    }
}

/// Reads the second block of an `If`, if the opcode `Else` comes next.
fn read_else(reader: &mut ByteReader) -> (r: Result<Vec<u8>, DecodeError>)
    ensures
        final(reader).buffer() == old(reader).buffer(),
        match parse_else(old(reader).remaining()) {
            Ok((body, rest)) => r is Ok && r.unwrap()@ == body && final(reader).remaining()
                == rest,
            Err(e) => r == Err::<Vec<u8>, DecodeError>(e),
        },
{
    match reader.peek_byte() {
        Some(byte) => {
            if byte == ByteCode::Else.to_u8() {
                reader.read_byte();
                read_body(reader)
            } else {
                Ok(Vec::new())
            }
        },
        None => Ok(Vec::new()),
    }
}

/// The fault that `field` is not there.
fn missing(field: Field) -> (r: Result<Framed, DecodeError>)
    ensures
        r == Err::<Framed, DecodeError>(DecodeError::Expected { field }),
{
    Err(DecodeError::Expected { field })
}

/// Reads what is behind the opcode byte `byte`.
#[verifier::rlimit(50)]
fn read_frame(reader: &mut ByteReader, byte: u8) -> (r: Result<Framed, DecodeError>)
    ensures
        final(reader).buffer() == old(reader).buffer(),
        match parse_frame(byte, old(reader).remaining()) {
            Ok((frame, rest)) => r is Ok && r.unwrap()@ == frame && final(reader).remaining()
                == rest,
            Err(e) => r == Err::<Framed, DecodeError>(e),
        },
{
    let opcode = match ByteCode::from_u8(byte) {
        Some(opcode) => opcode,
        None => {
            return Err(DecodeError::UnknownOpcode { byte });
        },
    };
    match opcode {
        ByteCode::Nop => Ok(Framed::Plain(Instruction::Nop)),
        ByteCode::Dump => Ok(Framed::Plain(Instruction::Dump)),
        ByteCode::Hi => Ok(Framed::Plain(Instruction::Hi)),
        ByteCode::Func => {
            let n = match reader.read_u32() {
                Some(n) => n,
                None => {
                    return missing(Field::FunctionCodeLength);
                },
            };
            let name = match reader.read_string() {
                Some(name) => name,
                None => {
                    return missing(Field::FunctionName);
                },
            };
            match reader.read_bytes(n as usize) {
                Some(body) => Ok(Framed::Func { name, body }),
                None => missing(Field::FunctionCode),
            }
        },
        ByteCode::Call => {
            let module = match reader.read_string() {
                Some(module) => module,
                None => {
                    return missing(Field::ModuleName);
                },
            };
            match reader.read_string() {
                Some(function) => Ok(Framed::Plain(Instruction::Call { module, function })),
                None => missing(Field::FunctionName),
            }
        },
        ByteCode::PushConstString => match reader.read_string() {
            Some(value) => Ok(Framed::Plain(Instruction::PushConstString { value })),
            None => missing(Field::StringValue),
        },
        ByteCode::PushConstInt => match reader.read_i32() {
            Some(value) => Ok(Framed::Plain(Instruction::PushConstInteger { value })),
            None => missing(Field::IntegerValue),
        },
        ByteCode::PushConstFloat => match reader.read_f32() {
            Some(value) => Ok(Framed::Plain(Instruction::PushConstFloat { value })),
            None => missing(Field::FloatValue),
        },
        ByteCode::PushArg => Ok(Framed::Plain(Instruction::PushArg)),
        ByteCode::PopArg => Ok(Framed::Plain(Instruction::PopArg)),
        ByteCode::Pop => Ok(Framed::Plain(Instruction::Pop)),
        ByteCode::Dup => Ok(Framed::Plain(Instruction::Dup)),
        ByteCode::Version => {
            let major = match reader.read_byte() {
                Some(major) => major,
                None => {
                    return missing(Field::MajorVersion);
                },
            };
            let minor = match reader.read_byte() {
                Some(minor) => minor,
                None => {
                    return missing(Field::MinorVersion);
                },
            };
            match reader.read_byte() {
                Some(patch) => Ok(Framed::Plain(Instruction::Version { major, minor, patch })),
                None => missing(Field::PatchVersion),
            }
        },
        ByteCode::PushConstBoolean => match reader.read_bool() {
            Some(value) => Ok(Framed::Plain(Instruction::PushConstBoolean { value })),
            None => missing(Field::BooleanValue),
        },
        ByteCode::GetLocal => match reader.read_u32() {
            Some(index) => Ok(Framed::Plain(Instruction::GetLocal { index })),
            None => missing(Field::LocalIndex),
        },
        ByteCode::SetLocal => match reader.read_u32() {
            Some(index) => Ok(Framed::Plain(Instruction::SetLocal { index })),
            None => missing(Field::LocalIndex),
        },
        ByteCode::ReserveLocal => match reader.read_u32() {
            Some(size) => Ok(Framed::Plain(Instruction::ReserveLocal { size })),
            None => missing(Field::LocalSize),
        },
        ByteCode::Add => Ok(Framed::Plain(Instruction::Add)),
        ByteCode::Sub => Ok(Framed::Plain(Instruction::Sub)),
        ByteCode::Mul => Ok(Framed::Plain(Instruction::Mul)),
        ByteCode::Div => Ok(Framed::Plain(Instruction::Div)),
        ByteCode::Eq => Ok(Framed::Plain(Instruction::Eq)),
        ByteCode::Ne => Ok(Framed::Plain(Instruction::Ne)),
        ByteCode::Lt => Ok(Framed::Plain(Instruction::Lt)),
        ByteCode::Le => Ok(Framed::Plain(Instruction::Le)),
        ByteCode::Gt => Ok(Framed::Plain(Instruction::Gt)),
        ByteCode::Ge => Ok(Framed::Plain(Instruction::Ge)),
        ByteCode::Return => Ok(Framed::Plain(Instruction::Return)),
        ByteCode::If => match read_body(reader) {
            Ok(first) => Ok(Framed::If { first }),
            Err(e) => Err(e),
        },
        ByteCode::Else => Err(DecodeError::StrayElse),
        ByteCode::Loop => match read_body(reader) {
            Ok(body) => Ok(Framed::Loop { body }),
            Err(e) => Err(e),
        },
        ByteCode::Break => Ok(Framed::Plain(Instruction::Break)),
        ByteCode::Continue => Ok(Framed::Plain(Instruction::Continue)),
    }
}

/// Whether `r` is what decoding `s` gives.
pub open spec fn decoded(s: Seq<u8>, r: Result<Code, DecodeError>) -> bool {
    match r {
        Ok(code) => decode_ops(s) == Ok::<Seq<Op>, DecodeError>(code_view(code@)),
        Err(e) => decode_ops(s) == Err::<Seq<Op>, DecodeError>(e),
    }
}

impl Instruction {
    /// The instructions that `bytecode` holds, or the first fault in it.
    #[verifier::rlimit(50)]
    pub fn from_bytecode(bytecode: &Vec<u8>) -> (r: Result<Code, DecodeError>)
        ensures
            decoded(bytecode@, r),
        decreases bytecode@.len(),
    {
        let mut code: Vec<Instruction> = Vec::new();
        let mut reader = ByteReader::new(bytecode);
        let ghost whole = decode_ops(bytecode@);
        assert(code_view(code@) =~= Seq::<Op>::empty());
        proof {
            if let Ok(ops) = whole {
                assert(Seq::<Op>::empty() + ops =~= ops);
            }
        }
        loop
            invariant
                whole == decode_ops(bytecode@),
                reader.remaining().len() <= bytecode@.len(),
                whole == join(code_view(code@), decode_ops(reader.remaining())),
            decreases reader.remaining().len(),
        {
            let ghost front = code_view(code@);
            let ghost at = reader.remaining();
            let byte = match reader.read_byte() {
                Some(byte) => byte,
                None => {
                    assert(front + Seq::<Op>::empty() =~= front);
                    return Ok(code);
                },
            };
            proof {
                lemma_parse_frame_shrinks(byte, at.skip(1));
            }
            let frame = match read_frame(&mut reader, byte) {
                Ok(frame) => frame,
                Err(e) => {
                    return Err(e);
                },
            };
            let ghost rest = reader.remaining();
            let instruction = match frame {
                Framed::Plain(instruction) => instruction,
                Framed::Func { name, body } => {
                    let inner = match Instruction::from_bytecode(&body) {
                        Ok(inner) => inner,
                        Err(e) => {
                            return Err(e);
                        },
                    };
                    Instruction::Func { name, code: inner }
                },
                Framed::Loop { body } => {
                    let inner = match Instruction::from_bytecode(&body) {
                        Ok(inner) => inner,
                        Err(e) => {
                            return Err(e);
                        },
                    };
                    Instruction::Loop { block: inner }
                },
                Framed::If { first } => {
                    let if_block = match Instruction::from_bytecode(&first) {
                        Ok(if_block) => if_block,
                        Err(e) => {
                            return Err(e);
                        },
                    };
                    proof {
                        lemma_parse_body_shrinks(rest);
                    }
                    let second = match read_else(&mut reader) {
                        Ok(second) => second,
                        Err(e) => {
                            return Err(e);
                        },
                    };
                    let else_block = match Instruction::from_bytecode(&second) {
                        Ok(else_block) => else_block,
                        Err(e) => {
                            return Err(e);
                        },
                    };
                    Instruction::If { if_block, else_block }
                },
            };
            proof {
                assert(decode_ops(at) == prepend(instruction@, decode_ops(reader.remaining())));
                lemma_join_prepend(front, instruction@, decode_ops(reader.remaining()));
                assert(code_view(code@.push(instruction)) =~= front.push(instruction@));
            }
            code.push(instruction);
        }
    }
}

} // verus!
