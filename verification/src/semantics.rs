//! What running code means, as a function on plain data.
//!
//! The machine asks its host for what it cannot do itself: the result of a
//! native function, the result of float arithmetic, and the output of the
//! debugging instructions. [`Machine::asked`] holds what was asked, in order.
//! What the host gave back is a sequence of answers, given beforehand, of
//! which the request with the number `i` takes the answer with the number
//! `i`.
//!
//! Every pass of a loop and every entry into the code of a function spends
//! one unit of `fuel` for what runs inside it, so that every run ends.

use crate::function::{FunctionModel, Promise};
use crate::instruction::Op;
use crate::value::ValueModel;
use vstd::prelude::*;
use vstd::string::StringExecFns;

verus! {

/// Why a run was abandoned.
#[derive(Clone, Copy, Debug, PartialEq, Eq, Structural)]
pub enum ExecError {
    /// An instruction needed more operands than the stack holds.
    StackUnderflow,
    /// An operator met values it is not defined on, or `If` no boolean.
    TypeMismatch,
    /// An integer division by zero.
    DivisionByZero,
    /// An integer result outside the range of `i32`.
    Overflow,
    /// A call named a module that is not loaded.
    UnknownModule,
    /// A call named a function that its module does not have.
    UnknownFunction,
    /// A local was used outside any call frame.
    NoFrame,
    /// A local index at or beyond the size of the frame.
    LocalOutOfRange,
    /// `PopArg` with no argument staged.
    NoStagedArgument,
    /// A function definition inside code that is run.
    NestedFunction,
    /// Float arithmetic with no host to do it.
    NoHost,
    /// The loops and calls went deeper than the limit allows.
    LimitExceeded,
}

impl ExecError {
    /// The error in words.
    pub open spec fn text(self) -> Seq<char> {
        match self {
            ExecError::StackUnderflow => "No elements in the stack"@,
            ExecError::TypeMismatch => "Invalid types"@,
            ExecError::DivisionByZero => "Division by zero"@,
            ExecError::Overflow => "Integer overflow"@,
            ExecError::UnknownModule => "Module not found"@,
            ExecError::UnknownFunction => "Function not found"@,
            ExecError::NoFrame => "Local variable not found"@,
            ExecError::LocalOutOfRange => "Local variable not found"@,
            ExecError::NoStagedArgument => "No staged argument"@,
            ExecError::NestedFunction => "Function call not allowed here"@,
            ExecError::NoHost => "No host for float arithmetic"@,
            ExecError::LimitExceeded => "Limit exceeded"@,
        }
    }

    /// The error in words.
    pub fn message(&self) -> (r: String)
        ensures
            r@ == self.text(),
    {
        match self {
            ExecError::StackUnderflow => String::from_str("No elements in the stack"),
            ExecError::TypeMismatch => String::from_str("Invalid types"),
            ExecError::DivisionByZero => String::from_str("Division by zero"),
            ExecError::Overflow => String::from_str("Integer overflow"),
            ExecError::UnknownModule => String::from_str("Module not found"),
            ExecError::UnknownFunction => String::from_str("Function not found"),
            ExecError::NoFrame => String::from_str("Local variable not found"),
            ExecError::LocalOutOfRange => String::from_str("Local variable not found"),
            ExecError::NoStagedArgument => String::from_str("No staged argument"),
            ExecError::NestedFunction => String::from_str("Function call not allowed here"),
            ExecError::NoHost => String::from_str("No host for float arithmetic"),
            ExecError::LimitExceeded => String::from_str("Limit exceeded"),
        }
    }
}

/// How a block ended.
pub enum Outcome {
    Normal,
    Returned(ValueModel),
    Broke,
    Continued,
}

/// Something that the machine asks of its host.
pub enum Request {
    /// The value of a native function on an argument list. The answer is
    /// one that the function promises for the list.
    Native { module: Seq<char>, function: Seq<char>, promise: Promise, args: Seq<ValueModel> },
    /// The result of float arithmetic on two bit patterns. The answer is a
    /// float.
    Float { op: FloatOp, lhs: u32, rhs: u32 },
    /// To say hello. The answer is `Null` and counts for nothing.
    Hi,
    /// To show an operand stack and the frames. The answer is `Null` and
    /// counts for nothing.
    Dump { stack: Seq<ValueModel>, frames: Seq<Seq<ValueModel>> },
}

/// Whether `answer` is one that the host may give to `request`.
pub open spec fn promised(request: Request, answer: ValueModel) -> bool {
    match request {
        Request::Native { promise, args, .. } => promise(args, answer),
        Request::Float { .. } => answer is Float,
        Request::Hi => answer == ValueModel::Null,
        Request::Dump { .. } => answer == ValueModel::Null,
    }
}

/// The state of a machine.
#[verifier::ext_equal]
pub struct Machine {
    /// The operand stack, top last.
    pub stack: Seq<ValueModel>,
    /// The locals of the calls in progress, innermost last.
    pub frames: Seq<Seq<ValueModel>>,
    /// The arguments staged for the next call, oldest first.
    pub staged: Seq<ValueModel>,
    /// What was asked of the host so far, oldest first.
    pub asked: Seq<Request>,
}

/// The loaded modules, by name, each a mapping from names to functions.
pub type Program = Map<Seq<char>, Map<Seq<char>, FunctionModel>>;

/// What the machine runs in.
pub struct World {
    /// The loaded modules.
    pub program: Program,
    /// Whether a host is there, for float arithmetic and for the output of
    /// the debugging instructions.
    pub host: bool,
}

/// The end of a block: how it ended and the state it left, or the error.
pub type Step = Result<(Outcome, Machine), ExecError>;

/// The end of a call: its value and the state it left, or the error.
pub type CallStep = Result<(ValueModel, Machine), ExecError>;

/// The operators with two operands.
#[derive(Clone, Copy, Debug, PartialEq, Eq, Structural)]
pub enum BinaryOp {
    Add,
    Sub,
    Mul,
    Div,
    Eq,
    Ne,
    Lt,
    Le,
    Gt,
    Ge,
}

/// The float arithmetic that the host does.
#[derive(Clone, Copy, Debug, PartialEq, Eq, Structural)]
pub enum FloatOp {
    Add,
    Sub,
    Mul,
    Div,
}

/// What an operator makes of two operands without the host.
pub enum Evaluated {
    /// The result.
    Value(ValueModel),
    /// Float arithmetic: the host has the result.
    Float(FloatOp, u32, u32),
    /// No result.
    Fail(ExecError),
}

/// Integer division that rounds towards zero.
pub open spec fn div_towards_zero(a: int, b: int) -> int {
    if a >= 0 {
        if b > 0 {
            a / b
        } else {
            -(a / (-b))
        }
    } else {
        if b > 0 {
            -((-a) / b)
        } else {
            (-a) / (-b)
        }
    }
}

/// Whether a binary32 bit pattern is a NaN.
pub open spec fn float_is_nan(bits: u32) -> bool {
    bits % 0x8000_0000 > 0x7f80_0000
}

/// A number that orders binary32 bit patterns as the floats they stand for,
/// NaN aside. Both zeros have the key 0.
pub open spec fn float_key(bits: u32) -> int {
    if bits < 0x8000_0000 {
        bits as int
    } else {
        0x8000_0000 - bits
    }
}

/// `lhs == rhs` on floats: a NaN equals nothing.
pub open spec fn float_eq(lhs: u32, rhs: u32) -> bool {
    !float_is_nan(lhs) && !float_is_nan(rhs) && float_key(lhs) == float_key(rhs)
}

/// `lhs < rhs` on floats: a NaN is below nothing and nothing is below it.
pub open spec fn float_lt(lhs: u32, rhs: u32) -> bool {
    !float_is_nan(lhs) && !float_is_nan(rhs) && float_key(lhs) < float_key(rhs)
}

/// `lhs <= rhs` on floats.
pub open spec fn float_le(lhs: u32, rhs: u32) -> bool {
    !float_is_nan(lhs) && !float_is_nan(rhs) && float_key(lhs) <= float_key(rhs)
}

/// An integer result, if it is in range.
pub open spec fn integer_result(v: int) -> Evaluated {
    if i32::MIN <= v <= i32::MAX {
        Evaluated::Value(ValueModel::Integer(v as i32))
    } else {
        Evaluated::Fail(ExecError::Overflow)
    }
}

/// `lhs op rhs` on integers.
pub open spec fn eval_integers(op: BinaryOp, lhs: i32, rhs: i32) -> Evaluated {
    match op {
        BinaryOp::Add => integer_result(lhs + rhs),
        BinaryOp::Sub => integer_result(lhs - rhs),
        BinaryOp::Mul => integer_result(lhs * rhs),
        BinaryOp::Div => if rhs == 0 {
            Evaluated::Fail(ExecError::DivisionByZero)
        } else {
            integer_result(div_towards_zero(lhs as int, rhs as int))
        },
        BinaryOp::Eq => Evaluated::Value(ValueModel::Boolean(lhs == rhs)),
        BinaryOp::Ne => Evaluated::Value(ValueModel::Boolean(lhs != rhs)),
        BinaryOp::Lt => Evaluated::Value(ValueModel::Boolean(lhs < rhs)),
        BinaryOp::Le => Evaluated::Value(ValueModel::Boolean(lhs <= rhs)),
        BinaryOp::Gt => Evaluated::Value(ValueModel::Boolean(lhs > rhs)),
        BinaryOp::Ge => Evaluated::Value(ValueModel::Boolean(lhs >= rhs)),
    }
}

/// `lhs op rhs` on floats, given as bit patterns.
pub open spec fn eval_floats(op: BinaryOp, lhs: u32, rhs: u32) -> Evaluated {
    match op {
        BinaryOp::Add => Evaluated::Float(FloatOp::Add, lhs, rhs),
        BinaryOp::Sub => Evaluated::Float(FloatOp::Sub, lhs, rhs),
        BinaryOp::Mul => Evaluated::Float(FloatOp::Mul, lhs, rhs),
        BinaryOp::Div => Evaluated::Float(FloatOp::Div, lhs, rhs),
        BinaryOp::Eq => Evaluated::Value(ValueModel::Boolean(float_eq(lhs, rhs))),
        BinaryOp::Ne => Evaluated::Value(ValueModel::Boolean(!float_eq(lhs, rhs))),
        BinaryOp::Lt => Evaluated::Value(ValueModel::Boolean(float_lt(lhs, rhs))),
        BinaryOp::Le => Evaluated::Value(ValueModel::Boolean(float_le(lhs, rhs))),
        BinaryOp::Gt => Evaluated::Value(ValueModel::Boolean(float_lt(rhs, lhs))),
        BinaryOp::Ge => Evaluated::Value(ValueModel::Boolean(float_le(rhs, lhs))),
    }
}

/// `lhs op rhs`. The left operand is the one that was pushed first.
///
/// Integers and floats take every operator; strings take `Add`, which joins
/// them, `Eq` and `Ne`; booleans take `Eq` and `Ne`. Anything else is a type
/// mismatch.
pub open spec fn eval_binary(op: BinaryOp, lhs: ValueModel, rhs: ValueModel) -> Evaluated {
    match (lhs, rhs) {
        (ValueModel::Integer(a), ValueModel::Integer(b)) => eval_integers(op, a, b),
        (ValueModel::Float(a), ValueModel::Float(b)) => eval_floats(op, a, b),
        (ValueModel::String(a), ValueModel::String(b)) => match op {
            BinaryOp::Add => Evaluated::Value(ValueModel::String(a + b)),
            BinaryOp::Eq => Evaluated::Value(ValueModel::Boolean(a == b)),
            BinaryOp::Ne => Evaluated::Value(ValueModel::Boolean(a != b)),
            _ => Evaluated::Fail(ExecError::TypeMismatch),
        },
        (ValueModel::Boolean(a), ValueModel::Boolean(b)) => match op {
            BinaryOp::Eq => Evaluated::Value(ValueModel::Boolean(a == b)),
            BinaryOp::Ne => Evaluated::Value(ValueModel::Boolean(a != b)),
            _ => Evaluated::Fail(ExecError::TypeMismatch),
        },
        _ => Evaluated::Fail(ExecError::TypeMismatch),
    }
}

/// The answer with the number `i`.
pub open spec fn answer_at(answers: Seq<ValueModel>, i: nat) -> ValueModel {
    if i < answers.len() {
        answers[i as int]
    } else {
        ValueModel::Null
    }
}

/// An answer to float arithmetic, which is a float.
pub open spec fn float_answer(answer: ValueModel) -> ValueModel {
    match answer {
        ValueModel::Float(bits) => ValueModel::Float(bits),
        _ => ValueModel::Float(0),
    }
}

impl Machine {
    /// A machine with nothing in it.
    pub open spec fn empty(asked: Seq<Request>) -> Machine {
        Machine { stack: Seq::empty(), frames: Seq::empty(), staged: Seq::empty(), asked }
    }

    /// With `v` on top of the stack.
    pub open spec fn push(self, v: ValueModel) -> Machine {
        Machine { stack: self.stack.push(v), ..self }
    }

    /// Without the top `n` values of the stack.
    pub open spec fn drop_top(self, n: nat) -> Machine {
        Machine { stack: self.stack.take(self.stack.len() - n), ..self }
    }

    /// The value `depth` places below the top of the stack.
    pub open spec fn top(self, depth: nat) -> ValueModel {
        self.stack[self.stack.len() - 1 - depth]
    }

    /// With the innermost frame replaced.
    pub open spec fn with_frame(self, frame: Seq<ValueModel>) -> Machine {
        Machine { frames: self.frames.update(self.frames.len() - 1, frame), ..self }
    }

    /// With nothing staged.
    pub open spec fn unstaged(self) -> Machine {
        Machine { staged: Seq::empty(), ..self }
    }

    /// With a new innermost frame that holds `args`.
    pub open spec fn entered(self, args: Seq<ValueModel>) -> Machine {
        Machine { frames: self.frames.push(args), ..self }
    }

    /// Without the innermost frame.
    pub open spec fn left(self) -> Machine {
        Machine { frames: self.frames.drop_last(), ..self }
    }

    /// With one more request to the host.
    pub open spec fn asking(self, request: Request) -> Machine {
        Machine { asked: self.asked.push(request), ..self }
    }

    /// The answer to the request that comes next.
    pub open spec fn answer(self, answers: Seq<ValueModel>) -> ValueModel {
        answer_at(answers, self.asked.len())
    }
}

/// A frame made `size` long: cut, or filled up with `Null`.
pub open spec fn resized(frame: Seq<ValueModel>, size: nat) -> Seq<ValueModel> {
    if size <= frame.len() {
        frame.take(size as int)
    } else {
        frame + Seq::new((size - frame.len()) as nat, |i: int| ValueModel::Null)
    }
}

/// The operator of an instruction, if it is one of those with two operands.
pub open spec fn binary_of(op: Op) -> Option<BinaryOp> {
    match op {
        Op::Add => Some(BinaryOp::Add),
        Op::Sub => Some(BinaryOp::Sub),
        Op::Mul => Some(BinaryOp::Mul),
        Op::Div => Some(BinaryOp::Div),
        Op::Eq => Some(BinaryOp::Eq),
        Op::Ne => Some(BinaryOp::Ne),
        Op::Lt => Some(BinaryOp::Lt),
        Op::Le => Some(BinaryOp::Le),
        Op::Gt => Some(BinaryOp::Gt),
        Op::Ge => Some(BinaryOp::Ge),
        _ => None,
    }
}

/// An operator with two operands: it takes the right operand from the top of
/// the stack and the left one from below it, and leaves the result.
pub open spec fn step_binary(host: bool, op: BinaryOp, m: Machine, answers: Seq<ValueModel>) -> Step {
    if m.stack.len() < 2 {
        Err(ExecError::StackUnderflow)
    } else {
        match eval_binary(op, m.top(1), m.top(0)) {
            Evaluated::Fail(e) => Err(e),
            Evaluated::Value(v) => Ok((Outcome::Normal, m.drop_top(2).push(v))),
            Evaluated::Float(float_op, lhs, rhs) => if host {
                Ok(
                    (
                        Outcome::Normal,
                        m.drop_top(2).push(float_answer(m.answer(answers))).asking(
                            Request::Float { op: float_op, lhs, rhs },
                        ),
                    ),
                )
            } else {
                Err(ExecError::NoHost)
            },
        }
    }
}

/// Whether an instruction holds code or calls code, so that running it is more
/// than one step.
pub open spec fn is_structured(op: Op) -> bool {
    op is If || op is Loop || op is Call
}

/// One instruction that is not structured.
pub open spec fn step(host: bool, op: Op, m: Machine, answers: Seq<ValueModel>) -> Step {
    match op {
        Op::Nop | Op::Version { .. } => Ok((Outcome::Normal, m)),
        Op::Hi => if host {
            Ok((Outcome::Normal, m.asking(Request::Hi)))
        } else {
            Ok((Outcome::Normal, m))
        },
        Op::Dump => if host {
            Ok((Outcome::Normal, m.asking(Request::Dump { stack: m.stack, frames: m.frames })))
        } else {
            Ok((Outcome::Normal, m))
        },
        Op::Func { .. } => Err(ExecError::NestedFunction),
        Op::PushConstString { value } => Ok((Outcome::Normal, m.push(ValueModel::String(value)))),
        Op::PushConstInteger { value } => Ok((Outcome::Normal, m.push(ValueModel::Integer(value)))),
        Op::PushConstFloat { value } => Ok((Outcome::Normal, m.push(ValueModel::Float(value)))),
        Op::PushConstBoolean { value } => Ok((Outcome::Normal, m.push(ValueModel::Boolean(value)))),
        Op::GetLocal { index } => if m.frames.len() == 0 {
            Err(ExecError::NoFrame)
        } else if index >= m.frames.last().len() {
            Err(ExecError::LocalOutOfRange)
        } else {
            Ok((Outcome::Normal, m.push(m.frames.last()[index as int])))
        },
        Op::SetLocal { index } => if m.stack.len() == 0 {
            Err(ExecError::StackUnderflow)
        } else if m.frames.len() == 0 {
            Err(ExecError::NoFrame)
        } else if index >= m.frames.last().len() {
            Err(ExecError::LocalOutOfRange)
        } else {
            Ok(
                (
                    Outcome::Normal,
                    m.drop_top(1).with_frame(m.frames.last().update(index as int, m.top(0))),
                ),
            )
        },
        Op::ReserveLocal { size } => if m.frames.len() == 0 {
            Err(ExecError::NoFrame)
        } else {
            Ok((Outcome::Normal, m.with_frame(resized(m.frames.last(), size as nat))))
        },
        Op::PushArg => if m.stack.len() == 0 {
            Err(ExecError::StackUnderflow)
        } else {
            Ok((Outcome::Normal, Machine { staged: m.staged.push(m.top(0)), ..m.drop_top(1) }))
        },
        Op::PopArg => if m.staged.len() == 0 {
            Err(ExecError::NoStagedArgument)
        } else {
            Ok((Outcome::Normal, Machine { staged: m.staged.drop_first(), ..m.push(m.staged[0]) }))
        },
        Op::Pop => if m.stack.len() == 0 {
            Err(ExecError::StackUnderflow)
        } else {
            Ok((Outcome::Normal, m.drop_top(1)))
        },
        Op::Dup => if m.stack.len() == 0 {
            Err(ExecError::StackUnderflow)
        } else {
            Ok((Outcome::Normal, m.push(m.top(0))))
        },
        Op::Return => if m.stack.len() == 0 {
            Ok((Outcome::Returned(ValueModel::Null), m))
        } else {
            Ok((Outcome::Returned(m.top(0)), m.drop_top(1)))
        },
        Op::Break => Ok((Outcome::Broke, m)),
        Op::Continue => Ok((Outcome::Continued, m)),
        Op::If { .. } | Op::Loop { .. } | Op::Call { .. } => Ok((Outcome::Normal, m)),
        _ => match binary_of(op) {
            Some(b) => step_binary(host, b, m, answers),
            None => Ok((Outcome::Normal, m)),
        },
    }
}

/// The function that a call names.
pub open spec fn resolve(program: Program, module: Seq<char>, function: Seq<char>) -> Result<
    FunctionModel,
    ExecError,
> {
    if !program.dom().contains(module) {
        Err(ExecError::UnknownModule)
    } else if !program[module].dom().contains(function) {
        Err(ExecError::UnknownFunction)
    } else {
        Ok(program[module][function])
    }
}

/// The value of a call whose body ended with `outcome`: what it returned, or
/// the integer 0 if it returned nothing.
pub open spec fn call_value(outcome: Outcome) -> ValueModel {
    match outcome {
        Outcome::Returned(v) => v,
        _ => ValueModel::Integer(0),
    }
}

/// The end of a call, from the end of its body: the frame of the call is
/// gone, and so is whatever was left staged.
pub open spec fn leave(body: Step) -> CallStep {
    match body {
        Err(e) => Err(e),
        Ok((outcome, m)) => Ok((call_value(outcome), m.left().unstaged())),
    }
}

/// A call of a native function: the host is asked for its value on the
/// argument list, which is to be one that the function promises. Whatever
/// was staged is gone.
pub open spec fn native_call(
    module: Seq<char>,
    function: Seq<char>,
    promise: Promise,
    args: Seq<ValueModel>,
    m: Machine,
    answers: Seq<ValueModel>,
) -> CallStep {
    Ok(
        (
            m.answer(answers),
            m.unstaged().asking(Request::Native { module, function, promise, args }),
        ),
    )
}

/// The end of a `Call` instruction, from the end of the call: the value of
/// the call is on the stack.
pub open spec fn land(call: CallStep) -> Step {
    match call {
        Err(e) => Err(e),
        Ok((v, m)) => Ok((Outcome::Normal, m.push(v))),
    }
}

/// A sequence of instructions: each in turn, until one ends in another way
/// than normally.
pub open spec fn run_block(
    world: World,
    code: Seq<Op>,
    m: Machine,
    fuel: nat,
    answers: Seq<ValueModel>,
) -> Step
    decreases fuel, 1nat, code, 0nat,
{
    if code.len() == 0 {
        Ok((Outcome::Normal, m))
    } else {
        match run_op(world, code[0], m, fuel, answers) {
            Ok((Outcome::Normal, next)) => run_block(world, code.drop_first(), next, fuel, answers),
            other => other,
        }
    }
}

/// One instruction.
///
/// `If` takes a boolean from the stack and runs one of its blocks; how that
/// block ends is how the `If` ends. `Call` hands the staged arguments to the
/// function it names and leaves the value of the call on the stack.
pub open spec fn run_op(world: World, op: Op, m: Machine, fuel: nat, answers: Seq<ValueModel>) -> Step
    decreases fuel, 1nat, op, 0nat,
{
    match op {
        Op::If { if_block, else_block } => if m.stack.len() == 0 {
            Err(ExecError::StackUnderflow)
        } else {
            match m.top(0) {
                ValueModel::Boolean(b) => run_block(
                    world,
                    if b {
                        if_block
                    } else {
                        else_block
                    },
                    m.drop_top(1),
                    fuel,
                    answers,
                ),
                _ => Err(ExecError::TypeMismatch),
            }
        },
        Op::Loop { block } => run_loop(world, block, m, fuel, answers),
        Op::Call { module, function } => land(
            run_call(world, module, function, m.staged, m.unstaged(), fuel, answers),
        ),
        _ => step(world.host, op, m, answers),
    }
}

/// A loop: its block again and again. `Break` ends the loop, which then ended
/// normally; `Return` ends it and stays a return; after `Continue` or a
/// normal end the block starts anew.
pub open spec fn run_loop(
    world: World,
    block: Seq<Op>,
    m: Machine,
    fuel: nat,
    answers: Seq<ValueModel>,
) -> Step
    decreases fuel, 1nat, block, 1nat,
{
    if fuel == 0 {
        Err(ExecError::LimitExceeded)
    } else {
        match run_block(world, block, m, (fuel - 1) as nat, answers) {
            Err(e) => Err(e),
            Ok((Outcome::Broke, after)) => Ok((Outcome::Normal, after)),
            Ok((Outcome::Returned(v), after)) => Ok((Outcome::Returned(v), after)),
            Ok((_, after)) => run_loop(world, block, after, (fuel - 1) as nat, answers),
        }
    }
}

/// A call by name on an argument list. A native function is an answer of the
/// host. Code runs in a new frame that holds the arguments as its first
/// locals, and entering it spends one unit of fuel.
pub open spec fn run_call(
    world: World,
    module: Seq<char>,
    function: Seq<char>,
    args: Seq<ValueModel>,
    m: Machine,
    fuel: nat,
    answers: Seq<ValueModel>,
) -> CallStep
    decreases fuel, 0nat, m, 0nat,
{
    match resolve(world.program, module, function) {
        Err(e) => Err(e),
        Ok(FunctionModel::Native { promise, .. }) => native_call(
            module,
            function,
            promise,
            args,
            m,
            answers,
        ),
        Ok(FunctionModel::ByteCode { code, .. }) => if fuel == 0 {
            Err(ExecError::LimitExceeded)
        } else {
            leave(run_block(world, code, m.entered(args), (fuel - 1) as nat, answers))
        },
    }
}

/// Whether `longer` starts with `shorter`.
pub open spec fn extends(longer: Seq<ValueModel>, shorter: Seq<ValueModel>) -> bool {
    &&& shorter.len() <= longer.len()
    &&& forall|i: int| 0 <= i < shorter.len() ==> #[trigger] longer[i] == shorter[i]
}

} // verus!
