//! The state of a running machine and the instructions that change it in one
//! step.

use crate::instruction::Instruction;
use crate::semantics::{
    promised,
    binary_of, div_towards_zero, eval_binary, extends, float_eq, float_is_nan, float_key, float_le, float_lt, is_structured, step, BinaryOp, Evaluated,
    ExecError, FloatOp, Machine, Outcome, Request, Step,
};
use crate::value::{frames_view, values_view, Value, ValueModel};
use vstd::prelude::*;
use vstd::string::StringExecFns;

verus! {

/// What the machine asks of whoever embeds it: float arithmetic, and a place
/// for the output of the two debugging instructions.
pub trait Host {
    /// `lhs op rhs` on two floats given as binary32 bit patterns; the result
    /// as a bit pattern.
    fn float(&self, op: FloatOp, lhs: u32, rhs: u32) -> u32;

    /// The instruction `Hi` was run.
    fn hi(&self);

    /// The instruction `Dump` was run, with this operand stack and these
    /// frames.
    fn dump(&self, stack: &Vec<Value>, frames: &Vec<Vec<Value>>);
}

/// How a block ended.
pub enum Completion {
    /// At its last instruction.
    Normal,
    /// At a `Return`, with the value returned.
    Returned(Value),
    /// At a `Break`.
    Broke,
    /// At a `Continue`.
    Continued,
}

impl View for Completion {
    type V = Outcome;

    open spec fn view(&self) -> Outcome {
        match self {
            Completion::Normal => Outcome::Normal,
            Completion::Returned(v) => Outcome::Returned(v@),
            Completion::Broke => Outcome::Broke,
            Completion::Continued => Outcome::Continued,
        }
    }
}

/// What an operator makes of two operands without the host.
pub enum Evaluation {
    /// The result.
    Value(Value),
    /// Float arithmetic: the host has the result.
    Float(FloatOp, u32, u32),
    /// No result.
    Fail(ExecError),
}

impl View for Evaluation {
    type V = Evaluated;

    open spec fn view(&self) -> Evaluated {
        match self {
            Evaluation::Value(v) => Evaluated::Value(v@),
            Evaluation::Float(op, lhs, rhs) => Evaluated::Float(*op, *lhs, *rhs),
            Evaluation::Fail(e) => Evaluated::Fail(*e),
        }
    }
}

/// The end of a block as the semantics names it.
pub open spec fn ended(r: Result<Completion, ExecError>, m: Machine) -> Step {
    match r {
        Ok(c) => Ok((c@, m)),
        Err(e) => Err(e),
    }
}

/// A request to the host and what the host gave back.
pub struct Exchange {
    pub request: Request,
    pub answer: ValueModel,
}

/// The requests of a sequence of exchanges, one for one.
pub open spec fn requests_of(log: Seq<Exchange>) -> Seq<Request> {
    Seq::new(log.len(), |i: int| log[i].request)
}

/// The answers of a sequence of exchanges, one for one.
pub open spec fn answers_of(log: Seq<Exchange>) -> Seq<ValueModel> {
    Seq::new(log.len(), |i: int| log[i].answer)
}

/// Whether `later` is `earlier` with more exchanges behind it, or none, in
/// each of which the answer is one that the host may give to the request.
pub open spec fn grown(later: Seq<Exchange>, earlier: Seq<Exchange>) -> bool {
    &&& earlier.len() <= later.len()
    &&& forall|i: int| 0 <= i < earlier.len() ==> #[trigger] later[i] == earlier[i]
    &&& forall|i: int|
        earlier.len() <= i < later.len() ==> promised(
            (#[trigger] later[i]).request,
            later[i].answer,
        )
}

/// Exchanges that have grown keep the answers that they had.
pub proof fn lemma_grown_keeps_answers(later: Seq<Exchange>, earlier: Seq<Exchange>)
    requires
        grown(later, earlier),
    ensures
        extends(answers_of(later), answers_of(earlier)),
{
    assert forall|i: int| 0 <= i < answers_of(earlier).len() implies #[trigger] answers_of(
        later,
    )[i] == answers_of(earlier)[i] by {
        assert(later[i] == earlier[i]);
    }
}

/// The operand stack, the call frames and the staged arguments of a machine.
pub struct MachineState {
    /// The operand stack, top last.
    pub stack: Vec<Value>,
    /// The locals of the calls in progress, innermost last.
    pub frames: Vec<Vec<Value>>,
    /// The arguments staged for the next call, oldest first.
    pub staged: Vec<Value>,
    /// What was asked of the host so far and what it answered, oldest first.
    pub log: Ghost<Seq<Exchange>>,
}

impl View for MachineState {
    type V = Machine;

    open spec fn view(&self) -> Machine {
        Machine {
            stack: values_view(self.stack@),
            frames: frames_view(self.frames@),
            staged: values_view(self.staged@),
            asked: requests_of(self.log@),
        }
    }
}

/// `lhs / rhs`, rounded towards zero.
fn integer_quotient(lhs: i32, rhs: i32) -> (r: i64)
    requires
        rhs != 0,
    ensures
        r == div_towards_zero(lhs as int, rhs as int),
{
    let a = lhs as i64;
    let b = rhs as i64;
    let x: u64 = if a >= 0 {
        a as u64
    } else {
        (-a) as u64
    };
    let y: u64 = if b > 0 {
        b as u64
    } else {
        (-b) as u64
    };
    let q = (x / y) as i64;
    if (a >= 0) == (b > 0) {
        q
    } else {
        -q
    }
}

/// An integer result, if it is in range.
fn integer_value(v: i64) -> (r: Evaluation)
    ensures
        r@ == crate::semantics::integer_result(v as int),
{
    if v < -0x8000_0000 || v > 0x7fff_ffff {
        Evaluation::Fail(ExecError::Overflow)
    } else {
        Evaluation::Value(Value::Integer(v as i32))
    }
}

/// Whether a bit pattern is a NaN.
fn nan(bits: u32) -> (r: bool)
    ensures
        r == float_is_nan(bits),
{
    bits % 0x8000_0000 > 0x7f80_0000
}

/// The number by which a bit pattern is ordered.
fn key(bits: u32) -> (r: i64)
    ensures
        r == float_key(bits),
{
    if bits < 0x8000_0000 {
        bits as i64
    } else {
        0x8000_0000 - (bits as i64)
    }
}

/// `lhs == rhs` on two floats given as bit patterns.
pub fn floats_equal(lhs: u32, rhs: u32) -> (r: bool)
    ensures
        r == float_eq(lhs, rhs),
{
    !nan(lhs) && !nan(rhs) && key(lhs) == key(rhs)
}

/// `lhs < rhs` on two floats given as bit patterns.
pub fn float_less(lhs: u32, rhs: u32) -> (r: bool)
    ensures
        r == float_lt(lhs, rhs),
{
    !nan(lhs) && !nan(rhs) && key(lhs) < key(rhs)
}

/// `lhs <= rhs` on two floats given as bit patterns.
pub fn float_less_or_equal(lhs: u32, rhs: u32) -> (r: bool)
    ensures
        r == float_le(lhs, rhs),
{
    !nan(lhs) && !nan(rhs) && key(lhs) <= key(rhs)
}

/// `lhs op rhs` on integers.
fn evaluate_integers(op: BinaryOp, lhs: i32, rhs: i32) -> (r: Evaluation)
    ensures
        r@ == crate::semantics::eval_integers(op, lhs, rhs),
{
    match op {
        BinaryOp::Add => integer_value(lhs as i64 + rhs as i64),
        BinaryOp::Sub => integer_value(lhs as i64 - rhs as i64),
        BinaryOp::Mul => {
            assert(-0x8000_0000 * 0x8000_0000 <= lhs * rhs <= 0x8000_0000 * 0x8000_0000)
                by (nonlinear_arith)
                requires
                    -0x8000_0000 <= lhs <= 0x7fff_ffff,
                    -0x8000_0000 <= rhs <= 0x7fff_ffff,
            ;
            integer_value((lhs as i64) * (rhs as i64))
        },
        BinaryOp::Div => if rhs == 0 {
            Evaluation::Fail(ExecError::DivisionByZero)
        } else {
            integer_value(integer_quotient(lhs, rhs))
        },
        BinaryOp::Eq => Evaluation::Value(Value::Boolean(lhs == rhs)),
        BinaryOp::Ne => Evaluation::Value(Value::Boolean(lhs != rhs)),
        BinaryOp::Lt => Evaluation::Value(Value::Boolean(lhs < rhs)),
        BinaryOp::Le => Evaluation::Value(Value::Boolean(lhs <= rhs)),
        BinaryOp::Gt => Evaluation::Value(Value::Boolean(lhs > rhs)),
        BinaryOp::Ge => Evaluation::Value(Value::Boolean(lhs >= rhs)),
    }
}

/// `lhs op rhs` on floats, as far as it goes without the host.
fn evaluate_floats(op: BinaryOp, lhs: u32, rhs: u32) -> (r: Evaluation)
    ensures
        r@ == crate::semantics::eval_floats(op, lhs, rhs),
{
    match op {
        BinaryOp::Add => Evaluation::Float(FloatOp::Add, lhs, rhs),
        BinaryOp::Sub => Evaluation::Float(FloatOp::Sub, lhs, rhs),
        BinaryOp::Mul => Evaluation::Float(FloatOp::Mul, lhs, rhs),
        BinaryOp::Div => Evaluation::Float(FloatOp::Div, lhs, rhs),
        BinaryOp::Eq => Evaluation::Value(Value::Boolean(floats_equal(lhs, rhs))),
        BinaryOp::Ne => Evaluation::Value(Value::Boolean(!floats_equal(lhs, rhs))),
        BinaryOp::Lt => Evaluation::Value(Value::Boolean(float_less(lhs, rhs))),
        BinaryOp::Le => Evaluation::Value(Value::Boolean(float_less_or_equal(lhs, rhs))),
        BinaryOp::Gt => Evaluation::Value(Value::Boolean(float_less(rhs, lhs))),
        BinaryOp::Ge => Evaluation::Value(Value::Boolean(float_less_or_equal(rhs, lhs))),
    }
}

/// `lhs op rhs`, as far as it goes without the host.
pub fn evaluate(op: BinaryOp, lhs: &Value, rhs: &Value) -> (r: Evaluation)
    ensures
        r@ == eval_binary(op, lhs@, rhs@),
{
    match (lhs, rhs) {
        (Value::Integer(a), Value::Integer(b)) => evaluate_integers(op, *a, *b),
        (Value::Float(a), Value::Float(b)) => evaluate_floats(op, *a, *b),
        (Value::String(a), Value::String(b)) => match op {
            BinaryOp::Add => {
                let mut joined = a.clone();
                joined.append(b.as_str());
                Evaluation::Value(Value::String(joined))
            },
            BinaryOp::Eq => Evaluation::Value(Value::Boolean(*a == *b)),
            BinaryOp::Ne => Evaluation::Value(Value::Boolean(!(*a == *b))),
            _ => Evaluation::Fail(ExecError::TypeMismatch),
        },
        (Value::Boolean(a), Value::Boolean(b)) => match op {
            BinaryOp::Eq => Evaluation::Value(Value::Boolean(*a == *b)),
            BinaryOp::Ne => Evaluation::Value(Value::Boolean(*a != *b)),
            _ => Evaluation::Fail(ExecError::TypeMismatch),
        },
        _ => Evaluation::Fail(ExecError::TypeMismatch),
    }
}

/// The operator of an instruction, if it is one of those with two operands.
pub fn binary_operator(instruction: &Instruction) -> (r: Option<BinaryOp>)
    ensures
        r == binary_of(instruction@),
{
    match instruction {
        Instruction::Add => Some(BinaryOp::Add),
        Instruction::Sub => Some(BinaryOp::Sub),
        Instruction::Mul => Some(BinaryOp::Mul),
        Instruction::Div => Some(BinaryOp::Div),
        Instruction::Eq => Some(BinaryOp::Eq),
        Instruction::Ne => Some(BinaryOp::Ne),
        Instruction::Lt => Some(BinaryOp::Lt),
        Instruction::Le => Some(BinaryOp::Le),
        Instruction::Gt => Some(BinaryOp::Gt),
        Instruction::Ge => Some(BinaryOp::Ge),
        _ => None,
    }
}

impl MachineState {
    /// What the host answered so far, oldest first.
    pub open spec fn history(&self) -> Seq<ValueModel> {
        answers_of(self.log@)
    }

    /// A machine with nothing in it.
    pub fn new() -> (state: MachineState)
        ensures
            state@ == Machine::empty(Seq::empty()),
            state.log@ == Seq::<Exchange>::empty(),
    {
        let state = MachineState {
            stack: Vec::new(),
            frames: Vec::new(),
            staged: Vec::new(),
            log: Ghost(Seq::empty()),
        };
        assert(state@ =~= Machine::empty(Seq::empty()));
        state
    }

    /// Empties the stack, the frames and the staged arguments.
    pub fn reset(&mut self)
        ensures
            final(self)@ == Machine::empty(old(self)@.asked),
            final(self).log@ == old(self).log@,
    {
        self.stack = Vec::new();
        self.frames = Vec::new();
        self.staged = Vec::new();
        assert(self@ =~= Machine::empty(old(self)@.asked));
    }

    /// Puts `v` on top of the stack.
    pub fn push(&mut self, v: Value)
        ensures
            final(self)@ == old(self)@.push(v@),
            final(self).log@ == old(self).log@,
    {
        self.stack.push(v);
        assert(self@ =~= old(self)@.push(v@));
    }

    /// Takes the top of the stack, if the stack holds anything.
    pub fn pop(&mut self) -> (r: Option<Value>)
        ensures
            final(self).log@ == old(self).log@,
            match r {
                Some(v) => old(self)@.stack.len() > 0 && v@ == old(self)@.top(0) && final(self)@
                    == old(self)@.drop_top(1),
                None => old(self)@.stack.len() == 0 && final(self)@ == old(self)@,
            },
    {
        let r = self.stack.pop();
        proof {
            if r is Some {
                assert(self@ =~= old(self)@.drop_top(1));
            } else {
                assert(self@ =~= old(self)@);
            }
        }
        r
    }

    /// The operator `op` on the two values on top of the stack.
    fn binary(&mut self, host: &Option<Box<dyn Host>>, op: BinaryOp) -> (r: Result<
        Completion,
        ExecError,
    >)
        ensures
            extends(final(self).history(), old(self).history()),
            grown(final(self).log@, old(self).log@),
            forall|answers: Seq<ValueModel>|
                #![trigger crate::semantics::step_binary(host is Some, op, old(self)@, answers)]
                extends(answers, final(self).history()) ==> crate::semantics::step_binary(
                    host is Some,
                    op,
                    old(self)@,
                    answers,
                ) == ended(r, final(self)@),
    {
        if self.stack.len() < 2 {
            return Err(ExecError::StackUnderflow);
        }
        let rhs = self.pop().unwrap();
        let lhs = self.pop().unwrap();
        assert(self@ =~= old(self)@.drop_top(2));
        match evaluate(op, &lhs, &rhs) {
            Evaluation::Fail(e) => Err(e),
            Evaluation::Value(v) => {
                self.push(v);
                Ok(Completion::Normal)
            },
            Evaluation::Float(float_op, a, b) => match host {
                Some(h) => {
                    let bits = h.float(float_op, a, b);
                    proof {
                        self.log@ = self.log@.push(
                            Exchange {
                                request: Request::Float { op: float_op, lhs: a, rhs: b },
                                answer: ValueModel::Float(bits),
                            },
                        );
                    }
                    self.push(Value::Float(bits));
                    proof {
                        let n = old(self).history().len() as int;
                        assert forall|answers: Seq<ValueModel>|
                            extends(answers, self.history()) implies old(self)@.answer(answers)
                            == ValueModel::Float(bits) by {
                            assert(answers[n] == self.history()[n]);
                        }
                        assert(self@ =~= old(self)@.drop_top(2).push(
                            ValueModel::Float(bits),
                        ).asking(Request::Float { op: float_op, lhs: a, rhs: b }));
                    }
                    Ok(Completion::Normal)
                },
                None => Err(ExecError::NoHost),
            },
        }
    }

    /// Runs one instruction that is not structured.
    ///
    /// After an error the state is whatever the instruction left of it.
    #[verifier::rlimit(50)]
    pub(crate) fn perform(&mut self, host: &Option<Box<dyn Host>>, instruction: &Instruction) -> (r:
        Result<Completion, ExecError>)
        requires
            !is_structured(instruction@),
        ensures
            extends(final(self).history(), old(self).history()),
            grown(final(self).log@, old(self).log@),
            forall|answers: Seq<ValueModel>|
                #![trigger step(host is Some, instruction@, old(self)@, answers)]
                extends(answers, final(self).history()) ==> step(
                    host is Some,
                    instruction@,
                    old(self)@,
                    answers,
                ) == ended(r, final(self)@),
    {
        match instruction {
            Instruction::Nop | Instruction::Version { .. } => Ok(Completion::Normal),
            Instruction::Dump => {
                match host {
                    Some(h) => {
                        h.dump(&self.stack, &self.frames);
                        proof {
                            let request = Request::Dump {
                                stack: self@.stack,
                                frames: self@.frames,
                            };
                            self.log@ = self.log@.push(
                                Exchange { request, answer: ValueModel::Null },
                            );
                            assert(self@ =~= old(self)@.asking(request));
                        }
                    },
                    None => {},
                }
                Ok(Completion::Normal)
            },
            Instruction::Hi => {
                match host {
                    Some(h) => {
                        h.hi();
                        proof {
                            self.log@ = self.log@.push(
                                Exchange { request: Request::Hi, answer: ValueModel::Null },
                            );
                            assert(self@ =~= old(self)@.asking(Request::Hi));
                        }
                    },
                    None => {},
                }
                Ok(Completion::Normal)
            },
            Instruction::Func { .. } => Err(ExecError::NestedFunction),
            Instruction::PushConstString { value } => {
                self.push(Value::String(value.clone()));
                Ok(Completion::Normal)
            },
            Instruction::PushConstInteger { value } => {
                self.push(Value::Integer(*value));
                Ok(Completion::Normal)
            },
            Instruction::PushConstFloat { value } => {
                self.push(Value::Float(*value));
                Ok(Completion::Normal)
            },
            Instruction::PushConstBoolean { value } => {
                self.push(Value::Boolean(*value));
                Ok(Completion::Normal)
            },
            Instruction::GetLocal { index } => {
                let depth = self.frames.len();
                if depth == 0 {
                    return Err(ExecError::NoFrame);
                }
                let frame = &self.frames[depth - 1];
                let at = *index as usize;
                if at >= frame.len() {
                    return Err(ExecError::LocalOutOfRange);
                }
                let v = frame[at].clone();
                self.push(v);
                Ok(Completion::Normal)
            },
            Instruction::SetLocal { index } => {
                let v = match self.pop() {
                    Some(v) => v,
                    None => {
                        return Err(ExecError::StackUnderflow);
                    },
                };
                let mut frame = match self.frames.pop() {
                    Some(frame) => frame,
                    None => {
                        return Err(ExecError::NoFrame);
                    },
                };
                let at = *index as usize;
                if at >= frame.len() {
                    return Err(ExecError::LocalOutOfRange);
                }
                frame[at] = v;
                self.frames.push(frame);
                assert(self@ =~~= old(self)@.drop_top(1).with_frame(
                    old(self)@.frames.last().update(*index as int, old(self)@.top(0)),
                ));
                Ok(Completion::Normal)
            },
            Instruction::ReserveLocal { size } => {
                let mut frame = match self.frames.pop() {
                    Some(frame) => frame,
                    None => {
                        return Err(ExecError::NoFrame);
                    },
                };
                let ghost before = frame@;
                frame.resize(*size as usize, Value::Null);
                proof {
                    if *size > before.len() {
                        assert(frame@.subrange(0, before.len() as int) == before);
                        assert forall|i: int| 0 <= i < before.len() implies frame@[i]
                            == before[i] by {
                            assert(frame@.subrange(0, before.len() as int)[i] == frame@[i]);
                        }
                    }
                    assert(values_view(frame@) =~= crate::semantics::resized(
                        values_view(before),
                        *size as nat,
                    ));
                }
                self.frames.push(frame);
                assert(self@ =~~= old(self)@.with_frame(
                    crate::semantics::resized(old(self)@.frames.last(), *size as nat),
                ));
                Ok(Completion::Normal)
            },
            Instruction::PushArg => {
                match self.pop() {
                    Some(v) => {
                        self.staged.push(v);
                        assert(self@ =~= Machine {
                            staged: old(self)@.staged.push(old(self)@.top(0)),
                            ..old(self)@.drop_top(1)
                        });
                        Ok(Completion::Normal)
                    },
                    None => Err(ExecError::StackUnderflow),
                }
            },
            Instruction::PopArg => {
                if self.staged.len() == 0 {
                    return Err(ExecError::NoStagedArgument);
                }
                let v = self.staged.remove(0);
                self.push(v);
                assert(self@ =~= Machine {
                    staged: old(self)@.staged.drop_first(),
                    ..old(self)@.push(old(self)@.staged[0])
                });
                Ok(Completion::Normal)
            },
            Instruction::Pop => {
                match self.pop() {
                    Some(_) => Ok(Completion::Normal),
                    None => Err(ExecError::StackUnderflow),
                }
            },
            Instruction::Dup => {
                let height = self.stack.len();
                if height == 0 {
                    return Err(ExecError::StackUnderflow);
                }
                let v = self.stack[height - 1].clone();
                self.push(v);
                Ok(Completion::Normal)
            },
            Instruction::Return => {
                match self.pop() {
                    Some(v) => Ok(Completion::Returned(v)),
                    None => Ok(Completion::Returned(Value::Null)),
                }
            },
            Instruction::Break => Ok(Completion::Broke),
            Instruction::Continue => Ok(Completion::Continued),
            Instruction::If { .. } | Instruction::Loop { .. } | Instruction::Call { .. } => Ok(
                Completion::Normal,
            ),
            _ => {
                match binary_operator(instruction) {
                    Some(op) => self.binary(host, op),
                    None => Ok(Completion::Normal),
                }
            },
        }
    }
}

} // verus!
