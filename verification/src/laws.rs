//! What holds of every run.

use crate::function::FunctionModel;
use crate::instruction::Op;
use crate::semantics::{
    resolve, run_block, run_call, run_loop, run_op, step, ExecError, Machine, Outcome, Request,
    World,
};
use crate::value::ValueModel;
use vstd::prelude::*;

verus! {

/// An `If` ends as the block that it runs ends: a `Break`, a `Continue` or a
/// `Return` in that block goes on to whatever is around the `If`.
pub proof fn lemma_if_ends_as_its_block(
    world: World,
    if_block: Seq<Op>,
    else_block: Seq<Op>,
    m: Machine,
    fuel: nat,
    answers: Seq<ValueModel>,
    condition: bool,
)
    requires
        m.stack.len() > 0,
        m.top(0) == ValueModel::Boolean(condition),
    ensures
        run_op(world, Op::If { if_block, else_block }, m, fuel, answers) == run_block(
            world,
            if condition {
                if_block
            } else {
                else_block
            },
            m.drop_top(1),
            fuel,
            answers,
        ),
{
}

/// A loop whose block ends with `Break` has ended normally, in the state
/// that the block left.
pub proof fn lemma_loop_ends_at_break(
    world: World,
    block: Seq<Op>,
    m: Machine,
    fuel: nat,
    answers: Seq<ValueModel>,
    after: Machine,
)
    requires
        fuel > 0,
        run_block(world, block, m, (fuel - 1) as nat, answers) == Ok::<
            (Outcome, Machine),
            ExecError,
        >((Outcome::Broke, after)),
    ensures
        run_op(world, Op::Loop { block }, m, fuel, answers) == Ok::<(Outcome, Machine), ExecError>(
            (Outcome::Normal, after),
        ),
{
}

/// A loop whose block ends with `Return` has returned the same value.
pub proof fn lemma_loop_ends_at_return(
    world: World,
    block: Seq<Op>,
    m: Machine,
    fuel: nat,
    answers: Seq<ValueModel>,
    value: ValueModel,
    after: Machine,
)
    requires
        fuel > 0,
        run_block(world, block, m, (fuel - 1) as nat, answers) == Ok::<
            (Outcome, Machine),
            ExecError,
        >((Outcome::Returned(value), after)),
    ensures
        run_op(world, Op::Loop { block }, m, fuel, answers) == Ok::<(Outcome, Machine), ExecError>(
            (Outcome::Returned(value), after),
        ),
{
}

/// A loop whose block ends normally or with `Continue` starts its block
/// anew, in the state that the block left and with one unit of fuel less.
pub proof fn lemma_loop_goes_on(
    world: World,
    block: Seq<Op>,
    m: Machine,
    fuel: nat,
    answers: Seq<ValueModel>,
    after: Machine,
)
    requires
        fuel > 0,
        run_block(world, block, m, (fuel - 1) as nat, answers) == Ok::<
            (Outcome, Machine),
            ExecError,
        >((Outcome::Normal, after)) || run_block(world, block, m, (fuel - 1) as nat, answers)
            == Ok::<(Outcome, Machine), ExecError>((Outcome::Continued, after)),
    ensures
        run_op(world, Op::Loop { block }, m, fuel, answers) == run_op(
            world,
            Op::Loop { block },
            after,
            (fuel - 1) as nat,
            answers,
        ),
{
}

/// A block runs its first instruction and then, if that one ended normally,
/// the rest.
pub proof fn lemma_block_runs_in_order(
    world: World,
    code: Seq<Op>,
    m: Machine,
    fuel: nat,
    answers: Seq<ValueModel>,
)
    requires
        code.len() > 0,
    ensures
        run_block(world, code, m, fuel, answers) == match run_op(world, code[0], m, fuel, answers) {
            Ok((Outcome::Normal, next)) => run_block(
                world,
                code.drop_first(),
                next,
                fuel,
                answers,
            ),
            other => other,
        },
{
}

/// Whether `later` is `earlier` with more requests behind it, or none.
pub open spec fn asked_more(later: Seq<Request>, earlier: Seq<Request>) -> bool {
    &&& earlier.len() <= later.len()
    &&& forall|i: int| 0 <= i < earlier.len() ==> #[trigger] later[i] == earlier[i]
}

/// Whether `after` has as many frames as `before` and every request of
/// `before`, in place.
pub open spec fn keeps(after: Machine, before: Machine) -> bool {
    after.frames.len() == before.frames.len() && asked_more(after.asked, before.asked)
}

/// An instruction that is not structured leaves as many frames as it found
/// and takes no request back.
pub proof fn lemma_step_keeps_frames(host: bool, op: Op, m: Machine, answers: Seq<ValueModel>)
    ensures
        step(host, op, m, answers) matches Ok((_, after)) ==> keeps(after, m),
{
}

/// A block leaves as many frames as it found: every call in it has taken
/// away the frame that it brought. And it takes no request back.
pub proof fn lemma_block_keeps_frames(
    world: World,
    code: Seq<Op>,
    m: Machine,
    fuel: nat,
    answers: Seq<ValueModel>,
)
    ensures
        run_block(world, code, m, fuel, answers) matches Ok((_, after)) ==> keeps(after, m),
    decreases fuel, 1nat, code, 0nat,
{
    if code.len() > 0 {
        lemma_op_keeps_frames(world, code[0], m, fuel, answers);
        match run_op(world, code[0], m, fuel, answers) {
            Ok((Outcome::Normal, next)) => {
                lemma_block_keeps_frames(world, code.drop_first(), next, fuel, answers);
            },
            _ => {},
        }
    }
}

/// An instruction leaves as many frames as it found and takes no request
/// back.
pub proof fn lemma_op_keeps_frames(
    world: World,
    op: Op,
    m: Machine,
    fuel: nat,
    answers: Seq<ValueModel>,
)
    ensures
        run_op(world, op, m, fuel, answers) matches Ok((_, after)) ==> keeps(after, m),
    decreases fuel, 1nat, op, 0nat,
{
    match op {
        Op::If { if_block, else_block } => {
            if m.stack.len() > 0 {
                if let ValueModel::Boolean(b) = m.top(0) {
                    lemma_block_keeps_frames(
                        world,
                        if b {
                            if_block
                        } else {
                            else_block
                        },
                        m.drop_top(1),
                        fuel,
                        answers,
                    );
                }
            }
        },
        Op::Loop { block } => {
            lemma_loop_keeps_frames(world, block, m, fuel, answers);
        },
        Op::Call { module, function } => {
            lemma_call_keeps_frames(
                world,
                module,
                function,
                m.staged,
                m.unstaged(),
                fuel,
                answers,
            );
        },
        _ => {
            lemma_step_keeps_frames(world.host, op, m, answers);
        },
    }
}

/// A loop leaves as many frames as it found and takes no request back.
pub proof fn lemma_loop_keeps_frames(
    world: World,
    block: Seq<Op>,
    m: Machine,
    fuel: nat,
    answers: Seq<ValueModel>,
)
    ensures
        run_loop(world, block, m, fuel, answers) matches Ok((_, after)) ==> keeps(after, m),
    decreases fuel, 1nat, block, 1nat,
{
    if fuel > 0 {
        lemma_block_keeps_frames(world, block, m, (fuel - 1) as nat, answers);
        match run_block(world, block, m, (fuel - 1) as nat, answers) {
            Ok((Outcome::Normal, after)) => {
                lemma_loop_keeps_frames(world, block, after, (fuel - 1) as nat, answers);
            },
            Ok((Outcome::Continued, after)) => {
                lemma_loop_keeps_frames(world, block, after, (fuel - 1) as nat, answers);
            },
            _ => {},
        }
    }
}

/// A call leaves as many frames as it found and nothing staged, and takes no
/// request back.
pub proof fn lemma_call_keeps_frames(
    world: World,
    module: Seq<char>,
    function: Seq<char>,
    args: Seq<ValueModel>,
    m: Machine,
    fuel: nat,
    answers: Seq<ValueModel>,
)
    ensures
        run_call(world, module, function, args, m, fuel, answers) matches Ok((_, after)) ==> keeps(
            after,
            m,
        ) && after.staged.len() == 0,
    decreases fuel, 0nat, m, 0nat,
{
    if let Ok(FunctionModel::ByteCode { code, .. }) = resolve(world.program, module, function) {
        if fuel > 0 {
            lemma_block_keeps_frames(world, code, m.entered(args), (fuel - 1) as nat, answers);
        }
    }
}

} // verus!
