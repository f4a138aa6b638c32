//! The virtual machine: the loaded modules, the state of the run, and the
//! interpreter that runs code on them.

use crate::function::Function;
use crate::instruction::{code_view, Code, Instruction};
use crate::machine::{ended, grown, Completion, Exchange, Host, MachineState};
use crate::module::Module;
use crate::semantics::{
    extends, run_block, run_call, run_loop, run_op, CallStep, ExecError, Machine, Outcome,
    Request, World,
};
use crate::table::{find, put, table_view, Entry};
use crate::value::{values_view, Value, ValueModel};
use vstd::prelude::*;

verus! {

/// The end of a call as the semantics names it.
pub open spec fn called(r: Result<Value, ExecError>, m: Machine) -> CallStep {
    match r {
        Ok(v) => Ok((v@, m)),
        Err(e) => Err(e),
    }
}

/// What a list of loaded modules and a host are to the semantics.
pub open spec fn world_of(modules: Seq<Entry<Module>>, host: Option<Box<dyn Host>>) -> World {
    World { program: table_view(modules), host: host is Some }
}

/// Runs a sequence of instructions.
fn execute_block(
    modules: &Vec<Entry<Module>>,
    host: &Option<Box<dyn Host>>,
    m: &mut MachineState,
    code: &Code,
    fuel: u64,
) -> (r: Result<Completion, ExecError>)
    ensures
        extends(final(m).history(), old(m).history()),
        grown(final(m).log@, old(m).log@),
        forall|answers: Seq<ValueModel>|
            #![trigger run_block(world_of(modules@, *host), code_view(code@), old(m)@, fuel as nat, answers)]
            extends(answers, final(m).history()) ==> run_block(
                world_of(modules@, *host),
                code_view(code@),
                old(m)@,
                fuel as nat,
                answers,
            ) == ended(r, final(m)@),
    decreases fuel, 1nat, code, 0nat,
{
    let ghost world = world_of(modules@, *host);
    let ghost ops = code_view(code@);
    let ghost start = m@;
    let ghost fuel_spec = fuel as nat;
    let mut i: usize = 0;
    assert(ops.skip(0) =~= ops);
    while i < code.len()
        invariant
            i <= code.len(),
            world == world_of(modules@, *host),
            ops == code_view(code@),
            fuel_spec == fuel as nat,
            start == old(m)@,
            extends(m.history(), old(m).history()),
            grown(m.log@, old(m).log@),
            forall|answers: Seq<ValueModel>|
                #![trigger run_block(world, ops, start, fuel_spec, answers)]
                extends(answers, m.history()) ==> run_block(world, ops, start, fuel_spec, answers)
                    == run_block(world, ops.skip(i as int), m@, fuel_spec, answers),
        decreases code.len() - i,
    {
        let ghost before = m@;
        let ghost given = m.history();
        let r = execute_op(modules, host, m, &code[i], fuel);
        proof {
            assert(ops.skip(i as int)[0] == code[i as int]@);
            assert(ops.skip(i as int).drop_first() =~= ops.skip(i + 1));
            assert forall|answers: Seq<ValueModel>| extends(answers, m.history()) implies run_block(
                world,
                ops,
                start,
                fuel_spec,
                answers,
            ) == (match r {
                Ok(Completion::Normal) => run_block(
                    world,
                    ops.skip(i + 1),
                    m@,
                    fuel_spec,
                    answers,
                ),
                other => ended(other, m@),
            }) by {
                assert(extends(answers, given));
                assert(run_op(world, code[i as int]@, before, fuel_spec, answers) == ended(r, m@));
                assert(run_block(world, ops, start, fuel_spec, answers) == run_block(
                    world,
                    ops.skip(i as int),
                    before,
                    fuel_spec,
                    answers,
                ));
            }
        }
        match r {
            Ok(Completion::Normal) => {
                i += 1;
            },
            other => {
                return other;
            },
        }
    }
    Ok(Completion::Normal)
}

/// Runs one instruction.
fn execute_op(
    modules: &Vec<Entry<Module>>,
    host: &Option<Box<dyn Host>>,
    m: &mut MachineState,
    instruction: &Instruction,
    fuel: u64,
) -> (r: Result<Completion, ExecError>)
    ensures
        extends(final(m).history(), old(m).history()),
        grown(final(m).log@, old(m).log@),
        forall|answers: Seq<ValueModel>|
            #![trigger run_op(world_of(modules@, *host), instruction@, old(m)@, fuel as nat, answers)]
            extends(answers, final(m).history()) ==> run_op(
                world_of(modules@, *host),
                instruction@,
                old(m)@,
                fuel as nat,
                answers,
            ) == ended(r, final(m)@),
    decreases fuel, 1nat, instruction, 0nat,
{
    let ghost world = world_of(modules@, *host);
    let ghost fuel_spec = fuel as nat;
    match instruction {
        Instruction::If { if_block, else_block } => {
            match m.pop() {
                None => Err(ExecError::StackUnderflow),
                Some(Value::Boolean(b)) => {
                    let ghost popped = m@;
                    let r = if b {
                        execute_block(modules, host, m, if_block, fuel)
                    } else {
                        execute_block(modules, host, m, else_block, fuel)
                    };
                    proof {
                        let chosen = if b {
                            code_view(if_block@)
                        } else {
                            code_view(else_block@)
                        };
                        assert forall|answers: Seq<ValueModel>|
                            extends(answers, m.history()) implies run_op(
                            world,
                            instruction@,
                            old(m)@,
                            fuel_spec,
                            answers,
                        ) == ended(r, m@) by {
                            assert(run_block(world, chosen, popped, fuel_spec, answers) == ended(
                                r,
                                m@,
                            ));
                        }
                    }
                    r
                },
                Some(_) => Err(ExecError::TypeMismatch),
            }
        },
        Instruction::Loop { block } => {
            let r = execute_loop(modules, host, m, block, fuel);
            proof {
                assert forall|answers: Seq<ValueModel>|
                    extends(answers, m.history()) implies run_op(
                    world,
                    instruction@,
                    old(m)@,
                    fuel_spec,
                    answers,
                ) == ended(r, m@) by {
                    assert(run_loop(world, code_view(block@), old(m)@, fuel_spec, answers)
                        == ended(r, m@));
                }
            }
            r
        },
        Instruction::Call { module, function } => {
            let mut args: Vec<Value> = Vec::new();
            std::mem::swap(&mut args, &mut m.staged);
            assert(m@ =~= old(m)@.unstaged());
            assert(values_view(args@) == old(m)@.staged);
            let ghost staged = values_view(args@);
            let ghost unstaged = m@;
            let r = call_function(
                modules,
                host,
                m,
                module.as_str(),
                function.as_str(),
                args,
                fuel,
            );
            let ghost landed = m@;
            let ghost given = m.history();
            proof {
                assert forall|answers: Seq<ValueModel>| extends(answers, given) implies run_op(
                    world,
                    instruction@,
                    old(m)@,
                    fuel_spec,
                    answers,
                ) == crate::semantics::land(called(r, landed)) by {
                    assert(run_call(
                        world,
                        module@,
                        function@,
                        staged,
                        unstaged,
                        fuel_spec,
                        answers,
                    ) == called(r, landed));
                }
            }
            match r {
                Err(e) => Err(e),
                Ok(v) => {
                    m.push(v);
                    assert(crate::semantics::land(called(r, landed)) == ended(
                        Ok(Completion::Normal),
                        m@,
                    ));
                    Ok(Completion::Normal)
                },
            }
        },
        _ => {
            let r = m.perform(host, instruction);
            proof {
                assert forall|answers: Seq<ValueModel>|
                    extends(answers, m.history()) implies run_op(
                    world,
                    instruction@,
                    old(m)@,
                    fuel_spec,
                    answers,
                ) == ended(r, m@) by {
                    assert(crate::semantics::step(world.host, instruction@, old(m)@, answers)
                        == ended(r, m@));
                }
            }
            r
        },
    }
}

/// Runs a loop.
fn execute_loop(
    modules: &Vec<Entry<Module>>,
    host: &Option<Box<dyn Host>>,
    m: &mut MachineState,
    block: &Code,
    fuel: u64,
) -> (r: Result<Completion, ExecError>)
    ensures
        extends(final(m).history(), old(m).history()),
        grown(final(m).log@, old(m).log@),
        forall|answers: Seq<ValueModel>|
            #![trigger run_loop(world_of(modules@, *host), code_view(block@), old(m)@, fuel as nat, answers)]
            extends(answers, final(m).history()) ==> run_loop(
                world_of(modules@, *host),
                code_view(block@),
                old(m)@,
                fuel as nat,
                answers,
            ) == ended(r, final(m)@),
    decreases fuel, 1nat, block, 1nat,
{
    let ghost world = world_of(modules@, *host);
    let ghost ops = code_view(block@);
    let ghost start = m@;
    let ghost fuel_spec = fuel as nat;
    let mut left: u64 = fuel;
    loop
        invariant
            left <= fuel,
            world == world_of(modules@, *host),
            ops == code_view(block@),
            fuel_spec == fuel as nat,
            start == old(m)@,
            extends(m.history(), old(m).history()),
            grown(m.log@, old(m).log@),
            forall|answers: Seq<ValueModel>|
                #![trigger run_loop(world, ops, start, fuel_spec, answers)]
                extends(answers, m.history()) ==> run_loop(world, ops, start, fuel_spec, answers)
                    == run_loop(world, ops, m@, left as nat, answers),
        decreases left,
    {
        if left == 0 {
            return Err(ExecError::LimitExceeded);
        }
        let ghost before = m@;
        let ghost given = m.history();
        let ghost had = left as nat;
        left = left - 1;
        let r = execute_block(modules, host, m, block, left);
        proof {
            assert forall|answers: Seq<ValueModel>| extends(answers, m.history()) implies run_loop(
                world,
                ops,
                start,
                fuel_spec,
                answers,
            ) == (match r {
                Err(e) => Err(e),
                Ok(Completion::Broke) => Ok((Outcome::Normal, m@)),
                Ok(Completion::Returned(v)) => Ok((Outcome::Returned(v@), m@)),
                Ok(_) => run_loop(world, ops, m@, left as nat, answers),
            }) by {
                assert(extends(answers, given));
                assert(run_block(world, ops, before, left as nat, answers) == ended(r, m@));
                assert(run_loop(world, ops, start, fuel_spec, answers) == run_loop(
                    world,
                    ops,
                    before,
                    had,
                    answers,
                ));
            }
        }
        match r {
            Err(e) => {
                return Err(e);
            },
            Ok(Completion::Broke) => {
                return Ok(Completion::Normal);
            },
            Ok(Completion::Returned(v)) => {
                return Ok(Completion::Returned(v));
            },
            Ok(_) => {},
        }
    }
}

/// Calls a function by name on an argument list.
fn call_function(
    modules: &Vec<Entry<Module>>,
    host: &Option<Box<dyn Host>>,
    m: &mut MachineState,
    module: &str,
    function: &str,
    args: Vec<Value>,
    fuel: u64,
) -> (r: Result<Value, ExecError>)
    ensures
        extends(final(m).history(), old(m).history()),
        grown(final(m).log@, old(m).log@),
        forall|answers: Seq<ValueModel>|
            #![trigger run_call(world_of(modules@, *host), module@, function@, values_view(args@), old(m)@, fuel as nat, answers)]
            extends(answers, final(m).history()) ==> run_call(
                world_of(modules@, *host),
                module@,
                function@,
                values_view(args@),
                old(m)@,
                fuel as nat,
                answers,
            ) == called(r, final(m)@),
    decreases fuel, 0nat, args, 0nat,
{
    let ghost world = world_of(modules@, *host);
    let ghost fuel_spec = fuel as nat;
    let ghost passed = values_view(args@);
    let at = match find(modules, module) {
        Some(at) => at,
        None => {
            return Err(ExecError::UnknownModule);
        },
    };
    assert(world.program.dom().contains(module@));
    assert(world.program[module@] == modules[at as int].item@);
    let f = match modules[at].item.get_function(function) {
        Some(f) => f,
        None => {
            return Err(ExecError::UnknownFunction);
        },
    };
    assert(crate::semantics::resolve(world.program, module@, function@) == Ok::<
        crate::function::FunctionModel,
        ExecError,
    >(f@));
    match f {
        Function::Native { function: callback, .. } => {
            let v = callback.call(args);
            let ghost request = Request::Native {
                module: module@,
                function: function@,
                promise: callback.promise(),
                args: passed,
            };
            proof {
                m.log@ = m.log@.push(Exchange { request, answer: v@ });
            }
            m.staged = Vec::new();
            proof {
                let n = old(m).history().len() as int;
                assert(m@ =~= old(m)@.unstaged().asking(request));
                assert forall|answers: Seq<ValueModel>|
                    extends(answers, m.history()) implies run_call(
                    world,
                    module@,
                    function@,
                    passed,
                    old(m)@,
                    fuel_spec,
                    answers,
                ) == called(Ok(v), m@) by {
                    assert(answers[n] == m.history()[n]);
                }
            }
            Ok(v)
        },
        Function::ByteCode { code, .. } => {
            if fuel == 0 {
                return Err(ExecError::LimitExceeded);
            }
            m.frames.push(args);
            assert(m@ =~~= old(m)@.entered(passed));
            let ghost entered = m@;
            let r = execute_block(modules, host, m, code, fuel - 1);
            let ghost after = m@;
            let ghost given = m.history();
            proof {
                assert forall|answers: Seq<ValueModel>| extends(answers, given) implies run_call(
                    world,
                    module@,
                    function@,
                    passed,
                    old(m)@,
                    fuel_spec,
                    answers,
                ) == crate::semantics::leave(ended(r, after)) by {
                    assert(run_block(
                        world,
                        code_view(code@),
                        entered,
                        (fuel - 1) as nat,
                        answers,
                    ) == ended(r, after));
                }
            }
            match r {
                Err(e) => Err(e),
                Ok(c) => {
                    proof {
                        assert(extends(given, given));
                        crate::laws::lemma_block_keeps_frames(
                            world,
                            code_view(code@),
                            entered,
                            (fuel - 1) as nat,
                            given,
                        );
                    }
                    m.frames.pop();
                    m.staged = Vec::new();
                    assert(m@ =~~= after.left().unstaged());
                    Ok(
                        match c {
                            Completion::Returned(v) => v,
                            _ => Value::Integer(0),
                        },
                    )
                },
            }
        },
    }
}

/// A virtual machine: modules to call into, and the state of the run.
///
/// A run that ends in an error leaves the machine empty: no operands, no
/// frames, nothing staged. The modules stay.
pub struct VirtualMachine {
    machine: MachineState,
    modules: Vec<Entry<Module>>,
    host: Option<Box<dyn Host>>,
    limit: u64,
}

impl VirtualMachine {
    /// The operand stack, the frames and the staged arguments.
    pub closed spec fn machine(&self) -> Machine {
        self.machine@
    }

    /// What was asked of the host so far and what it answered, oldest
    /// first.
    pub closed spec fn exchanged(&self) -> Seq<Exchange> {
        self.machine.log@
    }

    /// What the host answered so far, oldest first: one answer for each
    /// request that the machine made.
    pub closed spec fn history(&self) -> Seq<ValueModel> {
        self.machine.history()
    }

    /// The loaded modules, and whether there is a host.
    pub closed spec fn world(&self) -> World {
        world_of(self.modules@, self.host)
    }

    /// How deep loops and calls may go.
    pub closed spec fn limit(&self) -> nat {
        self.limit as nat
    }

    /// The requests of the machine and the answers of the host are those of
    /// the exchanges, one for one.
    pub proof fn lemma_one_answer_each(&self)
        ensures
            self.machine().asked == crate::machine::requests_of(self.exchanged()),
            self.history() == crate::machine::answers_of(self.exchanged()),
            self.history().len() == self.machine().asked.len(),
    {
    }

    /// A machine without modules and without a host. It can run everything
    /// but float arithmetic, and its debugging instructions do nothing.
    pub fn new() -> (vm: VirtualMachine)
        ensures
            vm.machine() == Machine::empty(Seq::empty()),
            vm.exchanged() == Seq::<Exchange>::empty(),
            vm.world() == (World { program: Map::empty(), host: false }),
            vm.limit() == u64::MAX,
    {
        let vm = VirtualMachine {
            machine: MachineState::new(),
            modules: Vec::new(),
            host: None,
            limit: u64::MAX,
        };
        assert(vm.world().program =~= Map::empty());
        vm
    }

    /// A machine without modules whose float arithmetic and debugging output
    /// go to `host`.
    pub fn with_host(host: Box<dyn Host>) -> (vm: VirtualMachine)
        ensures
            vm.machine() == Machine::empty(Seq::empty()),
            vm.exchanged() == Seq::<Exchange>::empty(),
            vm.world() == (World { program: Map::empty(), host: true }),
            vm.limit() == u64::MAX,
    {
        let vm = VirtualMachine {
            machine: MachineState::new(),
            modules: Vec::new(),
            host: Some(host),
            limit: u64::MAX,
        };
        assert(vm.world().program =~= Map::empty());
        vm
    }

    /// Sets how deep loops and calls may go: every pass of a loop and every
    /// entry into the code of a function leaves one less for what runs
    /// inside it.
    pub fn set_limit(&mut self, limit: u64)
        ensures
            final(self).limit() == limit,
            final(self).machine() == old(self).machine(),
            final(self).exchanged() == old(self).exchanged(),
            final(self).world() == old(self).world(),
    {
        self.limit = limit;
    }

    /// Makes `module` callable under `name`, in place of a module that had
    /// that name.
    pub fn load_module(&mut self, name: &str, module: Module)
        ensures
            final(self).world() == (World {
                program: old(self).world().program.insert(name@, module@),
                ..old(self).world()
            }),
            final(self).machine() == old(self).machine(),
            final(self).exchanged() == old(self).exchanged(),
            final(self).limit() == old(self).limit(),
    {
        put(&mut self.modules, name.to_owned(), module);
    }

    /// Whether a call of `function` in `module` would find its function.
    pub fn has_function(&self, module: &str, function: &str) -> (r: bool)
        ensures
            r == (crate::semantics::resolve(self.world().program, module@, function@) is Ok),
    {
        match find(&self.modules, module) {
            Some(at) => self.modules[at].item.get_function(function).is_some(),
            None => false,
        }
    }

    /// The operand stack, top last.
    pub fn stack(&self) -> (r: &Vec<Value>)
        ensures
            values_view(r@) == self.machine().stack,
    {
        &self.machine.stack
    }

    /// The arguments staged for the next call, oldest first.
    pub fn staged(&self) -> (r: &Vec<Value>)
        ensures
            values_view(r@) == self.machine().staged,
    {
        &self.machine.staged
    }

    /// The locals of the calls in progress, innermost last.
    pub fn frames(&self) -> (r: &Vec<Vec<Value>>)
        ensures
            crate::value::frames_view(r@) == self.machine().frames,
    {
        &self.machine.frames
    }

    /// Runs `code` on the machine as it stands and says how the code ended.
    ///
    /// Whatever the host answers while the code runs, the end is the one
    /// that [`run_block`] gives for those answers. Every answer taken on the
    /// way is one that the host may give: the value of a native function is
    /// one that its callback promises for the arguments handed to it.
    pub fn execute(&mut self, code: &Code) -> (r: Result<Completion, ExecError>)
        ensures
            final(self).world() == old(self).world(),
            final(self).limit() == old(self).limit(),
            grown(final(self).exchanged(), old(self).exchanged()),
            forall|answers: Seq<ValueModel>|
                #![trigger run_block(old(self).world(), code_view(code@), old(self).machine(), old(self).limit(), answers)]
                extends(answers, final(self).history()) ==> run_block(
                    old(self).world(),
                    code_view(code@),
                    old(self).machine(),
                    old(self).limit(),
                    answers,
                ) == ended(r, final(self).machine()),
            r is Err ==> final(self).machine() == Machine::empty(final(self).machine().asked),
    {
        let r = execute_block(&self.modules, &self.host, &mut self.machine, code, self.limit);
        if r.is_err() {
            self.machine.reset();
        }
        r
    }

    /// Calls the function `name` of `module` on `args` and gives its value:
    /// what it returned, or the integer 0 if its code ended without a
    /// `Return`.
    ///
    /// Whatever the host answers during the call, the value is the one that
    /// [`run_call`] gives for those answers. Every answer taken on the way
    /// is one that the host may give: the value of a native function is one
    /// that its callback promises for the arguments handed to it.
    pub fn call(&mut self, module: &str, name: &str, args: Vec<Value>) -> (r: Result<
        Value,
        ExecError,
    >)
        ensures
            final(self).world() == old(self).world(),
            final(self).limit() == old(self).limit(),
            grown(final(self).exchanged(), old(self).exchanged()),
            forall|answers: Seq<ValueModel>|
                #![trigger run_call(old(self).world(), module@, name@, values_view(args@), old(self).machine(), old(self).limit(), answers)]
                extends(answers, final(self).history()) ==> run_call(
                    old(self).world(),
                    module@,
                    name@,
                    values_view(args@),
                    old(self).machine(),
                    old(self).limit(),
                    answers,
                ) == called(r, final(self).machine()),
            r is Err ==> final(self).machine() == Machine::empty(final(self).machine().asked),
    {
        let r = call_function(
            &self.modules,
            &self.host,
            &mut self.machine,
            module,
            name,
            args,
            self.limit,
        );
        if r.is_err() {
            self.machine.reset();
        }
        r
    }
}

} // verus!
