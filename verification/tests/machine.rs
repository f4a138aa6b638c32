use ms_runtime::machine::{evaluate, float_less, float_less_or_equal, floats_equal, Evaluation};
use ms_runtime::{
    BinaryOp, Completion, ExecError, FloatOp, Host, Instruction, Module, Value, VirtualMachine,
};
use std::cell::RefCell;
use std::rc::Rc;

struct Arithmetic {
    log: Rc<RefCell<Vec<String>>>,
}

impl Host for Arithmetic {
    fn float(&self, op: FloatOp, lhs: u32, rhs: u32) -> u32 {
        let a = f32::from_bits(lhs);
        let b = f32::from_bits(rhs);
        let r = match op {
            FloatOp::Add => a + b,
            FloatOp::Sub => a - b,
            FloatOp::Mul => a * b,
            FloatOp::Div => a / b,
        };
        r.to_bits()
    }

    fn hi(&self) {
        self.log.borrow_mut().push("Hi!".to_string());
    }

    fn dump(&self, stack: &Vec<Value>, frames: &Vec<Vec<Value>>) {
        self.log.borrow_mut().push(format!("{} {}", stack.len(), frames.len()));
    }
}

fn machine_with_host() -> (VirtualMachine, Rc<RefCell<Vec<String>>>) {
    let log = Rc::new(RefCell::new(Vec::new()));
    (VirtualMachine::with_host(Box::new(Arithmetic { log: log.clone() })), log)
}

fn integer(value: &Value) -> i32 {
    match value {
        Value::Integer(i) => *i,
        _ => panic!("no integer"),
    }
}

fn boolean(value: &Value) -> bool {
    match value {
        Value::Boolean(b) => *b,
        _ => panic!("no boolean"),
    }
}

fn float(value: &Value) -> f32 {
    match value {
        Value::Float(bits) => f32::from_bits(*bits),
        _ => panic!("no float"),
    }
}

fn text(value: &Value) -> String {
    match value {
        Value::String(s) => s.clone(),
        _ => panic!("no string"),
    }
}

fn push(value: i32) -> Instruction {
    Instruction::PushConstInteger { value }
}

fn push_float(value: f32) -> Instruction {
    Instruction::PushConstFloat { value: value.to_bits() }
}

fn push_text(value: &str) -> Instruction {
    Instruction::PushConstString { value: value.to_string() }
}

fn push_bool(value: bool) -> Instruction {
    Instruction::PushConstBoolean { value }
}

fn run(code: Vec<Instruction>) -> (VirtualMachine, Result<Completion, ExecError>) {
    let (mut vm, _) = machine_with_host();
    let r = vm.execute(&code);
    (vm, r)
}

fn top_after(code: Vec<Instruction>) -> Value {
    let (vm, r) = run(code);
    assert!(matches!(r, Ok(Completion::Normal)));
    vm.stack().last().unwrap().clone()
}

fn error_of(code: Vec<Instruction>) -> ExecError {
    let (vm, r) = run(code);
    assert!(vm.stack().is_empty());
    assert!(vm.frames().is_empty());
    assert!(vm.staged().is_empty());
    match r {
        Err(e) => e,
        Ok(_) => panic!("no error"),
    }
}

#[test]
fn push_dup_add_leaves_one_ten() {
    let (vm, r) = run(vec![push(5), Instruction::Dup, Instruction::Add]);
    assert!(matches!(r, Ok(Completion::Normal)));
    assert_eq!(vm.stack().len(), 1);
    assert_eq!(integer(&vm.stack()[0]), 10);
}

#[test]
fn a_loop_that_breaks_ends_normally() {
    let (vm, r) = run(vec![
        Instruction::Loop { block: vec![push(1), Instruction::Pop, Instruction::Break] },
        push(7),
    ]);
    assert!(matches!(r, Ok(Completion::Normal)));
    assert_eq!(vm.stack().len(), 1);
    assert_eq!(integer(&vm.stack()[0]), 7);
}

#[test]
fn an_if_hands_break_and_continue_to_its_loop() {
    // local 0 counts the passes; the loop goes on while it is below 3
    let body = vec![
        Instruction::ReserveLocal { size: 1 },
        push(0),
        Instruction::SetLocal { index: 0 },
        Instruction::Loop {
            block: vec![
                Instruction::GetLocal { index: 0 },
                push(1),
                Instruction::Add,
                Instruction::SetLocal { index: 0 },
                Instruction::GetLocal { index: 0 },
                push(3),
                Instruction::Lt,
                Instruction::If {
                    if_block: vec![Instruction::Continue],
                    else_block: vec![Instruction::Break],
                },
                push(99),
                Instruction::Return,
            ],
        },
        Instruction::GetLocal { index: 0 },
        Instruction::Return,
    ];
    let mut module = Module::new();
    module.add_function("count".to_string(), &body);
    let mut vm = VirtualMachine::new();
    vm.load_module("main", module);
    let r = vm.call("main", "count", vec![]).unwrap();
    assert_eq!(integer(&r), 3);
    assert!(vm.stack().is_empty());
    assert!(vm.frames().is_empty());
}

#[test]
fn a_call_binds_its_arguments_to_the_first_locals() {
    let body = vec![
        Instruction::GetLocal { index: 0 },
        Instruction::GetLocal { index: 1 },
        Instruction::Add,
        Instruction::Return,
    ];
    let mut module = Module::new();
    module.add_function("add2".to_string(), &body);
    let mut vm = VirtualMachine::new();
    vm.load_module("main", module);
    let r = vm.call("main", "add2", vec![Value::Integer(3), Value::Integer(4)]).unwrap();
    assert_eq!(integer(&r), 7);
}

#[test]
fn a_native_function_gets_the_staged_arguments_once() {
    let seen: Rc<RefCell<Vec<Vec<String>>>> = Rc::new(RefCell::new(Vec::new()));
    let sink = seen.clone();
    let mut std_module = Module::new();
    std_module.add_native_function(
        "print",
        Box::new(move |args: Vec<Value>| {
            sink.borrow_mut().push(args.iter().map(text).collect());
            Value::Null
        }),
    );
    let mut main = Module::new();
    main.add_function(
        "main".to_string(),
        &vec![
            push_text("hi"),
            Instruction::PushArg,
            Instruction::Call { module: "std".to_string(), function: "print".to_string() },
            Instruction::Pop,
        ],
    );
    let mut vm = VirtualMachine::new();
    vm.load_module("std", std_module);
    vm.load_module("main", main);
    let r = vm.call("main", "main", vec![]).unwrap();
    assert_eq!(integer(&r), 0);
    assert_eq!(*seen.borrow(), vec![vec!["hi".to_string()]]);
    assert!(vm.stack().is_empty());
    assert!(vm.staged().is_empty());
}

#[test]
fn the_left_operand_is_the_one_pushed_first() {
    assert_eq!(integer(&top_after(vec![push(10), push(3), Instruction::Sub])), 7);
    assert_eq!(integer(&top_after(vec![push(10), push(3), Instruction::Div])), 3);
    assert_eq!(integer(&top_after(vec![push(6), push(7), Instruction::Mul])), 42);
    assert!(boolean(&top_after(vec![push(1), push(2), Instruction::Lt])));
    assert!(!boolean(&top_after(vec![push(1), push(2), Instruction::Gt])));
    assert!(boolean(&top_after(vec![push(2), push(2), Instruction::Le])));
    assert!(boolean(&top_after(vec![push(2), push(2), Instruction::Ge])));
    assert!(boolean(&top_after(vec![push(2), push(2), Instruction::Eq])));
    assert!(!boolean(&top_after(vec![push(2), push(2), Instruction::Ne])));
    assert_eq!(text(&top_after(vec![push_text("ab"), push_text("cd"), Instruction::Add])), "abcd");
    assert!(boolean(&top_after(vec![push_text("ab"), push_text("ab"), Instruction::Eq])));
    assert!(boolean(&top_after(vec![push_text("ab"), push_text("ac"), Instruction::Ne])));
    assert!(boolean(&top_after(vec![push_bool(true), push_bool(true), Instruction::Eq])));
    assert!(boolean(&top_after(vec![push_bool(true), push_bool(false), Instruction::Ne])));
}

#[test]
fn integer_division_rounds_towards_zero() {
    assert_eq!(integer(&top_after(vec![push(7), push(2), Instruction::Div])), 3);
    assert_eq!(integer(&top_after(vec![push(-7), push(2), Instruction::Div])), -3);
    assert_eq!(integer(&top_after(vec![push(7), push(-2), Instruction::Div])), -3);
    assert_eq!(integer(&top_after(vec![push(-7), push(-2), Instruction::Div])), 3);
    assert_eq!(integer(&top_after(vec![push(i32::MIN), push(1), Instruction::Div])), i32::MIN);
}

#[test]
fn float_arithmetic_goes_to_the_host() {
    assert_eq!(float(&top_after(vec![push_float(1.5), push_float(2.25), Instruction::Add])), 3.75);
    assert_eq!(float(&top_after(vec![push_float(1.5), push_float(2.25), Instruction::Sub])), -0.75);
    assert_eq!(float(&top_after(vec![push_float(1.5), push_float(2.0), Instruction::Mul])), 3.0);
    assert_eq!(float(&top_after(vec![push_float(1.0), push_float(4.0), Instruction::Div])), 0.25);
    assert!(float(&top_after(vec![push_float(1.0), push_float(0.0), Instruction::Div])).is_infinite());
}

#[test]
fn float_arithmetic_without_a_host_is_an_error() {
    let mut vm = VirtualMachine::new();
    let r = vm.execute(&vec![push_float(1.5), push_float(2.25), Instruction::Add]);
    assert!(matches!(r, Err(ExecError::NoHost)));
    assert!(vm.stack().is_empty());
    let r = vm.execute(&vec![push_float(1.5), push_float(2.25), Instruction::Lt]);
    assert!(matches!(r, Ok(Completion::Normal)));
    assert!(boolean(&vm.stack()[0]));
}

#[test]
fn floats_compare_as_floats_do() {
    let samples: Vec<f32> = vec![
        0.0,
        -0.0,
        1.0,
        -1.0,
        0.5,
        -0.5,
        3.14,
        -3.14,
        f32::MIN_POSITIVE,
        -f32::MIN_POSITIVE,
        1.0e-45,
        -1.0e-45,
        f32::MAX,
        f32::MIN,
        f32::INFINITY,
        f32::NEG_INFINITY,
        f32::NAN,
        -f32::NAN,
        f32::from_bits(0x7fc0_0001),
        f32::from_bits(0xff80_0001),
    ];
    for a in samples.iter() {
        for b in samples.iter() {
            let (x, y) = (a.to_bits(), b.to_bits());
            assert_eq!(floats_equal(x, y), a == b, "{} == {}", a, b);
            assert_eq!(float_less(x, y), a < b, "{} < {}", a, b);
            assert_eq!(float_less_or_equal(x, y), a <= b, "{} <= {}", a, b);
            let compared = top_after(vec![push_float(*a), push_float(*b), Instruction::Gt]);
            assert_eq!(boolean(&compared), a > b, "{} > {}", a, b);
            let compared = top_after(vec![push_float(*a), push_float(*b), Instruction::Ge]);
            assert_eq!(boolean(&compared), a >= b, "{} >= {}", a, b);
            let compared = top_after(vec![push_float(*a), push_float(*b), Instruction::Ne]);
            assert_eq!(boolean(&compared), a != b, "{} != {}", a, b);
        }
    }
}

#[test]
fn evaluate_names_the_work_of_the_host() {
    let r = evaluate(BinaryOp::Mul, &Value::Float(7), &Value::Float(9));
    assert!(matches!(r, Evaluation::Float(FloatOp::Mul, 7, 9)));
    let r = evaluate(BinaryOp::Add, &Value::Integer(2), &Value::Integer(3));
    match r {
        Evaluation::Value(v) => assert_eq!(integer(&v), 5),
        _ => panic!("no value"),
    }
    let r = evaluate(BinaryOp::Add, &Value::Integer(2), &Value::Float(3));
    assert!(matches!(r, Evaluation::Fail(ExecError::TypeMismatch)));
}

#[test]
fn every_error_has_its_input() {
    assert_eq!(error_of(vec![Instruction::Pop]), ExecError::StackUnderflow);
    assert_eq!(error_of(vec![Instruction::Dup]), ExecError::StackUnderflow);
    assert_eq!(error_of(vec![push(1), Instruction::Add]), ExecError::StackUnderflow);
    assert_eq!(error_of(vec![Instruction::PushArg]), ExecError::StackUnderflow);
    assert_eq!(
        error_of(vec![Instruction::If { if_block: vec![], else_block: vec![] }]),
        ExecError::StackUnderflow
    );
    assert_eq!(
        error_of(vec![push(1), Instruction::If { if_block: vec![], else_block: vec![] }]),
        ExecError::TypeMismatch
    );
    assert_eq!(error_of(vec![push(1), push_text("a"), Instruction::Add]), ExecError::TypeMismatch);
    assert_eq!(error_of(vec![push_text("a"), push_text("b"), Instruction::Sub]), ExecError::TypeMismatch);
    assert_eq!(error_of(vec![push_bool(true), push_bool(true), Instruction::Lt]), ExecError::TypeMismatch);
    assert_eq!(error_of(vec![push_bool(true), push_bool(true), Instruction::Add]), ExecError::TypeMismatch);
    assert_eq!(error_of(vec![push(1), push(0), Instruction::Div]), ExecError::DivisionByZero);
    assert_eq!(error_of(vec![push(i32::MAX), push(1), Instruction::Add]), ExecError::Overflow);
    assert_eq!(error_of(vec![push(i32::MIN), push(1), Instruction::Sub]), ExecError::Overflow);
    assert_eq!(error_of(vec![push(0x10000), push(0x10000), Instruction::Mul]), ExecError::Overflow);
    assert_eq!(error_of(vec![push(i32::MIN), push(-1), Instruction::Div]), ExecError::Overflow);
    assert_eq!(
        error_of(vec![Instruction::Call { module: "no".to_string(), function: "f".to_string() }]),
        ExecError::UnknownModule
    );
    assert_eq!(error_of(vec![Instruction::GetLocal { index: 0 }]), ExecError::NoFrame);
    assert_eq!(error_of(vec![push(1), Instruction::SetLocal { index: 0 }]), ExecError::NoFrame);
    assert_eq!(error_of(vec![Instruction::SetLocal { index: 0 }]), ExecError::StackUnderflow);
    assert_eq!(error_of(vec![Instruction::ReserveLocal { size: 1 }]), ExecError::NoFrame);
    assert_eq!(error_of(vec![Instruction::PopArg]), ExecError::NoStagedArgument);
    assert_eq!(
        error_of(vec![Instruction::Func { name: "f".to_string(), code: vec![] }]),
        ExecError::NestedFunction
    );
}

fn machine_with(name: &str, body: Vec<Instruction>) -> VirtualMachine {
    let mut module = Module::new();
    module.add_function(name.to_string(), &body);
    let (mut vm, _) = machine_with_host();
    vm.load_module("main", module);
    vm
}

#[test]
fn errors_inside_calls_leave_the_machine_empty() {
    let mut vm = machine_with("f", vec![Instruction::GetLocal { index: 2 }]);
    let r = vm.call("main", "f", vec![Value::Integer(1)]);
    assert!(matches!(r, Err(ExecError::LocalOutOfRange)));
    assert!(vm.frames().is_empty());
    assert!(vm.stack().is_empty());

    let r = vm.call("main", "g", vec![]);
    assert!(matches!(r, Err(ExecError::UnknownFunction)));
    let r = vm.call("other", "f", vec![]);
    assert!(matches!(r, Err(ExecError::UnknownModule)));

    let mut vm = machine_with("f", vec![push(1), Instruction::SetLocal { index: 0 }]);
    assert!(matches!(vm.call("main", "f", vec![]), Err(ExecError::LocalOutOfRange)));
    assert!(vm.has_function("main", "f"));
    assert!(!vm.has_function("main", "g"));
    assert!(!vm.has_function("mein", "f"));
}

#[test]
fn locals_are_reserved_cut_and_filled_with_null() {
    let mut vm = machine_with(
        "f",
        vec![
            Instruction::ReserveLocal { size: 3 },
            Instruction::GetLocal { index: 0 },
            Instruction::GetLocal { index: 2 },
            Instruction::Dump,
            Instruction::ReserveLocal { size: 1 },
            Instruction::GetLocal { index: 0 },
            Instruction::Return,
        ],
    );
    let r = vm.call("main", "f", vec![Value::Integer(8), Value::Integer(9)]).unwrap();
    assert_eq!(integer(&r), 8);
    assert_eq!(vm.stack().len(), 2);
    assert_eq!(integer(&vm.stack()[0]), 8);
    assert!(matches!(vm.stack()[1], Value::Null));

    let mut vm = machine_with(
        "f",
        vec![Instruction::ReserveLocal { size: 1 }, Instruction::GetLocal { index: 1 }],
    );
    let r = vm.call("main", "f", vec![Value::Integer(8), Value::Integer(9)]);
    assert!(matches!(r, Err(ExecError::LocalOutOfRange)));
}

#[test]
fn a_body_without_return_gives_zero() {
    let mut vm = machine_with("f", vec![push(5)]);
    assert_eq!(integer(&vm.call("main", "f", vec![]).unwrap()), 0);
    let mut vm = machine_with("f", vec![Instruction::Break, push(5), Instruction::Return]);
    assert_eq!(integer(&vm.call("main", "f", vec![]).unwrap()), 0);
    let mut vm = machine_with("f", vec![Instruction::Return]);
    assert!(matches!(vm.call("main", "f", vec![]).unwrap(), Value::Null));
}

#[test]
fn return_goes_through_loops_and_ifs() {
    let mut vm = machine_with(
        "f",
        vec![
            Instruction::Loop {
                block: vec![
                    push_bool(true),
                    Instruction::If {
                        if_block: vec![push(11), Instruction::Return],
                        else_block: vec![],
                    },
                    push(12),
                    Instruction::Return,
                ],
            },
            push(13),
            Instruction::Return,
        ],
    );
    assert_eq!(integer(&vm.call("main", "f", vec![]).unwrap()), 11);
}

#[test]
fn execute_reports_how_the_code_ended() {
    let (_, r) = run(vec![Instruction::Break, push(1)]);
    assert!(matches!(r, Ok(Completion::Broke)));
    let (_, r) = run(vec![Instruction::Continue]);
    assert!(matches!(r, Ok(Completion::Continued)));
    let (vm, r) = run(vec![push(4), push(5), Instruction::Return, push(6)]);
    match r {
        Ok(Completion::Returned(v)) => assert_eq!(integer(&v), 5),
        _ => panic!("no return"),
    }
    assert_eq!(vm.stack().len(), 1);
    let (_, r) = run(vec![Instruction::Return]);
    assert!(matches!(r, Ok(Completion::Returned(Value::Null))));
    let (vm, r) = run(vec![Instruction::Nop, Instruction::Version { major: 9, minor: 9, patch: 9 }]);
    assert!(matches!(r, Ok(Completion::Normal)));
    assert!(vm.stack().is_empty());
}

#[test]
fn staged_arguments_come_back_oldest_first() {
    let (vm, r) = run(vec![
        push(1),
        Instruction::PushArg,
        push(2),
        Instruction::PushArg,
        Instruction::PopArg,
    ]);
    assert!(matches!(r, Ok(Completion::Normal)));
    assert_eq!(vm.stack().len(), 1);
    assert_eq!(integer(&vm.stack()[0]), 1);
    assert_eq!(vm.staged().len(), 1);
    assert_eq!(integer(&vm.staged()[0]), 2);
}

#[test]
fn a_call_instruction_takes_all_staged_arguments() {
    let mut vm = machine_with(
        "sub",
        vec![
            Instruction::GetLocal { index: 0 },
            Instruction::GetLocal { index: 1 },
            Instruction::Sub,
            push(77),
            Instruction::PushArg,
            Instruction::Return,
        ],
    );
    let r = vm.execute(&vec![
        push(10),
        Instruction::PushArg,
        push(4),
        Instruction::PushArg,
        Instruction::Call { module: "main".to_string(), function: "sub".to_string() },
    ]);
    assert!(matches!(r, Ok(Completion::Normal)));
    assert_eq!(vm.stack().len(), 1);
    assert_eq!(integer(&vm.stack()[0]), 6);
    assert!(vm.staged().is_empty());
    assert!(vm.frames().is_empty());
}

#[test]
fn the_limit_stops_what_would_not_end() {
    let (mut vm, _) = machine_with_host();
    vm.set_limit(1000);
    let r = vm.execute(&vec![Instruction::Loop { block: vec![Instruction::Nop] }]);
    assert!(matches!(r, Err(ExecError::LimitExceeded)));

    let mut vm = machine_with(
        "f",
        vec![Instruction::Call { module: "main".to_string(), function: "f".to_string() }],
    );
    vm.set_limit(100);
    assert!(matches!(vm.call("main", "f", vec![]), Err(ExecError::LimitExceeded)));
    assert!(vm.frames().is_empty());

    let mut vm = machine_with("f", vec![push(3), Instruction::Return]);
    vm.set_limit(0);
    assert!(matches!(vm.call("main", "f", vec![]), Err(ExecError::LimitExceeded)));
    vm.set_limit(1);
    assert_eq!(integer(&vm.call("main", "f", vec![]).unwrap()), 3);
}

#[test]
fn a_loop_may_run_as_often_as_the_limit() {
    // counts down from 50; 51 passes are needed, the last one breaks
    let body = vec![
        Instruction::ReserveLocal { size: 1 },
        Instruction::Loop {
            block: vec![
                Instruction::GetLocal { index: 0 },
                push(0),
                Instruction::Le,
                Instruction::If { if_block: vec![Instruction::Break], else_block: vec![] },
                Instruction::GetLocal { index: 0 },
                push(1),
                Instruction::Sub,
                Instruction::SetLocal { index: 0 },
            ],
        },
        Instruction::GetLocal { index: 0 },
        Instruction::Return,
    ];
    let mut vm = machine_with("down", body);
    vm.set_limit(52);
    assert_eq!(integer(&vm.call("main", "down", vec![Value::Integer(50)]).unwrap()), 0);
    vm.set_limit(51);
    assert!(matches!(
        vm.call("main", "down", vec![Value::Integer(50)]),
        Err(ExecError::LimitExceeded)
    ));
}

#[test]
fn debugging_instructions_reach_the_host() {
    let (mut vm, log) = machine_with_host();
    let r = vm.execute(&vec![Instruction::Hi, push(1), Instruction::Dump]);
    assert!(matches!(r, Ok(Completion::Normal)));
    assert_eq!(*log.borrow(), vec!["Hi!".to_string(), "1 0".to_string()]);
    let mut quiet = VirtualMachine::new();
    assert!(matches!(quiet.execute(&vec![Instruction::Hi, Instruction::Dump]), Ok(Completion::Normal)));
}

#[test]
fn a_later_module_takes_the_name() {
    let mut first = Module::new();
    first.add_function("f".to_string(), &vec![push(1), Instruction::Return]);
    let mut second = Module::new();
    second.add_function("f".to_string(), &vec![push(2), Instruction::Return]);
    let mut vm = VirtualMachine::new();
    vm.load_module("m", first);
    vm.load_module("m", second);
    assert_eq!(integer(&vm.call("m", "f", vec![]).unwrap()), 2);
}

#[test]
fn objects_are_shared_not_copied() {
    let object = std::sync::Arc::new(ms_runtime::Object::Values(vec![Box::new(Value::Integer(1))]));
    let (vm, r) = {
        let mut module = Module::new();
        let handle = object.clone();
        module.add_native_function("make", Box::new(move |_args: Vec<Value>| Value::Object(handle.clone())));
        let mut vm = VirtualMachine::new();
        vm.load_module("m", module);
        let r = vm.execute(&vec![
            Instruction::Call { module: "m".to_string(), function: "make".to_string() },
            Instruction::Dup,
        ]);
        (vm, r)
    };
    assert!(matches!(r, Ok(Completion::Normal)));
    match (&vm.stack()[0], &vm.stack()[1]) {
        (Value::Object(a), Value::Object(b)) => {
            assert!(std::sync::Arc::ptr_eq(a, b));
            assert!(std::sync::Arc::ptr_eq(a, &object));
        }
        _ => panic!("no objects"),
    }
}

#[test]
fn errors_read_as_sentences() {
    let all = vec![
        (ExecError::StackUnderflow, "No elements in the stack"),
        (ExecError::TypeMismatch, "Invalid types"),
        (ExecError::DivisionByZero, "Division by zero"),
        (ExecError::Overflow, "Integer overflow"),
        (ExecError::UnknownModule, "Module not found"),
        (ExecError::UnknownFunction, "Function not found"),
        (ExecError::NoFrame, "Local variable not found"),
        (ExecError::LocalOutOfRange, "Local variable not found"),
        (ExecError::NoStagedArgument, "No staged argument"),
        (ExecError::NestedFunction, "Function call not allowed here"),
        (ExecError::NoHost, "No host for float arithmetic"),
        (ExecError::LimitExceeded, "Limit exceeded"),
    ];
    for (error, text) in all {
        assert_eq!(error.message(), text);
    }
}

#[test]
fn long_loops_and_deep_calls_run_through() {
    let down = vec![
        Instruction::ReserveLocal { size: 1 },
        Instruction::Loop {
            block: vec![
                Instruction::GetLocal { index: 0 },
                push(0),
                Instruction::Le,
                Instruction::If { if_block: vec![Instruction::Break], else_block: vec![] },
                Instruction::GetLocal { index: 0 },
                push(1),
                Instruction::Sub,
                Instruction::SetLocal { index: 0 },
            ],
        },
        Instruction::GetLocal { index: 0 },
        Instruction::Return,
    ];
    let mut vm = machine_with("down", down);
    assert_eq!(integer(&vm.call("main", "down", vec![Value::Integer(200_000)]).unwrap()), 0);

    // sum(n) = if n <= 0 { 0 } else { n + sum(n - 1) }
    let sum = vec![
        Instruction::GetLocal { index: 0 },
        push(0),
        Instruction::Le,
        Instruction::If { if_block: vec![push(0), Instruction::Return], else_block: vec![] },
        Instruction::GetLocal { index: 0 },
        push(1),
        Instruction::Sub,
        Instruction::PushArg,
        Instruction::Call { module: "main".to_string(), function: "sum".to_string() },
        Instruction::GetLocal { index: 0 },
        Instruction::Add,
        Instruction::Return,
    ];
    let mut vm = machine_with("sum", sum);
    assert_eq!(integer(&vm.call("main", "sum", vec![Value::Integer(300)]).unwrap()), 45150);
    assert!(vm.frames().is_empty());
    assert!(vm.stack().is_empty());
}
