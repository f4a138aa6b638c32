use ms_runtime::decoding::{DecodeError, Field};
use ms_runtime::version::{version, VERSION_MAJOR, VERSION_MINOR, VERSION_PATCH};
use ms_runtime::{Function, Instruction, LoadError, Module, Options, Value};

#[test]
fn module_from_source() {
    let code = vec![
        Instruction::Version {
            major: VERSION_MAJOR,
            minor: VERSION_MINOR,
            patch: VERSION_PATCH,
        },
        Instruction::Func {
            name: "test".to_string(),
            code: vec![],
        },
    ];

    let _module = Module::try_from(code).unwrap();
}

#[test]
fn module_native_function() {
    let mut module = Module::new();

    module.add_native_function("test", Box::new(|_args: Vec<Value>| Value::Integer(42)));

    let function = module.get_function("test").unwrap();

    match function {
        Function::Native { name: _, function } => {
            let value = function.call(vec![]);

            match value {
                Value::Integer(value) => {
                    assert_eq!(value, 42);
                }
                _ => {
                    panic!("Invalid return value");
                }
            }
        }
        _ => {
            panic!("Invalid function type");
        }
    }
}

fn error_of(r: Result<Module, LoadError>) -> LoadError {
    match r {
        Err(e) => e,
        Ok(_) => panic!("no error"),
    }
}

fn body_of(module: &Module, name: &str) -> Vec<Instruction> {
    match module.get_function(name) {
        Some(Function::ByteCode { name: own, code }) => {
            assert_eq!(own, name);
            ms_runtime::instruction::clone_code(code)
        }
        _ => panic!("no code"),
    }
}

#[test]
fn any_other_version_is_refused() {
    let tail = vec![0x03, 0, 0, 0, 0, 0, 0, 0, 1, b'f'];
    for major in 0..=3u8 {
        for minor in 0..=3u8 {
            for patch in 0..=3u8 {
                let mut bytes = vec![major, minor, patch];
                bytes.extend_from_slice(&tail);
                let r = Module::from_bytes(&bytes);
                if (major, minor, patch) == (VERSION_MAJOR, VERSION_MINOR, VERSION_PATCH) {
                    assert!(r.unwrap().get_function("f").is_some());
                } else {
                    assert_eq!(error_of(r), LoadError::VersionMismatch);
                }
            }
        }
    }
    assert_eq!(error_of(Module::from_bytes(&vec![])), LoadError::VersionMismatch);
    assert_eq!(error_of(Module::from_bytes(&vec![0, 1])), LoadError::VersionMismatch);
    assert_eq!(error_of(Module::from_bytes(&vec![0, 1, 255])), LoadError::VersionMismatch);
    assert!(Module::from_bytes(&vec![0, 1, 0]).is_ok());
}

#[test]
fn loading_tells_its_faults_apart() {
    assert_eq!(
        error_of(Module::from_bytes(&vec![0, 1, 0, 0x03, 0, 0, 0, 5, 0, 0, 0, 1, b'f', 0x00])),
        LoadError::Malformed(DecodeError::Expected { field: Field::FunctionCode })
    );
    assert_eq!(
        error_of(Module::from_bytes(&vec![0, 1, 0, 0x99])),
        LoadError::Malformed(DecodeError::UnknownOpcode { byte: 0x99 })
    );
    assert_eq!(error_of(Module::from_bytes(&vec![0, 1, 0, 0x00])), LoadError::NotAFunction);
    assert_eq!(
        error_of(Module::from_bytes(&vec![0, 1, 0, 0x0d, 0, 1, 0])),
        LoadError::NotAFunction
    );
    assert_eq!(
        error_of(Module::from_bytes(&vec![0, 1, 0, 0x03, 0, 0, 0, 0, 0, 0, 0, 1, b'f', 0x0b])),
        LoadError::NotAFunction
    );
    assert_eq!(error_of(Module::try_from(vec![0u8, 2, 0])), LoadError::VersionMismatch);
}

#[test]
fn instructions_need_their_version_first() {
    let function = Instruction::Func { name: "f".to_string(), code: vec![] };
    assert_eq!(error_of(Module::from_instructions(&vec![])), LoadError::VersionMismatch);
    assert_eq!(
        error_of(Module::from_instructions(&vec![function.clone()])),
        LoadError::VersionMismatch
    );
    assert_eq!(
        error_of(Module::from_instructions(&vec![
            Instruction::Version { major: 0, minor: 1, patch: 1 },
            function.clone()
        ])),
        LoadError::VersionMismatch
    );
    assert_eq!(
        error_of(Module::from_instructions(&vec![
            Instruction::Version { major: 0, minor: 1, patch: 0 },
            function.clone(),
            Instruction::Version { major: 0, minor: 1, patch: 0 },
        ])),
        LoadError::NotAFunction
    );
    let module = Module::from_instructions(&vec![
        Instruction::Version { major: 0, minor: 1, patch: 0 },
        function,
    ])
    .unwrap();
    assert_eq!(body_of(&module, "f"), vec![]);
}

#[test]
fn of_two_functions_with_one_name_the_later_stays() {
    let mut module = Module::new();
    module.add_function("f".to_string(), &vec![Instruction::Pop]);
    module.add_function("g".to_string(), &vec![Instruction::Nop]);
    module.add_function("f".to_string(), &vec![Instruction::Dup]);
    assert_eq!(body_of(&module, "f"), vec![Instruction::Dup]);
    assert_eq!(body_of(&module, "g"), vec![Instruction::Nop]);
    assert!(module.get_function("h").is_none());

    module.add_native_function("g", Box::new(|_args: Vec<Value>| Value::Null));
    assert!(matches!(module.get_function("g"), Some(Function::Native { .. })));

    let loaded = Module::from_instructions(&vec![
        Instruction::Version { major: 0, minor: 1, patch: 0 },
        Instruction::Func { name: "f".to_string(), code: vec![Instruction::Pop] },
        Instruction::Func { name: "f".to_string(), code: vec![Instruction::Dup] },
    ])
    .unwrap();
    assert_eq!(body_of(&loaded, "f"), vec![Instruction::Dup]);
}

#[test]
fn a_function_can_be_changed_in_place() {
    let mut module = Module::new();
    module.add_function("f".to_string(), &vec![Instruction::Pop]);
    match module.get_function_mut("f") {
        Some(Function::ByteCode { code, .. }) => code.push(Instruction::Dup),
        _ => panic!("no code"),
    }
    assert_eq!(body_of(&module, "f"), vec![Instruction::Pop, Instruction::Dup]);
    assert!(module.get_function_mut("g").is_none());
}

#[test]
fn the_version_reads_as_three_numbers() {
    assert_eq!(version(), "0.1.0");
}

#[test]
fn options_start_at_main() {
    let options = Options::new();
    assert_eq!(options.output, "");
    assert_eq!(options.input, "");
    assert_eq!(options.entry, "main.main");
    assert!(!options.time);
}

#[test]
fn load_faults_read_as_sentences() {
    assert_eq!(LoadError::VersionMismatch.message(), "Invalid version");
    assert_eq!(LoadError::NotAFunction.message(), "Invalid instruction type");
    assert_eq!(
        LoadError::Malformed(DecodeError::Expected { field: Field::FunctionName }).message(),
        "Expected function name"
    );
}
