use ms_runtime::version::{VERSION_MAJOR, VERSION_MINOR, VERSION_PATCH};
use ms_runtime::{Block, ByteCode, ByteReader, Function, Instruction, Module, ModuleBuilder};

#[test]
fn test_module_builder_function() {
    let mut builder = ModuleBuilder::new();

    builder.fn_start("test");
    builder.none();
    builder.end();

    let bytecode = builder.get_bytecode();

    let mut reader = ByteReader::new(&bytecode);

    // Check the version
    assert_eq!(reader.read_byte(), Some(VERSION_MAJOR as u8));
    assert_eq!(reader.read_byte(), Some(VERSION_MINOR as u8));
    assert_eq!(reader.read_byte(), Some(VERSION_PATCH as u8));

    // Check the function
    assert_eq!(reader.read_byte(), Some(ByteCode::Func.to_u8()));
    assert_eq!(reader.read_u32(), Some(1));
    assert_eq!(reader.read_string(), Some("test".to_string()));

    // Check the bytecode
    assert_eq!(reader.read_byte(), Some(ByteCode::Nop.to_u8()));
}

fn body_of(module: &Module, name: &str) -> Vec<Instruction> {
    match module.get_function(name) {
        Some(Function::ByteCode { code, .. }) => ms_runtime::instruction::clone_code(code),
        _ => panic!("no code"),
    }
}

#[test]
fn what_the_builder_emits_loads_as_what_was_built() {
    let mut builder = ModuleBuilder::new();
    builder.fn_start("main");
    builder.push_const_string("hi");
    builder.push_arg();
    builder.call("std", "print");
    builder.pop();
    builder.loop_start();
    builder.push_const_integer(-7);
    builder.dup();
    builder.add(ByteCode::Lt);
    builder.if_start();
    builder.add(ByteCode::Continue);
    builder.end();
    builder.else_start();
    builder.add(ByteCode::Break);
    builder.end();
    builder.if_start();
    builder.pop_arg();
    builder.end();
    builder.none();
    builder.end();
    builder.push_const_float((1.5f32).to_bits());
    builder.add(ByteCode::GetLocal);
    builder.add_u32(3);
    builder.add(ByteCode::Return);
    builder.end();

    builder.fn_start("other");
    builder.end();

    let bytes = builder.get_bytecode();
    let module = Module::from_bytes(&bytes).unwrap();
    assert_eq!(
        body_of(&module, "main"),
        vec![
            Instruction::PushConstString { value: "hi".to_string() },
            Instruction::PushArg,
            Instruction::Call { module: "std".to_string(), function: "print".to_string() },
            Instruction::Pop,
            Instruction::Loop {
                block: vec![
                    Instruction::PushConstInteger { value: -7 },
                    Instruction::Dup,
                    Instruction::Lt,
                    Instruction::If {
                        if_block: vec![Instruction::Continue],
                        else_block: vec![Instruction::Break],
                    },
                    Instruction::If { if_block: vec![Instruction::PopArg], else_block: vec![] },
                    Instruction::Nop,
                ],
            },
            Instruction::PushConstFloat { value: (1.5f32).to_bits() },
            Instruction::GetLocal { index: 3 },
            Instruction::Return,
        ]
    );
    assert_eq!(body_of(&module, "other"), vec![]);

    let whole = Instruction::from_bytecode(&bytes[3..].to_vec()).unwrap();
    assert_eq!(Instruction::code_to_bytes(&whole), bytes[3..].to_vec());
}

#[test]
fn the_builder_writes_the_documented_bytes() {
    let mut builder = ModuleBuilder::new();
    builder.fn_start("f");
    builder.loop_start();
    builder.add(ByteCode::Break);
    builder.end();
    builder.add_i32(-2);
    builder.add_f32(0x0102_0304);
    builder.add_string("x");
    builder.end();
    assert_eq!(
        builder.get_bytecode(),
        vec![
            0, 1, 0, 0x03, 0, 0, 0, 19, 0, 0, 0, 1, b'f', 0x1f, 0, 0, 0, 1, 0x20, 0xff, 0xff,
            0xff, 0xfe, 1, 2, 3, 4, 0, 0, 0, 1, b'x'
        ]
    );
}

#[test]
fn a_function_built_twice_stays_once() {
    let mut builder = ModuleBuilder::new();
    builder.fn_start("f");
    builder.pop();
    builder.end();
    builder.fn_start("g");
    builder.end();
    builder.fn_start("f");
    builder.dup();
    builder.end();
    let bytes = builder.get_bytecode();
    assert_eq!(
        bytes,
        vec![
            0, 1, 0, 0x03, 0, 0, 0, 1, 0, 0, 0, 1, b'f', 0x0c, 0x03, 0, 0, 0, 0, 0, 0, 0, 1, b'g'
        ]
    );
    let module = Module::from_bytes(&bytes).unwrap();
    assert_eq!(body_of(&module, "f"), vec![Instruction::Dup]);
}

#[test]
fn the_innermost_block_can_be_reached() {
    let mut builder = ModuleBuilder::new();
    builder.fn_start("f");
    builder.get_current_bytecode().push(0x0b);
    match builder.get_current_block() {
        Block::Function(name, bytes) => {
            assert_eq!(name, "f");
            assert_eq!(*bytes, vec![0x0b]);
        }
        _ => panic!("no function"),
    }
    builder.loop_start();
    assert!(matches!(builder.get_current_block(), Block::Loop(_)));
    builder.end();
    builder.if_start();
    assert!(matches!(builder.get_current_block(), Block::If(_)));
    builder.end();
    builder.else_start();
    assert!(matches!(builder.get_current_block(), Block::Else(_)));
    builder.end();
    builder.end();
    assert_eq!(
        builder.get_bytecode(),
        vec![
            0, 1, 0, 0x03, 0, 0, 0, 16, 0, 0, 0, 1, b'f', 0x0b, 0x1f, 0, 0, 0, 0, 0x1d, 0, 0, 0,
            0, 0x1e, 0, 0, 0, 0
        ]
    );
}

#[test]
fn an_empty_builder_is_a_header() {
    assert_eq!(ModuleBuilder::new().get_bytecode(), vec![0, 1, 0]);
}

#[test]
fn the_builder_knows_what_can_end() {
    let mut builder = ModuleBuilder::new();
    assert_eq!(builder.depth(), 0);
    assert!(!builder.can_end());
    assert!(builder.fits());
    builder.fn_start("f");
    assert_eq!(builder.depth(), 1);
    assert!(builder.can_end());
    builder.loop_start();
    assert_eq!(builder.depth(), 2);
    assert!(builder.can_end());
    *builder.get_current_block() = Block::Function("inner".to_string(), vec![0x0b]);
    assert!(builder.can_end());
    builder.end();
    builder.end();
    assert_eq!(builder.depth(), 0);
    assert!(builder.fits());
    assert_eq!(
        builder.get_bytecode(),
        vec![
            0, 1, 0, 0x03, 0, 0, 0, 1, 0, 0, 0, 5, b'i', b'n', b'n', b'e', b'r', 0x0b, 0x03, 0, 0,
            0, 0, 0, 0, 0, 1, b'f'
        ]
    );
}
