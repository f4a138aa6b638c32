use ms_runtime::decoding::{DecodeError, Field};
use ms_runtime::{ByteCode, ByteReader, Instruction};

#[test]
fn instruction_to_bytes() {
    let code = vec![
        Instruction::PushConstInteger { value: 42 },
        Instruction::PushConstFloat { value: (3.14f32).to_bits() },
        Instruction::Add,
        Instruction::Return,
    ];

    let bytes = Instruction::code_to_bytes(&code);

    let mut reader = ByteReader::new(&bytes);

    assert_eq!(reader.read_byte().unwrap(), ByteCode::PushConstInt.to_u8());
    assert_eq!(reader.read_i32().unwrap(), 42);

    assert_eq!(reader.read_byte().unwrap(), ByteCode::PushConstFloat.to_u8());
    assert_eq!(f32::from_bits(reader.read_f32().unwrap()), 3.14);

    assert_eq!(reader.read_byte().unwrap(), ByteCode::Add.to_u8());

    assert_eq!(reader.read_byte().unwrap(), ByteCode::Return.to_u8());
}

#[test]
fn instruction_from_bytes() {
    let bytes = vec![
        ByteCode::PushConstInt.to_u8(),
        0x00,
        0x00,
        0x00,
        42,
        ByteCode::PushConstFloat.to_u8(),
        0x40,
        0x48,
        0xf5,
        0xc3,
        ByteCode::Add.to_u8(),
        ByteCode::Return.to_u8(),
    ];

    let code = Instruction::from_bytecode(&bytes).unwrap();

    assert_eq!(code.len(), 4);

    match &code[0] {
        Instruction::PushConstInteger { value } => assert_eq!(*value, 42),
        _ => panic!("Invalid instruction"),
    }

    match &code[1] {
        Instruction::PushConstFloat { value } => assert_eq!(f32::from_bits(*value), 3.14),
        _ => panic!("Invalid instruction"),
    }

    match &code[2] {
        Instruction::Add => {}
        _ => panic!("Invalid instruction"),
    }

    match &code[3] {
        Instruction::Return => {}
        _ => panic!("Invalid instruction"),
    }
}

#[test]
fn opcode_table_is_fixed() {
    let table: Vec<(ByteCode, u8)> = vec![
        (ByteCode::Nop, 0x00),
        (ByteCode::Dump, 0x01),
        (ByteCode::Hi, 0x02),
        (ByteCode::Func, 0x03),
        (ByteCode::Call, 0x04),
        (ByteCode::PushConstString, 0x06),
        (ByteCode::PushConstInt, 0x07),
        (ByteCode::PushConstFloat, 0x08),
        (ByteCode::PushArg, 0x09),
        (ByteCode::PopArg, 0x0a),
        (ByteCode::Pop, 0x0b),
        (ByteCode::Dup, 0x0c),
        (ByteCode::Version, 0x0d),
        (ByteCode::PushConstBoolean, 0x0e),
        (ByteCode::GetLocal, 0x0f),
        (ByteCode::SetLocal, 0x10),
        (ByteCode::ReserveLocal, 0x11),
        (ByteCode::Add, 0x12),
        (ByteCode::Sub, 0x13),
        (ByteCode::Mul, 0x14),
        (ByteCode::Div, 0x15),
        (ByteCode::Eq, 0x16),
        (ByteCode::Ne, 0x17),
        (ByteCode::Lt, 0x18),
        (ByteCode::Le, 0x19),
        (ByteCode::Gt, 0x1a),
        (ByteCode::Ge, 0x1b),
        (ByteCode::Return, 0x1c),
        (ByteCode::If, 0x1d),
        (ByteCode::Else, 0x1e),
        (ByteCode::Loop, 0x1f),
        (ByteCode::Break, 0x20),
        (ByteCode::Continue, 0x21),
    ];
    for (opcode, byte) in table.iter() {
        assert_eq!(opcode.to_u8(), *byte);
        assert_eq!(ByteCode::from_u8(*byte), Some(*opcode));
    }
    assert_eq!(ByteCode::from_u8(0x05), None);
    assert_eq!(ByteCode::from_u8(0x22), None);
    assert_eq!(ByteCode::from_u8(0xff), None);
}

#[test]
fn reader_reads_big_endian() {
    let bytes = vec![0x12, 0x34, 0x56, 0x78, 0xff, 0xff, 0xff, 0xfe, 0x02, 0x00];
    let mut reader = ByteReader::new(&bytes);
    assert_eq!(reader.read_u32(), Some(0x1234_5678));
    assert_eq!(reader.read_i32(), Some(-2));
    assert_eq!(reader.read_bool(), Some(true));
    assert_eq!(reader.read_bool(), Some(false));
    assert_eq!(reader.read_byte(), None);
}

#[test]
fn reader_stays_put_when_bytes_run_out() {
    let bytes = vec![0x00, 0x00, 0x01];
    let mut reader = ByteReader::new(&bytes);
    assert_eq!(reader.read_u32(), None);
    assert_eq!(reader.left(), 3);
    assert_eq!(reader.read_bytes(4), None);
    assert_eq!(reader.left(), 3);
    assert_eq!(reader.read_bytes(2), Some(vec![0x00, 0x00]));
    assert_eq!(reader.peek_byte(), Some(0x01));
    assert_eq!(reader.read_byte(), Some(0x01));
    assert_eq!(reader.left(), 0);
}

#[test]
fn reader_reads_strings() {
    let bytes = vec![0, 0, 0, 2, b'h', b'i', 0, 0, 0, 5, b'x'];
    let mut reader = ByteReader::new(&bytes);
    assert_eq!(reader.read_string(), Some("hi".to_string()));
    assert_eq!(reader.read_string(), None);
    assert_eq!(reader.left(), 5);
}

#[test]
fn reader_refuses_text_that_is_not_utf8() {
    let bytes = vec![0, 0, 0, 2, 0xc3, 0x28, 7];
    let mut reader = ByteReader::new(&bytes);
    assert_eq!(reader.read_string(), None);
    assert_eq!(reader.left(), 7);
    let good = vec![0, 0, 0, 2, 0xc3, 0xa9];
    let mut reader = ByteReader::new(&good);
    assert_eq!(reader.read_string(), Some("\u{e9}".to_string()));
}

#[test]
fn writer_appends_in_wire_format() {
    let mut buffer = vec![0xaa];
    ms_runtime::byte_writer::write_u32(&mut buffer, 0x0102_0304);
    ms_runtime::byte_writer::write_i32(&mut buffer, -1);
    ms_runtime::byte_writer::write_bool(&mut buffer, true);
    ms_runtime::byte_writer::write_bool(&mut buffer, false);
    ms_runtime::byte_writer::write_string(&mut buffer, "ab");
    ms_runtime::byte_writer::write_f32(&mut buffer, (1.0f32).to_bits());
    ms_runtime::byte_writer::write_byte(&mut buffer, 9);
    ms_runtime::byte_writer::write_bytes(&mut buffer, &[7, 8]);
    assert_eq!(
        buffer,
        vec![
            0xaa, 1, 2, 3, 4, 0xff, 0xff, 0xff, 0xff, 1, 0, 0, 0, 0, 2, b'a', b'b', 0x3f, 0x80, 0,
            0, 9, 7, 8
        ]
    );
}

#[test]
fn integers_keep_their_sign_on_the_wire() {
    for value in [0, 1, -1, 42, -42, i32::MAX, i32::MIN, 0x0102_0304, -0x0102_0304] {
        let bytes = Instruction::PushConstInteger { value }.to_bytes();
        assert_eq!(bytes[1..], value.to_be_bytes());
        let code = Instruction::from_bytecode(&bytes).unwrap();
        assert_eq!(code, vec![Instruction::PushConstInteger { value }]);
    }
}

fn sample() -> Vec<Instruction> {
    vec![
        Instruction::Version { major: 0, minor: 1, patch: 0 },
        Instruction::Func {
            name: "main".to_string(),
            code: vec![
                Instruction::ReserveLocal { size: 2 },
                Instruction::PushConstString { value: "h\u{e9}llo".to_string() },
                Instruction::PushConstFloat { value: (2.5f32).to_bits() },
                Instruction::PushConstBoolean { value: true },
                Instruction::SetLocal { index: 1 },
                Instruction::GetLocal { index: 1 },
                Instruction::Loop {
                    block: vec![
                        Instruction::If {
                            if_block: vec![Instruction::Continue],
                            else_block: vec![Instruction::Break],
                        },
                        Instruction::If { if_block: vec![], else_block: vec![] },
                        Instruction::If { if_block: vec![Instruction::Nop], else_block: vec![] },
                        Instruction::Nop,
                    ],
                },
                Instruction::PushArg,
                Instruction::PopArg,
                Instruction::Call { module: "std".to_string(), function: "print".to_string() },
                Instruction::Pop,
                Instruction::Dup,
                Instruction::Add,
                Instruction::Sub,
                Instruction::Mul,
                Instruction::Div,
                Instruction::Eq,
                Instruction::Ne,
                Instruction::Lt,
                Instruction::Le,
                Instruction::Gt,
                Instruction::Ge,
                Instruction::Dump,
                Instruction::Hi,
                Instruction::Return,
            ],
        },
    ]
}

#[test]
fn decoding_gives_back_what_was_encoded() {
    let code = sample();
    let bytes = Instruction::code_to_bytes(&code);
    let back = Instruction::from_bytecode(&bytes).unwrap();
    assert_eq!(back, code);
    assert_eq!(Instruction::encode_code(&code), Some(bytes));
}

#[test]
fn copies_are_equal() {
    let code = sample();
    let copy = ms_runtime::instruction::clone_code(&code);
    assert_eq!(copy, code);
    assert_eq!(code[1].clone(), code[1]);
}

#[test]
fn blocks_carry_their_length() {
    let looped = Instruction::Loop { block: vec![Instruction::Nop, Instruction::Break] };
    assert_eq!(looped.to_bytes(), vec![0x1f, 0, 0, 0, 2, 0x00, 0x20]);

    let plain_if = Instruction::If { if_block: vec![Instruction::Pop], else_block: vec![] };
    assert_eq!(plain_if.to_bytes(), vec![0x1d, 0, 0, 0, 1, 0x0b]);

    let with_else = Instruction::If {
        if_block: vec![Instruction::Pop],
        else_block: vec![Instruction::Dup, Instruction::Dup],
    };
    assert_eq!(
        with_else.to_bytes(),
        vec![0x1d, 0, 0, 0, 1, 0x0b, 0x1e, 0, 0, 0, 2, 0x0c, 0x0c]
    );

    let function = Instruction::Func { name: "f".to_string(), code: vec![Instruction::Return] };
    assert_eq!(function.to_bytes(), vec![0x03, 0, 0, 0, 1, 0, 0, 0, 1, b'f', 0x1c]);

    let version = Instruction::Version { major: 1, minor: 2, patch: 3 };
    assert_eq!(version.to_bytes(), vec![0x0d, 1, 2, 3]);
}

#[test]
fn an_else_with_nothing_in_it_decodes_to_an_empty_block() {
    let bytes = vec![0x1d, 0, 0, 0, 1, 0x0b, 0x1e, 0, 0, 0, 0, 0x0c];
    let code = Instruction::from_bytecode(&bytes).unwrap();
    assert_eq!(
        code,
        vec![
            Instruction::If { if_block: vec![Instruction::Pop], else_block: vec![] },
            Instruction::Dup
        ]
    );
}

#[test]
fn the_byte_behind_an_if_is_not_swallowed() {
    let bytes = vec![0x1d, 0, 0, 0, 0, 0x0c];
    let code = Instruction::from_bytecode(&bytes).unwrap();
    assert_eq!(
        code,
        vec![Instruction::If { if_block: vec![], else_block: vec![] }, Instruction::Dup]
    );
}

fn expected(field: Field) -> Result<Vec<Instruction>, DecodeError> {
    Err(DecodeError::Expected { field })
}

#[test]
fn a_function_body_longer_than_the_buffer_is_a_fault() {
    let bytes = vec![0x03, 0, 0, 0, 9, 0, 0, 0, 1, b'f', 0x1c];
    assert_eq!(Instruction::from_bytecode(&bytes), expected(Field::FunctionCode));
    let huge = vec![0x03, 0xff, 0xff, 0xff, 0xff, 0, 0, 0, 1, b'f'];
    assert_eq!(Instruction::from_bytecode(&huge), expected(Field::FunctionCode));
}

#[test]
fn every_fault_is_told_apart() {
    assert_eq!(
        Instruction::from_bytecode(&vec![0x05]),
        Err(DecodeError::UnknownOpcode { byte: 0x05 })
    );
    assert_eq!(
        Instruction::from_bytecode(&vec![0x00, 0xee]),
        Err(DecodeError::UnknownOpcode { byte: 0xee })
    );
    assert_eq!(Instruction::from_bytecode(&vec![0x1e]), Err(DecodeError::StrayElse));
    assert_eq!(
        Instruction::from_bytecode(&vec![0x1f, 0, 0, 0, 0, 0x1e, 0, 0, 0, 0]),
        Err(DecodeError::StrayElse)
    );
    assert_eq!(Instruction::from_bytecode(&vec![0x0d]), expected(Field::MajorVersion));
    assert_eq!(Instruction::from_bytecode(&vec![0x0d, 1]), expected(Field::MinorVersion));
    assert_eq!(Instruction::from_bytecode(&vec![0x0d, 1, 2]), expected(Field::PatchVersion));
    assert_eq!(Instruction::from_bytecode(&vec![0x03, 0, 0]), expected(Field::FunctionCodeLength));
    assert_eq!(
        Instruction::from_bytecode(&vec![0x03, 0, 0, 0, 0, 0, 0]),
        expected(Field::FunctionName)
    );
    assert_eq!(Instruction::from_bytecode(&vec![0x04, 0, 0, 0, 1]), expected(Field::ModuleName));
    assert_eq!(
        Instruction::from_bytecode(&vec![0x04, 0, 0, 0, 1, b'm', 0, 0, 0, 2, b'f']),
        expected(Field::FunctionName)
    );
    assert_eq!(Instruction::from_bytecode(&vec![0x06, 0, 0, 0, 3, b'a']), expected(Field::StringValue));
    assert_eq!(Instruction::from_bytecode(&vec![0x07, 0, 0, 0]), expected(Field::IntegerValue));
    assert_eq!(Instruction::from_bytecode(&vec![0x08, 0]), expected(Field::FloatValue));
    assert_eq!(Instruction::from_bytecode(&vec![0x0e]), expected(Field::BooleanValue));
    assert_eq!(Instruction::from_bytecode(&vec![0x0f, 0, 0, 0]), expected(Field::LocalIndex));
    assert_eq!(Instruction::from_bytecode(&vec![0x10]), expected(Field::LocalIndex));
    assert_eq!(Instruction::from_bytecode(&vec![0x11, 0, 0]), expected(Field::LocalSize));
    assert_eq!(Instruction::from_bytecode(&vec![0x1d, 0]), expected(Field::BlockCodeLength));
    assert_eq!(Instruction::from_bytecode(&vec![0x1f, 0, 0, 0, 2, 0]), expected(Field::BlockCode));
    assert_eq!(
        Instruction::from_bytecode(&vec![0x1d, 0, 0, 0, 0, 0x1e, 0, 0]),
        expected(Field::BlockCodeLength)
    );
    assert_eq!(
        Instruction::from_bytecode(&vec![0x1d, 0, 0, 0, 0, 0x1e, 0, 0, 0, 1]),
        expected(Field::BlockCode)
    );
}

#[test]
fn a_fault_inside_a_block_comes_before_one_behind_it() {
    let bytes = vec![0x1d, 0, 0, 0, 1, 0xee, 0x1e, 0, 0];
    assert_eq!(
        Instruction::from_bytecode(&bytes),
        Err(DecodeError::UnknownOpcode { byte: 0xee })
    );
}

#[test]
fn empty_bytes_are_no_instructions_at_all() {
    assert_eq!(Instruction::from_bytecode(&vec![]), Ok(vec![]));
    assert_eq!(Instruction::code_to_bytes(&vec![]), Vec::<u8>::new());
}

#[test]
fn faults_read_as_sentences() {
    assert_eq!(DecodeError::UnknownOpcode { byte: 0x05 }.message(), "Invalid instruction: 0x05");
    assert_eq!(DecodeError::UnknownOpcode { byte: 0xee }.message(), "Invalid instruction: 0xEE");
    assert_eq!(DecodeError::UnknownOpcode { byte: 0xa0 }.message(), "Invalid instruction: 0xA0");
    assert_eq!(DecodeError::StrayElse.message(), "Invalid instruction ELSE without IF");
    let fields = vec![
        (Field::MajorVersion, "Expected major version"),
        (Field::MinorVersion, "Expected minor version"),
        (Field::PatchVersion, "Expected patch version"),
        (Field::FunctionCodeLength, "Expected function code length"),
        (Field::FunctionName, "Expected function name"),
        (Field::FunctionCode, "Expected function code"),
        (Field::ModuleName, "Expected module name"),
        (Field::StringValue, "Expected string value"),
        (Field::IntegerValue, "Expected integer value"),
        (Field::FloatValue, "Expected float value"),
        (Field::BooleanValue, "Expected boolean value"),
        (Field::LocalIndex, "Expected local index"),
        (Field::LocalSize, "Expected local size"),
        (Field::BlockCodeLength, "Expected block code length"),
        (Field::BlockCode, "Expected block code"),
    ];
    for (field, text) in fields {
        assert_eq!(DecodeError::Expected { field }.message(), text);
    }
}

#[test]
fn a_function_body_too_long_is_a_fault_behind_other_instructions_too() {
    let mut bytes = Instruction::code_to_bytes(&vec![
        Instruction::Func { name: "ok".to_string(), code: vec![Instruction::Return] },
        Instruction::If { if_block: vec![Instruction::Pop], else_block: vec![] },
        Instruction::Nop,
    ]);
    bytes.extend_from_slice(&[0x03, 0, 0, 0, 3, 0, 0, 0, 1, b'f', 0x1c, 0x1c]);
    assert_eq!(Instruction::from_bytecode(&bytes), expected(Field::FunctionCode));
    bytes.push(0x1c);
    assert_eq!(Instruction::from_bytecode(&bytes).map(|code| code.len()), Ok(4));
}
