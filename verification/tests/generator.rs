use hivm::code_generator::generate;
use hivm::errors::{ErrorKind, Reason};
use hivm::isa::{ByteCodes, Width};
use hivm::lang::{
    AddressLike, AsmInstruction, AsmNode, AsmNodeValue, AsmValue, Number, NumberLike,
    ENTRY_SECTION_NAME,
};
use hivm::symbol_table::{StaticID, StaticValue, Symbol, SymbolID, SymbolTable};
use hivm::tokenizer::SourceToken;

fn token(string: &'static str, column: usize) -> SourceToken<'static> {
    SourceToken { string, unit_path: "unit", line_index: 0, column }
}

fn section(name: &'static str) -> AsmNode<'static> {
    AsmNode { value: AsmNodeValue::Section(name), source: token(".", 1) }
}

fn label(name: &'static str) -> AsmNode<'static> {
    AsmNode { value: AsmNodeValue::Label(name), source: token("@", 1) }
}

fn instruction(instruction: AsmInstruction<'static>) -> AsmNode<'static> {
    AsmNode { value: AsmNodeValue::Instruction(instruction), source: token("op", 1) }
}

fn number(value: u64) -> (NumberLike, SourceToken<'static>) {
    (NumberLike::from_number(&Number::Uint(value)), token("n", 5))
}

/// A table with the symbols `a`, `b`, `c`, … without values.
fn table(names: &[&'static str]) -> SymbolTable<'static> {
    let mut table = SymbolTable::new();
    for name in names {
        let symbol = Symbol { source: token(name, 9), name, value: None };
        assert!(table.declare_symbol(name, symbol).is_ok());
    }
    table
}

#[test]
fn without_nodes_there_is_the_header() {
    let code = generate(&vec![], &SymbolTable::new()).unwrap();
    assert_eq!(code, vec![71, 0, 0, 0, 0, 0, 0, 0, 0]);
}

#[test]
fn the_header_jumps_to_the_entry_section() {
    assert_eq!(ENTRY_SECTION_NAME, "text");
    let nodes = vec![
        section("data"),
        instruction(AsmInstruction::DefineBytes { bytes: vec![number(1), number(2), number(3)] }),
        section("text"),
        instruction(AsmInstruction::Plain(ByteCodes::Nop)),
    ];
    let code = generate(&nodes, &SymbolTable::new()).unwrap();
    assert_eq!(code, vec![71, 12, 0, 0, 0, 0, 0, 0, 0, 1, 2, 3, 94]);

    let nodes = vec![section("code"), instruction(AsmInstruction::Plain(ByteCodes::Nop))];
    let code = generate(&nodes, &SymbolTable::new()).unwrap();
    assert_eq!(code, vec![71, 0, 0, 0, 0, 0, 0, 0, 0, 94]);
}

#[test]
fn labels_stand_for_the_offset_of_the_next_byte() {
    let table = table(&["first", "second", "text"]);
    let address = |id| AsmInstruction::Address {
        code: ByteCodes::JumpConst,
        addr: (AddressLike::Symbol(SymbolID(id)), token("l", 10)),
    };
    let nodes = vec![
        section("text"),
        label("first"),
        instruction(address(1)),
        instruction(address(0)),
        label("second"),
        instruction(address(2)),
    ];
    let code = generate(&nodes, &table).unwrap();
    assert_eq!(code.len(), 9 + 3 * 9);
    // first = 9, second = 27, text = 9
    assert_eq!(&code[0..9], &[71, 9, 0, 0, 0, 0, 0, 0, 0]);
    assert_eq!(&code[9..18], &[71, 27, 0, 0, 0, 0, 0, 0, 0]);
    assert_eq!(&code[18..27], &[71, 9, 0, 0, 0, 0, 0, 0, 0]);
    assert_eq!(&code[27..36], &[71, 9, 0, 0, 0, 0, 0, 0, 0]);
}

#[test]
fn a_label_that_is_defined_twice_stands_for_its_last_offset() {
    let table = table(&["twice"]);
    let nodes = vec![
        section("s"),
        label("twice"),
        instruction(AsmInstruction::Address {
            code: ByteCodes::Call,
            addr: (AddressLike::Symbol(SymbolID(0)), token("l", 10)),
        }),
        label("twice"),
    ];
    let code = generate(&nodes, &table).unwrap();
    assert_eq!(&code[9..], &[93, 18, 0, 0, 0, 0, 0, 0, 0]);
}

#[test]
fn an_undefined_symbol_is_refused_where_it_is_used() {
    let table = table(&["nowhere"]);
    let nodes = vec![
        section("text"),
        instruction(AsmInstruction::Address {
            code: ByteCodes::JumpConst,
            addr: (AddressLike::Symbol(SymbolID(0)), token("nowhere", 10)),
        }),
    ];
    let error = generate(&nodes, &table).unwrap_err();
    assert_eq!(error.reason, Reason::UndefinedSymbol);
    assert_eq!(error.reason.kind(), ErrorKind::UndefinedSymbol);
    assert_eq!(error.token, token("nowhere", 10));

    let nodes = vec![
        section("text"),
        instruction(AsmInstruction::Address {
            code: ByteCodes::JumpConst,
            addr: (AddressLike::Symbol(SymbolID(7)), token("ghost", 10)),
        }),
    ];
    let error = generate(&nodes, &table).unwrap_err();
    assert_eq!(error.reason, Reason::UndefinedSymbol);
    assert_eq!(error.token, token("ghost", 10));
}

#[test]
fn items_need_a_section() {
    let error = generate(&vec![instruction(AsmInstruction::Plain(ByteCodes::Nop))], &SymbolTable::new())
        .unwrap_err();
    assert_eq!(error.reason, Reason::OutsideSection);
    assert_eq!(error.reason.kind(), ErrorKind::OutsideSection);
    assert_eq!(error.token, token("op", 1));
    let error = generate(&vec![label("early")], &SymbolTable::new()).unwrap_err();
    assert_eq!(error.reason, Reason::OutsideSection);
    assert_eq!(error.token, token("@", 1));
    assert!(generate(&vec![section("s"), label("fine")], &SymbolTable::new()).is_ok());
}

#[test]
fn addresses_take_eight_bytes() {
    let nodes = vec![
        section("s"),
        instruction(AsmInstruction::Address {
            code: ByteCodes::LoadStatic1,
            addr: (AddressLike::Number(Number::Uint(0x0102)), token("a", 3)),
        }),
        instruction(AsmInstruction::Address {
            code: ByteCodes::Call,
            addr: (AddressLike::CurrentPosition, token("$", 3)),
        }),
    ];
    let code = generate(&nodes, &SymbolTable::new()).unwrap();
    assert_eq!(&code[9..18], &[30, 2, 1, 0, 0, 0, 0, 0, 0]);
    // `$` is the offset of the operand itself.
    assert_eq!(&code[18..27], &[93, 19, 0, 0, 0, 0, 0, 0, 0]);
}

#[test]
fn an_address_must_be_an_unsigned_integer() {
    for number in [Number::Int(-1), Number::Int(5), Number::Float(0)] {
        let nodes = vec![
            section("s"),
            instruction(AsmInstruction::Address {
                code: ByteCodes::JumpConst,
                addr: (AddressLike::Number(number), token("a", 3)),
            }),
        ];
        let error = generate(&nodes, &SymbolTable::new()).unwrap_err();
        assert_eq!(error.reason, Reason::InvalidAddress);
        assert_eq!(error.reason.kind(), ErrorKind::InvalidArgument);
        assert_eq!(error.token, token("a", 3));
    }
}

fn load(code: ByteCodes, width: Width, value: NumberLike) -> Vec<AsmNode<'static>> {
    vec![
        section("s"),
        instruction(AsmInstruction::Number { code, width, value: (value, token("v", 12)) }),
    ]
}

#[test]
fn numbers_take_the_width_of_their_instruction() {
    let table = SymbolTable::new();
    let one = |n| NumberLike::from_number(&n);
    assert_eq!(
        &generate(&load(ByteCodes::LoadConst1, Width::W1, one(Number::Uint(255))), &table).unwrap()[9..],
        &[35, 255]
    );
    assert_eq!(
        &generate(&load(ByteCodes::LoadConst2, Width::W2, one(Number::Uint(255))), &table).unwrap()[9..],
        &[36, 255, 0]
    );
    assert_eq!(
        &generate(&load(ByteCodes::LoadConst4, Width::W4, one(Number::Int(-2))), &table).unwrap()[9..],
        &[37, 0xFE, 0xFF, 0xFF, 0xFF]
    );
    assert_eq!(
        &generate(&load(ByteCodes::LoadConst8, Width::W8, one(Number::Int(-2))), &table).unwrap()[9..],
        &[38, 0xFE, 0xFF, 0xFF, 0xFF, 0xFF, 0xFF, 0xFF, 0xFF]
    );
    assert_eq!(
        &generate(&load(ByteCodes::LoadConst1, Width::W1, one(Number::Int(-128))), &table).unwrap()[9..],
        &[35, 0x80]
    );
    let bits = 1.5f64.to_bits();
    assert_eq!(
        &generate(&load(ByteCodes::LoadConst8, Width::W8, one(Number::Float(bits))), &table).unwrap()[9..],
        &[&[38u8][..], &bits.to_le_bytes()[..]].concat()[..]
    );
    assert_eq!(
        &generate(&load(ByteCodes::LoadConst8, Width::W8, NumberLike::CurrentPosition), &table)
            .unwrap()[9..],
        &[38, 10, 0, 0, 0, 0, 0, 0, 0]
    );
}

#[test]
fn a_number_that_needs_more_bytes_is_refused() {
    let table = SymbolTable::new();
    let cases = [
        (Width::W1, Number::Uint(256), 1, 2),
        (Width::W1, Number::Int(-129), 1, 2),
        (Width::W2, Number::Uint(0x10000), 2, 4),
        (Width::W4, Number::Uint(0x1_0000_0000), 4, 8),
        (Width::W4, Number::Int(i64::MIN), 4, 8),
        (Width::W2, Number::Float(0), 2, 4),
        (Width::W4, Number::Float(1e300f64.to_bits()), 4, 8),
    ];
    for (width, value, size, needed) in cases {
        let nodes = load(ByteCodes::LoadConst1, width, NumberLike::from_number(&value));
        let error = generate(&nodes, &table).unwrap_err();
        assert_eq!(error.reason, Reason::ConstantTooLarge { size, needed });
        assert_eq!(error.token, token("v", 12));
    }
    let error = generate(&load(ByteCodes::LoadConst4, Width::W4, NumberLike::CurrentPosition), &table)
        .unwrap_err();
    assert_eq!(error.reason, Reason::ConstantTooLarge { size: 4, needed: 8 });
}

#[test]
fn a_symbol_with_a_value_is_written_if_it_fits() {
    let mut table = table(&["ten", "big", "minus", "label", "alias"]);
    table.define_symbol(SymbolID(0), Some(AsmValue::Const(Number::Uint(10))), token("10", 1));
    table.define_symbol(SymbolID(1), Some(AsmValue::Const(Number::Uint(300))), token("300", 1));
    table.define_symbol(SymbolID(2), Some(AsmValue::Const(Number::Int(-1))), token("-1", 1));
    table.define_symbol(SymbolID(4), Some(AsmValue::Symbol(SymbolID(0))), token("ten", 1));
    let symbol = |id| NumberLike::Symbol(SymbolID(id));

    assert_eq!(
        &generate(&load(ByteCodes::LoadConst1, Width::W1, symbol(0)), &table).unwrap()[9..],
        &[35, 10]
    );
    assert_eq!(
        &generate(&load(ByteCodes::LoadConst2, Width::W2, symbol(1)), &table).unwrap()[9..],
        &[36, 44, 1]
    );
    // A symbol that stands for a symbol that stands for a number.
    assert_eq!(
        &generate(&load(ByteCodes::LoadConst4, Width::W4, symbol(4)), &table).unwrap()[9..],
        &[37, 10, 0, 0, 0]
    );
    let error = generate(&load(ByteCodes::LoadConst1, Width::W1, symbol(1)), &table).unwrap_err();
    assert_eq!(error.reason, Reason::ConstantTooLarge { size: 1, needed: 2 });
    let error = generate(&load(ByteCodes::LoadConst8, Width::W8, symbol(2)), &table).unwrap_err();
    assert_eq!(error.reason, Reason::InvalidAddress);
    // A label needs eight bytes.
    let error = generate(&load(ByteCodes::LoadConst4, Width::W4, symbol(3)), &table).unwrap_err();
    assert_eq!(error.reason, Reason::ConstantTooLarge { size: 4, needed: 8 });
}

#[test]
fn load_static_bytes_takes_an_address_and_a_count() {
    let table = table(&["data"]);
    let nodes = vec![
        section("s"),
        instruction(AsmInstruction::LoadStaticBytes {
            addr: (AddressLike::Symbol(SymbolID(0)), token("data", 3)),
            count: number(3),
        }),
        label("data"),
    ];
    let code = generate(&nodes, &table).unwrap();
    assert_eq!(
        &code[9..],
        &[34, 26, 0, 0, 0, 0, 0, 0, 0, 3, 0, 0, 0, 0, 0, 0, 0]
    );
    let nodes = vec![
        section("s"),
        instruction(AsmInstruction::LoadStaticBytes {
            addr: (AddressLike::Number(Number::Uint(0)), token("0", 3)),
            count: (NumberLike::from_number(&Number::Int(-3)), token("-3", 7)),
        }),
    ];
    let error = generate(&nodes, &table).unwrap_err();
    assert_eq!(error.reason, Reason::InvalidCount);
    assert_eq!(error.token, token("-3", 7));
}

#[test]
fn constant_bytes_are_counted() {
    let nodes = vec![
        section("s"),
        instruction(AsmInstruction::LoadConstBytes {
            bytes: vec![number(1), number(255), (NumberLike::from_number(&Number::Int(-1)), token("-1", 9))],
        }),
        instruction(AsmInstruction::LoadConstBytes { bytes: vec![] }),
    ];
    let code = generate(&nodes, &SymbolTable::new()).unwrap();
    assert_eq!(
        &code[9..],
        &[39, 3, 0, 0, 0, 0, 0, 0, 0, 1, 255, 255, 39, 0, 0, 0, 0, 0, 0, 0, 0]
    );
}

#[test]
fn a_byte_must_fit_in_a_byte() {
    let table = SymbolTable::new();
    let makers: [fn(Vec<(NumberLike, SourceToken<'static>)>) -> AsmInstruction<'static>; 2] = [
        |bytes| AsmInstruction::LoadConstBytes { bytes },
        |bytes| AsmInstruction::DefineBytes { bytes },
    ];
    for make in makers {
        let nodes = vec![section("s"), instruction(make(vec![number(1), number(256)]))];
        let error = generate(&nodes, &table).unwrap_err();
        assert_eq!(error.reason, Reason::ConstantTooLarge { size: 1, needed: 2 });
        let nodes = vec![
            section("s"),
            instruction(make(vec![(NumberLike::from_number(&Number::Float(0)), token("0.0", 4))])),
        ];
        let error = generate(&nodes, &table).unwrap_err();
        assert_eq!(error.reason, Reason::FloatNotAllowed);
        assert_eq!(error.token, token("0.0", 4));
        let nodes = vec![
            section("s"),
            instruction(make(vec![(NumberLike::CurrentPosition, token("$", 4))])),
        ];
        let error = generate(&nodes, &table).unwrap_err();
        assert_eq!(error.reason, Reason::ConstantTooLarge { size: 1, needed: 8 });
    }
}

fn define(size: NumberLike, value: NumberLike) -> Vec<AsmNode<'static>> {
    vec![
        section("s"),
        instruction(AsmInstruction::DefineNumber {
            size: (size, token("size", 4)),
            value: (value, token("value", 6)),
        }),
    ]
}

#[test]
fn a_defined_number_is_padded_with_zeros() {
    let table = SymbolTable::new();
    let uint = |n| NumberLike::from_number(&Number::Uint(n));
    let int = |n| NumberLike::from_number(&Number::Int(n));
    assert_eq!(&generate(&define(uint(4), uint(0xFF)), &table).unwrap()[9..], &[0xFF, 0, 0, 0]);
    assert_eq!(&generate(&define(uint(2), uint(0x1234)), &table).unwrap()[9..], &[0x34, 0x12]);
    assert_eq!(&generate(&define(uint(1), uint(7)), &table).unwrap()[9..], &[7]);
    assert_eq!(
        &generate(&define(uint(10), uint(u64::MAX)), &table).unwrap()[9..],
        &[255, 255, 255, 255, 255, 255, 255, 255, 0, 0]
    );
    // The bytes that a negative number needs, then zeros.
    assert_eq!(&generate(&define(uint(4), int(-1)), &table).unwrap()[9..], &[0xFF, 0, 0, 0]);
    assert_eq!(&generate(&define(uint(4), int(-129)), &table).unwrap()[9..], &[0x7F, 0xFF, 0, 0]);
    assert_eq!(
        &generate(&define(uint(8), NumberLike::CurrentPosition), &table).unwrap()[9..],
        &[9, 0, 0, 0, 0, 0, 0, 0]
    );
}

#[test]
fn a_defined_number_must_fit_its_size() {
    let table = SymbolTable::new();
    let uint = |n| NumberLike::from_number(&Number::Uint(n));
    let error = generate(&define(uint(2), uint(0x10000)), &table).unwrap_err();
    assert_eq!(error.reason, Reason::ConstantTooLarge { size: 2, needed: 4 });
    assert_eq!(error.token, token("value", 6));
    let error = generate(&define(uint(0), uint(0)), &table).unwrap_err();
    assert_eq!(error.reason, Reason::ConstantTooLarge { size: 0, needed: 1 });
    let error = generate(&define(uint(4), NumberLike::CurrentPosition), &table).unwrap_err();
    assert_eq!(error.reason, Reason::ConstantTooLarge { size: 4, needed: 8 });
}

#[test]
fn the_size_of_a_defined_number_is_a_literal() {
    let table = SymbolTable::new();
    let uint = |n| NumberLike::from_number(&Number::Uint(n));
    for size in [
        NumberLike::from_number(&Number::Int(-4)),
        NumberLike::from_number(&Number::Float(0)),
        NumberLike::CurrentPosition,
    ] {
        let error = generate(&define(size, uint(1)), &table).unwrap_err();
        assert_eq!(error.reason, Reason::InvalidSize);
        assert_eq!(error.token, token("size", 4));
    }
    let error = generate(&define(NumberLike::Symbol(SymbolID(0)), uint(1)), &table).unwrap_err();
    assert_eq!(error.reason, Reason::SymbolNotAllowed);
    assert_eq!(error.token, token("size", 4));
    let error = generate(&define(uint(8), NumberLike::Symbol(SymbolID(0))), &table).unwrap_err();
    assert_eq!(error.reason, Reason::SymbolNotAllowed);
    assert_eq!(error.token, token("value", 6));
}

#[test]
fn a_string_is_written_as_its_bytes() {
    let mut table = SymbolTable::new();
    let id = table.declare_static(StaticValue::StringLiteral("hé\n".to_string()));
    assert_eq!(id, StaticID(0));
    let nodes = vec![section("s"), instruction(AsmInstruction::DefineString { static_id: id })];
    let code = generate(&nodes, &table).unwrap();
    assert_eq!(&code[9..], "hé\n".as_bytes());
    let nodes = vec![
        section("s"),
        instruction(AsmInstruction::DefineString { static_id: StaticID(5) }),
    ];
    let error = generate(&nodes, &table).unwrap_err();
    assert_eq!(error.reason, Reason::ExpectedString);
}

#[test]
fn a_return_is_a_jump_to_the_address_on_the_stack() {
    let nodes = vec![section("s"), instruction(AsmInstruction::Return)];
    let code = generate(&nodes, &SymbolTable::new()).unwrap();
    assert_eq!(&code[9..], &[ByteCodes::Jump.to_byte()]);
    assert_eq!(&code[9..], &[72]);
}

#[test]
fn the_first_error_is_reported() {
    let table = table(&["nowhere"]);
    let nodes = vec![
        section("text"),
        instruction(AsmInstruction::Address {
            code: ByteCodes::JumpConst,
            addr: (AddressLike::Symbol(SymbolID(0)), token("nowhere", 10)),
        }),
        instruction(AsmInstruction::Number {
            code: ByteCodes::LoadConst1,
            width: Width::W1,
            value: number(1000),
        }),
    ];
    // The constant is refused while walking, the symbol only at the end.
    let error = generate(&nodes, &table).unwrap_err();
    assert_eq!(error.reason, Reason::ConstantTooLarge { size: 1, needed: 2 });
}
