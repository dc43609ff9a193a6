use hivm::assembler::{assemble, SourceFile};
use hivm::errors::{AsmError, ErrorKind, Reason};
use hivm::isa::{ByteCodes, Width};
use hivm::lang::{AddressLike, AsmInstruction, AsmOperand, AsmValue, Number, NumberLike, PseudoInstructions};
use hivm::parser::{expand, parse_instruction, parse_operands, parse_pseudo, to_address, to_number, MacroDef};
use hivm::symbol_table::{StaticID, SymbolID, SymbolTable};
use hivm::tokenizer::{tokenize, SourceToken, Token, TokenValue};

fn assemble_text(text: &'static str) -> Result<Vec<u8>, AsmError<'static>> {
    let files = vec![SourceFile { path: "main.asm", text, floats: vec![Some(1.5f64.to_bits())] }];
    assemble("main.asm", &files, 100_000)
}

fn body(text: &'static str) -> Vec<u8> {
    assemble_text(text).unwrap()[9..].to_vec()
}

fn refused(text: &'static str) -> AsmError<'static> {
    assemble_text(text).unwrap_err()
}

fn source(string: &'static str, column: usize) -> SourceToken<'static> {
    SourceToken { string, unit_path: "unit", line_index: 0, column }
}

fn operand(value: AsmValue, string: &'static str, column: usize) -> AsmOperand<'static> {
    AsmOperand { value, source: source(string, column) }
}

fn main_token(value: TokenValue) -> Token<'static> {
    Token { source: source("main", 1), value, priority: 1 }
}

#[test]
fn operands_are_read_from_left_to_right() {
    let mut table = SymbolTable::new();
    let lines = tokenize(&["op \"s\" 'a' 7 -7 name $ %name"], "unit", &mut table, &[]).unwrap();
    let operands = parse_operands(&lines[0], 1, &table).unwrap();
    assert_eq!(
        operands,
        vec![
            operand(AsmValue::StringLiteral(StaticID(0)), "\"s\"", 4),
            operand(AsmValue::Const(Number::Uint(97)), "'a'", 8),
            operand(AsmValue::Const(Number::Uint(7)), "7", 12),
            operand(AsmValue::Const(Number::Int(-7)), "-7", 14),
            operand(AsmValue::Symbol(SymbolID(1)), "name", 17),
            operand(AsmValue::CurrentPosition, "$", 22),
            operand(AsmValue::MacroParameter(SymbolID(1)), "%", 24),
        ]
    );
    assert_eq!(parse_operands(&lines[0], 9, &table).unwrap(), vec![]);
    assert_eq!(parse_operands(&lines[0], 100, &table).unwrap(), vec![]);
    assert_eq!(parse_operands(&lines[0], 6, &table).unwrap().len(), 2);
}

#[test]
fn a_bang_stands_for_the_value_of_the_name_behind_it() {
    let mut table = SymbolTable::new();
    let lines = tokenize(&["op !ten ten"], "unit", &mut table, &[]).unwrap();
    let error = parse_operands(&lines[0], 1, &table).unwrap_err();
    assert_eq!(error.reason, Reason::MacroHasNoValue);
    assert_eq!(error.token.string, "ten");
    assert_eq!(error.token.column, 5);
    table.define_symbol(SymbolID(1), Some(AsmValue::Const(Number::Uint(10))), source("10", 1));
    assert_eq!(
        parse_operands(&lines[0], 1, &table).unwrap(),
        vec![
            operand(AsmValue::Const(Number::Uint(10)), "!", 4),
            operand(AsmValue::Symbol(SymbolID(1)), "ten", 9),
        ]
    );
}

#[test]
fn what_cannot_be_an_operand() {
    for (line, reason, string) in [
        ("op +", Reason::NotAnOperand, "+"),
        ("op 1 - 2", Reason::NotAnOperand, "-"),
        ("op *", Reason::NotAnOperand, "*"),
        ("op /", Reason::NotAnOperand, "/"),
        ("op nop", Reason::NotAnOperand, "nop"),
        ("op ret", Reason::NotAnOperand, "ret"),
        ("op .", Reason::NotAnOperand, "."),
        ("op @", Reason::NotAnOperand, "@"),
        ("op :", Reason::NotAnOperand, ":"),
        ("op %endmacro", Reason::NotAnOperand, "%endmacro"),
        ("op %=", Reason::NotAnOperand, "%="),
        ("op !", Reason::MissingName, "!"),
        ("op %", Reason::MissingName, "%"),
        ("op ! 5", Reason::ExpectedName, "5"),
        ("op % \"s\"", Reason::ExpectedName, "\"s\""),
    ] {
        let mut table = SymbolTable::new();
        let lines = tokenize(&[line], "unit", &mut table, &[]).unwrap();
        let error = parse_operands(&lines[0], 1, &table).unwrap_err();
        assert_eq!(error.reason, reason, "{}", line);
        assert_eq!(error.token.string, string, "{}", line);
        assert_eq!(error.reason.kind(), ErrorKind::Parsing);
    }
}

#[test]
fn operands_where_numbers_and_addresses_are_expected() {
    let at = source("x", 5);
    let value = |value| AsmOperand { value, source: at };
    assert_eq!(
        to_number(value(AsmValue::Const(Number::Uint(300)))),
        Ok((NumberLike::Number(Number::Uint(300), 2), at))
    );
    assert_eq!(to_number(value(AsmValue::CurrentPosition)), Ok((NumberLike::CurrentPosition, at)));
    assert_eq!(
        to_number(value(AsmValue::Symbol(SymbolID(3)))),
        Ok((NumberLike::Symbol(SymbolID(3)), at))
    );
    assert_eq!(
        to_number(value(AsmValue::StringLiteral(StaticID(0)))).unwrap_err().reason,
        Reason::ExpectedNumber
    );
    assert_eq!(
        to_number(value(AsmValue::MacroParameter(SymbolID(0)))).unwrap_err().reason,
        Reason::ParameterOutsideMacro
    );
    assert_eq!(
        to_address(value(AsmValue::Const(Number::Int(-1)))),
        Ok((AddressLike::Number(Number::Int(-1)), at))
    );
    assert_eq!(to_address(value(AsmValue::CurrentPosition)), Ok((AddressLike::CurrentPosition, at)));
    assert_eq!(
        to_address(value(AsmValue::Symbol(SymbolID(3)))),
        Ok((AddressLike::Symbol(SymbolID(3)), at))
    );
    assert_eq!(
        to_address(value(AsmValue::StringLiteral(StaticID(0)))).unwrap_err().reason,
        Reason::ExpectedAddress
    );
    assert_eq!(
        to_address(value(AsmValue::MacroParameter(SymbolID(0)))).unwrap_err().reason,
        Reason::ParameterOutsideMacro
    );
}

#[test]
fn the_kind_of_an_opcode_decides_its_operands() {
    let main = main_token(TokenValue::Instruction(ByteCodes::Nop));
    let seven = operand(AsmValue::Const(Number::Uint(7)), "7", 5);
    let here = operand(AsmValue::CurrentPosition, "$", 7);
    match parse_instruction(ByteCodes::Nop, main, &vec![]).unwrap() {
        AsmInstruction::Plain(ByteCodes::Nop) => {}
        other => panic!("{:?}", other),
    }
    match parse_instruction(ByteCodes::JumpConst, main, &vec![seven]).unwrap() {
        AsmInstruction::Address { code: ByteCodes::JumpConst, addr } => {
            assert_eq!(addr, (AddressLike::Number(Number::Uint(7)), seven.source));
        }
        other => panic!("{:?}", other),
    }
    match parse_instruction(ByteCodes::SetErrorConst, main, &vec![seven]).unwrap() {
        AsmInstruction::Number { code: ByteCodes::SetErrorConst, width: Width::W4, value } => {
            assert_eq!(value, (NumberLike::Number(Number::Uint(7), 1), seven.source));
        }
        other => panic!("{:?}", other),
    }
    match parse_instruction(ByteCodes::LoadStaticBytes, main, &vec![here, seven]).unwrap() {
        AsmInstruction::LoadStaticBytes { addr, count } => {
            assert_eq!(addr, (AddressLike::CurrentPosition, here.source));
            assert_eq!(count, (NumberLike::Number(Number::Uint(7), 1), seven.source));
        }
        other => panic!("{:?}", other),
    }
    match parse_instruction(ByteCodes::LoadConstBytes, main, &vec![seven, here, seven]).unwrap() {
        AsmInstruction::LoadConstBytes { bytes } => {
            assert_eq!(bytes.len(), 3);
            assert_eq!(bytes[1], (NumberLike::CurrentPosition, here.source));
        }
        other => panic!("{:?}", other),
    }
}

#[test]
fn the_number_of_operands_is_checked() {
    let main = main_token(TokenValue::Instruction(ByteCodes::Nop));
    let seven = operand(AsmValue::Const(Number::Uint(7)), "7", 5);
    for (code, operands, expected) in [
        (ByteCodes::Nop, vec![seven], 0),
        (ByteCodes::AddInt4, vec![seven, seven], 0),
        (ByteCodes::JumpConst, vec![], 1),
        (ByteCodes::LoadConst1, vec![seven, seven], 1),
        (ByteCodes::LoadStaticBytes, vec![seven], 2),
    ] {
        let given = operands.len();
        let error = parse_instruction(code, main, &operands).unwrap_err();
        assert_eq!(error.reason, Reason::WrongArgumentCount { expected, given });
        assert_eq!(error.token, main.source);
    }
    for (code, operands, expected) in [
        (PseudoInstructions::DefineNumber, vec![seven], 2),
        (PseudoInstructions::DefineString, vec![], 1),
        (PseudoInstructions::Return, vec![seven], 0),
    ] {
        let given = operands.len();
        let error = parse_pseudo(code, main, &operands).unwrap_err();
        assert_eq!(error.reason, Reason::WrongArgumentCount { expected, given });
    }
}

#[test]
fn pseudo_instructions() {
    let main = main_token(TokenValue::PseudoInstruction(PseudoInstructions::DefineNumber));
    let seven = operand(AsmValue::Const(Number::Uint(7)), "7", 5);
    let text = operand(AsmValue::StringLiteral(StaticID(2)), "\"s\"", 5);
    match parse_pseudo(PseudoInstructions::DefineNumber, main, &vec![seven, seven]).unwrap() {
        AsmInstruction::DefineNumber { size, value } => {
            assert_eq!(size, value);
            assert_eq!(size.0, NumberLike::Number(Number::Uint(7), 1));
        }
        other => panic!("{:?}", other),
    }
    match parse_pseudo(PseudoInstructions::DefineBytes, main, &vec![]).unwrap() {
        AsmInstruction::DefineBytes { bytes } => assert_eq!(bytes.len(), 0),
        other => panic!("{:?}", other),
    }
    match parse_pseudo(PseudoInstructions::DefineString, main, &vec![text]).unwrap() {
        AsmInstruction::DefineString { static_id } => assert_eq!(static_id, StaticID(2)),
        other => panic!("{:?}", other),
    }
    match parse_pseudo(PseudoInstructions::Return, main, &vec![]).unwrap() {
        AsmInstruction::Return => {}
        other => panic!("{:?}", other),
    }
    assert_eq!(
        parse_pseudo(PseudoInstructions::DefineString, main, &vec![seven]).unwrap_err().reason,
        Reason::ExpectedString
    );
    assert_eq!(
        parse_pseudo(PseudoInstructions::DefineBytes, main, &vec![seven, text]).unwrap_err().reason,
        Reason::ExpectedNumber
    );
    assert_eq!(
        parse_pseudo(PseudoInstructions::IncludeAsm, main, &vec![text]).unwrap_err().reason,
        Reason::NotAMainOperator
    );
}

#[test]
fn a_macro_is_expanded_with_its_arguments() {
    let main = main_token(TokenValue::Bang);
    let load = main_token(TokenValue::Instruction(ByteCodes::LoadConst4));
    let parameter = |id, column| operand(AsmValue::MacroParameter(SymbolID(id)), "%", column);
    let seven = operand(AsmValue::Const(Number::Uint(7)), "7", 5);
    let eight = operand(AsmValue::Const(Number::Uint(8)), "8", 7);
    let definition = MacroDef {
        args: vec![SymbolID(1), SymbolID(2)],
        body: vec![
            (load, vec![parameter(2, 12)]),
            (load, vec![parameter(1, 12), seven, parameter(1, 14)]),
            (load, vec![]),
        ],
    };
    let lines = expand(&definition, main, &vec![seven, eight]).unwrap();
    assert_eq!(
        lines,
        vec![(load, vec![eight]), (load, vec![seven, seven, seven]), (load, vec![])]
    );
    let error = expand(&definition, main, &vec![seven]).unwrap_err();
    assert_eq!(error.reason, Reason::WrongArgumentCount { expected: 2, given: 1 });
    assert_eq!(error.token, main.source);

    let unknown = MacroDef { args: vec![SymbolID(1)], body: vec![(load, vec![parameter(5, 12)])] };
    let error = expand(&unknown, main, &vec![seven]).unwrap_err();
    assert_eq!(error.reason, Reason::UnknownParameter);
    assert_eq!(error.token, source("%", 12));

    // Of two parameters of one name the last one counts.
    let twice = MacroDef {
        args: vec![SymbolID(1), SymbolID(1)],
        body: vec![(load, vec![parameter(1, 12)])],
    };
    assert_eq!(expand(&twice, main, &vec![seven, eight]).unwrap(), vec![(load, vec![eight])]);
}

#[test]
fn value_macros() {
    assert_eq!(body(".text\n%= ten 10\nloadconst1 !ten\nloadconst2 ten\n"), vec![35, 10, 36, 10, 0]);
    assert_eq!(body(".text\n%= here $\njmpconst !here\n"), vec![71, 10, 0, 0, 0, 0, 0, 0, 0]);
    assert_eq!(body(".text\n%= c 'A'\ndb !c !c\n"), vec![65, 65]);
    // A value can be given again.
    assert_eq!(body(".text\n%= n 1\n%= n 2\ndb !n\n"), vec![2]);
    assert_eq!(body(".text\n%= s \"hi\"\nds !s\n"), b"hi".to_vec());
}

#[test]
fn macros_within_macros() {
    let text = ".text\n%one x\ndb %x\n%endmacro\n%two a b\n!one %a\n!one %b\n!one 9\n%endmacro\n!two 1 2\n!two 3 4\n";
    assert_eq!(body(text), vec![1, 2, 9, 3, 4, 9]);
}

#[test]
fn a_macro_can_define_labels_and_sections() {
    let text = "%begin name\n.text\n@ %name\n%endmacro\n!begin start\njmpconst start\n";
    assert_eq!(
        assemble_text(text).unwrap(),
        vec![71, 9, 0, 0, 0, 0, 0, 0, 0, 71, 9, 0, 0, 0, 0, 0, 0, 0]
    );
}

#[test]
fn the_errors_of_lines() {
    for (text, reason, string, line) in [
        ("5\n", Reason::NotAMainOperator, "5", 0),
        (".text\nfoo\n", Reason::NotAMainOperator, "foo", 1),
        ("\"s\"\n", Reason::NotAMainOperator, "\"s\"", 0),
        ("$\n", Reason::NotAMainOperator, "$", 0),
        ("+ 1\n", Reason::NotAMainOperator, "+", 0),
        ("%endmacro\n", Reason::NotAMainOperator, "%endmacro", 0),
        (": x\n", Reason::NotAMainOperator, ":", 0),
        (".text\nnop 1\n", Reason::WrongArgumentCount { expected: 0, given: 1 }, "nop", 1),
        (".text\nloadconst1\n", Reason::WrongArgumentCount { expected: 1, given: 0 }, "loadconst1", 1),
        (".\n", Reason::WrongArgumentCount { expected: 1, given: 0 }, ".", 0),
        ("@ a b\n", Reason::WrongArgumentCount { expected: 1, given: 2 }, "@", 0),
        (". 5\n", Reason::ExpectedName, "5", 0),
        ("@ \"s\"\n", Reason::ExpectedName, "\"s\"", 0),
        ("%=\n", Reason::MissingName, "%=", 0),
        ("%= 5 5\n", Reason::ExpectedName, "5", 0),
        ("%= a\n", Reason::WrongArgumentCount { expected: 2, given: 1 }, "%=", 0),
        ("%= a 1 2\n", Reason::WrongArgumentCount { expected: 2, given: 3 }, "%=", 0),
        ("%\n", Reason::MissingName, "%", 0),
        ("% 5\n%endmacro\n", Reason::ExpectedName, "5", 0),
        ("%m a 5\n%endmacro\n", Reason::ExpectedName, "5", 0),
        ("%m\nnop\n", Reason::MissingEndMacro, "%", 0),
        ("%m\nnop +\n%endmacro\n", Reason::NotAnOperand, "+", 1),
        ("!\n", Reason::MissingName, "!", 0),
        ("! 5\n", Reason::ExpectedName, "5", 0),
        ("!nomacro\n", Reason::UndefinedMacro, "nomacro", 0),
        ("%m a\n%endmacro\n!m\n", Reason::WrongArgumentCount { expected: 1, given: 0 }, "!", 2),
        ("%m a\n%endmacro\n!m 1 2\n", Reason::WrongArgumentCount { expected: 1, given: 2 }, "!", 2),
        ("%m a\ndb %b\n%endmacro\n!m 1\n", Reason::UnknownParameter, "%", 1),
        (".text\nloadconst1 \"s\"\n", Reason::ExpectedNumber, "\"s\"", 1),
        (".text\njmpconst \"s\"\n", Reason::ExpectedAddress, "\"s\"", 1),
        (".text\nloadconst1 %a\n", Reason::ParameterOutsideMacro, "%", 1),
        (".text\nds 5\n", Reason::ExpectedString, "5", 1),
        ("include 5\n", Reason::ExpectedString, "5", 0),
        ("include\n", Reason::WrongArgumentCount { expected: 1, given: 0 }, "include", 0),
        (".text\nloadconst1 !nothing\n", Reason::MacroHasNoValue, "nothing", 1),
        ("nop\n", Reason::OutsideSection, "nop", 0),
        ("@early\n", Reason::OutsideSection, "@", 0),
        (".text\njmpconst -1\n", Reason::InvalidAddress, "-1", 1),
        (".text\njmpconst 1.5\n", Reason::InvalidAddress, "1.5", 1),
        (".text\nloadstaticn 0 -1\n", Reason::InvalidCount, "-1", 1),
        (".text\ndb 1.5\n", Reason::FloatNotAllowed, "1.5", 1),
        (".text\nloadconstn 1 1.5\n", Reason::FloatNotAllowed, "1.5", 1),
        (".text\ndn -1 5\n", Reason::InvalidSize, "-1", 1),
        (".text\ndn $ 5\n", Reason::InvalidSize, "$", 1),
        (".text\ndn size 5\n", Reason::SymbolNotAllowed, "size", 1),
        (".text\ndn 4 value\n", Reason::SymbolNotAllowed, "value", 1),
        (".text\njmpconst nowhere\n", Reason::UndefinedSymbol, "nowhere", 1),
        (".text\n%= v -1\njmpconst v\n", Reason::InvalidAddress, "v", 2),
    ] {
        let error = refused(text);
        assert_eq!(error.reason, reason, "{:?}", text);
        assert_eq!(error.token.string, string, "{:?}", text);
        assert_eq!(error.token.line_index, line, "{:?}", text);
        assert_eq!(error.token.unit_path, "main.asm");
        assert_eq!(error.previous, None);
    }
}

#[test]
fn the_categories_of_errors() {
    for (reason, kind) in [
        (Reason::Io, ErrorKind::Io),
        (Reason::InvalidEscape('q'), ErrorKind::InvalidEscapeSequence),
        (Reason::PatternRejected, ErrorKind::Tokenizer),
        (Reason::UnterminatedString, ErrorKind::Parsing),
        (Reason::UnterminatedChar, ErrorKind::Parsing),
        (Reason::InvalidCharLiteral, ErrorKind::Parsing),
        (Reason::InvalidNumber, ErrorKind::Parsing),
        (Reason::InvalidToken, ErrorKind::Parsing),
        (Reason::Redeclared, ErrorKind::SymbolRedeclaration),
        (Reason::NotAnOperand, ErrorKind::Parsing),
        (Reason::MissingName, ErrorKind::Parsing),
        (Reason::ExpectedName, ErrorKind::Parsing),
        (Reason::MacroHasNoValue, ErrorKind::Parsing),
        (Reason::WrongArgumentCount { expected: 1, given: 2 }, ErrorKind::Parsing),
        (Reason::MissingEndMacro, ErrorKind::Parsing),
        (Reason::UndefinedMacro, ErrorKind::UndefinedSymbol),
        (Reason::UnknownParameter, ErrorKind::Parsing),
        (Reason::ExpectedNumber, ErrorKind::Parsing),
        (Reason::ExpectedAddress, ErrorKind::Parsing),
        (Reason::ParameterOutsideMacro, ErrorKind::Parsing),
        (Reason::ExpectedString, ErrorKind::Parsing),
        (Reason::NotAMainOperator, ErrorKind::Parsing),
        (Reason::OutsideSection, ErrorKind::OutsideSection),
        (Reason::InvalidAddress, ErrorKind::InvalidArgument),
        (Reason::InvalidCount, ErrorKind::InvalidArgument),
        (Reason::ConstantTooLarge { size: 1, needed: 2 }, ErrorKind::InvalidArgument),
        (Reason::FloatNotAllowed, ErrorKind::InvalidArgument),
        (Reason::InvalidSize, ErrorKind::InvalidArgument),
        (Reason::SymbolNotAllowed, ErrorKind::InvalidArgument),
        (Reason::UndefinedSymbol, ErrorKind::UndefinedSymbol),
        (Reason::TooManySteps, ErrorKind::Parsing),
    ] {
        assert_eq!(reason.kind(), kind);
    }
}

#[test]
fn a_macro_cannot_be_defined_twice() {
    let error = refused("%m\n%endmacro\n  %m\n%endmacro\n");
    assert_eq!(error.reason, Reason::Redeclared);
    assert_eq!(error.token.string, "%");
    assert_eq!(error.token.line_index, 2);
    assert_eq!(error.token.column, 3);
    // The name was first seen in the first definition.
    let previous = error.previous.unwrap();
    assert_eq!(previous.string, "m");
    assert_eq!(previous.line_index, 0);
}

#[test]
fn every_instruction_is_assembled() {
    let text = ".text\naddi1\nsubi2\nmuli4\ndivi8\nmodi1\naddf4\nmodf8\nloadstatic1 1\nloadstaticn 1 2\nloadconst1 1\nloadconstn 1 2\nload1\nloadn\nvconsttr 1\nvtr\nstore8\nstoren\nmemmove2\nmemmoven\ndup4\ndupn\nmalloc\nrealloc\nfree\nintr\nintrconst 1\nreaderr\nseterrconst 1\nseterr\nexit\njmpconst 1\njmp\njnzconst1 1\njnz8\njzconst2 1\njz4\njerrconst 1\njerr\njnoerrconst 1\njnoerr\ncall 1\nret\nnop\n";
    let one = [1u8, 0, 0, 0, 0, 0, 0, 0];
    let mut expected: Vec<u8> = vec![0, 5, 10, 15, 16, 20, 29];
    expected.push(30);
    expected.extend_from_slice(&one);
    expected.push(34);
    expected.extend_from_slice(&one);
    expected.extend_from_slice(&[2, 0, 0, 0, 0, 0, 0, 0]);
    expected.extend_from_slice(&[35, 1]);
    expected.push(39);
    expected.extend_from_slice(&[2, 0, 0, 0, 0, 0, 0, 0, 1, 2]);
    expected.extend_from_slice(&[40, 44]);
    expected.push(45);
    expected.extend_from_slice(&one);
    expected.extend_from_slice(&[46, 50, 51, 53, 56, 59, 61, 62, 63, 64, 65]);
    expected.extend_from_slice(&[66, 1, 67, 68, 1, 0, 0, 0, 69, 70]);
    expected.push(71);
    expected.extend_from_slice(&one);
    expected.push(72);
    expected.push(73);
    expected.extend_from_slice(&one);
    expected.push(80);
    expected.push(82);
    expected.extend_from_slice(&one);
    expected.push(87);
    expected.push(89);
    expected.extend_from_slice(&one);
    expected.push(90);
    expected.push(91);
    expected.extend_from_slice(&one);
    expected.push(92);
    expected.push(93);
    expected.extend_from_slice(&one);
    expected.push(72);
    expected.push(94);
    assert_eq!(body(text), expected);
}

#[test]
fn floats_are_written_as_their_bits() {
    let bits = 1.5f64.to_bits().to_le_bytes();
    let mut expected = vec![38];
    expected.extend_from_slice(&bits);
    expected.extend_from_slice(&bits[..4]);
    expected.extend_from_slice(&[0, 0]);
    assert_eq!(body(".text\nloadconst8 1.5\n"), expected[..9].to_vec());
    assert_eq!(refused(".text\nloadconst2 1.5\n").reason, Reason::ConstantTooLarge { size: 2, needed: 4 });
}

#[test]
fn characters_are_numbers() {
    assert_eq!(body(".text\nloadconst1 'A'\ndb 'a' '\\n' '\\0' 'é'\n"), vec![35, 65, 97, 10, 0, 233]);
    assert_eq!(
        refused(".text\nloadconst1 '→'\n").reason,
        Reason::ConstantTooLarge { size: 1, needed: 1 + 1 }
    );
}
