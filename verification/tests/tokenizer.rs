use hivm::errors::{ErrorKind, Reason};
use hivm::isa::ByteCodes;
use hivm::lang::{Number, PseudoInstructions};
use hivm::symbol_table::{StaticID, SymbolID, SymbolTable};
use hivm::tokenizer::{
    float_lexemes, is_decimal_numeric, kind, lex, line_lexemes, tokenize, tokenize_lexed, LexemeKind,
    SourceToken, TokenBasePriority, TokenValue,
};

fn lexemes<'a>(line: &'a str) -> Vec<&'a str> {
    let lines = lex(&[line], "unit").unwrap();
    lines.into_iter().flatten().map(|token| token.string).collect()
}

fn values(line: &'static str, floats: &[Option<u64>]) -> Vec<TokenValue> {
    let mut table = SymbolTable::new();
    let lines = tokenize(&[line], "unit", &mut table, floats).unwrap();
    lines.into_iter().flatten().map(|token| token.value).collect()
}

fn refused(line: &'static str) -> hivm::errors::AsmError<'static> {
    let mut table = SymbolTable::new();
    tokenize(&[line], "unit", &mut table, &[]).unwrap_err()
}

#[test]
fn lines_are_split_into_lexemes() {
    let lines = lex(&["  loadconst4 0x10 ; comment", "", "   ", "@label", "; only", "\t;"], "unit.asm").unwrap();
    assert_eq!(lines.len(), 2);
    assert_eq!(
        lines[0],
        vec![
            SourceToken { string: "loadconst4", unit_path: "unit.asm", line_index: 0, column: 3 },
            SourceToken { string: "0x10", unit_path: "unit.asm", line_index: 0, column: 14 },
        ]
    );
    assert_eq!(
        lines[1],
        vec![
            SourceToken { string: "@", unit_path: "unit.asm", line_index: 3, column: 1 },
            SourceToken { string: "label", unit_path: "unit.asm", line_index: 3, column: 2 },
        ]
    );
    assert_eq!(lines[1][0].line_number(), 4);
}

#[test]
fn the_lexemes() {
    assert_eq!(
        lexemes("ds \"a\\\"b\" 'x' '\\n' %endmacro %= %p !m -5 +5 1.5 -2.5 0xFF a,b $ . foo_1 _x"),
        vec![
            "ds", "\"a\\\"b\"", "'x'", "'\\n'", "%endmacro", "%=", "%", "p", "!", "m", "-5", "+5",
            "1.5", "-2.5", "0xFF", "a", ",", "b", "$", ".", "foo_1", "_x"
        ]
    );
    assert_eq!(lexemes("a+b*c/d"), vec!["a", "+", "b", "*", "c", "/", "d"]);
    assert_eq!(lexemes(".text"), vec![".", "text"]);
    assert_eq!(lexemes("@start:"), vec!["@", "start", ":"]);
    assert_eq!(lexemes("\"a ; b\" ; c"), vec!["\"a ; b\""]);
    assert_eq!(lexemes("nop;nop"), vec!["nop"]);
    assert_eq!(lexemes("\"open"), vec!["\"", "open"]);
    assert_eq!(lexemes(""), Vec::<&str>::new());
}

#[test]
fn the_kinds_of_lexemes() {
    assert_eq!(kind("."), LexemeKind::Punctuation(TokenValue::Dot));
    assert_eq!(kind("+"), LexemeKind::Punctuation(TokenValue::Plus));
    assert_eq!(kind("-"), LexemeKind::Punctuation(TokenValue::Minus));
    assert_eq!(kind("*"), LexemeKind::Punctuation(TokenValue::Star));
    assert_eq!(kind("/"), LexemeKind::Punctuation(TokenValue::Div));
    assert_eq!(kind("%"), LexemeKind::Punctuation(TokenValue::Mod));
    assert_eq!(kind(":"), LexemeKind::Punctuation(TokenValue::Colon));
    assert_eq!(kind("$"), LexemeKind::Punctuation(TokenValue::Dollar));
    assert_eq!(kind("@"), LexemeKind::Punctuation(TokenValue::At));
    assert_eq!(kind("!"), LexemeKind::Punctuation(TokenValue::Bang));
    assert_eq!(kind("%="), LexemeKind::Punctuation(TokenValue::ValueMacroDef));
    assert_eq!(kind("%endmacro"), LexemeKind::Punctuation(TokenValue::EndMacro));
    assert_eq!(kind("0x1F"), LexemeKind::Hex);
    assert_eq!(kind("1.5"), LexemeKind::Float);
    assert_eq!(kind("-1.5"), LexemeKind::Float);
    assert_eq!(kind(".5"), LexemeKind::Float);
    assert_eq!(kind("-5"), LexemeKind::Signed);
    assert_eq!(kind("5"), LexemeKind::Unsigned);
    assert_eq!(kind("+5"), LexemeKind::Unsigned);
    assert_eq!(kind("0"), LexemeKind::Unsigned);
    assert_eq!(kind("\"s\""), LexemeKind::Text);
    assert_eq!(kind("'c'"), LexemeKind::Character);
    assert_eq!(kind("word"), LexemeKind::Word);
    assert_eq!(kind("x0"), LexemeKind::Word);
    assert_eq!(kind(""), LexemeKind::Word);
    assert_eq!(kind(","), LexemeKind::Word);
}

#[test]
fn a_decimal_number_begins_with_a_digit_a_sign_or_a_point() {
    for c in ['0', '5', '9', '-', '+', '.'] {
        assert!(is_decimal_numeric(c));
    }
    for c in ['a', 'x', ' ', '/', ':', '²'] {
        assert!(!is_decimal_numeric(c));
    }
}

#[test]
fn punctuation_and_keywords() {
    assert_eq!(
        values(". + - * / % : $ @ ! %= %endmacro", &[]),
        vec![
            TokenValue::Dot,
            TokenValue::Plus,
            TokenValue::Minus,
            TokenValue::Star,
            TokenValue::Div,
            TokenValue::Mod,
            TokenValue::Colon,
            TokenValue::Dollar,
            TokenValue::At,
            TokenValue::Bang,
            TokenValue::ValueMacroDef,
            TokenValue::EndMacro,
        ]
    );
    assert_eq!(
        values("addi1 jmpconst dn db ds include ret", &[]),
        vec![
            TokenValue::Instruction(ByteCodes::AddInt1),
            TokenValue::Instruction(ByteCodes::JumpConst),
            TokenValue::PseudoInstruction(PseudoInstructions::DefineNumber),
            TokenValue::PseudoInstruction(PseudoInstructions::DefineBytes),
            TokenValue::PseudoInstruction(PseudoInstructions::DefineString),
            TokenValue::PseudoInstruction(PseudoInstructions::IncludeAsm),
            TokenValue::PseudoInstruction(PseudoInstructions::Return),
        ]
    );
}

#[test]
fn numbers() {
    assert_eq!(
        values("0x1F 42 +42 -42 0 -0 0xffffffffffffffff 18446744073709551615 -9223372036854775808", &[]),
        vec![
            TokenValue::Number(Number::Uint(31)),
            TokenValue::Number(Number::Uint(42)),
            TokenValue::Number(Number::Uint(42)),
            TokenValue::Number(Number::Int(-42)),
            TokenValue::Number(Number::Uint(0)),
            TokenValue::Number(Number::Int(0)),
            TokenValue::Number(Number::Uint(u64::MAX)),
            TokenValue::Number(Number::Uint(u64::MAX)),
            TokenValue::Number(Number::Int(i64::MIN)),
        ]
    );
}

#[test]
fn numbers_that_do_not_fit_are_refused() {
    for line in [
        "18446744073709551616",
        "0x10000000000000000",
        "-9223372036854775809",
        "+18446744073709551616",
    ] {
        let error = refused(line);
        assert_eq!(error.reason, Reason::InvalidNumber);
        assert_eq!(error.reason.kind(), ErrorKind::Parsing);
        assert_eq!(error.token.string, line);
        assert_eq!(error.column, 1);
    }
}

#[test]
fn floats_get_their_bits_in_the_order_of_the_source() {
    let one = 1.5f64.to_bits();
    let two = (-2.25f64).to_bits();
    assert_eq!(
        values("1.5 7 -2.25", &[Some(one), Some(two)]),
        vec![
            TokenValue::Number(Number::Float(one)),
            TokenValue::Number(Number::Uint(7)),
            TokenValue::Number(Number::Float(two)),
        ]
    );
    let raw = lex(&["dn 8 1.5", "dn 4 -2.25 ; 3.5", "db 1 2"], "unit").unwrap();
    assert_eq!(float_lexemes(&raw), vec!["1.5", "-2.25"]);
}

#[test]
fn a_float_without_bits_is_refused() {
    let mut table = SymbolTable::new();
    let error = tokenize(&["1.5 2.5"], "unit", &mut table, &[Some(1)]).unwrap_err();
    assert_eq!(error.reason, Reason::InvalidNumber);
    assert_eq!(error.token.string, "2.5");
    let error = tokenize(&["1.5"], "unit", &mut table, &[None]).unwrap_err();
    assert_eq!(error.reason, Reason::InvalidNumber);
    assert_eq!(refused("1.5").reason, Reason::InvalidNumber);
}

#[test]
fn strings_go_to_the_static_pool() {
    let mut table = SymbolTable::new();
    let lines = tokenize(&["ds \"hi\\n\" \"\" \"é\""], "unit", &mut table, &[]).unwrap();
    assert_eq!(lines[0][1].value, TokenValue::StringLiteral(StaticID(0)));
    assert_eq!(lines[0][2].value, TokenValue::StringLiteral(StaticID(1)));
    assert_eq!(lines[0][3].value, TokenValue::StringLiteral(StaticID(2)));
    assert_eq!(table.static_count(), 3);
    assert_eq!(table.get_static(StaticID(0)).as_string(), "hi\n");
    assert_eq!(table.get_static(StaticID(1)).as_string(), "");
    assert_eq!(table.get_static(StaticID(2)).as_string(), "é");
    assert!(table.find_static(StaticID(3)).is_none());
}

#[test]
fn characters() {
    assert_eq!(
        values("'a' '\\n' '\\'' '\"' ' ' 'é'", &[]),
        vec![
            TokenValue::CharLiteral('a'),
            TokenValue::CharLiteral('\n'),
            TokenValue::CharLiteral('\''),
            TokenValue::CharLiteral('"'),
            TokenValue::CharLiteral(' '),
            TokenValue::CharLiteral('é'),
        ]
    );
    assert_eq!(refused("'ab'").reason, Reason::InvalidCharLiteral);
    assert_eq!(refused("''").reason, Reason::InvalidCharLiteral);
}

#[test]
fn an_unknown_escape_is_refused_at_its_column() {
    let error = refused("ds \"a\\qb\"");
    assert_eq!(error.reason, Reason::InvalidEscape('q'));
    assert_eq!(error.reason.kind(), ErrorKind::InvalidEscapeSequence);
    assert_eq!(error.token.string, "\"a\\qb\"");
    assert_eq!(error.token.column, 4);
    assert_eq!(error.column, 7);
    let error = refused("'\\x'");
    assert_eq!(error.reason, Reason::InvalidEscape('x'));
    assert_eq!(error.column, 3);
}

#[test]
fn literals_without_their_closing_quote_are_refused() {
    let error = refused("ds \"abc");
    assert_eq!(error.reason, Reason::UnterminatedString);
    assert_eq!(error.token.string, "\"");
    assert_eq!(error.token.column, 4);
    let error = refused("'");
    assert_eq!(error.reason, Reason::UnterminatedChar);
}

#[test]
fn identifiers_are_declared_once() {
    let mut table = SymbolTable::new();
    let lines = tokenize(&["foo bar foo _x1", "  bar"], "unit", &mut table, &[]).unwrap();
    let ids: Vec<TokenValue> = lines.iter().flatten().map(|token| token.value).collect();
    assert_eq!(
        ids,
        vec![
            TokenValue::Identifier(SymbolID(0)),
            TokenValue::Identifier(SymbolID(1)),
            TokenValue::Identifier(SymbolID(0)),
            TokenValue::Identifier(SymbolID(2)),
            TokenValue::Identifier(SymbolID(1)),
        ]
    );
    assert_eq!(table.symbol_count(), 3);
    assert_eq!(table.get_symbol_id("bar"), Some(SymbolID(1)));
    assert_eq!(table.get_symbol_id("baz"), None);
    let bar = table.get_symbol(SymbolID(1));
    assert_eq!(bar.name, "bar");
    assert_eq!(bar.value, None);
    assert_eq!(bar.source.line_index, 0);
    assert_eq!(bar.source.column, 5);
}

#[test]
fn what_is_no_token_is_refused() {
    for line in [",", "#", "=", "é", "nop ~"] {
        let error = refused(line);
        assert_eq!(error.reason, Reason::InvalidToken);
        assert_eq!(error.reason.kind(), ErrorKind::Parsing);
    }
    assert_eq!(refused("nop ~").token.column, 5);
}

#[test]
fn priorities() {
    let mut table = SymbolTable::new();
    let lines = tokenize(&["x 1 'c' \"s\" : nop ret + - * / % $ @ . ! %= %endmacro"], "unit", &mut table, &[]).unwrap();
    let priorities: Vec<u8> = lines[0].iter().map(|token| token.priority).collect();
    assert_eq!(priorities, vec![0, 0, 0, 0, 0, 1, 1, 2, 2, 3, 3, 3, 4, 4, 4, 4, 4, 4]);
    assert_eq!(TokenValue::Plus.base_priority(), TokenBasePriority::PlusMinus);
    assert_eq!(TokenValue::Star.base_priority(), TokenBasePriority::MulDivMod);
    assert_eq!(TokenValue::Colon.base_priority(), TokenBasePriority::Lowest);
    assert_eq!(TokenBasePriority::Lowest.rank(), 0);
    assert_eq!(TokenBasePriority::Instruction.rank(), 1);
    assert_eq!(TokenBasePriority::AsmOperator.rank(), 4);
}

#[test]
fn tokens_keep_the_lines_of_their_lexemes() {
    let mut table = SymbolTable::new();
    let raw = lex(&[".text", "", "nop ; c", "exit"], "unit").unwrap();
    let lines = tokenize_lexed(&raw, &mut table, &[]).unwrap();
    assert_eq!(lines.len(), 3);
    assert_eq!(lines[0].len(), 2);
    assert_eq!(lines[1].len(), 1);
    assert_eq!(lines[1][0].source, raw[1][0]);
    assert_eq!(lines[1][0].source.string, "nop");
    assert_eq!(lines[2][0].source.line_index, 3);
}

#[test]
fn the_lexemes_are_the_matches_of_the_pattern() {
    let lines = hivm::tokenizer::lex_with("[a-z]+|;", &["ab 12 cd;ef", "34", "gh"], "unit").unwrap();
    let strings: Vec<Vec<&str>> =
        lines.iter().map(|line| line.iter().map(|token| token.string).collect()).collect();
    assert_eq!(strings, vec![vec!["ab", "cd"], vec!["gh"]]);
    assert_eq!(lines[0][1].column, 7);
    assert_eq!(lines[1][0].line_index, 2);
    // A pattern that the regex crate rejects gives no lexemes.
    assert!(hivm::tokenizer::lex_with("(", &["ab"], "unit").is_none());
    assert!(hivm::tokenizer::lex_with("(", &[], "unit").is_some());
    assert!(lex(&["ab"], "unit").is_some());
    assert!(hivm::tokenizer::TOKEN_PATTERN.contains("%endmacro"));
}

#[test]
fn the_lexemes_of_a_line_are_the_matches_before_the_comment() {
    let found = vec![("nop", 2usize), ("1", 6), (";", 8), ("x", 10)];
    assert_eq!(
        line_lexemes(&found, "u", 3),
        vec![
            SourceToken { string: "nop", unit_path: "u", line_index: 3, column: 3 },
            SourceToken { string: "1", unit_path: "u", line_index: 3, column: 7 },
        ]
    );
    assert_eq!(line_lexemes(&vec![(";", 0usize), ("x", 1)], "u", 0), vec![]);
    assert_eq!(line_lexemes(&vec![], "u", 0), vec![]);
    let far = line_lexemes(&vec![("a", usize::MAX - 1), ("b", usize::MAX)], "u", 0);
    assert_eq!(far[0].column, usize::MAX);
    assert_eq!(far[1].column, usize::MAX);
    assert_eq!(line_lexemes(&vec![("a", 0usize)], "u", 0)[0].column, 1);
}

#[test]
fn a_lexeme_is_the_slice_of_its_line_in_its_column() {
    let source = ["  ds \"é→\" 'ü' loadconst4 0x10 ; c", "", "\t@größe nop"];
    let lines = lex(&source, "unit").unwrap();
    let mut seen = 0;
    for line in &lines {
        for token in line {
            let bytes = source[token.line_index].as_bytes();
            let start = token.column - 1;
            assert_eq!(&bytes[start..start + token.string.len()], token.string.as_bytes());
            seen += 1;
        }
    }
    assert_eq!(seen, 5 + 6);
    assert_eq!(lines[0][1].string, "\"é→\"");
    assert_eq!(lines[0][1].column, 6);
    // Columns count bytes: the string before takes seven of them.
    assert_eq!(lines[0][2].column, 14);
}
