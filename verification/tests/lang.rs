use hivm::lang::{AsmValue, Number, NumberLike, PseudoInstructions};
use hivm::symbol_table::{StaticID, Symbol, SymbolID, SymbolTable};
use hivm::tokenizer::SourceToken;

#[test]
fn the_minimum_size_of_an_unsigned_integer() {
    for (value, size) in [
        (0u64, 1),
        (255, 1),
        (256, 2),
        (0xFFFF, 2),
        (0x1_0000, 4),
        (0xFFFF_FFFF, 4),
        (0x1_0000_0000, 8),
        (u64::MAX, 8),
    ] {
        assert_eq!(Number::Uint(value).minimum_size(), size);
    }
}

#[test]
fn the_minimum_size_of_a_signed_integer() {
    for (value, size) in [
        (0i64, 1),
        (127, 1),
        (-128, 1),
        (128, 2),
        (-129, 2),
        (32767, 2),
        (-32768, 2),
        (32768, 4),
        (-32769, 4),
        (i32::MAX as i64, 4),
        (i32::MIN as i64, 4),
        (i32::MAX as i64 + 1, 8),
        (i32::MIN as i64 - 1, 8),
        (i64::MAX, 8),
        (i64::MIN, 8),
    ] {
        assert_eq!(Number::Int(value).minimum_size(), size);
    }
}

#[test]
fn the_minimum_size_of_a_float() {
    for (value, size) in [
        (0.0f64, 4),
        (-0.0, 4),
        (1.5, 4),
        (-1.5, 4),
        (f32::MAX as f64, 4),
        (f32::MIN as f64, 4),
        (f32::MAX as f64 * 2.0, 8),
        (f32::MIN as f64 * 2.0, 8),
        (1e300, 8),
        (-1e300, 8),
        (f64::INFINITY, 8),
        (f64::NAN, 8),
        (f64::MIN_POSITIVE, 4),
    ] {
        assert_eq!(Number::Float(value.to_bits()).minimum_size(), size, "{}", value);
    }
    let next = f64::from_bits((f32::MAX as f64).to_bits() + 1);
    assert_eq!(Number::Float(next.to_bits()).minimum_size(), 8);
}

#[test]
fn the_bytes_of_a_number() {
    assert_eq!(Number::Uint(0x0102).as_le_bytes(), vec![2, 1, 0, 0, 0, 0, 0, 0]);
    assert_eq!(Number::Int(-2).as_le_bytes(), vec![0xFE, 255, 255, 255, 255, 255, 255, 255]);
    assert_eq!(Number::Int(2).as_le_bytes(), vec![2, 0, 0, 0, 0, 0, 0, 0]);
    assert_eq!(Number::Int(i64::MIN).as_le_bytes(), vec![0, 0, 0, 0, 0, 0, 0, 0x80]);
    assert_eq!(Number::Float(1.5f64.to_bits()).as_le_bytes(), 1.5f64.to_le_bytes().to_vec());
    assert_eq!(Number::Int(-1).bits(), u64::MAX);
    assert_eq!(Number::Uint(7).bits(), 7);
}

#[test]
fn only_an_unsigned_integer_is_an_unsigned_integer() {
    assert_eq!(Number::Uint(5).as_uint(), Some(5));
    assert_eq!(Number::Int(5).as_uint(), None);
    assert_eq!(Number::Int(-5).as_uint(), None);
    assert_eq!(Number::Float(5).as_uint(), None);
}

#[test]
fn a_number_operand_carries_its_minimum_size() {
    assert_eq!(
        NumberLike::from_number(&Number::Uint(300)),
        NumberLike::Number(Number::Uint(300), 2)
    );
    assert_eq!(
        NumberLike::from_number(&Number::Int(-1)),
        NumberLike::Number(Number::Int(-1), 1)
    );
}

#[test]
fn the_pseudo_instructions() {
    assert_eq!(PseudoInstructions::from_string("dn"), Some(PseudoInstructions::DefineNumber));
    assert_eq!(PseudoInstructions::from_string("db"), Some(PseudoInstructions::DefineBytes));
    assert_eq!(PseudoInstructions::from_string("ds"), Some(PseudoInstructions::DefineString));
    assert_eq!(PseudoInstructions::from_string("include"), Some(PseudoInstructions::IncludeAsm));
    assert_eq!(PseudoInstructions::from_string("ret"), Some(PseudoInstructions::Return));
    assert_eq!(PseudoInstructions::from_string("nop"), None);
    assert_eq!(PseudoInstructions::from_string("DN"), None);
}

fn token(string: &'static str) -> SourceToken<'static> {
    SourceToken { string, unit_path: "unit", line_index: 2, column: 3 }
}

#[test]
fn the_unsigned_value_of_a_value() {
    let mut table = SymbolTable::new();
    for name in ["ten", "minus", "none", "alias"] {
        let declared = table.declare_symbol(name, Symbol { source: token(name), name, value: None });
        assert!(declared.is_ok());
    }
    table.define_symbol(SymbolID(0), Some(AsmValue::Const(Number::Uint(10))), token("10"));
    table.define_symbol(SymbolID(1), Some(AsmValue::Const(Number::Int(-1))), token("-1"));
    table.define_symbol(SymbolID(3), Some(AsmValue::Symbol(SymbolID(0))), token("ten"));
    assert_eq!(AsmValue::Const(Number::Uint(4)).as_uint(&table), Some(4));
    assert_eq!(AsmValue::Const(Number::Int(4)).as_uint(&table), None);
    assert_eq!(AsmValue::Symbol(SymbolID(0)).as_uint(&table), Some(10));
    assert_eq!(AsmValue::Symbol(SymbolID(1)).as_uint(&table), None);
    assert_eq!(AsmValue::Symbol(SymbolID(2)).as_uint(&table), None);
    // Only one symbol is followed.
    assert_eq!(AsmValue::Symbol(SymbolID(3)).as_uint(&table), None);
    assert_eq!(AsmValue::Symbol(SymbolID(9)).as_uint(&table), None);
    assert_eq!(AsmValue::CurrentPosition.as_uint(&table), None);
    assert_eq!(AsmValue::StringLiteral(StaticID(0)).as_uint(&table), None);
    assert_eq!(AsmValue::MacroParameter(SymbolID(0)).as_uint(&table), None);
}

#[test]
fn symbols_are_declared_by_name() {
    let mut table = SymbolTable::new();
    let first = Symbol { source: token("a"), name: "a", value: None };
    assert_eq!(table.declare_symbol("a", first), Ok(SymbolID(0)));
    let second = Symbol { source: token("b"), name: "b", value: None };
    assert_eq!(table.declare_symbol("b", second), Ok(SymbolID(1)));
    // A name without value is declared once.
    let again = Symbol { source: SourceToken { column: 40, ..token("a") }, name: "a", value: None };
    assert_eq!(table.declare_symbol("a", again), Ok(SymbolID(0)));
    assert_eq!(table.symbol_count(), 2);
    assert_eq!(table.get_symbol(SymbolID(0)).source.column, 3);
    // A name with a value cannot be declared again.
    table.define_symbol(SymbolID(0), Some(AsmValue::CurrentPosition), token("@"));
    let defined = table.get_symbol(SymbolID(0));
    assert_eq!(defined.name, "a");
    assert_eq!(defined.source, token("@"));
    assert_eq!(defined.value, Some(AsmValue::CurrentPosition));
    assert_eq!(table.declare_symbol("a", again), Err(defined));
    assert_eq!(table.symbol_count(), 2);
    assert_eq!(table.find_symbol(SymbolID(1)), Some(second));
    assert_eq!(table.find_symbol(SymbolID(7)), None);
    // A symbol is stored under the name that it is declared under.
    let other = Symbol { source: token("x"), name: "x", value: None };
    assert_eq!(table.declare_symbol("c", other), Ok(SymbolID(2)));
    assert_eq!(table.get_symbol(SymbolID(2)).name, "c");
    assert_eq!(table.get_symbol_id("c"), Some(SymbolID(2)));
    assert_eq!(table.get_symbol_id("x"), None);
    // A value can be taken away again.
    table.define_symbol(SymbolID(0), None, token("a"));
    assert_eq!(table.get_symbol(SymbolID(0)).value, None);
}
