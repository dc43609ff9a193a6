//! From tokens to operands and instructions, and the expansion of macros.

use vstd::prelude::*;
use crate::errors::{AsmError, Reason};
use crate::isa::{ByteCodes, OperandKind};
use crate::lang::{
    AddressLike, AddressOperand, AsmInstruction, AsmOperand, AsmValue, InstructionView, Number,
    NumberLike, NumberOperand, PseudoInstructions,
};
use crate::symbol_table::{StaticID, Symbol, SymbolID, SymbolTable};
use crate::tokenizer::{Token, TokenValue};

verus! {

/// A macro: its parameters, and its lines as they were parsed when it was defined.
pub struct MacroDef<'a> {
    pub args: Vec<SymbolID>,
    pub body: Vec<(Token<'a>, Vec<AsmOperand<'a>>)>,
}

/// Parsed lines as contracts see them: the main operator and the operands of each.
pub open spec fn body_view<'a>(
    body: Seq<(Token<'a>, Vec<AsmOperand<'a>>)>,
) -> Seq<(Token<'a>, Seq<AsmOperand<'a>>)> {
    Seq::new(body.len(), |i: int| (body[i].0, body[i].1@))
}

/// An operand, followed by what the rest parses to.
pub open spec fn spec_with<'a>(
    operand: AsmOperand<'a>,
    rest: Result<Seq<AsmOperand<'a>>, AsmError<'a>>,
) -> Result<Seq<AsmOperand<'a>>, AsmError<'a>> {
    match rest {
        Ok(operands) => Ok(seq![operand] + operands),
        Err(error) => Err(error),
    }
}

/// The operands that the tokens from `from` on stand for, read from left
/// to right. `!name` stands for the value of `name`, `%name` for the macro
/// parameter `name`.
pub open spec fn spec_operands<'a>(
    tokens: Seq<Token<'a>>,
    from: int,
    symbols: Seq<Symbol<'a>>,
) -> Result<Seq<AsmOperand<'a>>, AsmError<'a>>
    decreases tokens.len() - from,
{
    if from < 0 || from >= tokens.len() {
        Ok(Seq::empty())
    } else {
        let token = tokens[from];
        let rest = spec_operands(tokens, from + 1, symbols);
        match token.value {
            TokenValue::StringLiteral(id) => spec_with(
                AsmOperand { value: AsmValue::StringLiteral(id), source: token.source },
                rest,
            ),
            TokenValue::CharLiteral(c) => spec_with(
                AsmOperand { value: AsmValue::Const(Number::Uint(c as u32 as u64)), source: token.source },
                rest,
            ),
            TokenValue::Number(number) => spec_with(
                AsmOperand { value: AsmValue::Const(number), source: token.source },
                rest,
            ),
            TokenValue::Identifier(id) => spec_with(
                AsmOperand { value: AsmValue::Symbol(id), source: token.source },
                rest,
            ),
            TokenValue::Dollar => spec_with(
                AsmOperand { value: AsmValue::CurrentPosition, source: token.source },
                rest,
            ),
            TokenValue::Bang => if from + 1 >= tokens.len() {
                Err(AsmError::spec_at(Reason::MissingName, token.source))
            } else {
                let next = tokens[from + 1];
                match next.value {
                    TokenValue::Identifier(id) => if id.0 < symbols.len() && symbols[id.0 as int].value
                        is Some {
                        spec_with(
                            AsmOperand { value: symbols[id.0 as int].value->0, source: token.source },
                            spec_operands(tokens, from + 2, symbols),
                        )
                    } else {
                        Err(AsmError::spec_at(Reason::MacroHasNoValue, next.source))
                    },
                    _ => Err(AsmError::spec_at(Reason::ExpectedName, next.source)),
                }
            },
            TokenValue::Mod => if from + 1 >= tokens.len() {
                Err(AsmError::spec_at(Reason::MissingName, token.source))
            } else {
                let next = tokens[from + 1];
                match next.value {
                    TokenValue::Identifier(id) => spec_with(
                        AsmOperand { value: AsmValue::MacroParameter(id), source: token.source },
                        spec_operands(tokens, from + 2, symbols),
                    ),
                    _ => Err(AsmError::spec_at(Reason::ExpectedName, next.source)),
                }
            },
            _ => Err(AsmError::spec_at(Reason::NotAnOperand, token.source)),
        }
    }
}

/// What has been parsed so far, followed by what the rest parses to.
pub open spec fn spec_parsed<'a>(
    done: Seq<AsmOperand<'a>>,
    rest: Result<Seq<AsmOperand<'a>>, AsmError<'a>>,
) -> Result<Seq<AsmOperand<'a>>, AsmError<'a>> {
    match rest {
        Ok(operands) => Ok(done + operands),
        Err(error) => Err(error),
    }
}

/// Parses the tokens of a line from `from` on as operands.
pub fn parse_operands<'a>(
    tokens: &Vec<Token<'a>>,
    from: usize,
    symbol_table: &SymbolTable<'a>,
) -> (operands: Result<Vec<AsmOperand<'a>>, AsmError<'a>>)
    ensures
        match spec_operands(tokens@, from as int, symbol_table.symbols()) {
            Ok(expected) => operands is Ok && operands->Ok_0@ == expected,
            Err(error) => operands == Err::<Vec<AsmOperand<'a>>, AsmError<'a>>(error),
        },
{
    let ghost symbols = symbol_table.symbols();
    let mut operands: Vec<AsmOperand<'a>> = Vec::new();
    let mut at: usize = from;
    let length = tokens.len();
    proof {
        let rest = spec_operands(tokens@, from as int, symbols);
        if rest is Ok {
            assert(operands@ + rest->Ok_0 =~= rest->Ok_0);
        }
    }
    while at < length
        invariant
            from <= at,
            length == tokens@.len(),
            symbols == symbol_table.symbols(),
            spec_operands(tokens@, from as int, symbols) == spec_parsed(
                operands@,
                spec_operands(tokens@, at as int, symbols),
            ),
        decreases length - at,
    {
        let token = tokens[at];
        let ghost before = operands@;
        let (value, step): (AsmValue, usize) = match token.value {
            TokenValue::StringLiteral(id) => (AsmValue::StringLiteral(id), 1),
            TokenValue::CharLiteral(c) => (AsmValue::Const(Number::Uint(c as u32 as u64)), 1),
            TokenValue::Number(number) => (AsmValue::Const(number), 1),
            TokenValue::Identifier(id) => (AsmValue::Symbol(id), 1),
            TokenValue::Dollar => (AsmValue::CurrentPosition, 1),
            TokenValue::Bang => {
                if at + 1 >= length {
                    return Err(AsmError::at(Reason::MissingName, token.source));
                }
                let next = tokens[at + 1];
                match next.value {
                    TokenValue::Identifier(id) => match symbol_table.find_symbol(id) {
                        Some(symbol) => match symbol.value {
                            Some(value) => (value, 2),
                            None => {
                                return Err(AsmError::at(Reason::MacroHasNoValue, next.source));
                            },
                        },
                        None => {
                            return Err(AsmError::at(Reason::MacroHasNoValue, next.source));
                        },
                    },
                    _ => {
                        return Err(AsmError::at(Reason::ExpectedName, next.source));
                    },
                }
            },
            TokenValue::Mod => {
                if at + 1 >= length {
                    return Err(AsmError::at(Reason::MissingName, token.source));
                }
                let next = tokens[at + 1];
                match next.value {
                    TokenValue::Identifier(id) => (AsmValue::MacroParameter(id), 2),
                    _ => {
                        return Err(AsmError::at(Reason::ExpectedName, next.source));
                    },
                }
            },
            _ => {
                return Err(AsmError::at(Reason::NotAnOperand, token.source));
            },
        };
        let operand = AsmOperand { value, source: token.source };
        operands.push(operand);
        proof {
            let rest = spec_operands(tokens@, at + step, symbols);
            assert(spec_operands(tokens@, at as int, symbols) == spec_with(operand, rest));
            if rest is Ok {
                assert(before + (seq![operand] + rest->Ok_0) =~= before.push(operand) + rest->Ok_0);
            }
        }
        at = at + step;
    }
    assert(operands@ + Seq::<AsmOperand<'a>>::empty() =~= operands@);
    Ok(operands)
}

/// An operand where a number is expected.
pub open spec fn spec_to_number<'a>(
    operand: AsmOperand<'a>,
) -> Result<NumberOperand<'a>, AsmError<'a>> {
    match operand.value {
        AsmValue::Const(number) => Ok((NumberLike::spec_from_number(&number), operand.source)),
        AsmValue::CurrentPosition => Ok((NumberLike::CurrentPosition, operand.source)),
        AsmValue::Symbol(id) => Ok((NumberLike::Symbol(id), operand.source)),
        AsmValue::StringLiteral(_) => Err(AsmError::spec_at(Reason::ExpectedNumber, operand.source)),
        AsmValue::MacroParameter(_) => Err(
            AsmError::spec_at(Reason::ParameterOutsideMacro, operand.source),
        ),
    }
}

/// An operand where a number is expected.
pub fn to_number<'a>(operand: AsmOperand<'a>) -> (number: Result<NumberOperand<'a>, AsmError<'a>>)
    ensures
        number == spec_to_number(operand),
{
    match operand.value {
        AsmValue::Const(number) => Ok((NumberLike::from_number(&number), operand.source)),
        AsmValue::CurrentPosition => Ok((NumberLike::CurrentPosition, operand.source)),
        AsmValue::Symbol(id) => Ok((NumberLike::Symbol(id), operand.source)),
        AsmValue::StringLiteral(_) => Err(AsmError::at(Reason::ExpectedNumber, operand.source)),
        AsmValue::MacroParameter(_) => Err(AsmError::at(Reason::ParameterOutsideMacro, operand.source)),
    }
}

/// An operand where an address is expected.
pub open spec fn spec_to_address<'a>(
    operand: AsmOperand<'a>,
) -> Result<AddressOperand<'a>, AsmError<'a>> {
    match operand.value {
        AsmValue::Const(number) => Ok((AddressLike::Number(number), operand.source)),
        AsmValue::CurrentPosition => Ok((AddressLike::CurrentPosition, operand.source)),
        AsmValue::Symbol(id) => Ok((AddressLike::Symbol(id), operand.source)),
        AsmValue::StringLiteral(_) => Err(AsmError::spec_at(Reason::ExpectedAddress, operand.source)),
        AsmValue::MacroParameter(_) => Err(
            AsmError::spec_at(Reason::ParameterOutsideMacro, operand.source),
        ),
    }
}

/// An operand where an address is expected.
pub fn to_address<'a>(
    operand: AsmOperand<'a>,
) -> (address: Result<AddressOperand<'a>, AsmError<'a>>)
    ensures
        address == spec_to_address(operand),
{
    match operand.value {
        AsmValue::Const(number) => Ok((AddressLike::Number(number), operand.source)),
        AsmValue::CurrentPosition => Ok((AddressLike::CurrentPosition, operand.source)),
        AsmValue::Symbol(id) => Ok((AddressLike::Symbol(id), operand.source)),
        AsmValue::StringLiteral(_) => Err(AsmError::at(Reason::ExpectedAddress, operand.source)),
        AsmValue::MacroParameter(_) => Err(AsmError::at(Reason::ParameterOutsideMacro, operand.source)),
    }
}

/// The first `count` operands, each as a number.
pub open spec fn spec_numbers<'a>(
    operands: Seq<AsmOperand<'a>>,
    count: nat,
) -> Result<Seq<NumberOperand<'a>>, AsmError<'a>>
    decreases count,
{
    if count == 0 {
        Ok(Seq::empty())
    } else {
        match spec_numbers(operands, (count - 1) as nat) {
            Err(error) => Err(error),
            Ok(before) => match spec_to_number(operands[count - 1]) {
                Err(error) => Err(error),
                Ok(number) => Ok(before.push(number)),
            },
        }
    }
}

/// Once an operand is refused, the list is refused with the same error.
pub proof fn lemma_numbers_fail<'a>(operands: Seq<AsmOperand<'a>>, failed: nat, count: nat)
    requires
        failed <= count,
        spec_numbers(operands, failed) is Err,
    ensures
        spec_numbers(operands, count) == spec_numbers(operands, failed),
    decreases count,
{
    if failed < count {
        lemma_numbers_fail(operands, failed, (count - 1) as nat);
    }
}

fn numbers<'a>(
    operands: &Vec<AsmOperand<'a>>,
) -> (list: Result<Vec<NumberOperand<'a>>, AsmError<'a>>)
    ensures
        match spec_numbers(operands@, operands@.len()) {
            Ok(expected) => list is Ok && list->Ok_0@ == expected,
            Err(error) => list == Err::<Vec<NumberOperand<'a>>, AsmError<'a>>(error),
        },
{
    let mut list: Vec<NumberOperand<'a>> = Vec::new();
    let mut at: usize = 0;
    while at < operands.len()
        invariant
            at <= operands@.len(),
            spec_numbers(operands@, at as nat) == Ok::<Seq<NumberOperand<'a>>, AsmError<'a>>(list@),
        decreases operands@.len() - at,
    {
        match to_number(operands[at]) {
            Ok(number) => {
                list.push(number);
            },
            Err(error) => {
                proof {
                    lemma_numbers_fail(operands@, (at + 1) as nat, operands@.len());
                }
                return Err(error);
            },
        }
        at = at + 1;
    }
    Ok(list)
}

/// The error of an operator that takes `expected` operands and was given `given`.
pub open spec fn spec_wrong_count<'a>(
    main_operator: Token<'a>,
    expected: int,
    given: int,
) -> AsmError<'a> {
    AsmError::spec_at(
        Reason::WrongArgumentCount { expected: expected as usize, given: given as usize },
        main_operator.source,
    )
}

/// The instruction that a machine mnemonic and its operands stand for.
/// The kind of the opcode decides how many operands it takes and what each
/// of them must be.
pub open spec fn spec_instruction<'a>(
    code: ByteCodes,
    main_operator: Token<'a>,
    operands: Seq<AsmOperand<'a>>,
) -> Result<InstructionView<'a>, AsmError<'a>> {
    match code.spec_operand_kind() {
        OperandKind::Nothing => if operands.len() != 0 {
            Err(spec_wrong_count(main_operator, 0, operands.len() as int))
        } else {
            Ok(InstructionView::Plain(code))
        },
        OperandKind::Address => if operands.len() != 1 {
            Err(spec_wrong_count(main_operator, 1, operands.len() as int))
        } else {
            match spec_to_address(operands[0]) {
                Ok(addr) => Ok(InstructionView::Address { code, addr }),
                Err(error) => Err(error),
            }
        },
        OperandKind::Number(width) => if operands.len() != 1 {
            Err(spec_wrong_count(main_operator, 1, operands.len() as int))
        } else {
            match spec_to_number(operands[0]) {
                Ok(value) => Ok(InstructionView::Number { code, width, value }),
                Err(error) => Err(error),
            }
        },
        OperandKind::AddressAndCount => if operands.len() != 2 {
            Err(spec_wrong_count(main_operator, 2, operands.len() as int))
        } else {
            match spec_to_address(operands[0]) {
                Err(error) => Err(error),
                Ok(addr) => match spec_to_number(operands[1]) {
                    Err(error) => Err(error),
                    Ok(count) => Ok(InstructionView::LoadStaticBytes { addr, count }),
                },
            }
        },
        OperandKind::Bytes => match spec_numbers(operands, operands.len()) {
            Err(error) => Err(error),
            Ok(bytes) => Ok(InstructionView::LoadConstBytes { bytes }),
        },
    }
}

/// `built` is the instruction that `expected` describes, or its error.
pub open spec fn built_as<'a>(
    built: Result<AsmInstruction<'a>, AsmError<'a>>,
    expected: Result<InstructionView<'a>, AsmError<'a>>,
) -> bool {
    match expected {
        Ok(view) => built is Ok && built->Ok_0@ == view,
        Err(error) => built == Err::<AsmInstruction<'a>, AsmError<'a>>(error),
    }
}

/// Builds the instruction of a machine mnemonic from its operands.
pub fn parse_instruction<'a>(
    code: ByteCodes,
    main_operator: Token<'a>,
    operands: &Vec<AsmOperand<'a>>,
) -> (built: Result<AsmInstruction<'a>, AsmError<'a>>)
    ensures
        built_as(built, spec_instruction(code, main_operator, operands@)),
{
    let given = operands.len();
    match code.operand_kind() {
        OperandKind::Nothing => {
            if given != 0 {
                return Err(wrong_count(main_operator, 0, given));
            }
            Ok(AsmInstruction::Plain(code))
        },
        OperandKind::Address => {
            if given != 1 {
                return Err(wrong_count(main_operator, 1, given));
            }
            match to_address(operands[0]) {
                Ok(addr) => Ok(AsmInstruction::Address { code, addr }),
                Err(error) => Err(error),
            }
        },
        OperandKind::Number(width) => {
            if given != 1 {
                return Err(wrong_count(main_operator, 1, given));
            }
            match to_number(operands[0]) {
                Ok(value) => Ok(AsmInstruction::Number { code, width, value }),
                Err(error) => Err(error),
            }
        },
        OperandKind::AddressAndCount => {
            if given != 2 {
                return Err(wrong_count(main_operator, 2, given));
            }
            match to_address(operands[0]) {
                Err(error) => Err(error),
                Ok(addr) => match to_number(operands[1]) {
                    Err(error) => Err(error),
                    Ok(count) => Ok(AsmInstruction::LoadStaticBytes { addr, count }),
                },
            }
        },
        OperandKind::Bytes => match numbers(operands) {
            Err(error) => Err(error),
            Ok(bytes) => Ok(AsmInstruction::LoadConstBytes { bytes }),
        },
    }
}

fn wrong_count<'a>(main_operator: Token<'a>, expected: usize, given: usize) -> (error: AsmError<'a>)
    ensures
        error == spec_wrong_count(main_operator, expected as int, given as int),
{
    AsmError::at(Reason::WrongArgumentCount { expected, given }, main_operator.source)
}

/// The instruction that a pseudo-instruction other than the one that
/// includes a file stands for.
pub open spec fn spec_pseudo<'a>(
    code: PseudoInstructions,
    main_operator: Token<'a>,
    operands: Seq<AsmOperand<'a>>,
) -> Result<InstructionView<'a>, AsmError<'a>> {
    match code {
        PseudoInstructions::DefineNumber => if operands.len() != 2 {
            Err(spec_wrong_count(main_operator, 2, operands.len() as int))
        } else {
            match spec_to_number(operands[0]) {
                Err(error) => Err(error),
                Ok(size) => match spec_to_number(operands[1]) {
                    Err(error) => Err(error),
                    Ok(value) => Ok(InstructionView::DefineNumber { size, value }),
                },
            }
        },
        PseudoInstructions::DefineBytes => match spec_numbers(operands, operands.len()) {
            Err(error) => Err(error),
            Ok(bytes) => Ok(InstructionView::DefineBytes { bytes }),
        },
        PseudoInstructions::DefineString => match spec_string_operand(main_operator, operands) {
            Err(error) => Err(error),
            Ok(static_id) => Ok(InstructionView::DefineString { static_id }),
        },
        PseudoInstructions::IncludeAsm => Err(AsmError::spec_at(Reason::NotAMainOperator, main_operator.source)),
        PseudoInstructions::Return => if operands.len() != 0 {
            Err(spec_wrong_count(main_operator, 0, operands.len() as int))
        } else {
            Ok(InstructionView::Return)
        },
    }
}

/// The one operand of an operator that takes a string.
pub open spec fn spec_string_operand<'a>(
    main_operator: Token<'a>,
    operands: Seq<AsmOperand<'a>>,
) -> Result<StaticID, AsmError<'a>> {
    if operands.len() != 1 {
        Err(spec_wrong_count(main_operator, 1, operands.len() as int))
    } else {
        match operands[0].value {
            AsmValue::StringLiteral(id) => Ok(id),
            _ => Err(AsmError::spec_at(Reason::ExpectedString, operands[0].source)),
        }
    }
}

/// The one operand of an operator that takes a string.
pub fn string_operand<'a>(
    main_operator: Token<'a>,
    operands: &Vec<AsmOperand<'a>>,
) -> (id: Result<StaticID, AsmError<'a>>)
    ensures
        id == spec_string_operand(main_operator, operands@),
{
    if operands.len() != 1 {
        return Err(wrong_count(main_operator, 1, operands.len()));
    }
    match operands[0].value {
        AsmValue::StringLiteral(id) => Ok(id),
        _ => Err(AsmError::at(Reason::ExpectedString, operands[0].source)),
    }
}

/// Builds the instruction of a pseudo-instruction from its operands.
pub fn parse_pseudo<'a>(
    code: PseudoInstructions,
    main_operator: Token<'a>,
    operands: &Vec<AsmOperand<'a>>,
) -> (built: Result<AsmInstruction<'a>, AsmError<'a>>)
    ensures
        built_as(built, spec_pseudo(code, main_operator, operands@)),
{
    let given = operands.len();
    match code {
        PseudoInstructions::DefineNumber => {
            if given != 2 {
                return Err(wrong_count(main_operator, 2, given));
            }
            match to_number(operands[0]) {
                Err(error) => Err(error),
                Ok(size) => match to_number(operands[1]) {
                    Err(error) => Err(error),
                    Ok(value) => Ok(AsmInstruction::DefineNumber { size, value }),
                },
            }
        },
        PseudoInstructions::DefineBytes => match numbers(operands) {
            Err(error) => Err(error),
            Ok(bytes) => Ok(AsmInstruction::DefineBytes { bytes }),
        },
        PseudoInstructions::DefineString => match string_operand(main_operator, operands) {
            Err(error) => Err(error),
            Ok(static_id) => Ok(AsmInstruction::DefineString { static_id }),
        },
        PseudoInstructions::IncludeAsm => Err(AsmError::at(Reason::NotAMainOperator, main_operator.source)),
        PseudoInstructions::Return => {
            if given != 0 {
                return Err(wrong_count(main_operator, 0, given));
            }
            Ok(AsmInstruction::Return)
        },
    }
}

/// The argument given for the parameter `id`: that of the last parameter
/// of that name among the first `count`.
pub open spec fn spec_argument<'a>(
    params: Seq<SymbolID>,
    arguments: Seq<AsmOperand<'a>>,
    count: nat,
    id: SymbolID,
) -> Option<AsmOperand<'a>>
    decreases count,
{
    if count == 0 {
        None
    } else if params[count - 1] == id {
        Some(arguments[count - 1])
    } else {
        spec_argument(params, arguments, (count - 1) as nat, id)
    }
}

fn argument<'a>(
    params: &Vec<SymbolID>,
    arguments: &Vec<AsmOperand<'a>>,
    id: SymbolID,
) -> (found: Option<AsmOperand<'a>>)
    requires
        params@.len() <= arguments@.len(),
    ensures
        found == spec_argument(params@, arguments@, params@.len(), id),
{
    let mut at: usize = params.len();
    while at > 0
        invariant
            at <= params@.len() <= arguments@.len(),
            spec_argument(params@, arguments@, params@.len(), id) == spec_argument(
                params@,
                arguments@,
                at as nat,
                id,
            ),
        decreases at,
    {
        at = at - 1;
        if params[at].0 == id.0 {
            return Some(arguments[at]);
        }
    }
    None
}

/// The first `count` operands of a body line with the parameters replaced
/// by the arguments.
pub open spec fn spec_substitute<'a>(
    operands: Seq<AsmOperand<'a>>,
    count: nat,
    params: Seq<SymbolID>,
    arguments: Seq<AsmOperand<'a>>,
) -> Result<Seq<AsmOperand<'a>>, AsmError<'a>>
    decreases count,
{
    if count == 0 {
        Ok(Seq::empty())
    } else {
        match spec_substitute(operands, (count - 1) as nat, params, arguments) {
            Err(error) => Err(error),
            Ok(before) => {
                let operand = operands[count - 1];
                match operand.value {
                    AsmValue::MacroParameter(id) => match spec_argument(params, arguments, params.len(), id) {
                        Some(argument) => Ok(before.push(argument)),
                        None => Err(AsmError::spec_at(Reason::UnknownParameter, operand.source)),
                    },
                    _ => Ok(before.push(operand)),
                }
            },
        }
    }
}

/// Once an operand is refused, the line is refused with the same error.
pub proof fn lemma_substitute_fails<'a>(
    operands: Seq<AsmOperand<'a>>,
    failed: nat,
    count: nat,
    params: Seq<SymbolID>,
    arguments: Seq<AsmOperand<'a>>,
)
    requires
        failed <= count,
        spec_substitute(operands, failed, params, arguments) is Err,
    ensures
        spec_substitute(operands, count, params, arguments) == spec_substitute(
            operands,
            failed,
            params,
            arguments,
        ),
    decreases count,
{
    if failed < count {
        lemma_substitute_fails(operands, failed, (count - 1) as nat, params, arguments);
    }
}

fn substitute<'a>(
    operands: &Vec<AsmOperand<'a>>,
    params: &Vec<SymbolID>,
    arguments: &Vec<AsmOperand<'a>>,
) -> (line: Result<Vec<AsmOperand<'a>>, AsmError<'a>>)
    requires
        params@.len() <= arguments@.len(),
    ensures
        match spec_substitute(operands@, operands@.len(), params@, arguments@) {
            Ok(expected) => line is Ok && line->Ok_0@ == expected,
            Err(error) => line == Err::<Vec<AsmOperand<'a>>, AsmError<'a>>(error),
        },
{
    let mut line: Vec<AsmOperand<'a>> = Vec::new();
    let mut at: usize = 0;
    while at < operands.len()
        invariant
            at <= operands@.len(),
            params@.len() <= arguments@.len(),
            spec_substitute(operands@, at as nat, params@, arguments@) == Ok::<
                Seq<AsmOperand<'a>>,
                AsmError<'a>,
            >(line@),
        decreases operands@.len() - at,
    {
        let operand = operands[at];
        match operand.value {
            AsmValue::MacroParameter(id) => match argument(params, arguments, id) {
                Some(found) => {
                    line.push(found);
                },
                None => {
                    proof {
                        lemma_substitute_fails(
                            operands@,
                            (at + 1) as nat,
                            operands@.len(),
                            params@,
                            arguments@,
                        );
                    }
                    return Err(AsmError::at(Reason::UnknownParameter, operand.source));
                },
            },
            _ => {
                line.push(operand);
            },
        }
        at = at + 1;
    }
    Ok(line)
}

/// The first `count` lines of a macro's body with the parameters replaced
/// by the arguments.
pub open spec fn spec_expand_lines<'a>(
    body: Seq<(Token<'a>, Seq<AsmOperand<'a>>)>,
    count: nat,
    params: Seq<SymbolID>,
    arguments: Seq<AsmOperand<'a>>,
) -> Result<Seq<(Token<'a>, Seq<AsmOperand<'a>>)>, AsmError<'a>>
    decreases count,
{
    if count == 0 {
        Ok(Seq::empty())
    } else {
        match spec_expand_lines(body, (count - 1) as nat, params, arguments) {
            Err(error) => Err(error),
            Ok(before) => {
                let line = body[count - 1];
                match spec_substitute(line.1, line.1.len(), params, arguments) {
                    Err(error) => Err(error),
                    Ok(operands) => Ok(before.push((line.0, operands))),
                }
            },
        }
    }
}

/// Once a line is refused, the body is refused with the same error.
pub proof fn lemma_expand_fails<'a>(
    body: Seq<(Token<'a>, Seq<AsmOperand<'a>>)>,
    failed: nat,
    count: nat,
    params: Seq<SymbolID>,
    arguments: Seq<AsmOperand<'a>>,
)
    requires
        failed <= count,
        spec_expand_lines(body, failed, params, arguments) is Err,
    ensures
        spec_expand_lines(body, count, params, arguments) == spec_expand_lines(
            body,
            failed,
            params,
            arguments,
        ),
    decreases count,
{
    if failed < count {
        lemma_expand_fails(body, failed, (count - 1) as nat, params, arguments);
    }
}

/// The lines that a call of a macro stands for: the macro's body with
/// each parameter replaced by the argument in its place. The call must
/// give as many arguments as the macro has parameters.
pub open spec fn spec_expand<'a>(
    params: Seq<SymbolID>,
    body: Seq<(Token<'a>, Seq<AsmOperand<'a>>)>,
    main_operator: Token<'a>,
    arguments: Seq<AsmOperand<'a>>,
) -> Result<Seq<(Token<'a>, Seq<AsmOperand<'a>>)>, AsmError<'a>> {
    if arguments.len() != params.len() {
        Err(spec_wrong_count(main_operator, params.len() as int, arguments.len() as int))
    } else {
        spec_expand_lines(body, body.len(), params, arguments)
    }
}

/// Expands a call of `macro_def` with the given arguments.
pub fn expand<'a>(
    macro_def: &MacroDef<'a>,
    main_operator: Token<'a>,
    arguments: &Vec<AsmOperand<'a>>,
) -> (lines: Result<Vec<(Token<'a>, Vec<AsmOperand<'a>>)>, AsmError<'a>>)
    ensures
        match spec_expand(macro_def.args@, body_view(macro_def.body@), main_operator, arguments@) {
            Ok(expected) => lines is Ok && body_view(lines->Ok_0@) == expected,
            Err(error) => lines == Err::<Vec<(Token<'a>, Vec<AsmOperand<'a>>)>, AsmError<'a>>(error),
        },
{
    if arguments.len() != macro_def.args.len() {
        return Err(wrong_count(main_operator, macro_def.args.len(), arguments.len()));
    }
    let ghost body = body_view(macro_def.body@);
    let mut lines: Vec<(Token<'a>, Vec<AsmOperand<'a>>)> = Vec::new();
    let mut at: usize = 0;
    assert(body_view(lines@) =~= Seq::<(Token<'a>, Seq<AsmOperand<'a>>)>::empty());
    while at < macro_def.body.len()
        invariant
            at <= macro_def.body@.len(),
            body == body_view(macro_def.body@),
            arguments@.len() == macro_def.args@.len(),
            spec_expand_lines(body, at as nat, macro_def.args@, arguments@) == Ok::<
                Seq<(Token<'a>, Seq<AsmOperand<'a>>)>,
                AsmError<'a>,
            >(body_view(lines@)),
        decreases macro_def.body@.len() - at,
    {
        let main = macro_def.body[at].0;
        assert(body[at as int] == (main, macro_def.body@[at as int].1@));
        match substitute(&macro_def.body[at].1, &macro_def.args, arguments) {
            Err(error) => {
                proof {
                    lemma_expand_fails(
                        body,
                        (at + 1) as nat,
                        macro_def.body@.len(),
                        macro_def.args@,
                        arguments@,
                    );
                }
                return Err(error);
            },
            Ok(operands) => {
                let ghost before = lines@;
                let ghost added = (main, operands@);
                lines.push((main, operands));
                assert(body_view(lines@) =~= body_view(before).push(added));
            },
        }
        at = at + 1;
    }
    Ok(lines)
}

} // verus!
