//! The assembler as a session with its host. The session parses the lines
//! of the loaded units one at a time; where a line includes a file, it asks
//! the host to find and to load it, and goes on with the host's reply.

use std::collections::HashMap;
use vstd::prelude::*;
use crate::code_generator::{generate, spec_generate};
use crate::errors::{AsmError, Reason};
use crate::lang::{
    nodes_view, AsmNode, AsmNodeValue, AsmOperand, AsmValue, NodeValueView, NodeView, PseudoInstructions,
};
use crate::module_manager::{AsmUnit, ModuleManager};
use crate::parser::{
    body_view, expand, parse_instruction, parse_operands, parse_pseudo, spec_expand,
    spec_instruction, spec_operands, spec_pseudo, spec_string_operand, spec_wrong_count, string_operand, MacroDef,
};
use crate::symbol_table::{is_prefix, StaticID, StaticValue, Symbol, SymbolID, SymbolTable};
use crate::text::str_eq;
use crate::tokenizer::{
    raw_view, spec_scan_lines, tokenize_lexed, tokens_view, ScanState, SourceToken, Token,
    TokenList, TokenValue,
};

verus! {

broadcast use vstd::std_specs::hash::group_hash_axioms;

/// A parsed line as contracts see it: the main operator and the operands.
pub type LineView<'a> = (Token<'a>, Seq<AsmOperand<'a>>);

/// A macro as contracts see it.
#[verifier::ext_equal]
pub struct MacroView<'a> {
    pub params: Seq<SymbolID>,
    pub body: Seq<LineView<'a>>,
}

/// The lines of a macro call that are being parsed, and how many are done.
#[verifier::ext_equal]
pub struct ExpansionView<'a> {
    pub lines: Seq<LineView<'a>>,
    pub next: int,
}

/// A unit that is being parsed: its lines, how many are done, and the
/// macro calls that are open in it, the innermost last.
#[verifier::ext_equal]
pub struct UnitView<'a> {
    pub lines: Seq<Seq<Token<'a>>>,
    pub next: int,
    pub expansions: Seq<ExpansionView<'a>>,
}

/// What the session waits for.
#[derive(Clone, Copy, Debug)]
pub enum Waiting<'a> {
    /// Nothing: the next line can be parsed.
    Nothing,
    /// Whether the file named by the static `path` exists in the place
    /// that was asked about last. `tried` include paths have been asked about.
    Probe { token: SourceToken<'a>, from: Option<&'a str>, path: StaticID, tried: usize },
    /// The lexemes of the unit with this canonical path.
    Load { token: SourceToken<'a>, unit_path: &'a str },
}

/// What the session asks of its host.
#[derive(Clone, Copy, Debug, PartialEq, Eq)]
pub enum Request<'a> {
    /// Nothing; the session can take its next step.
    Continue,
    /// Look for the file named by the static `path`: with `include_path`,
    /// in the include path of that index; without, in the directory of the
    /// unit `from`, or in the working directory where there is no such unit.
    Probe { from: Option<&'a str>, include_path: Option<usize>, path: StaticID },
    /// Read the file with this canonical path and split it into lexemes.
    Load { unit_path: &'a str },
    /// Nothing is left to parse.
    Done,
}

/// What the host answers.
pub enum Reply<'a> {
    /// The file exists, and this is its canonical path.
    Found(&'a str),
    /// The file does not exist in the place that was asked about.
    Missing,
    /// The file could not be read.
    Failed,
    /// The lines of the file, its lexemes line by line, and the bit
    /// patterns of its floats in the order of the source.
    Unit { unit: AsmUnit<'a>, raw_lines: Vec<Vec<SourceToken<'a>>>, floats: Vec<Option<u64>> },
}

/// A reply as contracts see it.
pub enum ReplyView<'a> {
    Found(&'a str),
    Missing,
    Failed,
    Unit { lines: Seq<Seq<char>>, raw_lines: Seq<Seq<SourceToken<'a>>>, floats: Seq<Option<u64>> },
}

impl<'a> View for Reply<'a> {
    type V = ReplyView<'a>;

    open spec fn view(&self) -> ReplyView<'a> {
        match self {
            Reply::Found(unit_path) => ReplyView::Found(*unit_path),
            Reply::Missing => ReplyView::Missing,
            Reply::Failed => ReplyView::Failed,
            Reply::Unit { unit, raw_lines, floats } => ReplyView::Unit {
                lines: unit.lines_view(),
                raw_lines: raw_view(raw_lines@),
                floats: floats@,
            },
        }
    }
}

/// The state of a session as contracts see it.
#[verifier::ext_equal]
pub struct Session<'a> {
    pub symbols: Seq<Symbol<'a>>,
    pub statics: Seq<Seq<char>>,
    /// The macros, each under the index of the symbol that names it.
    pub macros: Map<usize, MacroView<'a>>,
    /// The canonical paths of the units loaded so far.
    pub loaded: Seq<Seq<char>>,
    /// The lines of the units loaded so far, in the same order.
    pub sources: Seq<Seq<Seq<char>>>,
    /// The include paths.
    pub search_paths: Seq<Seq<char>>,
    /// The units that are being parsed, the innermost last.
    pub units: Seq<UnitView<'a>>,
    /// The nodes produced so far.
    pub nodes: Seq<NodeView<'a>>,
    pub waiting: Waiting<'a>,
}

/// The session with its innermost unit replaced.
pub open spec fn with_unit<'a>(s: Session<'a>, unit: UnitView<'a>) -> Session<'a> {
    Session { units: s.units.drop_last().push(unit), ..s }
}

/// The session with one more node.
pub open spec fn with_node<'a>(
    s: Session<'a>,
    value: NodeValueView<'a>,
    source: SourceToken<'a>,
) -> Session<'a> {
    Session { nodes: s.nodes.push(NodeView { value, source }), ..s }
}

/// A step that ends without a request to the host.
pub open spec fn spec_go_on<'a>(
    s: Session<'a>,
) -> Result<(Session<'a>, Request<'a>), AsmError<'a>> {
    Ok((s, Request::Continue))
}

/// The symbol that the first operand names.
pub open spec fn spec_name<'a>(
    main_operator: Token<'a>,
    operands: Seq<AsmOperand<'a>>,
) -> Result<SymbolID, AsmError<'a>> {
    if operands.len() == 0 {
        Err(AsmError::spec_at(Reason::MissingName, main_operator.source))
    } else {
        match operands[0].value {
            AsmValue::Symbol(id) => Ok(id),
            _ => Err(AsmError::spec_at(Reason::ExpectedName, operands[0].source)),
        }
    }
}

/// `@ name` and `. name`: the symbol is given a value, so that it cannot
/// be defined again, and is recorded as defined at the main operator. A
/// node records the place.
pub open spec fn spec_define_position<'a>(
    s: Session<'a>,
    main_operator: Token<'a>,
    operands: Seq<AsmOperand<'a>>,
    label: bool,
) -> Result<(Session<'a>, Request<'a>), AsmError<'a>> {
    if operands.len() != 1 {
        Err(spec_wrong_count(main_operator, 1, operands.len() as int))
    } else {
        match spec_name(main_operator, operands) {
            Err(error) => Err(error),
            Ok(id) => if id.0 >= s.symbols.len() {
                Err(AsmError::spec_at(Reason::UndefinedSymbol, operands[0].source))
            } else {
                let symbol = s.symbols[id.0 as int];
                if symbol.value is Some {
                    Err(AsmError::spec_redeclaration(operands[0].source, symbol.source))
                } else {
                    let defined = Symbol {
                        source: main_operator.source,
                        name: symbol.name,
                        value: Some(AsmValue::CurrentPosition),
                    };
                    spec_go_on(
                        with_node(
                            Session { symbols: s.symbols.update(id.0 as int, defined), ..s },
                            if label {
                                NodeValueView::Label(symbol.name)
                            } else {
                                NodeValueView::Section(symbol.name)
                            },
                            main_operator.source,
                        ),
                    )
                }
            },
        }
    }
}

/// `%= name value`: the symbol gets the value of the second operand.
pub open spec fn spec_define_value<'a>(
    s: Session<'a>,
    main_operator: Token<'a>,
    operands: Seq<AsmOperand<'a>>,
) -> Result<(Session<'a>, Request<'a>), AsmError<'a>> {
    match spec_name(main_operator, operands) {
        Err(error) => Err(error),
        Ok(id) => if operands.len() != 2 {
            Err(spec_wrong_count(main_operator, 2, operands.len() as int))
        } else if id.0 >= s.symbols.len() {
            Err(AsmError::spec_at(Reason::UndefinedSymbol, operands[0].source))
        } else {
            spec_go_on(
                Session {
                    symbols: s.symbols.update(
                        id.0 as int,
                        Symbol {
                            source: operands[1].source,
                            name: s.symbols[id.0 as int].name,
                            value: Some(operands[1].value),
                        },
                    ),
                    ..s
                },
            )
        },
    }
}

/// The parameters of a macro: the operands after its name, which must all be symbols.
pub open spec fn spec_params<'a>(
    operands: Seq<AsmOperand<'a>>,
    count: nat,
) -> Result<Seq<SymbolID>, AsmError<'a>>
    decreases count,
{
    if count <= 1 {
        Ok(Seq::empty())
    } else {
        match spec_params(operands, (count - 1) as nat) {
            Err(error) => Err(error),
            Ok(before) => match operands[count - 1].value {
                AsmValue::Symbol(id) => Ok(before.push(id)),
                _ => Err(AsmError::spec_at(Reason::ExpectedName, operands[count - 1].source)),
            },
        }
    }
}

/// A line of a body, followed by the lines that come after it.
pub open spec fn spec_with_line<'a>(
    line: LineView<'a>,
    rest: Result<(Seq<LineView<'a>>, int), AsmError<'a>>,
) -> Result<(Seq<LineView<'a>>, int), AsmError<'a>> {
    match rest {
        Ok((lines, next)) => Ok((seq![line] + lines, next)),
        Err(error) => Err(error),
    }
}

/// The body of a macro: the lines from `from` on up to the first whose
/// main operator is `%endmacro`, and the index of the line after that one.
pub open spec fn spec_macro_body<'a>(
    lines: Seq<Seq<Token<'a>>>,
    from: int,
    symbols: Seq<Symbol<'a>>,
    main_operator: Token<'a>,
) -> Result<(Seq<LineView<'a>>, int), AsmError<'a>>
    decreases lines.len() - from,
{
    if from < 0 || from >= lines.len() {
        Err(AsmError::spec_at(Reason::MissingEndMacro, main_operator.source))
    } else {
        let line = lines[from];
        if line.len() == 0 {
            spec_macro_body(lines, from + 1, symbols, main_operator)
        } else {
            match spec_operands(line, 1, symbols) {
                Err(error) => Err(error),
                Ok(operands) => if line[0].value is EndMacro {
                    Ok((Seq::empty(), from + 1))
                } else {
                    spec_with_line(
                        (line[0], operands),
                        spec_macro_body(lines, from + 1, symbols, main_operator),
                    )
                },
            }
        }
    }
}

/// `% name params…`: the lines up to `%endmacro` become the macro's body.
pub open spec fn spec_define_macro<'a>(
    s: Session<'a>,
    main_operator: Token<'a>,
    operands: Seq<AsmOperand<'a>>,
) -> Result<(Session<'a>, Request<'a>), AsmError<'a>> {
    let unit = s.units.last();
    match spec_name(main_operator, operands) {
        Err(error) => Err(error),
        Ok(id) => match spec_params(operands, operands.len()) {
            Err(error) => Err(error),
            Ok(params) => match spec_macro_body(unit.lines, unit.next, s.symbols, main_operator) {
                Err(error) => Err(error),
                Ok((body, next)) => if s.macros.contains_key(id.0) {
                    Err(
                        AsmError::spec_redeclaration(
                            main_operator.source,
                            if id.0 < s.symbols.len() {
                                s.symbols[id.0 as int].source
                            } else {
                                main_operator.source
                            },
                        ),
                    )
                } else {
                    spec_go_on(
                        with_unit(
                            Session {
                                macros: s.macros.insert(id.0, MacroView { params, body }),
                                ..s
                            },
                            UnitView { next, ..unit },
                        ),
                    )
                },
            },
        },
    }
}

/// `! name args…`: the lines of the macro, with the arguments in the
/// place of the parameters, are parsed next.
pub open spec fn spec_call<'a>(
    s: Session<'a>,
    main_operator: Token<'a>,
    operands: Seq<AsmOperand<'a>>,
) -> Result<(Session<'a>, Request<'a>), AsmError<'a>> {
    let unit = s.units.last();
    match spec_name(main_operator, operands) {
        Err(error) => Err(error),
        Ok(id) => if !s.macros.contains_key(id.0) {
            Err(AsmError::spec_at(Reason::UndefinedMacro, operands[0].source))
        } else {
            match spec_expand(
                s.macros[id.0].params,
                s.macros[id.0].body,
                main_operator,
                operands.skip(1),
            ) {
                Err(error) => Err(error),
                Ok(lines) => spec_go_on(
                    with_unit(
                        s,
                        UnitView {
                            expansions: unit.expansions.push(ExpansionView { lines, next: 0 }),
                            ..unit
                        },
                    ),
                ),
            }
        },
    }
}

/// What a line does, given its main operator and its operands. The
/// session has a unit that is being parsed.
pub open spec fn spec_parse_line<'a>(
    s: Session<'a>,
    main_operator: Token<'a>,
    operands: Seq<AsmOperand<'a>>,
) -> Result<(Session<'a>, Request<'a>), AsmError<'a>> {
    match main_operator.value {
        TokenValue::Bang => spec_call(s, main_operator, operands),
        TokenValue::At => spec_define_position(s, main_operator, operands, true),
        TokenValue::Dot => spec_define_position(s, main_operator, operands, false),
        TokenValue::ValueMacroDef => spec_define_value(s, main_operator, operands),
        TokenValue::Mod => spec_define_macro(s, main_operator, operands),
        TokenValue::Instruction(code) => match spec_instruction(code, main_operator, operands) {
            Err(error) => Err(error),
            Ok(instruction) => spec_go_on(
                with_node(s, NodeValueView::Instruction(instruction), main_operator.source),
            ),
        },
        TokenValue::PseudoInstruction(PseudoInstructions::IncludeAsm) => match spec_string_operand(
            main_operator,
            operands,
        ) {
            Err(error) => Err(error),
            Ok(path) => Ok(
                (
                    Session {
                        waiting: Waiting::Probe {
                            token: main_operator.source,
                            from: Some(main_operator.source.unit_path),
                            path,
                            tried: 0,
                        },
                        ..s
                    },
                    Request::Probe { from: Some(main_operator.source.unit_path), include_path: None, path },
                ),
            ),
        },
        TokenValue::PseudoInstruction(code) => match spec_pseudo(code, main_operator, operands) {
            Err(error) => Err(error),
            Ok(instruction) => spec_go_on(
                with_node(s, NodeValueView::Instruction(instruction), main_operator.source),
            ),
        },
        _ => Err(AsmError::spec_at(Reason::NotAMainOperator, main_operator.source)),
    }
}

/// The request that is outstanding.
pub open spec fn spec_request<'a>(waiting: Waiting<'a>) -> Request<'a> {
    match waiting {
        Waiting::Nothing => Request::Continue,
        Waiting::Probe { token, from, path, tried } => Request::Probe {
            from,
            include_path: if tried == 0 {
                None
            } else {
                Some((tried - 1) as usize)
            },
            path,
        },
        Waiting::Load { token, unit_path } => Request::Load { unit_path },
    }
}

/// One step of the session: the next line of the innermost macro call
/// or, where none is open, of the innermost unit. A call or a unit without
/// lines left is closed. While the host owes a reply, nothing happens.
pub open spec fn spec_step<'a>(s: Session<'a>) -> Result<(Session<'a>, Request<'a>), AsmError<'a>> {
    if !(s.waiting is Nothing) {
        Ok((s, spec_request(s.waiting)))
    } else if s.units.len() == 0 {
        Ok((s, Request::Done))
    } else {
        let unit = s.units.last();
        if unit.expansions.len() > 0 {
            let expansion = unit.expansions.last();
            if expansion.next < 0 || expansion.next >= expansion.lines.len() {
                spec_go_on(with_unit(s, UnitView { expansions: unit.expansions.drop_last(), ..unit }))
            } else {
                let line = expansion.lines[expansion.next];
                spec_parse_line(
                    with_unit(
                        s,
                        UnitView {
                            expansions: unit.expansions.drop_last().push(
                                ExpansionView { next: expansion.next + 1, ..expansion },
                            ),
                            ..unit
                        },
                    ),
                    line.0,
                    line.1,
                )
            }
        } else if unit.next < 0 || unit.next >= unit.lines.len() {
            spec_go_on(Session { units: s.units.drop_last(), ..s })
        } else {
            let tokens = unit.lines[unit.next];
            let advanced = with_unit(s, UnitView { next: unit.next + 1, ..unit });
            if tokens.len() == 0 {
                spec_go_on(advanced)
            } else {
                match spec_operands(tokens, 1, s.symbols) {
                    Err(error) => Err(error),
                    Ok(operands) => spec_parse_line(advanced, tokens[0], operands),
                }
            }
        }
    }
}

/// The session after the host's reply. A file that is found under a
/// canonical path that is loaded already is not loaded again. A reply that
/// does not answer the outstanding request changes nothing.
pub open spec fn spec_reply<'a>(
    s: Session<'a>,
    reply: ReplyView<'a>,
) -> Result<(Session<'a>, Request<'a>), AsmError<'a>> {
    match s.waiting {
        Waiting::Nothing => Ok((s, Request::Continue)),
        Waiting::Probe { token, from, path, tried } => match reply {
            ReplyView::Found(unit_path) => if s.loaded.contains(unit_path@) {
                spec_go_on(Session { waiting: Waiting::Nothing, ..s })
            } else {
                Ok(
                    (
                        Session { waiting: Waiting::Load { token, unit_path }, ..s },
                        Request::Load { unit_path },
                    ),
                )
            },
            ReplyView::Missing => if tried < s.search_paths.len() && tried < usize::MAX {
                Ok(
                    (
                        Session {
                            waiting: Waiting::Probe { token, from, path, tried: (tried + 1) as usize },
                            ..s
                        },
                        Request::Probe { from, include_path: Some(tried), path },
                    ),
                )
            } else {
                Err(AsmError::spec_at(Reason::Io, token))
            },
            ReplyView::Failed => Err(AsmError::spec_at(Reason::Io, token)),
            ReplyView::Unit { .. } => Ok((s, spec_request(s.waiting))),
        },
        Waiting::Load { token, unit_path } => match reply {
            ReplyView::Unit { lines, raw_lines, floats } => if s.loaded.contains(unit_path@) {
                spec_go_on(Session { waiting: Waiting::Nothing, ..s })
            } else {
                match spec_scan_lines(
                    raw_lines,
                    raw_lines.len(),
                    ScanState { symbols: s.symbols, statics: s.statics, used: 0 },
                    floats,
                ) {
                    Err(error) => Err(error),
                    Ok((tokens, state)) => spec_go_on(
                        Session {
                            symbols: state.symbols,
                            statics: state.statics,
                            loaded: s.loaded.push(unit_path@),
                            sources: s.sources.push(lines),
                            units: s.units.push(
                                UnitView { lines: tokens, next: 0, expansions: Seq::empty() },
                            ),
                            waiting: Waiting::Nothing,
                            ..s
                        },
                    ),
                }
            },
            ReplyView::Failed => Err(AsmError::spec_at(Reason::Io, token)),
            _ => Ok((s, spec_request(s.waiting))),
        },
    }
}


/// The lines of a macro call that are being parsed.
pub struct Expansion<'a> {
    lines: Vec<(Token<'a>, Vec<AsmOperand<'a>>)>,
    next: usize,
}

/// A unit that is being parsed, with the macro calls that are open in it.
pub struct UnitFrame<'a> {
    lines: Vec<TokenList<'a>>,
    next: usize,
    expansions: Vec<Expansion<'a>>,
}

/// The macros, each under the index of the symbol that names it.
pub type MacroMap<'a> = HashMap<usize, MacroDef<'a>>;

/// An assembler at work.
pub struct Assembler<'a> {
    symbol_table: SymbolTable<'a>,
    macros: MacroMap<'a>,
    module_manager: ModuleManager<'a>,
    units: Vec<UnitFrame<'a>>,
    nodes: Vec<AsmNode<'a>>,
    waiting: Waiting<'a>,
}

/// An open macro call as contracts see it.
pub closed spec fn expansion_view<'a>(expansion: Expansion<'a>) -> ExpansionView<'a> {
    ExpansionView { lines: body_view(expansion.lines@), next: expansion.next as int }
}

/// The open macro calls of a unit as contracts see them.
pub closed spec fn expansions_view<'a>(expansions: Seq<Expansion<'a>>) -> Seq<ExpansionView<'a>> {
    Seq::new(expansions.len(), |i: int| expansion_view(expansions[i]))
}

/// A unit that is being parsed as contracts see it.
pub closed spec fn unit_view<'a>(unit: UnitFrame<'a>) -> UnitView<'a> {
    UnitView {
        lines: tokens_view(unit.lines@),
        next: unit.next as int,
        expansions: expansions_view(unit.expansions@),
    }
}

/// The units that are being parsed as contracts see them.
pub closed spec fn units_view<'a>(units: Seq<UnitFrame<'a>>) -> Seq<UnitView<'a>> {
    Seq::new(units.len(), |i: int| unit_view(units[i]))
}

/// A macro as contracts see it.
pub open spec fn macro_view<'a>(definition: MacroDef<'a>) -> MacroView<'a> {
    MacroView { params: definition.args@, body: body_view(definition.body@) }
}

/// The macros as contracts see them.
pub open spec fn macros_view<'a>(macros: Map<usize, MacroDef<'a>>) -> Map<usize, MacroView<'a>> {
    macros.map_values(|definition: MacroDef<'a>| macro_view(definition))
}

/// The session `after` has the nodes, the macros and the units of `before`.
pub open spec fn kept<'a>(before: Session<'a>, after: Session<'a>) -> bool {
    &&& after.nodes == before.nodes
    &&& after.macros == before.macros
    &&& after.loaded == before.loaded
    &&& after.sources == before.sources
    &&& after.search_paths == before.search_paths
}

/// `result` and the session `after` are what `expected` says. An error
/// adds no node, no macro and no unit to the session `before`.
pub open spec fn advanced<'a>(
    result: Result<Request<'a>, AsmError<'a>>,
    before: Session<'a>,
    after: Session<'a>,
    expected: Result<(Session<'a>, Request<'a>), AsmError<'a>>,
) -> bool {
    match expected {
        Ok((session, request)) => result == Ok::<Request<'a>, AsmError<'a>>(request) && after
            == session,
        Err(error) => result == Err::<Request<'a>, AsmError<'a>>(error) && kept(before, after),
    }
}

fn copy_operands<'a>(operands: &Vec<AsmOperand<'a>>) -> (copy: Vec<AsmOperand<'a>>)
    ensures
        copy@ == operands@,
{
    let mut copy: Vec<AsmOperand<'a>> = Vec::new();
    let mut at: usize = 0;
    while at < operands.len()
        invariant
            at <= operands@.len(),
            copy@ == operands@.subrange(0, at as int),
        decreases operands@.len() - at,
    {
        copy.push(operands[at]);
        at = at + 1;
        assert(copy@ =~= operands@.subrange(0, at as int));
    }
    assert(operands@.subrange(0, at as int) =~= operands@);
    copy
}

fn name_of<'a>(
    main_operator: Token<'a>,
    operands: &Vec<AsmOperand<'a>>,
) -> (id: Result<SymbolID, AsmError<'a>>)
    ensures
        id == spec_name(main_operator, operands@),
{
    if operands.len() == 0 {
        return Err(AsmError::at(Reason::MissingName, main_operator.source));
    }
    match operands[0].value {
        AsmValue::Symbol(id) => Ok(id),
        _ => Err(AsmError::at(Reason::ExpectedName, operands[0].source)),
    }
}

/// Once a parameter is refused, the parameters are refused with the same error.
pub proof fn lemma_params_fail<'a>(operands: Seq<AsmOperand<'a>>, failed: nat, count: nat)
    requires
        failed <= count,
        spec_params(operands, failed) is Err,
    ensures
        spec_params(operands, count) == spec_params(operands, failed),
    decreases count,
{
    if failed < count {
        lemma_params_fail(operands, failed, (count - 1) as nat);
    }
}

fn params_of<'a>(operands: &Vec<AsmOperand<'a>>) -> (params: Result<Vec<SymbolID>, AsmError<'a>>)
    ensures
        match spec_params(operands@, operands@.len()) {
            Ok(expected) => params is Ok && params->Ok_0@ == expected,
            Err(error) => params == Err::<Vec<SymbolID>, AsmError<'a>>(error),
        },
{
    let mut params: Vec<SymbolID> = Vec::new();
    if operands.len() <= 1 {
        return Ok(params);
    }
    let mut at: usize = 1;
    while at < operands.len()
        invariant
            1 <= at <= operands@.len(),
            spec_params(operands@, at as nat) == Ok::<Seq<SymbolID>, AsmError<'a>>(params@),
        decreases operands@.len() - at,
    {
        match operands[at].value {
            AsmValue::Symbol(id) => {
                params.push(id);
            },
            _ => {
                proof {
                    lemma_params_fail(operands@, (at + 1) as nat, operands@.len());
                }
                return Err(AsmError::at(Reason::ExpectedName, operands[at].source));
            },
        }
        at = at + 1;
    }
    Ok(params)
}

/// What has been read of a body so far, followed by what the rest gives.
pub open spec fn spec_body_read<'a>(
    done: Seq<LineView<'a>>,
    rest: Result<(Seq<LineView<'a>>, int), AsmError<'a>>,
) -> Result<(Seq<LineView<'a>>, int), AsmError<'a>> {
    match rest {
        Ok((lines, next)) => Ok((done + lines, next)),
        Err(error) => Err(error),
    }
}

/// Reads the body of a macro from the lines of a unit.
fn macro_body<'a>(
    lines: &Vec<TokenList<'a>>,
    from: usize,
    symbol_table: &SymbolTable<'a>,
    main_operator: Token<'a>,
) -> (body: Result<(Vec<(Token<'a>, Vec<AsmOperand<'a>>)>, usize), AsmError<'a>>)
    ensures
        match spec_macro_body(tokens_view(lines@), from as int, symbol_table.symbols(), main_operator) {
            Ok((expected, next)) => body is Ok && body_view(body->Ok_0.0@) == expected && body->Ok_0.1
                == next,
            Err(error) => body == Err::<(Vec<(Token<'a>, Vec<AsmOperand<'a>>)>, usize), AsmError<'a>>(
                error,
            ),
        },
{
    let ghost views = tokens_view(lines@);
    let ghost symbols = symbol_table.symbols();
    let mut body: Vec<(Token<'a>, Vec<AsmOperand<'a>>)> = Vec::new();
    let mut at: usize = from;
    let length = lines.len();
    proof {
        assert(body_view(body@) =~= Seq::<LineView<'a>>::empty());
        let rest = spec_macro_body(views, from as int, symbols, main_operator);
        if rest is Ok {
            assert(body_view(body@) + rest->Ok_0.0 =~= rest->Ok_0.0);
        }
    }
    while at < length
        invariant
            from <= at,
            length == lines@.len(),
            views == tokens_view(lines@),
            symbols == symbol_table.symbols(),
            spec_macro_body(views, from as int, symbols, main_operator) == spec_body_read(
                body_view(body@),
                spec_macro_body(views, at as int, symbols, main_operator),
            ),
        decreases length - at,
    {
        let line = &lines[at];
        assert(views[at as int] == line@);
        if line.len() > 0 {
            let operands = match parse_operands(line, 1, symbol_table) {
                Err(error) => {
                    return Err(error);
                },
                Ok(operands) => operands,
            };
            let main = line[0];
            if matches!(main.value, TokenValue::EndMacro) {
                assert(body_view(body@) + Seq::<LineView<'a>>::empty() =~= body_view(body@));
                return Ok((body, at + 1));
            }
            let ghost before = body_view(body@);
            let ghost added = (main, operands@);
            body.push((main, operands));
            proof {
                assert(body_view(body@) =~= before.push(added));
                let rest = spec_macro_body(views, at + 1, symbols, main_operator);
                if rest is Ok {
                    assert(before + (seq![added] + rest->Ok_0.0) =~= before.push(added) + rest->Ok_0.0);
                }
            }
        }
        at = at + 1;
    }
    Err(AsmError::at(Reason::MissingEndMacro, main_operator.source))
}

fn request_of<'a>(waiting: Waiting<'a>) -> (request: Request<'a>)
    ensures
        request == spec_request(waiting),
{
    match waiting {
        Waiting::Nothing => Request::Continue,
        Waiting::Probe { token, from, path, tried } => Request::Probe {
            from,
            include_path: if tried == 0 {
                None
            } else {
                Some(tried - 1)
            },
            path,
        },
        Waiting::Load { token, unit_path } => Request::Load { unit_path },
    }
}

impl<'a> View for Assembler<'a> {
    type V = Session<'a>;

    closed spec fn view(&self) -> Session<'a> {
        Session {
            symbols: self.symbol_table.symbols(),
            statics: self.symbol_table.statics(),
            macros: macros_view(self.macros@),
            loaded: self.module_manager.loaded(),
            sources: self.module_manager.sources(),
            search_paths: self.module_manager.search_paths(),
            units: units_view(self.units@),
            nodes: nodes_view(self.nodes@),
            waiting: self.waiting,
        }
    }
}

impl<'a> Assembler<'a> {
    /// No two symbols have the same name, no unit is loaded twice, and the
    /// unit that the session waits for is not loaded yet.
    pub closed spec fn wf(&self) -> bool {
        &&& self.symbol_table.wf()
        &&& self.module_manager.wf()
        &&& self.waiting matches Waiting::Load { unit_path, .. } ==> !self.module_manager.loaded().contains(
            unit_path@,
        )
    }

    /// A well-formed session has the invariant of sessions.
    pub proof fn lemma_wf(&self)
        requires
            self.wf(),
        ensures
            session_inv(self@),
    {
    }

    /// A session that is to assemble the file `unit_path`, and its first
    /// request: to find that file.
    pub fn new(unit_path: &'a str, include_paths: Vec<String>) -> (started: (Self, Request<'a>))
        ensures
            started.0.wf(),
            started.0@ == (Session {
                symbols: Seq::empty(),
                statics: seq![unit_path@],
                macros: Map::empty(),
                loaded: Seq::empty(),
                sources: Seq::empty(),
                search_paths: Seq::new(include_paths@.len(), |i: int| include_paths@[i]@),
                units: Seq::empty(),
                nodes: Seq::empty(),
                waiting: Waiting::Probe {
                    token: crate::tokenizer::spec_unit_token(unit_path),
                    from: None,
                    path: StaticID(0),
                    tried: 0,
                },
            }),
            started.1 == spec_request(started.0@.waiting),
    {
        let mut symbol_table = SymbolTable::new();
        let path = symbol_table.declare_static(
            StaticValue::StringLiteral(unit_path.to_owned()),
        );
        let waiting = Waiting::Probe {
            token: SourceToken { string: unit_path, unit_path, line_index: 0, column: 0 },
            from: None,
            path,
            tried: 0,
        };
        let assembler = Assembler {
            symbol_table,
            macros: HashMap::new(),
            module_manager: ModuleManager::new(include_paths),
            units: Vec::new(),
            nodes: Vec::new(),
            waiting,
        };
        proof {
            assert(assembler@.statics =~= seq![unit_path@]);
            assert(assembler@.macros =~= Map::empty());
            assert(assembler@.units =~= Seq::empty());
            assert(assembler@.nodes =~= Seq::empty());
        }
        (assembler, request_of(waiting))
    }

    /// The symbols and the static pool.
    pub fn symbol_table(&self) -> (table: &SymbolTable<'a>)
        ensures
            table.symbols() == self@.symbols,
            table.statics() == self@.statics,
            self.wf() ==> table.wf(),
    {
        &self.symbol_table
    }

    /// The include paths and the loaded units.
    pub fn module_manager(&self) -> (manager: &ModuleManager<'a>)
        ensures
            manager.loaded() == self@.loaded,
            manager.sources() == self@.sources,
            manager.search_paths() == self@.search_paths,
            self.wf() ==> manager.wf(),
    {
        &self.module_manager
    }

    /// The nodes produced so far.
    pub fn nodes(&self) -> (nodes: &Vec<AsmNode<'a>>)
        ensures
            nodes_view(nodes@) == self@.nodes,
    {
        &self.nodes
    }

    /// The bytecode for the nodes produced so far.
    pub fn generate(&self) -> (bytecode: Result<Vec<u8>, AsmError<'a>>)
        ensures
            match spec_generate(self@.nodes, self@.symbols, self@.statics) {
                Ok(bytes) => bytecode is Ok && bytecode->Ok_0@ == bytes,
                Err(error) => bytecode == Err::<Vec<u8>, AsmError<'a>>(error),
            },
    {
        generate(&self.nodes, &self.symbol_table)
    }

    fn take_unit(&mut self) -> (unit: UnitFrame<'a>)
        requires
            old(self)@.units.len() > 0,
        ensures
            final(self)@ == (Session { units: old(self)@.units.drop_last(), ..old(self)@ }),
            unit_view(unit) == old(self)@.units.last(),
            final(self).wf() == old(self).wf(),
    {
        let unit = self.units.pop().unwrap();
        assert(units_view(self.units@) =~= units_view(old(self).units@).drop_last());
        unit
    }

    fn put_unit(&mut self, unit: UnitFrame<'a>)
        ensures
            final(self)@ == (Session { units: old(self)@.units.push(unit_view(unit)), ..old(self)@ }),
            final(self).wf() == old(self).wf(),
    {
        self.units.push(unit);
        assert(units_view(self.units@) =~= units_view(old(self).units@).push(unit_view(unit)));
    }

    fn push_node(&mut self, value: AsmNodeValue<'a>, source: SourceToken<'a>)
        ensures
            final(self)@ == with_node(
                old(self)@,
                (AsmNode { value, source })@.value,
                source,
            ),
            final(self).wf() == old(self).wf(),
    {
        let node = AsmNode { value, source };
        self.nodes.push(node);
        assert(nodes_view(self.nodes@) =~= nodes_view(old(self).nodes@).push(node@));
    }

    fn define_position(
        &mut self,
        main_operator: Token<'a>,
        operands: &Vec<AsmOperand<'a>>,
        label: bool,
    ) -> (result: Result<Request<'a>, AsmError<'a>>)
        requires
            old(self).wf(),
        ensures
            final(self).wf(),
            advanced(
                result,
                old(self)@,
                final(self)@,
                spec_define_position(old(self)@, main_operator, operands@, label),
            ),
    {
        if operands.len() != 1 {
            return Err(
                AsmError::at(
                    Reason::WrongArgumentCount { expected: 1, given: operands.len() },
                    main_operator.source,
                ),
            );
        }
        let id = match name_of(main_operator, operands) {
            Err(error) => {
                return Err(error);
            },
            Ok(id) => id,
        };
        let symbol = match self.symbol_table.find_symbol(id) {
            None => {
                return Err(AsmError::at(Reason::UndefinedSymbol, operands[0].source));
            },
            Some(symbol) => symbol,
        };
        if symbol.value.is_some() {
            return Err(AsmError::redeclaration(operands[0].source, symbol.source));
        }
        self.symbol_table.define_symbol(id, Some(AsmValue::CurrentPosition), main_operator.source);
        if label {
            self.push_node(AsmNodeValue::Label(symbol.name), main_operator.source);
        } else {
            self.push_node(AsmNodeValue::Section(symbol.name), main_operator.source);
        }
        Ok(Request::Continue)
    }

    fn define_value(
        &mut self,
        main_operator: Token<'a>,
        operands: &Vec<AsmOperand<'a>>,
    ) -> (result: Result<Request<'a>, AsmError<'a>>)
        requires
            old(self).wf(),
        ensures
            final(self).wf(),
            advanced(
                result,
                old(self)@,
                final(self)@,
                spec_define_value(old(self)@, main_operator, operands@),
            ),
    {
        let id = match name_of(main_operator, operands) {
            Err(error) => {
                return Err(error);
            },
            Ok(id) => id,
        };
        if operands.len() != 2 {
            return Err(
                AsmError::at(
                    Reason::WrongArgumentCount { expected: 2, given: operands.len() },
                    main_operator.source,
                ),
            );
        }
        if id.0 >= self.symbol_table.symbol_count() {
            return Err(AsmError::at(Reason::UndefinedSymbol, operands[0].source));
        }
        self.symbol_table.define_symbol(id, Some(operands[1].value), operands[1].source);
        Ok(Request::Continue)
    }

    fn define_macro(
        &mut self,
        main_operator: Token<'a>,
        operands: &Vec<AsmOperand<'a>>,
    ) -> (result: Result<Request<'a>, AsmError<'a>>)
        requires
            old(self).wf(),
            old(self)@.units.len() > 0,
        ensures
            final(self).wf(),
            advanced(
                result,
                old(self)@,
                final(self)@,
                spec_define_macro(old(self)@, main_operator, operands@),
            ),
    {
        let id = match name_of(main_operator, operands) {
            Err(error) => {
                return Err(error);
            },
            Ok(id) => id,
        };
        let params = match params_of(operands) {
            Err(error) => {
                return Err(error);
            },
            Ok(params) => params,
        };
        let mut unit = self.take_unit();
        let (body, next) = match macro_body(&unit.lines, unit.next, &self.symbol_table, main_operator) {
            Err(error) => {
                return Err(error);
            },
            Ok(found) => found,
        };
        if self.macros.contains_key(&id.0) {
            let previous = match self.symbol_table.find_symbol(id) {
                Some(symbol) => symbol.source,
                None => main_operator.source,
            };
            return Err(AsmError::redeclaration(main_operator.source, previous));
        }
        let ghost before = macros_view(self.macros@);
        let ghost added = MacroView { params: params@, body: body_view(body@) };
        self.macros.insert(id.0, MacroDef { args: params, body });
        assert(macros_view(self.macros@) =~= before.insert(id.0, added));
        unit.next = next;
        self.put_unit(unit);
        Ok(Request::Continue)
    }

    fn call(
        &mut self,
        main_operator: Token<'a>,
        operands: &Vec<AsmOperand<'a>>,
    ) -> (result: Result<Request<'a>, AsmError<'a>>)
        requires
            old(self).wf(),
            old(self)@.units.len() > 0,
        ensures
            final(self).wf(),
            advanced(
                result,
                old(self)@,
                final(self)@,
                spec_call(old(self)@, main_operator, operands@),
            ),
    {
        let id = match name_of(main_operator, operands) {
            Err(error) => {
                return Err(error);
            },
            Ok(id) => id,
        };
        let definition = match self.macros.get(&id.0) {
            None => {
                return Err(AsmError::at(Reason::UndefinedMacro, operands[0].source));
            },
            Some(definition) => definition,
        };
        let mut arguments: Vec<AsmOperand<'a>> = Vec::new();
        let mut at: usize = 1;
        while at < operands.len()
            invariant
                1 <= at <= operands@.len(),
                arguments@ == operands@.subrange(1, at as int),
            decreases operands@.len() - at,
        {
            arguments.push(operands[at]);
            at = at + 1;
            assert(arguments@ =~= operands@.subrange(1, at as int));
        }
        assert(arguments@ =~= operands@.skip(1));
        let lines = match expand(definition, main_operator, &arguments) {
            Err(error) => {
                return Err(error);
            },
            Ok(lines) => lines,
        };
        let mut unit = self.take_unit();
        let ghost before = expansions_view(unit.expansions@);
        let expansion = Expansion { lines, next: 0 };
        unit.expansions.push(expansion);
        assert(expansions_view(unit.expansions@) =~= before.push(expansion_view(expansion)));
        self.put_unit(unit);
        Ok(Request::Continue)
    }

    /// Parses one line, given its main operator and its operands.
    fn parse_line(
        &mut self,
        main_operator: Token<'a>,
        operands: Vec<AsmOperand<'a>>,
    ) -> (result: Result<Request<'a>, AsmError<'a>>)
        requires
            old(self).wf(),
            old(self)@.units.len() > 0,
        ensures
            final(self).wf(),
            advanced(
                result,
                old(self)@,
                final(self)@,
                spec_parse_line(old(self)@, main_operator, operands@),
            ),
    {
        match main_operator.value {
            TokenValue::Bang => self.call(main_operator, &operands),
            TokenValue::At => self.define_position(main_operator, &operands, true),
            TokenValue::Dot => self.define_position(main_operator, &operands, false),
            TokenValue::ValueMacroDef => self.define_value(main_operator, &operands),
            TokenValue::Mod => self.define_macro(main_operator, &operands),
            TokenValue::Instruction(code) => match parse_instruction(code, main_operator, &operands) {
                Err(error) => Err(error),
                Ok(instruction) => {
                    self.push_node(AsmNodeValue::Instruction(instruction), main_operator.source);
                    Ok(Request::Continue)
                },
            },
            TokenValue::PseudoInstruction(PseudoInstructions::IncludeAsm) => match string_operand(
                main_operator,
                &operands,
            ) {
                Err(error) => Err(error),
                Ok(path) => {
                    self.waiting = Waiting::Probe {
                        token: main_operator.source,
                        from: Some(main_operator.source.unit_path),
                        path,
                        tried: 0,
                    };
                    Ok(request_of(self.waiting))
                },
            },
            TokenValue::PseudoInstruction(code) => match parse_pseudo(code, main_operator, &operands) {
                Err(error) => Err(error),
                Ok(instruction) => {
                    self.push_node(AsmNodeValue::Instruction(instruction), main_operator.source);
                    Ok(Request::Continue)
                },
            },
            _ => Err(AsmError::at(Reason::NotAMainOperator, main_operator.source)),
        }
    }

    /// Takes one step: parses the next line, or closes what has no lines left.
    pub fn step(&mut self) -> (result: Result<Request<'a>, AsmError<'a>>)
        requires
            old(self).wf(),
        ensures
            final(self).wf(),
            advanced(
                result,
                old(self)@,
                final(self)@,
                spec_step(old(self)@),
            ),
    {
        match self.waiting {
            Waiting::Nothing => {},
            _ => {
                return Ok(request_of(self.waiting));
            },
        }
        if self.units.len() == 0 {
            assert(self@.units.len() == 0);
            return Ok(Request::Done);
        }
        assert(self@.units.len() == self.units@.len());
        let mut unit = self.take_unit();
        let ghost outer = unit_view(unit);
        let ghost open = expansions_view(unit.expansions@);
        match unit.expansions.pop() {
            Some(mut expansion) => {
                let ghost inner = expansion_view(expansion);
                assert(inner == open.last());
                assert(expansions_view(unit.expansions@) =~= open.drop_last());
                if expansion.next >= expansion.lines.len() {
                    self.put_unit(unit);
                    return Ok(Request::Continue);
                }
                let main = expansion.lines[expansion.next].0;
                let operands = copy_operands(&expansion.lines[expansion.next].1);
                assert(inner.lines[inner.next] == (main, operands@));
                expansion.next = expansion.next + 1;
                let ghost rest = expansions_view(unit.expansions@);
                unit.expansions.push(expansion);
                assert(expansions_view(unit.expansions@) =~= rest.push(expansion_view(expansion)));
                self.put_unit(unit);
                self.parse_line(main, operands)
            },
            None => {
                assert(open.len() == 0);
                if unit.next >= unit.lines.len() {
                    return Ok(Request::Continue);
                }
                assert(outer.lines[outer.next] == unit.lines@[unit.next as int]@);
                if unit.lines[unit.next].len() == 0 {
                    unit.next = unit.next + 1;
                    self.put_unit(unit);
                    return Ok(Request::Continue);
                }
                let operands = match parse_operands(&unit.lines[unit.next], 1, &self.symbol_table) {
                    Err(error) => {
                        return Err(error);
                    },
                    Ok(operands) => operands,
                };
                let main = unit.lines[unit.next][0];
                unit.next = unit.next + 1;
                self.put_unit(unit);
                self.parse_line(main, operands)
            },
        }
    }

    /// Takes the host's reply to the request that is outstanding.
    pub fn reply(&mut self, reply: Reply<'a>) -> (result: Result<Request<'a>, AsmError<'a>>)
        requires
            old(self).wf(),
        ensures
            final(self).wf(),
            advanced(
                result,
                old(self)@,
                final(self)@,
                spec_reply(old(self)@, reply@),
            ),
    {
        match self.waiting {
            Waiting::Nothing => Ok(Request::Continue),
            Waiting::Probe { token, from, path, tried } => match reply {
                Reply::Found(unit_path) => {
                    if self.module_manager.is_loaded(unit_path) {
                        self.waiting = Waiting::Nothing;
                        Ok(Request::Continue)
                    } else {
                        self.waiting = Waiting::Load { token, unit_path };
                        Ok(Request::Load { unit_path })
                    }
                },
                Reply::Missing => {
                    if tried < self.module_manager.include_path_count() && tried < usize::MAX {
                        self.waiting = Waiting::Probe { token, from, path, tried: tried + 1 };
                        Ok(Request::Probe { from, include_path: Some(tried), path })
                    } else {
                        Err(AsmError::at(Reason::Io, token))
                    }
                },
                Reply::Failed => Err(AsmError::at(Reason::Io, token)),
                Reply::Unit { .. } => Ok(request_of(self.waiting)),
            },
            Waiting::Load { token, unit_path } => match reply {
                Reply::Unit { unit, raw_lines, floats } => {
                    if self.module_manager.is_loaded(unit_path) {
                        self.waiting = Waiting::Nothing;
                        return Ok(Request::Continue);
                    }
                    let lines = match tokenize_lexed(&raw_lines, &mut self.symbol_table, floats.as_slice()) {
                        Err(error) => {
                            return Err(error);
                        },
                        Ok(lines) => lines,
                    };
                    self.module_manager.add_unit(unit_path, unit);
                    let unit = UnitFrame { lines, next: 0, expansions: Vec::new() };
                    assert(expansions_view(unit.expansions@) =~= Seq::empty());
                    self.waiting = Waiting::Nothing;
                    self.put_unit(unit);
                    Ok(Request::Continue)
                },
                Reply::Failed => Err(AsmError::at(Reason::Io, token)),
                _ => Ok(request_of(self.waiting)),
            },
        }
    }
}


/// Up to `budget` steps, ending with the first that asks something of the host.
pub open spec fn spec_parse<'a>(
    s: Session<'a>,
    budget: nat,
) -> Result<(Session<'a>, Request<'a>), AsmError<'a>>
    decreases budget,
{
    if budget == 0 {
        Ok((s, Request::Continue))
    } else {
        match spec_step(s) {
            Err(error) => Err(error),
            Ok((after, Request::Continue)) => spec_parse(after, (budget - 1) as nat),
            Ok(asked) => Ok(asked),
        }
    }
}

/// The session at which [`spec_parse`] stops: after the last step that
/// succeeded.
pub open spec fn spec_parse_stopped<'a>(s: Session<'a>, budget: nat) -> Session<'a>
    decreases budget,
{
    if budget == 0 {
        s
    } else {
        match spec_step(s) {
            Err(error) => s,
            Ok((after, Request::Continue)) => spec_parse_stopped(after, (budget - 1) as nat),
            Ok((after, asked)) => after,
        }
    }
}

impl<'a> Assembler<'a> {
    /// Parses line after line until the host is asked for something, or
    /// nothing is left to parse, and at most `budget` lines. `Continue`
    /// comes back only when the budget is used up. After an error the
    /// session holds what the steps before the failing one made of it.
    pub fn parse(&mut self, budget: usize) -> (result: Result<Request<'a>, AsmError<'a>>)
        requires
            old(self).wf(),
        ensures
            final(self).wf(),
            advanced(
                result,
                spec_parse_stopped(old(self)@, budget as nat),
                final(self)@,
                spec_parse(old(self)@, budget as nat),
            ),
    {
        let mut left: usize = budget;
        while left > 0
            invariant
                self.wf(),
                spec_parse(self@, left as nat) == spec_parse(old(self)@, budget as nat),
                spec_parse_stopped(self@, left as nat) == spec_parse_stopped(
                    old(self)@,
                    budget as nat,
                ),
            decreases left,
        {
            match self.step() {
                Err(error) => {
                    return Err(error);
                },
                Ok(Request::Continue) => {},
                Ok(asked) => {
                    return Ok(asked);
                },
            }
            left = left - 1;
        }
        Ok(Request::Continue)
    }
}

/// A file that is found under a canonical path that is loaded already is
/// not loaded again: the session goes on as if the line had not been there.
pub proof fn lemma_include_idempotent<'a>(s: Session<'a>, unit_path: &'a str)
    requires
        s.waiting is Probe,
        s.loaded.contains(unit_path@),
    ensures
        spec_reply(s, ReplyView::Found(unit_path)) == Ok::<(Session<'a>, Request<'a>), AsmError<'a>>(
            (Session { waiting: Waiting::Nothing, ..s }, Request::Continue),
        ),
{
}

/// No path is loaded twice, and the unit that the session waits for is
/// not loaded yet. This holds of a new session and of all that follow.
pub open spec fn session_inv(s: Session<'_>) -> bool {
    &&& s.loaded.no_duplicates()
    &&& s.waiting matches Waiting::Load { unit_path, .. } ==> !s.loaded.contains(unit_path@)
}

/// The loaded paths only grow: a step or a reply keeps those that are
/// there. A unit is asked for only while its path is not loaded, and its
/// arrival adds the path. So each path is loaded at most once, and a file
/// that includes itself, directly or not, is parsed once.
pub proof fn lemma_loaded_grows<'a>(s: Session<'a>, reply: ReplyView<'a>)
    requires
        session_inv(s),
    ensures
        spec_step(s) matches Ok((after, request)) ==> after.loaded == s.loaded && session_inv(after)
            && !(request is Load && s.waiting is Nothing),
        spec_reply(s, reply) matches Ok((after, request)) ==> {
            &&& is_prefix(s.loaded, after.loaded)
            &&& session_inv(after)
            &&& request matches Request::Load { unit_path } ==> !after.loaded.contains(unit_path@)
            &&& s.waiting is Load && reply is Unit ==> after.loaded.contains(
                s.waiting->Load_unit_path@,
            )
        },
{
    lemma_step_keeps_loaded(s);
    match spec_reply(s, reply) {
        Ok((after, request)) => {
            assert(after.loaded.subrange(0, s.loaded.len() as int) =~= s.loaded);
            match s.waiting {
                Waiting::Load { token, unit_path } => {
                    if reply is Unit {
                        if !s.loaded.contains(unit_path@) {
                            assert(after.loaded == s.loaded.push(unit_path@));
                            assert(after.loaded[s.loaded.len() as int] == unit_path@);
                            assert forall|i: int, j: int|
                                0 <= i < after.loaded.len() && 0 <= j < after.loaded.len() && i
                                    != j implies after.loaded[i] != after.loaded[j] by {
                                if i < s.loaded.len() && j < s.loaded.len() {
                                    assert(s.loaded[i] != s.loaded[j]);
                                } else if i < s.loaded.len() {
                                    assert(s.loaded.contains(s.loaded[i]));
                                } else if j < s.loaded.len() {
                                    assert(s.loaded.contains(s.loaded[j]));
                                }
                            }
                        }
                    }
                },
                _ => {},
            }
        },
        Err(_) => {},
    }
}

/// A step loads nothing and asks for no unit.
pub proof fn lemma_step_keeps_loaded<'a>(s: Session<'a>)
    ensures
        spec_step(s) matches Ok((after, request)) ==> after.loaded == s.loaded && after.search_paths
            == s.search_paths && !(after.waiting is Load && s.waiting is Nothing) && !(request is Load
            && s.waiting is Nothing) && (!(s.waiting is Nothing) ==> after.waiting == s.waiting),
{
    if s.waiting is Nothing && s.units.len() > 0 {
        let unit = s.units.last();
        if unit.expansions.len() > 0 {
            let expansion = unit.expansions.last();
            if 0 <= expansion.next < expansion.lines.len() {
                let line = expansion.lines[expansion.next];
                lemma_line_keeps_loaded(
                    with_unit(
                        s,
                        UnitView {
                            expansions: unit.expansions.drop_last().push(
                                ExpansionView { next: expansion.next + 1, ..expansion },
                            ),
                            ..unit
                        },
                    ),
                    line.0,
                    line.1,
                );
            }
        } else if 0 <= unit.next < unit.lines.len() {
            let tokens = unit.lines[unit.next];
            if tokens.len() > 0 {
                match spec_operands(tokens, 1, s.symbols) {
                    Ok(operands) => {
                        lemma_line_keeps_loaded(
                            with_unit(s, UnitView { next: unit.next + 1, ..unit }),
                            tokens[0],
                            operands,
                        );
                    },
                    Err(_) => {},
                }
            }
        }
    }
}

/// A line loads nothing and asks for no unit.
pub proof fn lemma_line_keeps_loaded<'a>(
    s: Session<'a>,
    main_operator: Token<'a>,
    operands: Seq<AsmOperand<'a>>,
)
    ensures
        spec_parse_line(s, main_operator, operands) matches Ok((after, request)) ==> after.loaded
            == s.loaded && after.search_paths == s.search_paths && !(request is Load) && (s.waiting
            is Nothing ==> !(after.waiting is Load)),
{
}


/// A source file held in memory: its canonical path, its text, and the
/// bit patterns of its floats in the order of the source.
pub struct SourceFile<'a> {
    pub path: &'a str,
    pub text: &'a str,
    pub floats: Vec<Option<u64>>,
}

/// A source file that has been split into lexemes.
pub struct LexedFile<'a> {
    pub path: &'a str,
    pub unit: AsmUnit<'a>,
    pub raw_lines: Vec<Vec<SourceToken<'a>>>,
    pub floats: Vec<Option<u64>>,
}

/// A lexed file as contracts see it.
pub struct LexedFileView<'a> {
    pub path: &'a str,
    pub lines: Seq<Seq<char>>,
    pub raw_lines: Seq<Seq<SourceToken<'a>>>,
    pub floats: Seq<Option<u64>>,
}

impl<'a> View for LexedFile<'a> {
    type V = LexedFileView<'a>;

    open spec fn view(&self) -> LexedFileView<'a> {
        LexedFileView {
            path: self.path,
            lines: self.unit.lines_view(),
            raw_lines: raw_view(self.raw_lines@),
            floats: self.floats@,
        }
    }
}

/// The lexed files as contracts see them.
pub open spec fn files_view<'a>(files: Seq<LexedFile<'a>>) -> Seq<LexedFileView<'a>> {
    Seq::new(files.len(), |i: int| files[i]@)
}

/// The index of the first of the first `count` files whose path is `path`.
pub open spec fn spec_file_index(
    files: Seq<LexedFileView<'_>>,
    count: nat,
    path: Seq<char>,
) -> Option<int>
    decreases count,
{
    if count == 0 {
        None
    } else {
        match spec_file_index(files, (count - 1) as nat, path) {
            Some(index) => Some(index),
            None => if files[count - 1].path@ == path {
                Some(count - 1)
            } else {
                None
            },
        }
    }
}

/// What a host that holds `files` in memory answers. It knows no
/// directories: a file is found where the path that was written is the
/// path of one of the files.
pub open spec fn spec_answer<'a>(
    files: Seq<LexedFileView<'a>>,
    statics: Seq<Seq<char>>,
    request: Request<'a>,
) -> ReplyView<'a> {
    match request {
        Request::Probe { from, include_path, path } => if include_path is None && path.0
            < statics.len() {
            match spec_file_index(files, files.len(), statics[path.0 as int]) {
                Some(index) => ReplyView::Found(files[index].path),
                None => ReplyView::Missing,
            }
        } else {
            ReplyView::Missing
        },
        Request::Load { unit_path } => match spec_file_index(files, files.len(), unit_path@) {
            Some(index) => ReplyView::Unit {
                lines: files[index].lines,
                raw_lines: files[index].raw_lines,
                floats: files[index].floats,
            },
            None => ReplyView::Failed,
        },
        _ => ReplyView::Missing,
    }
}

/// The session when nothing is left to parse, after at most `budget`
/// steps and replies of the host that holds `files`.
pub open spec fn spec_drive<'a>(
    s: Session<'a>,
    request: Request<'a>,
    files: Seq<LexedFileView<'a>>,
    root: &'a str,
    budget: nat,
) -> Result<Session<'a>, AsmError<'a>>
    decreases budget,
{
    if request is Done {
        Ok(s)
    } else if budget == 0 {
        Err(AsmError::spec_at(Reason::TooManySteps, crate::tokenizer::spec_unit_token(root)))
    } else {
        match if request is Continue {
            spec_step(s)
        } else {
            spec_reply(s, spec_answer(files, s.statics, request))
        } {
            Err(error) => Err(error),
            Ok((after, asked)) => spec_drive(after, asked, files, root, (budget - 1) as nat),
        }
    }
}

/// The session that is to assemble `unit_path`, before its first request is answered.
pub open spec fn spec_new_session<'a>(
    unit_path: &'a str,
    search_paths: Seq<Seq<char>>,
) -> Session<'a> {
    Session {
        symbols: Seq::empty(),
        statics: seq![unit_path@],
        macros: Map::empty(),
        loaded: Seq::empty(),
        sources: Seq::empty(),
        search_paths,
        units: Seq::empty(),
        nodes: Seq::empty(),
        waiting: Waiting::Probe {
            token: crate::tokenizer::spec_unit_token(unit_path),
            from: None,
            path: StaticID(0),
            tried: 0,
        },
    }
}

/// The bytecode of the unit `unit_path` and of what it includes, all of
/// it taken from `files`.
pub open spec fn spec_assemble<'a>(
    unit_path: &'a str,
    files: Seq<LexedFileView<'a>>,
    budget: nat,
) -> Result<Seq<u8>, AsmError<'a>> {
    let start = spec_new_session(unit_path, Seq::empty());
    match spec_drive(start, spec_request(start.waiting), files, unit_path, budget) {
        Err(error) => Err(error),
        Ok(s) => spec_generate(s.nodes, s.symbols, s.statics),
    }
}

fn file_index<'a>(files: &Vec<LexedFile<'a>>, path: &str) -> (index: Option<usize>)
    ensures
        match spec_file_index(files_view(files@), files@.len(), path@) {
            Some(at) => index is Some && index->0 == at && at < files@.len(),
            None => index is None,
        },
{
    let ghost views = files_view(files@);
    let mut at: usize = 0;
    while at < files.len()
        invariant
            at <= files@.len(),
            views == files_view(files@),
            spec_file_index(views, at as nat, path@) is None,
        decreases files@.len() - at,
    {
        assert(views[at as int] == files@[at as int]@);
        if str_eq(files[at].path, path) {
            proof {
                lemma_file_index_found(views, (at + 1) as nat, files@.len(), path@);
            }
            return Some(at);
        }
        at = at + 1;
    }
    None
}

/// A file that is found among the first files is found among all.
pub proof fn lemma_file_index_found(
    files: Seq<LexedFileView<'_>>,
    found: nat,
    count: nat,
    path: Seq<char>,
)
    requires
        found <= count,
        spec_file_index(files, found, path) is Some,
    ensures
        spec_file_index(files, count, path) == spec_file_index(files, found, path),
    decreases count,
{
    if found < count {
        lemma_file_index_found(files, found, (count - 1) as nat, path);
    }
}

fn copy_raw<'a>(raw_lines: &Vec<Vec<SourceToken<'a>>>) -> (copy: Vec<Vec<SourceToken<'a>>>)
    ensures
        raw_view(copy@) == raw_view(raw_lines@),
{
    let mut copy: Vec<Vec<SourceToken<'a>>> = Vec::new();
    let mut at: usize = 0;
    while at < raw_lines.len()
        invariant
            at <= raw_lines@.len(),
            copy@.len() == at,
            forall|i: int| 0 <= i < at ==> (#[trigger] copy@[i])@ == raw_lines@[i]@,
        decreases raw_lines@.len() - at,
    {
        let line = &raw_lines[at];
        let mut tokens: Vec<SourceToken<'a>> = Vec::new();
        let mut index: usize = 0;
        while index < line.len()
            invariant
                index <= line@.len(),
                tokens@ == line@.subrange(0, index as int),
            decreases line@.len() - index,
        {
            tokens.push(line[index]);
            index = index + 1;
            assert(tokens@ =~= line@.subrange(0, index as int));
        }
        assert(line@.subrange(0, index as int) =~= line@);
        copy.push(tokens);
        at = at + 1;
    }
    assert(raw_view(copy@) =~= raw_view(raw_lines@));
    copy
}

fn copy_floats(floats: &Vec<Option<u64>>) -> (copy: Vec<Option<u64>>)
    ensures
        copy@ == floats@,
{
    let mut copy: Vec<Option<u64>> = Vec::new();
    let mut at: usize = 0;
    while at < floats.len()
        invariant
            at <= floats@.len(),
            copy@ == floats@.subrange(0, at as int),
        decreases floats@.len() - at,
    {
        copy.push(floats[at]);
        at = at + 1;
        assert(copy@ =~= floats@.subrange(0, at as int));
    }
    assert(floats@.subrange(0, at as int) =~= floats@);
    copy
}

fn copy_unit<'a>(unit: &AsmUnit<'a>) -> (copy: AsmUnit<'a>)
    ensures
        copy.lines@ == unit.lines@,
        copy.lines_view() == unit.lines_view(),
{
    let mut lines: Vec<&'a str> = Vec::new();
    let mut at: usize = 0;
    while at < unit.lines.len()
        invariant
            at <= unit.lines@.len(),
            lines@ == unit.lines@.subrange(0, at as int),
        decreases unit.lines@.len() - at,
    {
        lines.push(unit.lines[at]);
        at = at + 1;
        assert(lines@ =~= unit.lines@.subrange(0, at as int));
    }
    assert(unit.lines@.subrange(0, at as int) =~= unit.lines@);
    AsmUnit { lines }
}

/// The answer of the host that holds `files` in memory.
fn answer<'a>(
    files: &Vec<LexedFile<'a>>,
    symbol_table: &SymbolTable<'a>,
    request: Request<'a>,
) -> (reply: Reply<'a>)
    ensures
        reply@ == spec_answer(files_view(files@), symbol_table.statics(), request),
{
    let ghost views = files_view(files@);
    match request {
        Request::Probe { from, include_path, path } => {
            if include_path.is_some() {
                return Reply::Missing;
            }
            match symbol_table.find_static(path) {
                None => Reply::Missing,
                Some(written) => match file_index(files, written.as_string().as_str()) {
                    Some(index) => {
                        assert(views[index as int] == files@[index as int]@);
                        Reply::Found(files[index].path)
                    },
                    None => Reply::Missing,
                },
            }
        },
        Request::Load { unit_path } => match file_index(files, unit_path) {
            Some(index) => {
                assert(views[index as int] == files@[index as int]@);
                Reply::Unit {
                    unit: copy_unit(&files[index].unit),
                    raw_lines: copy_raw(&files[index].raw_lines),
                    floats: copy_floats(&files[index].floats),
                }
            },
            None => Reply::Failed,
        },
        _ => Reply::Missing,
    }
}

/// `bytecode` is what `expected` says.
pub open spec fn generated<'a>(
    bytecode: Result<Vec<u8>, AsmError<'a>>,
    expected: Result<Seq<u8>, AsmError<'a>>,
) -> bool {
    match expected {
        Ok(bytes) => bytecode is Ok && bytecode->Ok_0@ == bytes,
        Err(error) => bytecode == Err::<Vec<u8>, AsmError<'a>>(error),
    }
}

/// Assembles the unit `unit_path` from lexed files held in memory. Each
/// step of the session and each reply to it costs one of `budget`.
pub fn assemble_lexed<'a>(
    unit_path: &'a str,
    files: &Vec<LexedFile<'a>>,
    budget: usize,
) -> (bytecode: Result<Vec<u8>, AsmError<'a>>)
    ensures
        generated(bytecode, spec_assemble(unit_path, files_view(files@), budget as nat)),
{
    let ghost views = files_view(files@);
    let (mut assembler, first) = Assembler::new(unit_path, Vec::new());
    let mut request = first;
    let mut left: usize = budget;
    let ghost start = assembler@;
    assert(start == spec_new_session(unit_path, Seq::empty()));
    while left > 0 && !matches!(request, Request::Done)
        invariant
            assembler.wf(),
            views == files_view(files@),
            spec_drive(assembler@, request, views, unit_path, left as nat) == spec_drive(
                spec_new_session(unit_path, Seq::empty()),
                spec_request(spec_new_session(unit_path, Seq::empty()).waiting),
                views,
                unit_path,
                budget as nat,
            ),
        decreases left,
    {
        let outcome = if matches!(request, Request::Continue) {
            assembler.step()
        } else {
            let reply = answer(files, assembler.symbol_table(), request);
            assembler.reply(reply)
        };
        match outcome {
            Err(error) => {
                return Err(error);
            },
            Ok(asked) => {
                request = asked;
            },
        }
        left = left - 1;
    }
    if matches!(request, Request::Done) {
        assembler.generate()
    } else {
        Err(
            AsmError::at(
                Reason::TooManySteps,
                SourceToken { string: unit_path, unit_path, line_index: 0, column: 0 },
            ),
        )
    }
}

/// The file is lexed as `lexed` says.
pub open spec fn file_lexed<'a>(file: SourceFile<'a>, lexed: LexedFileView<'a>) -> bool {
    &&& lexed.path == file.path
    &&& lexed.lines == crate::text::spec_lines(file.text@)
    &&& lexed.floats == file.floats@
    &&& crate::tokenizer::spec_lex(
        crate::text::spec_lines(file.text@),
        file.path@,
        crate::text::spec_lines(file.text@).len(),
    ) matches Some(lexemes) && crate::tokenizer::lexed_as(lexed.raw_lines, file.path, lexemes)
}

/// The first of the first `count` files in which the lexer's pattern is rejected.
pub open spec fn spec_first_unlexed(files: Seq<SourceFile<'_>>, count: nat) -> Option<int>
    decreases count,
{
    if count == 0 {
        None
    } else {
        match spec_first_unlexed(files, (count - 1) as nat) {
            Some(index) => Some(index),
            None => if crate::tokenizer::spec_lex(
                crate::text::spec_lines(files[count - 1].text@),
                files[count - 1].path@,
                crate::text::spec_lines(files[count - 1].text@).len(),
            ) is None {
                Some(count - 1)
            } else {
                None
            },
        }
    }
}

/// A file that is refused among the first files is the first refused among all.
pub proof fn lemma_first_unlexed_found(files: Seq<SourceFile<'_>>, found: nat, count: nat)
    requires
        found <= count,
        spec_first_unlexed(files, found) is Some,
    ensures
        spec_first_unlexed(files, count) == spec_first_unlexed(files, found),
    decreases count,
{
    if found < count {
        lemma_first_unlexed_found(files, found, (count - 1) as nat);
    }
}

/// Assembles the unit `unit_path` from source files held in memory:
/// splits every file into lexemes, then runs a session in which a file is
/// found where the path that is written is the path of one of the files.
pub fn assemble<'a>(
    unit_path: &'a str,
    files: &Vec<SourceFile<'a>>,
    budget: usize,
) -> (bytecode: Result<Vec<u8>, AsmError<'a>>)
    ensures
        match spec_first_unlexed(files@, files@.len()) {
            Some(index) => bytecode == Err::<Vec<u8>, AsmError<'a>>(
                AsmError::spec_at(
                    Reason::PatternRejected,
                    crate::tokenizer::spec_unit_token(files@[index].path),
                ),
            ),
            None => exists|lexed: Seq<LexedFileView<'a>>|
                lexed.len() == files@.len() && (forall|i: int|
                    0 <= i < files@.len() ==> file_lexed(files@[i], #[trigger] lexed[i])) && generated(
                    bytecode,
                    #[trigger] spec_assemble(unit_path, lexed, budget as nat),
                ),
        },
{
    let mut lexed: Vec<LexedFile<'a>> = Vec::new();
    let mut at: usize = 0;
    while at < files.len()
        invariant
            at <= files@.len(),
            lexed@.len() == at,
            spec_first_unlexed(files@, at as nat) is None,
            forall|i: int| 0 <= i < at ==> file_lexed(files@[i], (#[trigger] lexed@[i])@),
        decreases files@.len() - at,
    {
        let file = &files[at];
        let unit = AsmUnit::new(file.text);
        let ghost lines = unit.lines_view();
        assert(crate::tokenizer::lines_view(unit.lines@) =~= lines);
        match crate::tokenizer::lex(unit.lines.as_slice(), file.path) {
            None => {
                proof {
                    lemma_first_unlexed_found(files@, (at + 1) as nat, files@.len());
                }
                return Err(
                    AsmError::at(
                        Reason::PatternRejected,
                        SourceToken { string: file.path, unit_path: file.path, line_index: 0, column: 0 },
                    ),
                );
            },
            Some(raw_lines) => {
                proof {
                    let raw = raw_view(raw_lines@);
                    assert(crate::tokenizer::lexemes_of(raw) =~= crate::tokenizer::lexemes_view(
                        raw_lines@,
                    ));
                }
                lexed.push(
                    LexedFile { path: file.path, unit, raw_lines, floats: copy_floats(&file.floats) },
                );
            },
        }
        at = at + 1;
    }
    let bytecode = assemble_lexed(unit_path, &lexed, budget);
    proof {
        let views = files_view(lexed@);
        assert forall|i: int| 0 <= i < files@.len() implies file_lexed(files@[i], #[trigger] views[i]) by {
            assert(views[i] == lexed@[i]@);
        }
    }
    bytecode
}

} // verus!
