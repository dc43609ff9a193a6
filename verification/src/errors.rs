//! What can go wrong while assembling, and where the reader is shown it.

use vstd::prelude::*;
use crate::tokenizer::SourceToken;

verus! {

/// The categories under which a fatal error is reported.
#[derive(Clone, Copy, Debug, PartialEq, Eq, Structural)]
pub enum ErrorKind {
    Io,
    InvalidEscapeSequence,
    SymbolRedeclaration,
    Parsing,
    Tokenizer,
    OutsideSection,
    InvalidArgument,
    UndefinedSymbol,
}

/// What exactly went wrong.
#[derive(Clone, Copy, Debug, PartialEq, Eq, Structural)]
pub enum Reason {
    /// A file could not be found or read.
    Io,
    /// A backslash before a character that has no escape.
    InvalidEscape(char),
    /// The pattern that splits a line into lexemes was rejected.
    PatternRejected,
    /// A quoted string without its closing quote.
    UnterminatedString,
    /// A quoted character without its closing quote.
    UnterminatedChar,
    /// A character literal that does not hold exactly one character.
    InvalidCharLiteral,
    /// A number that is malformed or does not fit in 64 bits.
    InvalidNumber,
    /// A lexeme that is no token of the language.
    InvalidToken,
    /// A symbol that already has a value.
    Redeclared,
    /// A token that cannot stand where an operand is expected.
    NotAnOperand,
    /// `!` or `%` with nothing after it.
    MissingName,
    /// Something other than an identifier where a name is expected.
    ExpectedName,
    /// `!name` where `name` has no value.
    MacroHasNoValue,
    /// The number of operands is not the one that the operator takes.
    WrongArgumentCount { expected: usize, given: usize },
    /// A macro definition without `%endmacro`.
    MissingEndMacro,
    /// A call of a macro that is not defined.
    UndefinedMacro,
    /// A macro body names a parameter that the macro does not have.
    UnknownParameter,
    /// A string where a number is expected.
    ExpectedNumber,
    /// A string where an address is expected.
    ExpectedAddress,
    /// A macro parameter outside a macro body.
    ParameterOutsideMacro,
    /// Something other than a string where a string is expected.
    ExpectedString,
    /// A token that cannot start a line.
    NotAMainOperator,
    /// A label or an instruction before the first section.
    OutsideSection,
    /// An address that is negative, a float, or no number.
    InvalidAddress,
    /// A count that is negative, a float, or no number.
    InvalidCount,
    /// A constant that needs more bytes than its place has.
    ConstantTooLarge { size: usize, needed: usize },
    /// A float where only integers can stand.
    FloatNotAllowed,
    /// A size that is no unsigned integer literal.
    InvalidSize,
    /// A symbol where only a literal can stand.
    SymbolNotAllowed,
    /// A symbol that no label or section defines.
    UndefinedSymbol,
    /// The steps allowed for assembling are used up.
    TooManySteps,
}

impl Reason {
    /// The category that a reason is reported under.
    pub open spec fn spec_kind(self) -> ErrorKind {
        match self {
            Reason::Io => ErrorKind::Io,
            Reason::InvalidEscape(_) => ErrorKind::InvalidEscapeSequence,
            Reason::PatternRejected => ErrorKind::Tokenizer,
            Reason::Redeclared => ErrorKind::SymbolRedeclaration,
            Reason::OutsideSection => ErrorKind::OutsideSection,
            Reason::InvalidAddress
            | Reason::InvalidCount
            | Reason::ConstantTooLarge { .. }
            | Reason::FloatNotAllowed
            | Reason::InvalidSize
            | Reason::SymbolNotAllowed => ErrorKind::InvalidArgument,
            Reason::UndefinedSymbol | Reason::UndefinedMacro => ErrorKind::UndefinedSymbol,
            _ => ErrorKind::Parsing,
        }
    }

    /// The category that this error is reported under.
    pub fn kind(self) -> (kind: ErrorKind)
        ensures
            kind == self.spec_kind(),
    {
        match self {
            Reason::Io => ErrorKind::Io,
            Reason::InvalidEscape(_) => ErrorKind::InvalidEscapeSequence,
            Reason::PatternRejected => ErrorKind::Tokenizer,
            Reason::Redeclared => ErrorKind::SymbolRedeclaration,
            Reason::OutsideSection => ErrorKind::OutsideSection,
            Reason::InvalidAddress
            | Reason::InvalidCount
            | Reason::ConstantTooLarge { .. }
            | Reason::FloatNotAllowed
            | Reason::InvalidSize
            | Reason::SymbolNotAllowed => ErrorKind::InvalidArgument,
            Reason::UndefinedSymbol | Reason::UndefinedMacro => ErrorKind::UndefinedSymbol,
            _ => ErrorKind::Parsing,
        }
    }
}

/// A fatal error: what went wrong, at which token, and under which column
/// the caret goes. A redeclaration also names the earlier declaration.
#[derive(Clone, Copy, Debug, PartialEq, Eq)]
pub struct AsmError<'a> {
    pub reason: Reason,
    pub token: SourceToken<'a>,
    pub column: usize,
    pub previous: Option<SourceToken<'a>>,
}

impl<'a> AsmError<'a> {
    /// An error at `token`, with the caret under the token's first character.
    pub open spec fn spec_at(reason: Reason, token: SourceToken<'a>) -> AsmError<'a> {
        AsmError { reason, token, column: token.column, previous: None }
    }

    /// An error at `token`, with the caret under the token's first character.
    #[verifier::when_used_as_spec(spec_at)]
    pub fn at(reason: Reason, token: SourceToken<'a>) -> (error: AsmError<'a>)
        ensures
            error == Self::spec_at(reason, token),
    {
        AsmError { reason, token, column: token.column, previous: None }
    }

    /// A second declaration at `token` of what `previous` declared.
    pub open spec fn spec_redeclaration(
        token: SourceToken<'a>,
        previous: SourceToken<'a>,
    ) -> AsmError<'a> {
        AsmError { reason: Reason::Redeclared, token, column: token.column, previous: Some(previous) }
    }

    /// A second declaration at `token` of what `previous` declared.
    #[verifier::when_used_as_spec(spec_redeclaration)]
    pub fn redeclaration(token: SourceToken<'a>, previous: SourceToken<'a>) -> (error: AsmError<'a>)
        ensures
            error == Self::spec_redeclaration(token, previous),
    {
        AsmError { reason: Reason::Redeclared, token, column: token.column, previous: Some(previous) }
    }
}

/// Number of lines of source code shown before and after the highlighted line.
pub const SOURCE_CONTEXT_RADIUS: usize = 3;

/// The lines `first..end` that are shown around line `line_index` of a
/// source of `line_count` lines: three before it and three after it, as far
/// as they exist.
pub fn context_window(line_index: usize, line_count: usize) -> (window: (usize, usize))
    ensures
        window.0 == if line_index >= 3 { line_index - 3 } else { 0 },
        window.1 == if line_index + 4 <= line_count { line_index + 4 } else { line_count as int },
{
    let first = if line_index >= SOURCE_CONTEXT_RADIUS {
        line_index - SOURCE_CONTEXT_RADIUS
    } else {
        0
    };
    let end = if line_count >= SOURCE_CONTEXT_RADIUS + 1 && line_index <= line_count
        - SOURCE_CONTEXT_RADIUS - 1 {
        line_index + SOURCE_CONTEXT_RADIUS + 1
    } else {
        line_count
    };
    (first, end)
}

} // verus!
