//! From lines of source to lines of tokens.

use vstd::prelude::*;
use vstd::string::StrSliceExecFns;
use vstd::utf8::encode_utf8;
use crate::errors::{AsmError, Reason};
use crate::isa::ByteCodes;
use crate::lang::{Number, PseudoInstructions};
use crate::literals::{parse_digits, spec_parse_digits, spec_unescape, unescape};
use crate::symbol_table::{
    lemma_table_grown, position_of, table_grown, StaticID, StaticValue, Symbol, SymbolID, SymbolTable,
};
use crate::text::{find_matches, found_view, pattern_matches, str_eq};

verus! {

/// A lexeme and where it stands: the unit, the line (counted from zero) and
/// the column (counted from one).
#[derive(Clone, Copy, Debug, PartialEq, Eq)]
pub struct SourceToken<'a> {
    pub string: &'a str,
    pub unit_path: &'a str,
    pub line_index: usize,
    pub column: usize,
}

impl SourceToken<'_> {
    /// The line as readers count it, from one.
    pub fn line_number(&self) -> (number: usize)
        requires
            self.line_index < usize::MAX,
        ensures
            number == self.line_index + 1,
    {
        self.line_index + 1
    }
}

/// The lines of a unit.
pub type SourceCode<'a> = &'a [&'a str];

/// The tokens of one line.
pub type TokenList<'a> = Vec<Token<'a>>;

/// Total priority of a token.
pub type TokenPriority = u8;

/// A token: where it stands, what it is, and how tightly it binds.
#[derive(Clone, Copy, Debug, PartialEq, Eq)]
pub struct Token<'a> {
    pub source: SourceToken<'a>,
    pub value: TokenValue,
    pub priority: TokenPriority,
}

/// What a token is.
#[derive(Clone, Copy, Debug, PartialEq, Eq, Structural)]
pub enum TokenValue {
    StringLiteral(StaticID),
    CharLiteral(char),
    Colon,
    At,
    Number(Number),
    Identifier(SymbolID),
    Instruction(ByteCodes),
    PseudoInstruction(PseudoInstructions),
    Dollar,
    Plus,
    Minus,
    Star,
    Div,
    Mod,
    Dot,
    Bang,
    ValueMacroDef,
    EndMacro,
}

/// How tightly a kind of token binds, from loosest to tightest.
#[derive(Clone, Copy, Debug, PartialEq, Eq, Structural)]
pub enum TokenBasePriority {
    Lowest,
    Instruction,
    PlusMinus,
    MulDivMod,
    AsmOperator,
}

impl TokenBasePriority {
    /// The place of a priority in the order, from zero.
    pub open spec fn spec_rank(self) -> u8 {
        match self {
            TokenBasePriority::Lowest => 0,
            TokenBasePriority::Instruction => 1,
            TokenBasePriority::PlusMinus => 2,
            TokenBasePriority::MulDivMod => 3,
            TokenBasePriority::AsmOperator => 4,
        }
    }

    /// The place of this priority in the order, from zero.
    pub fn rank(self) -> (rank: TokenPriority)
        ensures
            rank == self.spec_rank(),
    {
        match self {
            TokenBasePriority::Lowest => 0,
            TokenBasePriority::Instruction => 1,
            TokenBasePriority::PlusMinus => 2,
            TokenBasePriority::MulDivMod => 3,
            TokenBasePriority::AsmOperator => 4,
        }
    }
}

impl TokenValue {
    /// How tightly the token binds.
    pub open spec fn spec_base_priority(&self) -> TokenBasePriority {
        match self {
            TokenValue::StringLiteral(_)
            | TokenValue::CharLiteral(_)
            | TokenValue::Number(_)
            | TokenValue::Identifier(_)
            | TokenValue::Colon => TokenBasePriority::Lowest,
            TokenValue::Instruction(_) | TokenValue::PseudoInstruction(_) => TokenBasePriority::Instruction,
            TokenValue::Plus | TokenValue::Minus => TokenBasePriority::PlusMinus,
            TokenValue::Star | TokenValue::Div | TokenValue::Mod => TokenBasePriority::MulDivMod,
            TokenValue::Dollar
            | TokenValue::At
            | TokenValue::Dot
            | TokenValue::Bang
            | TokenValue::ValueMacroDef
            | TokenValue::EndMacro => TokenBasePriority::AsmOperator,
        }
    }

    /// How tightly the token binds.
    pub fn base_priority(&self) -> (priority: TokenBasePriority)
        ensures
            priority == self.spec_base_priority(),
    {
        match self {
            TokenValue::StringLiteral(_)
            | TokenValue::CharLiteral(_)
            | TokenValue::Number(_)
            | TokenValue::Identifier(_)
            | TokenValue::Colon => TokenBasePriority::Lowest,
            TokenValue::Instruction(_) | TokenValue::PseudoInstruction(_) => TokenBasePriority::Instruction,
            TokenValue::Plus | TokenValue::Minus => TokenBasePriority::PlusMinus,
            TokenValue::Star | TokenValue::Div | TokenValue::Mod => TokenBasePriority::MulDivMod,
            TokenValue::Dollar
            | TokenValue::At
            | TokenValue::Dot
            | TokenValue::Bang
            | TokenValue::ValueMacroDef
            | TokenValue::EndMacro => TokenBasePriority::AsmOperator,
        }
    }
}

/// The regular expression whose successive matches are the lexemes of a
/// line: quoted characters and strings, the two macro keywords,
/// identifiers, numbers, punctuation, and any other character that is no
/// white space.
pub const TOKEN_PATTERN: &'static str =
    "'(?:\\\\'|[^'])*'|\"(?:\\\\\"|[^\"])*\"|%endmacro|%=|[_a-zA-Z][_a-zA-Z0-9]*|0x[0-9a-fA-F]+|[-+]?[0-9]+[.][0-9]+|[-+]?[0-9]+|[-+*/%@#$:.=!]|\\S";

/// A lexeme as contracts see it.
pub struct Lexeme {
    pub text: Seq<char>,
    pub unit_path: Seq<char>,
    pub line_index: int,
    pub column: int,
}

/// The lexeme of a source token.
pub open spec fn lexeme_of(token: SourceToken<'_>) -> Lexeme {
    Lexeme {
        text: token.string@,
        unit_path: token.unit_path@,
        line_index: token.line_index as int,
        column: token.column as int,
    }
}

/// The column of a lexeme that starts at the given offset of its line.
pub open spec fn spec_column(start: int) -> int {
    if start < usize::MAX {
        start + 1
    } else {
        usize::MAX as int
    }
}

/// How many matches precede the comment, which starts with the first `;`.
pub open spec fn spec_code_len(found: Seq<(Seq<char>, int)>) -> int
    decreases found.len(),
{
    if found.len() == 0 || found[0].0 == ";"@ {
        0
    } else {
        1 + spec_code_len(found.skip(1))
    }
}

/// No match before the comment is `;`, and the comment, if there is one, starts with `;`.
pub proof fn lemma_code_len(found: Seq<(Seq<char>, int)>)
    ensures
        0 <= spec_code_len(found) <= found.len(),
        forall|i: int| 0 <= i < spec_code_len(found) ==> (#[trigger] found[i]).0 != ";"@,
        spec_code_len(found) < found.len() ==> found[spec_code_len(found)].0 == ";"@,
    decreases found.len(),
{
    if found.len() > 0 && found[0].0 != ";"@ {
        let rest = found.skip(1);
        lemma_code_len(rest);
        assert forall|i: int| 0 <= i < spec_code_len(found) implies (#[trigger] found[i]).0 != ";"@ by {
            if i > 0 {
                assert(found[i] == rest[i - 1]);
            }
        }
        if spec_code_len(found) < found.len() {
            assert(found[spec_code_len(found)] == rest[spec_code_len(rest)]);
        }
    }
}

/// The lexemes of line `line_index` of the unit `unit_path`, given the
/// matches of the pattern in it: the matches before the first `;`, each
/// with the column in which it starts.
pub open spec fn spec_line_lexemes(
    found: Seq<(Seq<char>, int)>,
    unit_path: Seq<char>,
    line_index: int,
) -> Seq<Lexeme> {
    Seq::new(
        spec_code_len(found) as nat,
        |i: int| Lexeme { text: found[i].0, unit_path, line_index, column: spec_column(found[i].1) },
    )
}

/// The lexemes of the first `count` lines, line by line, without the lines
/// that have none, where a lexeme is a match of `pattern`; nothing where
/// the pattern is rejected.
pub open spec fn spec_lex_with(
    pattern: Seq<char>,
    source: Seq<Seq<char>>,
    unit_path: Seq<char>,
    count: nat,
) -> Option<Seq<Seq<Lexeme>>>
    decreases count,
{
    if count == 0 {
        Some(Seq::empty())
    } else {
        match (
            spec_lex_with(pattern, source, unit_path, (count - 1) as nat),
            pattern_matches(pattern, source[count - 1]),
        ) {
            (Some(before), Some(found)) => {
                let line = spec_line_lexemes(found, unit_path, count - 1);
                if line.len() == 0 {
                    Some(before)
                } else {
                    Some(before.push(line))
                }
            },
            _ => None,
        }
    }
}

/// The lexemes of the first `count` lines, line by line, without the lines
/// that have none; nothing where the pattern is rejected.
pub open spec fn spec_lex(source: Seq<Seq<char>>, unit_path: Seq<char>, count: nat) -> Option<
    Seq<Seq<Lexeme>>,
> {
    spec_lex_with(TOKEN_PATTERN@, source, unit_path, count)
}

/// The lines of lexemes, as contracts see them.
pub open spec fn lexemes_view(lines: Seq<Vec<SourceToken<'_>>>) -> Seq<Seq<Lexeme>> {
    Seq::new(lines.len(), |i: int| Seq::new(lines[i]@.len(), |j: int| lexeme_of(lines[i]@[j])))
}

/// The characters of each line.
pub open spec fn lines_view(source: Seq<&str>) -> Seq<Seq<char>> {
    Seq::new(source.len(), |i: int| source[i]@)
}

/// Every lexeme belongs to the unit `unit_path`.
pub open spec fn all_of_unit(lines: Seq<Vec<SourceToken<'_>>>, unit_path: &str) -> bool {
    forall|i: int, j: int|
        0 <= i < lines.len() && 0 <= j < lines[i]@.len() ==> (#[trigger] lines[i]@[j]).unit_path
            == unit_path
}

/// The lexemes of a line, given the matches of the pattern in it: the
/// matches before the first `;`, each as a token of line `line_index` of the
/// unit `unit_path`, with the column in which it starts.
pub fn line_lexemes<'a>(
    found: &Vec<(&'a str, usize)>,
    unit_path: &'a str,
    line_index: usize,
) -> (tokens: Vec<SourceToken<'a>>)
    ensures
        Seq::new(tokens@.len(), |j: int| lexeme_of(tokens@[j])) == spec_line_lexemes(
            found_view(found@),
            unit_path@,
            line_index as int,
        ),
        forall|j: int|
            0 <= j < tokens@.len() ==> (#[trigger] tokens@[j]).unit_path == unit_path
                && tokens@[j].string == found@[j].0 && tokens@[j].line_index == line_index
                && tokens@[j].column == spec_column(found@[j].1 as int),
        tokens@.len() <= found@.len(),
{
    let ghost matched = found_view(found@);
    proof {
        lemma_code_len(matched);
    }
    let mut tokens: Vec<SourceToken<'a>> = Vec::new();
    let mut at: usize = 0;
    let mut in_code = true;
    while in_code && at < found.len()
        invariant
            at <= found@.len(),
            matched == found_view(found@),
            at <= spec_code_len(matched),
            !in_code ==> at < found@.len() && matched[at as int].0 == ";"@,
            tokens@.len() == at,
            forall|j: int|
                0 <= j < at ==> lexeme_of(#[trigger] tokens@[j]) == (Lexeme {
                    text: matched[j].0,
                    unit_path: unit_path@,
                    line_index: line_index as int,
                    column: spec_column(matched[j].1),
                }),
            forall|j: int|
                0 <= j < at ==> (#[trigger] tokens@[j]).unit_path == unit_path && tokens@[j].string
                    == found@[j].0 && tokens@[j].line_index == line_index && tokens@[j].column
                    == spec_column(found@[j].1 as int),
        decreases found@.len() - at + if in_code { 1int } else { 0int },
    {
        proof {
            lemma_code_len(matched);
        }
        let (string, start) = found[at];
        assert(matched[at as int] == (string@, start as int));
        if str_eq(string, ";") {
            in_code = false;
        } else {
            let column = if start < usize::MAX {
                start + 1
            } else {
                usize::MAX
            };
            tokens.push(SourceToken { string, unit_path, line_index, column });
            at = at + 1;
        }
    }
    proof {
        lemma_code_len(matched);
        assert(at == spec_code_len(matched));
        assert(Seq::new(tokens@.len(), |j: int| lexeme_of(tokens@[j])) =~= spec_line_lexemes(
            matched,
            unit_path@,
            line_index as int,
        ));
    }
    tokens
}

/// The lexeme is the slice of the line, as bytes, that starts in the
/// lexeme's column, where columns are counted from one.
pub open spec fn lexeme_lies_in(line: Seq<char>, token: SourceToken<'_>) -> bool {
    token.column < usize::MAX ==> {
        let start = token.column - 1;
        let end = start + encode_utf8(token.string@).len();
        &&& 0 <= start
        &&& end <= encode_utf8(line).len()
        &&& encode_utf8(line).subrange(start, end) == encode_utf8(token.string@)
    }
}

/// Every lexeme lies in its line of the source, in its column.
pub open spec fn all_in_lines(lines: Seq<Vec<SourceToken<'_>>>, source: Seq<Seq<char>>) -> bool {
    forall|i: int, j: int|
        0 <= i < lines.len() && 0 <= j < lines[i]@.len() ==> (#[trigger] lines[i]@[j]).line_index
            < source.len() && lexeme_lies_in(source[lines[i]@[j].line_index as int], lines[i]@[j])
}

/// Splits one line into lexemes: finds the matches of the pattern and
/// takes those before the comment.
fn lex_line<'a>(
    pattern: &str,
    line: &'a str,
    unit_path: &'a str,
    line_index: usize,
) -> (tokens: Option<Vec<SourceToken<'a>>>)
    ensures
        match pattern_matches(pattern@, line@) {
            Some(found) => tokens is Some && Seq::new(
                tokens->0@.len(),
                |j: int| lexeme_of(tokens->0@[j]),
            ) == spec_line_lexemes(found, unit_path@, line_index as int) && forall|j: int|
                0 <= j < tokens->0@.len() ==> (#[trigger] tokens->0@[j]).unit_path == unit_path
                    && tokens->0@[j].line_index == line_index && lexeme_lies_in(
                    line@,
                    tokens->0@[j],
                ),
            None => tokens is None,
        },
{
    match find_matches(pattern, line) {
        Some(found) => {
            let tokens = line_lexemes(&found, unit_path, line_index);
            proof {
                let matched = found_view(found@);
                assert forall|j: int| 0 <= j < tokens@.len() implies lexeme_lies_in(
                    line@,
                    #[trigger] tokens@[j],
                ) by {
                    assert(matched[j] == (found@[j].0@, found@[j].1 as int));
                }
            }
            Some(tokens)
        },
        None => None,
    }
}

/// Splits the lines of a unit into lexemes, which are the matches of the
/// regular expression `pattern`. A line without lexemes, or with nothing
/// before its comment, gives no line of lexemes.
pub fn lex_with<'a>(
    pattern: &str,
    source: &[&'a str],
    unit_path: &'a str,
) -> (lines: Option<Vec<Vec<SourceToken<'a>>>>)
    ensures
        match spec_lex_with(pattern@, lines_view(source@), unit_path@, source@.len()) {
            Some(lexemes) => lines is Some && lexemes_view(lines->0@) == lexemes && all_of_unit(
                lines->0@,
                unit_path,
            ) && all_in_lines(lines->0@, lines_view(source@)),
            None => lines is None,
        },
{
    let mut lines: Vec<Vec<SourceToken<'a>>> = Vec::new();
    let mut at: usize = 0;
    let ghost source_view = lines_view(source@);
    assert(lexemes_view(lines@) =~= Seq::<Seq<Lexeme>>::empty());
    while at < source.len()
        invariant
            at <= source@.len(),
            source_view == lines_view(source@),
            spec_lex_with(pattern@, source_view, unit_path@, at as nat) == Some(
                lexemes_view(lines@),
            ),
            all_of_unit(lines@, unit_path),
            all_in_lines(lines@, source_view),
        decreases source@.len() - at,
    {
        assert(source_view[at as int] == source@[at as int]@);
        match lex_line(pattern, source[at], unit_path, at) {
            None => {
                proof {
                    lemma_lex_fails(
                        pattern@,
                        source_view,
                        unit_path@,
                        (at + 1) as nat,
                        source@.len(),
                    );
                }
                return None;
            },
            Some(tokens) => {
                if tokens.len() > 0 {
                    let ghost before = lines@;
                    let ghost line = Seq::new(tokens@.len(), |j: int| lexeme_of(tokens@[j]));
                    lines.push(tokens);
                    proof {
                        assert forall|i: int| 0 <= i < lines@.len() implies #[trigger] lexemes_view(
                            lines@,
                        )[i] == lexemes_view(before).push(line)[i] by {
                            if i < before.len() {
                                assert(lines@[i] == before[i]);
                            }
                        }
                        assert(lexemes_view(lines@) =~= lexemes_view(before).push(line));
                        assert forall|i: int, j: int|
                            0 <= i < lines@.len() && 0 <= j < lines@[i]@.len() implies (
                        #[trigger] lines@[i]@[j]).unit_path == unit_path by {
                            if i < before.len() {
                                assert(lines@[i] == before[i]);
                            }
                        }
                        assert forall|i: int, j: int|
                            0 <= i < lines@.len() && 0 <= j < lines@[i]@.len() implies (
                        #[trigger] lines@[i]@[j]).line_index < source_view.len() && lexeme_lies_in(
                            source_view[lines@[i]@[j].line_index as int],
                            lines@[i]@[j],
                        ) by {
                            if i < before.len() {
                                assert(lines@[i] == before[i]);
                            }
                        }
                    }
                }
            },
        }
        at = at + 1;
    }
    Some(lines)
}

/// Splits the lines of a unit into lexemes. A line without lexemes, or
/// with nothing before its comment, gives no line of lexemes.
pub fn lex<'a>(source: &[&'a str], unit_path: &'a str) -> (lines: Option<Vec<Vec<SourceToken<'a>>>>)
    ensures
        match spec_lex(lines_view(source@), unit_path@, source@.len()) {
            Some(lexemes) => lines is Some && lexemes_view(lines->0@) == lexemes && all_of_unit(
                lines->0@,
                unit_path,
            ) && all_in_lines(lines->0@, lines_view(source@)),
            None => lines is None,
        },
{
    lex_with(TOKEN_PATTERN, source, unit_path)
}

/// Once the pattern is rejected on a line, the unit has no lexemes.
pub proof fn lemma_lex_fails(
    pattern: Seq<char>,
    source: Seq<Seq<char>>,
    unit_path: Seq<char>,
    failed: nat,
    count: nat,
)
    requires
        failed <= count,
        spec_lex_with(pattern, source, unit_path, failed) is None,
    ensures
        spec_lex_with(pattern, source, unit_path, count) is None,
    decreases count,
{
    if failed < count {
        lemma_lex_fails(pattern, source, unit_path, failed, (count - 1) as nat);
    }
}


/// The token that a lexeme of punctuation stands for.
pub open spec fn spec_punctuation(lexeme: Seq<char>) -> Option<TokenValue> {
    if lexeme == "."@ {
        Some(TokenValue::Dot)
    } else if lexeme == "+"@ {
        Some(TokenValue::Plus)
    } else if lexeme == "-"@ {
        Some(TokenValue::Minus)
    } else if lexeme == "*"@ {
        Some(TokenValue::Star)
    } else if lexeme == "/"@ {
        Some(TokenValue::Div)
    } else if lexeme == "%"@ {
        Some(TokenValue::Mod)
    } else if lexeme == ":"@ {
        Some(TokenValue::Colon)
    } else if lexeme == "$"@ {
        Some(TokenValue::Dollar)
    } else if lexeme == "@"@ {
        Some(TokenValue::At)
    } else if lexeme == "!"@ {
        Some(TokenValue::Bang)
    } else if lexeme == "%="@ {
        Some(TokenValue::ValueMacroDef)
    } else if lexeme == "%endmacro"@ {
        Some(TokenValue::EndMacro)
    } else {
        None
    }
}

fn punctuation(string: &str) -> (value: Option<TokenValue>)
    ensures
        value == spec_punctuation(string@),
{
    if str_eq(string, ".") {
        Some(TokenValue::Dot)
    } else if str_eq(string, "+") {
        Some(TokenValue::Plus)
    } else if str_eq(string, "-") {
        Some(TokenValue::Minus)
    } else if str_eq(string, "*") {
        Some(TokenValue::Star)
    } else if str_eq(string, "/") {
        Some(TokenValue::Div)
    } else if str_eq(string, "%") {
        Some(TokenValue::Mod)
    } else if str_eq(string, ":") {
        Some(TokenValue::Colon)
    } else if str_eq(string, "$") {
        Some(TokenValue::Dollar)
    } else if str_eq(string, "@") {
        Some(TokenValue::At)
    } else if str_eq(string, "!") {
        Some(TokenValue::Bang)
    } else if str_eq(string, "%=") {
        Some(TokenValue::ValueMacroDef)
    } else if str_eq(string, "%endmacro") {
        Some(TokenValue::EndMacro)
    } else {
        None
    }
}

/// Whether a decimal number can begin with `c`: a digit, a sign or a point.
pub open spec fn spec_is_decimal_numeric(c: char) -> bool {
    ('0' <= c <= '9') || c == '-' || c == '+' || c == '.'
}

/// Whether a decimal number can begin with `c`.
#[inline]
pub fn is_decimal_numeric(c: char) -> (numeric: bool)
    ensures
        numeric == spec_is_decimal_numeric(c),
{
    ('0' <= c && c <= '9') || c == '-' || c == '+' || c == '.'
}

/// Whether an identifier can begin with `c`: a letter or an underscore.
pub open spec fn spec_is_identifier_start(c: char) -> bool {
    c == '_' || ('a' <= c <= 'z') || ('A' <= c <= 'Z')
}

/// A letter or an underscore, then letters, digits and underscores.
pub open spec fn spec_is_identifier(lexeme: Seq<char>) -> bool {
    &&& lexeme.len() > 0
    &&& spec_is_identifier_start(lexeme[0])
    &&& forall|i: int|
        0 <= i < lexeme.len() ==> spec_is_identifier_start(#[trigger] lexeme[i]) || ('0' <= lexeme[i]
            <= '9')
}

fn is_identifier(string: &str) -> (identifier: bool)
    ensures
        identifier == spec_is_identifier(string@),
{
    let length = string.unicode_len();
    if length == 0 {
        return false;
    }
    let first = string.get_char(0);
    if !(first == '_' || ('a' <= first && first <= 'z') || ('A' <= first && first <= 'Z')) {
        return false;
    }
    let mut at: usize = 1;
    while at < length
        invariant
            1 <= at <= length,
            length == string@.len(),
            spec_is_identifier_start(string@[0]),
            forall|i: int|
                0 <= i < at ==> spec_is_identifier_start(#[trigger] string@[i]) || ('0' <= string@[i]
                    <= '9'),
        decreases length - at,
    {
        let c = string.get_char(at);
        if !(c == '_' || ('a' <= c && c <= 'z') || ('A' <= c && c <= 'Z') || ('0' <= c && c <= '9')) {
            return false;
        }
        at = at + 1;
    }
    true
}

fn has_point(string: &str) -> (found: bool)
    ensures
        found == string@.contains('.'),
{
    let length = string.unicode_len();
    let mut at: usize = 0;
    while at < length
        invariant
            at <= length,
            length == string@.len(),
            forall|i: int| 0 <= i < at ==> string@[i] != '.',
        decreases length - at,
    {
        if string.get_char(at) == '.' {
            return true;
        }
        at = at + 1;
    }
    false
}

/// The kinds of lexemes.
#[derive(Clone, Copy, Debug, PartialEq, Eq, Structural)]
pub enum LexemeKind {
    Punctuation(TokenValue),
    Hex,
    Float,
    Signed,
    Unsigned,
    Text,
    Character,
    Word,
}

/// The kind of a lexeme, told by its first characters: punctuation as
/// listed; `0x` begins a hexadecimal number; a digit, a sign or a point a
/// decimal one, which is a float where it holds a point and signed where it
/// begins with `-`; a quote begins a string or a character.
pub open spec fn spec_kind(lexeme: Seq<char>) -> LexemeKind {
    match spec_punctuation(lexeme) {
        Some(value) => LexemeKind::Punctuation(value),
        None => if lexeme.len() == 0 {
            LexemeKind::Word
        } else if lexeme.len() >= 2 && lexeme[0] == '0' && lexeme[1] == 'x' {
            LexemeKind::Hex
        } else if spec_is_decimal_numeric(lexeme[0]) {
            if lexeme.contains('.') {
                LexemeKind::Float
            } else if lexeme[0] == '-' {
                LexemeKind::Signed
            } else {
                LexemeKind::Unsigned
            }
        } else if lexeme[0] == '"' {
            LexemeKind::Text
        } else if lexeme[0] == '\'' {
            LexemeKind::Character
        } else {
            LexemeKind::Word
        },
    }
}

/// The kind of a lexeme.
pub fn kind(string: &str) -> (found: LexemeKind)
    ensures
        found == spec_kind(string@),
{
    match punctuation(string) {
        Some(value) => LexemeKind::Punctuation(value),
        None => {
            let length = string.unicode_len();
            if length == 0 {
                return LexemeKind::Word;
            }
            let first = string.get_char(0);
            if length >= 2 && first == '0' && string.get_char(1) == 'x' {
                LexemeKind::Hex
            } else if is_decimal_numeric(first) {
                if has_point(string) {
                    LexemeKind::Float
                } else if first == '-' {
                    LexemeKind::Signed
                } else {
                    LexemeKind::Unsigned
                }
            } else if first == '"' {
                LexemeKind::Text
            } else if first == '\'' {
                LexemeKind::Character
            } else {
                LexemeKind::Word
            }
        },
    }
}

/// What tokenizing has built up: the symbols, the static pool, and how
/// many floats of the unit have been seen.
pub struct ScanState<'a> {
    pub symbols: Seq<Symbol<'a>>,
    pub statics: Seq<Seq<char>>,
    pub used: nat,
}

/// What lies between the quotes of a lexeme that ends with its quote.
pub open spec fn spec_quoted_body(lexeme: Seq<char>, quote: char) -> Option<Seq<char>> {
    if lexeme.len() >= 2 && lexeme.last() == quote {
        Some(lexeme.subrange(1, lexeme.len() - 1))
    } else {
        None
    }
}

/// The column of the character with index `index` between the quotes of a
/// literal that starts in column `column`.
pub open spec fn spec_escape_column(column: usize, index: int) -> usize {
    if column + index + 1 <= usize::MAX {
        (column + index + 1) as usize
    } else {
        usize::MAX
    }
}

/// The text of a quoted literal, or why it has none.
pub open spec fn spec_literal_text<'a>(
    token: SourceToken<'a>,
    quote: char,
    unterminated: Reason,
) -> Result<Seq<char>, AsmError<'a>> {
    match spec_quoted_body(token.string@, quote) {
        None => Err(AsmError::spec_at(unterminated, token)),
        Some(body) => match spec_unescape(body) {
            Ok(text) => Ok(text),
            Err(bad) => Err(
                AsmError {
                    reason: Reason::InvalidEscape(bad.character),
                    token,
                    column: spec_escape_column(token.column, body.len() - 1 - bad.tail),
                    previous: None,
                },
            ),
        },
    }
}

/// The symbol that an identifier names: the one that has its name, or a new one.
pub open spec fn spec_intern<'a>(
    token: SourceToken<'a>,
    state: ScanState<'a>,
) -> (TokenValue, ScanState<'a>) {
    match position_of(state.symbols, token.string@) {
        Some(at) => (TokenValue::Identifier(SymbolID(at as usize)), state),
        None => (
            TokenValue::Identifier(SymbolID(state.symbols.len() as usize)),
            ScanState {
                symbols: state.symbols.push(Symbol { source: token, name: token.string, value: None }),
                ..state
            },
        ),
    }
}

/// The token that a lexeme stands for, and what it adds to the tables.
pub open spec fn spec_scan<'a>(
    token: SourceToken<'a>,
    state: ScanState<'a>,
    floats: Seq<Option<u64>>,
) -> Result<(TokenValue, ScanState<'a>), AsmError<'a>> {
    let lexeme = token.string@;
    let bad_number = Err::<(TokenValue, ScanState<'a>), AsmError<'a>>(
        AsmError::spec_at(Reason::InvalidNumber, token),
    );
    match spec_kind(lexeme) {
        LexemeKind::Punctuation(value) => Ok((value, state)),
        LexemeKind::Hex => match spec_parse_digits(lexeme.skip(2), 16, u64::MAX as nat) {
            Some(number) => Ok((TokenValue::Number(Number::Uint(number as u64)), state)),
            None => bad_number,
        },
        LexemeKind::Unsigned => match spec_parse_digits(
            if lexeme[0] == '+' {
                lexeme.skip(1)
            } else {
                lexeme
            },
            10,
            u64::MAX as nat,
        ) {
            Some(number) => Ok((TokenValue::Number(Number::Uint(number as u64)), state)),
            None => bad_number,
        },
        LexemeKind::Signed => match spec_parse_digits(lexeme.skip(1), 10, 0x8000_0000_0000_0000) {
            Some(number) => Ok((TokenValue::Number(Number::Int((-(number as int)) as i64)), state)),
            None => bad_number,
        },
        LexemeKind::Float => if state.used < floats.len() && floats[state.used as int] is Some {
            Ok(
                (
                    TokenValue::Number(Number::Float(floats[state.used as int]->0)),
                    ScanState { used: state.used + 1, ..state },
                ),
            )
        } else {
            bad_number
        },
        LexemeKind::Text => match spec_literal_text(token, '"', Reason::UnterminatedString) {
            Err(error) => Err(error),
            Ok(text) => Ok(
                (
                    TokenValue::StringLiteral(StaticID(state.statics.len() as usize)),
                    ScanState { statics: state.statics.push(text), ..state },
                ),
            ),
        },
        LexemeKind::Character => match spec_literal_text(token, '\'', Reason::UnterminatedChar) {
            Err(error) => Err(error),
            Ok(text) => if text.len() == 1 {
                Ok((TokenValue::CharLiteral(text[0]), state))
            } else {
                Err(AsmError::spec_at(Reason::InvalidCharLiteral, token))
            },
        },
        LexemeKind::Word => match ByteCodes::spec_from_string(lexeme) {
            Some(code) => Ok((TokenValue::Instruction(code), state)),
            None => match PseudoInstructions::spec_from_string(lexeme) {
                Some(code) => Ok((TokenValue::PseudoInstruction(code), state)),
                None => if spec_is_identifier(lexeme) {
                    Ok(spec_intern(token, state))
                } else {
                    Err(AsmError::spec_at(Reason::InvalidToken, token))
                },
            },
        },
    }
}

/// The state of the tables, with `used` floats seen.
pub open spec fn state_of<'a>(table: SymbolTable<'a>, used: nat) -> ScanState<'a> {
    ScanState { symbols: table.symbols(), statics: table.statics(), used }
}

/// Decodes the quoted literal of `token`.
fn literal_text<'a>(
    token: SourceToken<'a>,
    quote: char,
    unterminated: Reason,
) -> (text: Result<String, AsmError<'a>>)
    ensures
        match spec_literal_text(token, quote, unterminated) {
            Ok(expected) => text is Ok && text->Ok_0@ == expected,
            Err(error) => text == Err::<String, AsmError<'a>>(error),
        },
{
    let length = token.string.unicode_len();
    if length < 2 || token.string.get_char(length - 1) != quote {
        return Err(AsmError::at(unterminated, token));
    }
    let body = token.string.substring_char(1, length - 1);
    match unescape(body) {
        Ok(text) => Ok(text),
        Err((character, index)) => {
            let column = if index < usize::MAX && token.column <= usize::MAX - index - 1 {
                token.column + index + 1
            } else {
                usize::MAX
            };
            Err(AsmError { reason: Reason::InvalidEscape(character), token, column, previous: None })
        },
    }
}

/// Turns one lexeme into the value of its token.
pub fn scan<'a>(
    token: SourceToken<'a>,
    symbol_table: &mut SymbolTable<'a>,
    floats: &[Option<u64>],
    used: &mut usize,
) -> (value: Result<TokenValue, AsmError<'a>>)
    requires
        old(symbol_table).wf(),
    ensures
        final(symbol_table).wf(),
        match spec_scan(token, state_of(*old(symbol_table), *old(used) as nat), floats@) {
            Ok((expected, state)) => value == Ok::<TokenValue, AsmError<'a>>(expected) && state_of(
                *final(symbol_table),
                *final(used) as nat,
            ) == state,
            Err(error) => value == Err::<TokenValue, AsmError<'a>>(error) && state_of(
                *final(symbol_table),
                *final(used) as nat,
            ) == state_of(*old(symbol_table), *old(used) as nat),
        },
        table_grown(*old(symbol_table), *final(symbol_table)),
{
    let string = token.string;
    let value = match kind(string) {
        LexemeKind::Punctuation(value) => Ok(value),
        LexemeKind::Hex => match parse_digits(string, 2, 16, u64::MAX) {
            Some(number) => Ok(TokenValue::Number(Number::Uint(number))),
            None => Err(AsmError::at(Reason::InvalidNumber, token)),
        },
        LexemeKind::Unsigned => {
            let from: usize = if string.get_char(0) == '+' {
                1
            } else {
                0
            };
            assert(string@.skip(0) =~= string@);
            match parse_digits(string, from, 10, u64::MAX) {
                Some(number) => Ok(TokenValue::Number(Number::Uint(number))),
                None => Err(AsmError::at(Reason::InvalidNumber, token)),
            }
        },
        LexemeKind::Signed => match parse_digits(string, 1, 10, 0x8000_0000_0000_0000) {
            Some(number) => {
                let value: i64 = if number == 0x8000_0000_0000_0000 {
                    i64::MIN
                } else {
                    -(number as i64)
                };
                Ok(TokenValue::Number(Number::Int(value)))
            },
            None => Err(AsmError::at(Reason::InvalidNumber, token)),
        },
        LexemeKind::Float => {
            if *used < floats.len() {
                match floats[*used] {
                    Some(bits) => {
                        *used = *used + 1;
                        Ok(TokenValue::Number(Number::Float(bits)))
                    },
                    None => Err(AsmError::at(Reason::InvalidNumber, token)),
                }
            } else {
                Err(AsmError::at(Reason::InvalidNumber, token))
            }
        },
        LexemeKind::Text => match literal_text(token, '"', Reason::UnterminatedString) {
            Err(error) => Err(error),
            Ok(text) => {
                let id = symbol_table.declare_static(StaticValue::StringLiteral(text));
                Ok(TokenValue::StringLiteral(id))
            },
        },
        LexemeKind::Character => match literal_text(token, '\'', Reason::UnterminatedChar) {
            Err(error) => Err(error),
            Ok(text) => {
                if text.as_str().unicode_len() == 1 {
                    Ok(TokenValue::CharLiteral(text.as_str().get_char(0)))
                } else {
                    Err(AsmError::at(Reason::InvalidCharLiteral, token))
                }
            },
        },
        LexemeKind::Word => match ByteCodes::from_string(string) {
            Some(code) => Ok(TokenValue::Instruction(code)),
            None => match PseudoInstructions::from_string(string) {
                Some(code) => Ok(TokenValue::PseudoInstruction(code)),
                None => {
                    if is_identifier(string) {
                        match symbol_table.get_symbol_id(string) {
                            Some(id) => Ok(TokenValue::Identifier(id)),
                            None => {
                                let count = symbol_table.symbol_count();
                                match symbol_table.declare_symbol(
                                    string,
                                    Symbol { source: token, name: string, value: None },
                                ) {
                                    Ok(id) => Ok(TokenValue::Identifier(id)),
                                    Err(_) => Ok(TokenValue::Identifier(SymbolID(count))),
                                }
                            },
                        }
                    } else {
                        Err(AsmError::at(Reason::InvalidToken, token))
                    }
                },
            },
        },
    };
    proof {
        assert(symbol_table.symbols().subrange(0, old(symbol_table).symbols().len() as int)
            =~= old(symbol_table).symbols());
        assert(symbol_table.statics().subrange(0, old(symbol_table).statics().len() as int)
            =~= old(symbol_table).statics());
    }
    value
}

/// The tokens of the first `count` lexemes of a line.
pub open spec fn spec_scan_line<'a>(
    tokens: Seq<SourceToken<'a>>,
    count: nat,
    state: ScanState<'a>,
    floats: Seq<Option<u64>>,
) -> Result<(Seq<Token<'a>>, ScanState<'a>), AsmError<'a>>
    decreases count,
{
    if count == 0 {
        Ok((Seq::empty(), state))
    } else {
        match spec_scan_line(tokens, (count - 1) as nat, state, floats) {
            Err(error) => Err(error),
            Ok((before, state)) => match spec_scan(tokens[count - 1], state, floats) {
                Err(error) => Err(error),
                Ok((value, state)) => Ok(
                    (
                        before.push(
                            Token {
                                source: tokens[count - 1],
                                value,
                                priority: value.spec_base_priority().spec_rank(),
                            },
                        ),
                        state,
                    ),
                ),
            },
        }
    }
}

/// The tokens of the first `count` lines.
pub open spec fn spec_scan_lines<'a>(
    lines: Seq<Seq<SourceToken<'a>>>,
    count: nat,
    state: ScanState<'a>,
    floats: Seq<Option<u64>>,
) -> Result<(Seq<Seq<Token<'a>>>, ScanState<'a>), AsmError<'a>>
    decreases count,
{
    if count == 0 {
        Ok((Seq::empty(), state))
    } else {
        match spec_scan_lines(lines, (count - 1) as nat, state, floats) {
            Err(error) => Err(error),
            Ok((before, state)) => match spec_scan_line(
                lines[count - 1],
                lines[count - 1].len(),
                state,
                floats,
            ) {
                Err(error) => Err(error),
                Ok((line, state)) => Ok((before.push(line), state)),
            },
        }
    }
}

/// Once a lexeme is refused, the line is refused with the same error.
pub proof fn lemma_scan_line_fails<'a>(
    tokens: Seq<SourceToken<'a>>,
    failed: nat,
    count: nat,
    state: ScanState<'a>,
    floats: Seq<Option<u64>>,
)
    requires
        failed <= count,
        spec_scan_line(tokens, failed, state, floats) is Err,
    ensures
        spec_scan_line(tokens, count, state, floats) == spec_scan_line(tokens, failed, state, floats),
    decreases count,
{
    if failed < count {
        lemma_scan_line_fails(tokens, failed, (count - 1) as nat, state, floats);
    }
}

/// Once a line is refused, the unit is refused with the same error.
pub proof fn lemma_scan_lines_fails<'a>(
    lines: Seq<Seq<SourceToken<'a>>>,
    failed: nat,
    count: nat,
    state: ScanState<'a>,
    floats: Seq<Option<u64>>,
)
    requires
        failed <= count,
        spec_scan_lines(lines, failed, state, floats) is Err,
    ensures
        spec_scan_lines(lines, count, state, floats) == spec_scan_lines(lines, failed, state, floats),
    decreases count,
{
    if failed < count {
        lemma_scan_lines_fails(lines, failed, (count - 1) as nat, state, floats);
    }
}

/// The lines of lexemes with their tokens, as contracts see them.
pub open spec fn raw_view<'a>(lines: Seq<Vec<SourceToken<'a>>>) -> Seq<Seq<SourceToken<'a>>> {
    Seq::new(lines.len(), |i: int| lines[i]@)
}

/// The lines of tokens, as contracts see them.
pub open spec fn tokens_view<'a>(lines: Seq<Vec<Token<'a>>>) -> Seq<Seq<Token<'a>>> {
    Seq::new(lines.len(), |i: int| lines[i]@)
}

fn scan_line<'a>(
    tokens: &Vec<SourceToken<'a>>,
    symbol_table: &mut SymbolTable<'a>,
    floats: &[Option<u64>],
    used: &mut usize,
) -> (line: Result<Vec<Token<'a>>, AsmError<'a>>)
    requires
        old(symbol_table).wf(),
    ensures
        final(symbol_table).wf(),
        match spec_scan_line(
            tokens@,
            tokens@.len(),
            state_of(*old(symbol_table), *old(used) as nat),
            floats@,
        ) {
            Ok((expected, state)) => line is Ok && line->Ok_0@ == expected && state_of(
                *final(symbol_table),
                *final(used) as nat,
            ) == state,
            Err(error) => line == Err::<Vec<Token<'a>>, AsmError<'a>>(error),
        },
        table_grown(*old(symbol_table), *final(symbol_table)),
{
    let ghost start = state_of(*symbol_table, *used as nat);
    proof {
        lemma_table_grown(*symbol_table, *symbol_table, *symbol_table);
    }
    let mut line: Vec<Token<'a>> = Vec::new();
    let mut at: usize = 0;
    while at < tokens.len()
        invariant
            at <= tokens@.len(),
            symbol_table.wf(),
            start == state_of(*old(symbol_table), *old(used) as nat),
            table_grown(*old(symbol_table), *symbol_table),
            spec_scan_line(tokens@, at as nat, start, floats@) == Ok::<
                (Seq<Token<'a>>, ScanState<'a>),
                AsmError<'a>,
            >((line@, state_of(*symbol_table, *used as nat))),
        decreases tokens@.len() - at,
    {
        let source = tokens[at];
        let ghost earlier = *symbol_table;
        let result = scan(source, symbol_table, floats, used);
        proof {
            lemma_table_grown(*old(symbol_table), earlier, *symbol_table);
        }
        match result {
            Err(error) => {
                proof {
                    lemma_scan_line_fails(tokens@, (at + 1) as nat, tokens@.len(), start, floats@);
                }
                return Err(error);
            },
            Ok(value) => {
                line.push(Token { source, value, priority: value.base_priority().rank() });
            },
        }
        at = at + 1;
    }
    Ok(line)
}

/// Turns the lexemes of a unit into tokens. Identifiers are declared in the
/// symbol table and strings in the static pool as they come. The float
/// with index `k` among the float lexemes of the unit, in the order of the
/// source, gets the bit pattern `floats[k]`; a float without one is refused.
pub fn tokenize_lexed<'a>(
    raw_lines: &Vec<Vec<SourceToken<'a>>>,
    symbol_table: &mut SymbolTable<'a>,
    floats: &[Option<u64>],
) -> (lines: Result<Vec<TokenList<'a>>, AsmError<'a>>)
    requires
        old(symbol_table).wf(),
    ensures
        final(symbol_table).wf(),
        match spec_scan_lines(
            raw_view(raw_lines@),
            raw_lines@.len(),
            state_of(*old(symbol_table), 0),
            floats@,
        ) {
            Ok((expected, state)) => lines is Ok && tokens_view(lines->Ok_0@) == expected
                && final(symbol_table).symbols() == state.symbols && final(symbol_table).statics()
                == state.statics,
            Err(error) => lines == Err::<Vec<TokenList<'a>>, AsmError<'a>>(error),
        },
        table_grown(*old(symbol_table), *final(symbol_table)),
{
    let ghost start = state_of(*symbol_table, 0);
    let ghost raw = raw_view(raw_lines@);
    proof {
        lemma_table_grown(*symbol_table, *symbol_table, *symbol_table);
    }
    let mut lines: Vec<TokenList<'a>> = Vec::new();
    let mut used: usize = 0;
    let mut at: usize = 0;
    assert(tokens_view(lines@) =~= Seq::<Seq<Token<'a>>>::empty());
    while at < raw_lines.len()
        invariant
            at <= raw_lines@.len(),
            symbol_table.wf(),
            start == state_of(*old(symbol_table), 0),
            raw == raw_view(raw_lines@),
            table_grown(*old(symbol_table), *symbol_table),
            spec_scan_lines(raw, at as nat, start, floats@) == Ok::<
                (Seq<Seq<Token<'a>>>, ScanState<'a>),
                AsmError<'a>,
            >((tokens_view(lines@), state_of(*symbol_table, used as nat))),
        decreases raw_lines@.len() - at,
    {
        assert(raw[at as int] == raw_lines@[at as int]@);
        let ghost earlier = *symbol_table;
        let scanned = scan_line(&raw_lines[at], symbol_table, floats, &mut used);
        proof {
            lemma_table_grown(*old(symbol_table), earlier, *symbol_table);
        }
        match scanned {
            Err(error) => {
                proof {
                    lemma_scan_lines_fails(raw, (at + 1) as nat, raw_lines@.len(), start, floats@);
                }
                return Err(error);
            },
            Ok(line) => {
                let ghost before = lines@;
                let ghost added = line@;
                lines.push(line);
                proof {
                    assert forall|i: int| 0 <= i < lines@.len() implies #[trigger] tokens_view(lines@)[i]
                        == tokens_view(before).push(added)[i] by {
                        if i < before.len() {
                            assert(lines@[i] == before[i]);
                        }
                    }
                    assert(tokens_view(lines@) =~= tokens_view(before).push(added));
                }
            },
        }
        at = at + 1;
    }
    Ok(lines)
}


/// The float lexemes among the first `count` lexemes of a line.
pub open spec fn spec_line_floats(tokens: Seq<SourceToken<'_>>, count: nat) -> Seq<Seq<char>>
    decreases count,
{
    if count == 0 {
        Seq::empty()
    } else {
        let before = spec_line_floats(tokens, (count - 1) as nat);
        if spec_kind(tokens[count - 1].string@) is Float {
            before.push(tokens[count - 1].string@)
        } else {
            before
        }
    }
}

/// The float lexemes of the first `count` lines, in the order of the source.
pub open spec fn spec_float_lexemes(lines: Seq<Seq<SourceToken<'_>>>, count: nat) -> Seq<Seq<char>>
    decreases count,
{
    if count == 0 {
        Seq::empty()
    } else {
        spec_float_lexemes(lines, (count - 1) as nat) + spec_line_floats(
            lines[count - 1],
            lines[count - 1].len(),
        )
    }
}

/// The characters of each string.
pub open spec fn strings_view(strings: Seq<&str>) -> Seq<Seq<char>> {
    Seq::new(strings.len(), |i: int| strings[i]@)
}

/// Lists the float lexemes of a unit in the order of the source. The
/// float with index `k` of this list is the one that [`tokenize_lexed`]
/// gives the bit pattern `floats[k]`.
pub fn float_lexemes<'a>(raw_lines: &Vec<Vec<SourceToken<'a>>>) -> (floats: Vec<&'a str>)
    ensures
        strings_view(floats@) == spec_float_lexemes(raw_view(raw_lines@), raw_lines@.len()),
{
    let ghost raw = raw_view(raw_lines@);
    let mut floats: Vec<&'a str> = Vec::new();
    let mut at: usize = 0;
    assert(strings_view(floats@) =~= Seq::<Seq<char>>::empty());
    while at < raw_lines.len()
        invariant
            at <= raw_lines@.len(),
            raw == raw_view(raw_lines@),
            strings_view(floats@) == spec_float_lexemes(raw, at as nat),
        decreases raw_lines@.len() - at,
    {
        let line = &raw_lines[at];
        assert(raw[at as int] == line@);
        let ghost before = strings_view(floats@);
        let mut index: usize = 0;
        assert(before + Seq::<Seq<char>>::empty() =~= before);
        while index < line.len()
            invariant
                index <= line@.len(),
                strings_view(floats@) == before + spec_line_floats(line@, index as nat),
            decreases line@.len() - index,
        {
            let token = line[index];
            let ghost earlier = floats@;
            let ghost seen = spec_line_floats(line@, index as nat);
            if matches!(kind(token.string), LexemeKind::Float) {
                floats.push(token.string);
                assert(strings_view(floats@) =~= strings_view(earlier).push(token.string@));
                assert(before + seen.push(token.string@) =~= (before + seen).push(token.string@));
            }
            index = index + 1;
        }
        at = at + 1;
    }
    floats
}

/// The lexemes of lines of source tokens.
pub open spec fn lexemes_of(raw: Seq<Seq<SourceToken<'_>>>) -> Seq<Seq<Lexeme>> {
    Seq::new(raw.len(), |i: int| Seq::new(raw[i].len(), |j: int| lexeme_of(raw[i][j])))
}

/// `raw` holds the lexemes `lexemes`, each as a token of the unit `unit_path`.
pub open spec fn lexed_as(
    raw: Seq<Seq<SourceToken<'_>>>,
    unit_path: &str,
    lexemes: Seq<Seq<Lexeme>>,
) -> bool {
    &&& lexemes_of(raw) == lexemes
    &&& forall|i: int, j: int|
        0 <= i < raw.len() && 0 <= j < raw[i].len() ==> (#[trigger] raw[i][j]).unit_path == unit_path
}

/// `lines` and the table are what `expected` says.
pub open spec fn tokenized<'a>(
    lines: Result<Vec<TokenList<'a>>, AsmError<'a>>,
    table: SymbolTable<'a>,
    expected: Result<(Seq<Seq<Token<'a>>>, ScanState<'a>), AsmError<'a>>,
) -> bool {
    match expected {
        Ok((tokens, state)) => lines is Ok && tokens_view(lines->Ok_0@) == tokens && table.symbols()
            == state.symbols && table.statics() == state.statics,
        Err(error) => lines == Err::<Vec<TokenList<'a>>, AsmError<'a>>(error),
    }
}

/// The token that stands for a unit as a whole.
pub open spec fn spec_unit_token<'a>(unit_path: &'a str) -> SourceToken<'a> {
    SourceToken { string: unit_path, unit_path, line_index: 0, column: 0 }
}

/// Splits the lines of a unit into lexemes and turns them into tokens.
/// The lexemes are those that [`lex`] finds; the tokens are those that
/// [`tokenize_lexed`] makes of them.
pub fn tokenize<'a>(
    source: &[&'a str],
    unit_path: &'a str,
    symbol_table: &mut SymbolTable<'a>,
    floats: &[Option<u64>],
) -> (lines: Result<Vec<TokenList<'a>>, AsmError<'a>>)
    requires
        old(symbol_table).wf(),
    ensures
        final(symbol_table).wf(),
        table_grown(*old(symbol_table), *final(symbol_table)),
        match spec_lex(lines_view(source@), unit_path@, source@.len()) {
            None => lines == Err::<Vec<TokenList<'a>>, AsmError<'a>>(
                AsmError::spec_at(Reason::PatternRejected, spec_unit_token(unit_path)),
            ),
            Some(lexemes) => exists|raw: Seq<Seq<SourceToken<'a>>>|
                lexed_as(raw, unit_path, lexemes) && tokenized(
                    lines,
                    *final(symbol_table),
                    #[trigger] spec_scan_lines(raw, raw.len(), state_of(*old(symbol_table), 0), floats@),
                ),
        },
{
    proof {
        lemma_table_grown(*symbol_table, *symbol_table, *symbol_table);
    }
    match lex(source, unit_path) {
        None => Err(
            AsmError::at(
                Reason::PatternRejected,
                SourceToken { string: unit_path, unit_path, line_index: 0, column: 0 },
            ),
        ),
        Some(raw_lines) => {
            let lines = tokenize_lexed(&raw_lines, symbol_table, floats);
            proof {
                let raw = raw_view(raw_lines@);
                assert(lexemes_of(raw) =~= lexemes_view(raw_lines@));
                assert(lexed_as(raw, unit_path, lexemes_view(raw_lines@)));
            }
            lines
        },
    }
}

} // verus!
