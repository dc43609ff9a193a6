//! The literals of the source language: escapes in quoted text, and numbers.

use vstd::prelude::*;
use vstd::string::StrSliceExecFns;
use crate::text::string_from_chars;

verus! {

/// The character that `\` followed by `c` stands for.
pub open spec fn spec_escaped(c: char) -> Option<char> {
    if c == 'n' {
        Some('\n')
    } else if c == 'r' {
        Some('\r')
    } else if c == '0' {
        Some('\0')
    } else if c == 't' {
        Some('\t')
    } else if c == '\\' {
        Some('\\')
    } else if c == '\'' {
        Some('\'')
    } else if c == '"' {
        Some('"')
    } else {
        None
    }
}

/// The character that `\` followed by `c` stands for.
pub fn escaped(c: char) -> (plain: Option<char>)
    ensures
        plain == spec_escaped(c),
{
    if c == 'n' {
        Some('\n')
    } else if c == 'r' {
        Some('\r')
    } else if c == '0' {
        Some('\0')
    } else if c == 't' {
        Some('\t')
    } else if c == '\\' {
        Some('\\')
    } else if c == '\'' {
        Some('\'')
    } else if c == '"' {
        Some('"')
    } else {
        None
    }
}

/// The character after the backslash in the escape that stands for `c`.
pub open spec fn spec_escape_letter(c: char) -> Option<char> {
    if c == '\n' {
        Some('n')
    } else if c == '\r' {
        Some('r')
    } else if c == '\0' {
        Some('0')
    } else if c == '\t' {
        Some('t')
    } else if c == '\\' {
        Some('\\')
    } else if c == '\'' {
        Some('\'')
    } else if c == '"' {
        Some('"')
    } else {
        None
    }
}

/// An escape that cannot be decoded: the character after the backslash,
/// and how many characters follow it.
pub struct BadEscape {
    pub character: char,
    pub tail: nat,
}

/// A character, followed by what the rest decodes to.
pub open spec fn spec_prepend(
    c: char,
    rest: Result<Seq<char>, BadEscape>,
) -> Result<Seq<char>, BadEscape> {
    match rest {
        Ok(text) => Ok(seq![c] + text),
        Err(bad) => Err(bad),
    }
}

/// The text that the body of a quoted literal stands for: each escape
/// replaced by its character. A backslash at the very end stands for nothing.
pub open spec fn spec_unescape(body: Seq<char>) -> Result<Seq<char>, BadEscape>
    decreases body.len(),
{
    if body.len() == 0 {
        Ok(Seq::empty())
    } else if body[0] != '\\' {
        spec_prepend(body[0], spec_unescape(body.skip(1)))
    } else if body.len() == 1 {
        Ok(Seq::empty())
    } else {
        match spec_escaped(body[1]) {
            Some(c) => spec_prepend(c, spec_unescape(body.skip(2))),
            None => Err(BadEscape { character: body[1], tail: (body.len() - 2) as nat }),
        }
    }
}

/// The body of a quoted literal that stands for `text`: each character
/// that has an escape written as that escape.
pub open spec fn spec_escape(text: Seq<char>) -> Seq<char>
    decreases text.len(),
{
    if text.len() == 0 {
        Seq::empty()
    } else {
        match spec_escape_letter(text[0]) {
            Some(letter) => seq!['\\', letter] + spec_escape(text.skip(1)),
            None => seq![text[0]] + spec_escape(text.skip(1)),
        }
    }
}

/// Every escape of the body is a known one and is complete, and every
/// character that has an escape is written as that escape.
pub open spec fn spec_fully_escaped(body: Seq<char>) -> bool
    decreases body.len(),
{
    if body.len() == 0 {
        true
    } else if body[0] == '\\' {
        body.len() >= 2 && spec_escaped(body[1]) is Some && spec_fully_escaped(body.skip(2))
    } else {
        spec_escape_letter(body[0]) is None && spec_fully_escaped(body.skip(1))
    }
}

/// Decoding a body whose escapes are all written out, and escaping the
/// result again, gives the body back.
pub proof fn lemma_escape_unescape(body: Seq<char>)
    requires
        spec_fully_escaped(body),
    ensures
        spec_unescape(body) is Ok,
        spec_escape(spec_unescape(body)->Ok_0) == body,
    decreases body.len(),
{
    if body.len() == 0 {
    } else if body[0] == '\\' {
        lemma_escape_unescape(body.skip(2));
        let c = spec_escaped(body[1])->0;
        let rest = spec_unescape(body.skip(2))->Ok_0;
        let text = seq![c] + rest;
        assert(text.skip(1) =~= rest);
        assert(spec_escape_letter(c) == Some(body[1]));
        assert(spec_escape(text) =~= body);
    } else {
        lemma_escape_unescape(body.skip(1));
        let rest = spec_unescape(body.skip(1))->Ok_0;
        let text = seq![body[0]] + rest;
        assert(text.skip(1) =~= rest);
        assert(spec_escape(text) =~= body);
    }
}

/// Escaping a text and decoding the result gives the text back.
pub proof fn lemma_unescape_escape(text: Seq<char>)
    ensures
        spec_fully_escaped(spec_escape(text)),
        spec_unescape(spec_escape(text)) == Ok::<Seq<char>, BadEscape>(text),
    decreases text.len(),
{
    if text.len() > 0 {
        lemma_unescape_escape(text.skip(1));
        let rest = spec_escape(text.skip(1));
        let body = spec_escape(text);
        match spec_escape_letter(text[0]) {
            Some(letter) => {
                assert(body == seq!['\\', letter] + rest);
                assert(body[0] == '\\' && body[1] == letter && body.len() >= 2);
                assert(body.skip(2) =~= rest);
                assert(spec_escaped(letter) == Some(text[0]));
                assert(seq![text[0]] + text.skip(1) =~= text);
                assert(spec_unescape(body) == spec_prepend(text[0], spec_unescape(rest)));
            },
            None => {
                assert(body == seq![text[0]] + rest);
                assert(body[0] == text[0]);
                assert(body.skip(1) =~= rest);
                assert(text[0] != '\\');
                assert(seq![text[0]] + text.skip(1) =~= text);
                assert(spec_unescape(body) == spec_prepend(text[0], spec_unescape(rest)));
            },
        }
    } else {
        assert(text =~= Seq::<char>::empty());
    }
}

/// What has been decoded so far, followed by what the rest decodes to.
pub open spec fn spec_decoded(
    done: Seq<char>,
    rest: Result<Seq<char>, BadEscape>,
) -> Result<Seq<char>, BadEscape> {
    match rest {
        Ok(text) => Ok(done + text),
        Err(bad) => Err(bad),
    }
}

/// Decodes the escapes of `body`. On a backslash before a character that
/// has no escape, the error holds that character and its index in `body`.
pub fn unescape(body: &str) -> (decoded: Result<String, (char, usize)>)
    ensures
        match spec_unescape(body@) {
            Ok(text) => decoded is Ok && decoded->Ok_0@ == text,
            Err(bad) => decoded is Err && decoded->Err_0.0 == bad.character && decoded->Err_0.1
                == body@.len() - 1 - bad.tail,
        },
{
    let length = body.unicode_len();
    let mut out: Vec<char> = Vec::new();
    let mut at: usize = 0;
    assert(body@.skip(0) =~= body@);
    while at < length
        invariant
            at <= length,
            length == body@.len(),
            spec_unescape(body@) == spec_decoded(out@, spec_unescape(body@.skip(at as int))),
        decreases length - at,
    {
        let ghost rest = body@.skip(at as int);
        let c = body.get_char(at);
        assert(rest[0] == c);
        assert(rest.skip(1) =~= body@.skip(at + 1));
        if c != '\\' {
            proof {
                let tail = spec_unescape(rest.skip(1));
                if tail is Ok {
                    assert(out@ + (seq![c] + tail->Ok_0) =~= out@.push(c) + tail->Ok_0);
                }
            }
            out.push(c);
            at = at + 1;
        } else if at + 1 >= length {
            assert(rest.len() == 1);
            assert(out@ + Seq::<char>::empty() =~= out@);
            assert(body@.skip(at + 1).len() == 0);
            at = at + 1;
        } else {
            let next = body.get_char(at + 1);
            assert(rest[1] == next);
            assert(rest.skip(2) =~= body@.skip(at + 2));
            match escaped(next) {
                Some(plain) => {
                    proof {
                        let tail = spec_unescape(rest.skip(2));
                        if tail is Ok {
                            assert(out@ + (seq![plain] + tail->Ok_0) =~= out@.push(plain) + tail->Ok_0);
                        }
                    }
                    out.push(plain);
                    at = at + 2;
                },
                None => {
                    return Err((next, at + 1));
                },
            }
        }
    }
    assert(out@ + Seq::<char>::empty() =~= out@);
    Ok(string_from_chars(&out))
}

/// Writes `text` as the body of a quoted literal.
pub fn escape(text: &str) -> (body: String)
    ensures
        body@ == spec_escape(text@),
{
    let length = text.unicode_len();
    let mut out: Vec<char> = Vec::new();
    let mut at: usize = 0;
    assert(text@.skip(0) =~= text@);
    while at < length
        invariant
            at <= length,
            length == text@.len(),
            spec_escape(text@) == out@ + spec_escape(text@.skip(at as int)),
        decreases length - at,
    {
        let ghost rest = text@.skip(at as int);
        let c = text.get_char(at);
        assert(rest[0] == c);
        assert(rest.skip(1) =~= text@.skip(at + 1));
        let ghost tail = spec_escape(rest.skip(1));
        let letter = if c == '\n' {
            Some('n')
        } else if c == '\r' {
            Some('r')
        } else if c == '\0' {
            Some('0')
        } else if c == '\t' {
            Some('t')
        } else if c == '\\' {
            Some('\\')
        } else if c == '\'' {
            Some('\'')
        } else if c == '"' {
            Some('"')
        } else {
            None
        };
        match letter {
            Some(letter) => {
                assert(out@ + (seq!['\\', letter] + tail) =~= out@.push('\\').push(letter) + tail);
                out.push('\\');
                out.push(letter);
            },
            None => {
                assert(out@ + (seq![c] + tail) =~= out@.push(c) + tail);
                out.push(c);
            },
        }
        at = at + 1;
    }
    assert(out@ + Seq::<char>::empty() =~= out@);
    string_from_chars(&out)
}

/// The value of `c` as a digit of the given radix.
pub open spec fn spec_digit(c: char, radix: nat) -> Option<nat> {
    let value: int = if '0' <= c <= '9' {
        c as int - '0' as int
    } else if 'a' <= c <= 'f' {
        c as int - 'a' as int + 10
    } else if 'A' <= c <= 'F' {
        c as int - 'A' as int + 10
    } else {
        -1
    };
    if 0 <= value < radix {
        Some(value as nat)
    } else {
        None
    }
}

/// Every character is a digit of the radix, and there is at least one.
pub open spec fn spec_all_digits(digits: Seq<char>, radix: nat) -> bool {
    digits.len() > 0 && forall|i: int| 0 <= i < digits.len() ==> spec_digit(#[trigger] digits[i], radix) is Some
}

/// The number that the digits stand for, the most significant first.
pub open spec fn spec_digits_value(digits: Seq<char>, radix: nat) -> nat
    decreases digits.len(),
{
    if digits.len() == 0 {
        0
    } else {
        spec_digits_value(digits.drop_last(), radix) * radix + match spec_digit(digits.last(), radix) {
            Some(value) => value,
            None => 0,
        }
    }
}

/// The number that the digits stand for, where they are digits and the
/// number is at most `limit`.
pub open spec fn spec_parse_digits(digits: Seq<char>, radix: nat, limit: nat) -> Option<nat> {
    if spec_all_digits(digits, radix) && spec_digits_value(digits, radix) <= limit {
        Some(spec_digits_value(digits, radix))
    } else {
        None
    }
}

/// More digits never give a smaller number.
pub proof fn lemma_digits_value_grows(digits: Seq<char>, radix: nat, shorter: int)
    requires
        radix >= 1,
        0 <= shorter <= digits.len(),
    ensures
        spec_digits_value(digits.subrange(0, shorter), radix) <= spec_digits_value(digits, radix),
    decreases digits.len(),
{
    if shorter == digits.len() {
        assert(digits.subrange(0, shorter) =~= digits);
    } else {
        lemma_digits_value_grows(digits.drop_last(), radix, shorter);
        assert(digits.drop_last().subrange(0, shorter) =~= digits.subrange(0, shorter));
        let less = spec_digits_value(digits.drop_last(), radix);
        assert(less <= less * radix) by (nonlinear_arith)
            requires
                radix >= 1,
        ;
    }
}

fn digit(c: char, radix: u64) -> (value: Option<u64>)
    requires
        radix == 10 || radix == 16,
    ensures
        match spec_digit(c, radix as nat) {
            Some(v) => value == Some(v as u64),
            None => value is None,
        },
{
    let found: u64 = if '0' <= c && c <= '9' {
        (c as u32 - '0' as u32) as u64
    } else if 'a' <= c && c <= 'f' {
        (c as u32 - 'a' as u32) as u64 + 10
    } else if 'A' <= c && c <= 'F' {
        (c as u32 - 'A' as u32) as u64 + 10
    } else {
        return None;
    };
    if found < radix {
        Some(found)
    } else {
        None
    }
}

/// Reads the characters of `text` from `from` on as a number of the given
/// radix that is at most `limit`.
pub fn parse_digits(text: &str, from: usize, radix: u64, limit: u64) -> (value: Option<u64>)
    requires
        radix == 10 || radix == 16,
        from <= text@.len(),
    ensures
        match spec_parse_digits(text@.skip(from as int), radix as nat, limit as nat) {
            Some(v) => value == Some(v as u64),
            None => value is None,
        },
{
    let length = text.unicode_len();
    let ghost digits = text@.skip(from as int);
    if from >= length {
        return None;
    }
    let mut value: u64 = 0;
    let mut at: usize = from;
    assert(digits.subrange(0, 0) =~= Seq::<char>::empty());
    while at < length
        invariant
            from <= at <= length,
            length == text@.len(),
            digits == text@.skip(from as int),
            radix == 10 || radix == 16,
            value == spec_digits_value(digits.subrange(0, at - from), radix as nat),
            value <= limit,
            forall|i: int| 0 <= i < at - from ==> spec_digit(#[trigger] digits[i], radix as nat) is Some,
        decreases length - at,
    {
        let c = text.get_char(at);
        assert(digits[at - from] == c);
        let ghost longer = digits.subrange(0, at - from + 1);
        assert(longer.drop_last() =~= digits.subrange(0, at - from));
        assert(longer.last() == c);
        match digit(c, radix) {
            None => {
                return None;
            },
            Some(d) => {
                proof {
                    lemma_digits_value_grows(digits, radix as nat, at - from + 1);
                }
                if d > limit {
                    assert(value * radix + d > limit) by (nonlinear_arith)
                        requires
                            d > limit,
                            radix > 0,
                            value >= 0,
                    ;
                    return None;
                }
                if value > (limit - d) / radix {
                    assert(value * radix + d > limit) by (nonlinear_arith)
                        requires
                            value > (limit - d) / (radix as int),
                            radix > 0,
                            d <= limit,
                    ;
                    return None;
                }
                assert(value * radix + d <= limit) by (nonlinear_arith)
                    requires
                        value <= (limit - d) / (radix as int),
                        radix > 0,
                        d <= limit,
                ;
                value = value * radix + d;
            },
        }
        at = at + 1;
    }
    assert(digits.subrange(0, at - from) =~= digits);
    Some(value)
}

} // verus!
