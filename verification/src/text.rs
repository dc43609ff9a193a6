//! Operations on text that the standard library and the `regex` crate
//! provide and the rest of the crate takes on trust.

use vstd::prelude::*;
use vstd::utf8::encode_utf8;

verus! {

/// Compares two string slices with the standard library's `==` on `str`,
/// which holds exactly when both have the same characters in the same order.
#[verifier::external_body]
pub(crate) fn str_eq(a: &str, b: &str) -> (same: bool)
    ensures
        same == (a@ == b@),
{
    a == b
}

/// Collects characters into a `String` with the standard library's
/// `String::from_iter`, which keeps every character in its place.
#[verifier::external_body]
pub(crate) fn string_from_chars(chars: &Vec<char>) -> (string: String)
    ensures
        string@ == chars@,
{
    chars.iter().collect()
}

/// The successive non-overlapping matches of the regular expression
/// `pattern` in `text`, each with its text and the byte offset at which it
/// starts; nothing where the `regex` crate rejects the pattern.
pub uninterp spec fn pattern_matches(
    pattern: Seq<char>,
    text: Seq<char>,
) -> Option<Seq<(Seq<char>, int)>>;

/// A list of matches as contracts see it: the text and the start of each.
pub open spec fn found_view(list: Seq<(&str, usize)>) -> Seq<(Seq<char>, int)> {
    Seq::new(list.len(), |i: int| (list[i].0@, list[i].1 as int))
}

/// What the `regex` crate documents of the matches that it finds in a
/// text: a match is the slice of the text, as bytes, that starts at the
/// match's offset, and a match begins no earlier than the one before it ends.
pub open spec fn matches_lie_in(text: Seq<char>, found: Seq<(Seq<char>, int)>) -> bool {
    forall|i: int|
        0 <= i < found.len() ==> {
            let start = (#[trigger] found[i]).1;
            let end = start + encode_utf8(found[i].0).len();
            &&& 0 <= start
            &&& end <= encode_utf8(text).len()
            &&& encode_utf8(text).subrange(start, end) == encode_utf8(found[i].0)
            &&& i + 1 < found.len() ==> end <= found[i + 1].1
        }
}

/// The matches that were found, as contracts see them.
pub open spec fn matches_view(found: Option<Vec<(&str, usize)>>) -> Option<Seq<(Seq<char>, int)>> {
    match found {
        Some(list) => Some(found_view(list@)),
        None => None,
    }
}

/// Compiles `pattern` with `regex::Regex::new` and collects what
/// `Regex::find_iter` yields on `text`: for each match the matched slice
/// (`Match::as_str`) and its start (`Match::start`). The contract gives
/// that result a name. Beside the name it claims what the crate documents:
/// that `Match::as_str` is the slice of the text from `Match::start` on,
/// and that the matches come in their order and do not overlap.
#[verifier::external_body]
pub(crate) fn find_matches<'a>(
    pattern: &str,
    text: &'a str,
) -> (found: Option<Vec<(&'a str, usize)>>)
    ensures
        matches_view(found) == pattern_matches(pattern@, text@),
        found matches Some(list) ==> matches_lie_in(text@, found_view(list@)),
{
    match regex::Regex::new(pattern) {
        Ok(expression) => Some(expression.find_iter(text).map(|m| (m.as_str(), m.start())).collect()),
        Err(_) => None,
    }
}

/// The index of the first line feed of `text`, or its length.
pub open spec fn spec_line_end(text: Seq<char>) -> int
    decreases text.len(),
{
    if text.len() == 0 || text[0] == '\n' {
        0
    } else {
        1 + spec_line_end(text.skip(1))
    }
}

/// The lines of `text`. A line ends with a line feed, or with the text. Of
/// a line that ends with a line feed, the line feed and a carriage return
/// just before it are no part.
pub open spec fn spec_lines(text: Seq<char>) -> Seq<Seq<char>>
    decreases text.len(),
    via spec_lines_decreases
{
    if text.len() == 0 {
        Seq::empty()
    } else {
        let end = spec_line_end(text);
        if end == text.len() {
            seq![text]
        } else {
            let line = text.subrange(0, end);
            let stripped = if line.len() > 0 && line.last() == '\r' {
                line.drop_last()
            } else {
                line
            };
            seq![stripped] + spec_lines(text.skip(end + 1))
        }
    }
}

#[via_fn]
proof fn spec_lines_decreases(text: Seq<char>) {
    lemma_line_end(text);
}

/// The end of the first line lies inside the text.
pub proof fn lemma_line_end(text: Seq<char>)
    ensures
        0 <= spec_line_end(text) <= text.len(),
    decreases text.len(),
{
    if text.len() > 0 && text[0] != '\n' {
        lemma_line_end(text.skip(1));
    }
}

/// Splits `text` with the standard library's `str::lines`, whose
/// documentation the contract restates.
#[verifier::external_body]
pub(crate) fn text_lines<'a>(text: &'a str) -> (lines: Vec<&'a str>)
    ensures
        Seq::new(lines@.len(), |i: int| lines@[i]@) == spec_lines(text@),
{
    text.lines().collect()
}

} // verus!
