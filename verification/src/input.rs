//! The input of a data request: an asset pair, written `tokenA-tokenB`.

use crate::text::{chars_of, read_text, text_of};
use vstd::prelude::*;
use vstd::string::{StrSliceExecFns, StringExecFns};

verus! {

/// The character between the two symbols of a pair.
pub const SEPARATOR: char = '-';

/// The asset pair that a data request asks for, as it was written.
#[derive(Debug, Clone, PartialEq, Eq)]
pub struct DataRequestInput {
    pub symbol_a: String,
    pub symbol_b: String,
}

/// Where the token that starts at `from` ends: the position of the first
/// separator at or behind `from`, or the end of the text.
pub open spec fn token_end(text: Seq<char>, from: int) -> int
    decreases text.len() - from,
{
    if 0 <= from < text.len() && text[from] != SEPARATOR {
        token_end(text, from + 1)
    } else {
        from
    }
}

/// The first two of the tokens that the separators cut `text` into. A text
/// without a separator has one token only, and so no pair.
pub open spec fn symbols_of(text: Seq<char>) -> Option<(Seq<char>, Seq<char>)> {
    let first_end = token_end(text, 0);
    if first_end < text.len() {
        Some(
            (
                text.subrange(0, first_end),
                text.subrange(first_end + 1, token_end(text, first_end + 1)),
            ),
        )
    } else {
        None
    }
}

/// The pair that raw input bytes ask for: they have to be UTF-8 text that
/// holds a separator.
pub open spec fn pair_of(raw: Seq<u8>) -> Option<(Seq<char>, Seq<char>)> {
    match text_of(raw) {
        Some(text) => symbols_of(text),
        None => None,
    }
}

/// A token ends inside the text or at its end, holds no separator, and is
/// followed by one unless the text ends there.
pub proof fn lemma_token_end(text: Seq<char>, from: int)
    requires
        0 <= from <= text.len(),
    ensures
        from <= token_end(text, from) <= text.len(),
        forall|k: int| from <= k < token_end(text, from) ==> text[k] != SEPARATOR,
        token_end(text, from) < text.len() ==> text[token_end(text, from)] == SEPARATOR,
    decreases text.len() - from,
{
    if from < text.len() && text[from] != SEPARATOR {
        lemma_token_end(text, from + 1);
    }
}

/// A text has a pair exactly if it holds a separator.
pub proof fn lemma_pair_needs_separator(text: Seq<char>)
    ensures
        symbols_of(text) is Some <==> text.contains(SEPARATOR),
{
    lemma_token_end(text, 0);
    let first_end = token_end(text, 0);
    if first_end < text.len() {
        assert(text[first_end] == SEPARATOR);
    }
}

/// The two symbols of a pair hold no separator, and the text starts with the
/// first symbol, a separator and the second symbol.
pub proof fn lemma_symbols_of(text: Seq<char>)
    requires
        symbols_of(text) is Some,
    ensures
        ({
            let (a, b) = symbols_of(text)->0;
            let end = (a.len() + 1 + b.len()) as int;
            &&& !a.contains(SEPARATOR)
            &&& !b.contains(SEPARATOR)
            &&& end <= text.len()
            &&& text.subrange(0, end) == a.push(SEPARATOR) + b
            &&& end < text.len() ==> text[end] == SEPARATOR
        }),
{
    lemma_token_end(text, 0);
    let first_end = token_end(text, 0);
    lemma_token_end(text, first_end + 1);
}

/// The position of the first separator at or behind `from`, or the length of
/// `chars` where there is none.
fn find_token_end(chars: &Vec<char>, from: usize) -> (end: usize)
    requires
        from <= chars.len(),
    ensures
        end == token_end(chars@, from as int),
        from <= end <= chars.len(),
{
    let mut end: usize = from;
    while end < chars.len() && chars[end] != SEPARATOR
        invariant
            from <= end <= chars.len(),
            token_end(chars@, from as int) == token_end(chars@, end as int),
        decreases chars.len() - end,
    {
        end += 1;
    }
    end
}

/// Splits `text` at the separator and takes the first two tokens as the
/// symbols of the pair.
pub fn parse_pair(text: &str) -> (input: Option<DataRequestInput>)
    ensures
        match input {
            Some(pair) => symbols_of(text@) == Some((pair.symbol_a@, pair.symbol_b@)),
            None => symbols_of(text@) is None,
        },
{
    let chars = chars_of(text);
    let first_end = find_token_end(&chars, 0);
    if first_end >= chars.len() {
        return None;
    }
    let second_end = find_token_end(&chars, first_end + 1);
    let symbol_a = String::from_str(text.substring_char(0, first_end));
    let symbol_b = String::from_str(text.substring_char(first_end + 1, second_end));
    Some(DataRequestInput { symbol_a, symbol_b })
}

/// Reads the raw input of a data request as an asset pair.
pub fn parse_input(raw: Vec<u8>) -> (input: Option<DataRequestInput>)
    ensures
        match input {
            Some(pair) => pair_of(raw@) == Some((pair.symbol_a@, pair.symbol_b@)),
            None => pair_of(raw@) is None,
        },
{
    match read_text(raw) {
        Some(text) => parse_pair(text.as_str()),
        None => None,
    }
}

} // verus!
