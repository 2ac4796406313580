//! Shell words: quoting a word for a command line and splitting a command line into words,
//! both as the `shlex` crate does them.
use vstd::prelude::*;

use crate::text::{chars_of, string_of};

verus! {

/// What `shlex::try_quote` makes of a word that it accepts.
pub uninterp spec fn shell_quoted(word: Seq<char>) -> Seq<char>;

/// What `shlex::split` makes of a command line.
pub uninterp spec fn shell_split(line: Seq<char>) -> Option<Seq<Seq<char>>>;

/// `shlex::try_quote` refuses a non-empty word that holds a nul character.
pub open spec fn quote_refused(word: Seq<char>) -> bool {
    word.len() > 0 && word.contains('\0')
}

/// A character that shlex writes without quotes: an ASCII letter or digit, or one of
/// `+-./:@]_`.
pub open spec fn unquoted_ok(c: char) -> bool {
    ||| 'a' <= c <= 'z'
    ||| 'A' <= c <= 'Z'
    ||| '0' <= c <= '9'
    ||| c == '+' || c == '-' || c == '.' || c == '/' || c == ':' || c == '@' || c == ']' || c == '_'
}

/// Quotes `word` with `shlex::try_quote`. Claimed, as shlex 1.3's source shows: it fails
/// exactly on a non-empty word holding a nul character, writes `''` for the empty word,
/// gives back a non-empty word made only of characters it writes unquoted as it is, and
/// otherwise gives `shell_quoted(word)`.
#[verifier::external_body]
fn shlex_try_quote(word: &str) -> (res: Option<String>)
    ensures
        res is None <==> quote_refused(word@),
        res matches Some(q) ==> q@ == shell_quoted(word@),
        res matches Some(q) ==> (word@.len() == 0 ==> q@ == seq!['\'', '\'']),
        res matches Some(q) ==> (word@.len() > 0 && (forall|i: int|
            0 <= i < word@.len() ==> unquoted_ok(#[trigger] word@[i])) ==> q@ == word@),
{
    match shlex::try_quote(word) {
        Ok(q) => Some(q.into_owned()),
        Err(_) => None,
    }
}

/// Splits `line` into words with `shlex::split`. Claimed: the result is `shell_split(line)`.
#[verifier::external_body]
pub(crate) fn shlex_split(line: &str) -> (res: Option<Vec<String>>)
    ensures
        match shell_split(line@) {
            Some(words) => res matches Some(v) && v@.len() == words.len() && forall|i: int|
                0 <= i < words.len() ==> #[trigger] v@[i]@ == words[i],
            None => res is None,
        },
{
    shlex::split(line)
}

/// A non-empty word made only of characters that shlex writes without quotes.
pub open spec fn plain_word(word: Seq<char>) -> bool {
    word.len() > 0 && forall|i: int| 0 <= i < word.len() ==> unquoted_ok(#[trigger] word[i])
}

/// A command line word: as it is when shlex cannot quote it or needs no quotes for it, else
/// quoted.
pub open spec fn quote_or_keep(word: Seq<char>) -> Seq<char> {
    if quote_refused(word) || plain_word(word) {
        word
    } else {
        shell_quoted(word)
    }
}

/// `word` quoted for a command line, or left as it is where it cannot be quoted.
pub fn quote_word(word: &[char]) -> (res: Vec<char>)
    ensures
        res@ == quote_or_keep(word@),
{
    let s = string_of(word);
    match shlex_try_quote(s.as_str()) {
        Some(q) => chars_of(q.as_str()),
        None => {
            let mut out: Vec<char> = Vec::new();
            crate::text::append_chars(&mut out, word);
            out
        },
    }
}

} // verus!
