//! Working on text by character positions: classifying characters, cutting
//! spans out of the source, and recognising numerals and reserved words.

use vstd::prelude::*;
use vstd::string::StrSliceExecFns;
use substring::Substring;
use crate::parser_core::grammar::{
    char_span, is_alphabetic, is_digit, is_numeral, is_word_char, keyword, run_end, word_value,
    CharClass,
};
use crate::parser_core::token::{TokenType, WordValue};

verus! {

/// Calls `substring::Substring::substring` on `text`. That function counts
/// in characters, not bytes, and never fails: it returns the empty string
/// where `end` does not lie after `start`, and otherwise the characters from
/// `start` up to, not including, `end`, where a position beyond the text
/// counts as the end of the text. This is what `char_span` says.
#[verifier::external_body]
pub(crate) fn substring<'a>(text: &'a str, start: usize, end: usize) -> (span: &'a str)
    ensures
        span@ == char_span(text@, start as int, end as int),
{
    text.substring(start, end)
}

/// Whether `c` is an ASCII decimal digit.
pub fn is_ascii_digit(c: char) -> (b: bool)
    ensures
        b == is_digit(c),
{
    '0' <= c && c <= '9'
}

/// Whether `c` is an ASCII letter.
pub fn is_ascii_alphabetic(c: char) -> (b: bool)
    ensures
        b == is_alphabetic(c),
{
    ('a' <= c && c <= 'z') || ('A' <= c && c <= 'Z')
}

/// Whether `c` may continue a word: an ASCII letter, a digit or an
/// underscore.
pub fn is_ascii_word(c: char) -> (b: bool)
    ensures
        b == is_word_char(c),
{
    is_ascii_alphabetic(c) || is_ascii_digit(c) || c == '_'
}

/// Whether two texts hold the same characters.
pub fn same_text(a: &str, b: &str) -> (same: bool)
    ensures
        same == (a@ == b@),
{
    let n = a.unicode_len();
    if b.unicode_len() != n {
        return false;
    }
    let mut i: usize = 0;
    while i < n
        invariant
            n == a@.len(),
            n == b@.len(),
            i <= n,
            forall|k: int| 0 <= k < i ==> a@[k] == b@[k],
        decreases n - i,
    {
        if a.get_char(i) != b.get_char(i) {
            return false;
        }
        i += 1;
    }
    assert(a@ =~= b@);
    true
}

/// The position in `text` at which the run of digits from `from` ends.
fn digits_end(text: &str, length: usize, from: usize) -> (end: usize)
    requires
        length == text@.len(),
        from <= length,
    ensures
        from <= end <= length,
        end as int == run_end(text@, from as int, CharClass::Digit),
{
    let mut i: usize = from;
    while i < length && is_ascii_digit(text.get_char(i))
        invariant
            length == text@.len(),
            from <= i <= length,
            run_end(text@, i as int, CharClass::Digit) == run_end(
                text@,
                from as int,
                CharClass::Digit,
            ),
        decreases length - i,
    {
        i += 1;
    }
    i
}

/// Whether `text` is a decimal numeral.
pub fn check_numeral(text: &str) -> (valid: bool)
    ensures
        valid == is_numeral(text@),
{
    let length = text.unicode_len();
    let whole = digits_end(text, length, 0);
    if whole == 0 {
        return false;
    }
    if whole == length {
        return true;
    }
    if text.get_char(whole) != '.' || whole + 1 >= length {
        return false;
    }
    digits_end(text, length, whole + 1) == length
}

/// The kind of the reserved word `word`, if it is one.
pub fn find_keyword(word: &str) -> (found: Option<TokenType>)
    ensures
        found == keyword(word@),
{
    if same_text(word, "and") {
        Some(TokenType::AND)
    } else if same_text(word, "class") {
        Some(TokenType::CLASS)
    } else if same_text(word, "else") {
        Some(TokenType::ELSE)
    } else if same_text(word, "false") {
        Some(TokenType::FALSE)
    } else if same_text(word, "for") {
        Some(TokenType::FOR)
    } else if same_text(word, "fun") {
        Some(TokenType::FUN)
    } else if same_text(word, "if") {
        Some(TokenType::IF)
    } else if same_text(word, "nil") {
        Some(TokenType::NIL)
    } else if same_text(word, "or") {
        Some(TokenType::OR)
    } else if same_text(word, "print") {
        Some(TokenType::PRINT)
    } else if same_text(word, "return") {
        Some(TokenType::RETURN)
    } else if same_text(word, "super") {
        Some(TokenType::SUPER)
    } else if same_text(word, "this") {
        Some(TokenType::THIS)
    } else if same_text(word, "true") {
        Some(TokenType::TRUE)
    } else if same_text(word, "var") {
        Some(TokenType::VAR)
    } else if same_text(word, "while") {
        Some(TokenType::WHILE)
    } else {
        None
    }
}

/// What the word `word` is: the keyword of its kind, or a name with the
/// word as its text.
pub fn resolve_word(word: &str) -> (value: WordValue)
    ensures
        value@ == word_value(word@),
{
    match find_keyword(word) {
        Some(kind) => WordValue::Keyword(kind),
        None => WordValue::Name(word.to_owned()),
    }
}

} // verus!
