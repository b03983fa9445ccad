//! The cursor primitives, and the two ways of appending a token.

use vstd::prelude::*;
use vstd::string::StrSliceExecFns;
use crate::parser_core::grammar::{char_at, follows};
use crate::parser_core::scanner::Scanner;
use crate::parser_core::text::substring;
use crate::parser_core::token::{
    literal_view, token_views, LiteralValue, Token, TokenType, TokenView,
};

verus! {

impl<'a> Scanner<'a> {
    /// Appends a token of kind `token_type` without a literal, whose lexeme
    /// is the text between the start mark and the cursor.
    pub fn add_token(&mut self, token_type: TokenType)
        requires
            old(self).wf(),
        ensures
            final(self).wf(),
            final(self)@ == old(self)@.with_token(
                TokenView {
                    kind: token_type,
                    lexeme: old(self)@.source.subrange(old(self)@.start, old(self)@.current),
                    literal: None,
                    line: old(self)@.line,
                },
            ),
    {
        self.add_token_literal(token_type, None);
    }

    /// Appends a token of kind `token_type` that carries `literal`, whose
    /// lexeme is the text between the start mark and the cursor and whose
    /// line is the line counter's.
    pub fn add_token_literal(&mut self, token_type: TokenType, literal: Option<LiteralValue>)
        requires
            old(self).wf(),
        ensures
            final(self).wf(),
            final(self)@ == old(self)@.with_token(
                TokenView {
                    kind: token_type,
                    lexeme: old(self)@.source.subrange(old(self)@.start, old(self)@.current),
                    literal: literal_view(literal),
                    line: old(self)@.line,
                },
            ),
    {
        let text: String = substring(self.source, self.start, self.current).to_owned();
        assert(text@ =~= self@.source.subrange(self@.start, self@.current));
        let token = Token::new(token_type, text, literal, self.line);
        let ghost before = self.tokens@;
        self.tokens.push(token);
        assert(token_views(self.tokens@) =~= token_views(before).push(token@));
    }

    /// The next unconsumed character, or the null character at the end of
    /// the input. The cursor stays.
    pub fn peek(&self) -> (c: char)
        requires
            self.wf(),
        ensures
            c == char_at(self@.source, self@.current),
    {
        if self.is_at_end() {
            return '\0';
        }
        self.source.get_char(self.current)
    }

    /// The character after the next unconsumed one, or the null character
    /// where the input ends before it. The cursor stays.
    pub fn peek_next(&self) -> (c: char)
        requires
            self.wf(),
        ensures
            c == char_at(self@.source, self@.current + 1),
    {
        if self.is_at_end() || self.current + 1 >= self.length {
            return '\0';
        }
        self.source.get_char(self.current + 1)
    }

    /// Consumes the next character and returns it. At the end of the input
    /// there is nothing to consume, and the cursor stays.
    pub fn advance(&mut self) -> (c: Option<char>)
        requires
            old(self).wf(),
        ensures
            final(self).wf(),
            old(self)@.current < old(self)@.source.len() ==> c == Some(
                old(self)@.source[old(self)@.current],
            ) && final(self)@ == old(self)@.moved_to(old(self)@.current + 1),
            old(self)@.current >= old(self)@.source.len() ==> c is None && final(self)@ == old(
                self,
            )@,
    {
        if self.is_at_end() {
            return None;
        }
        let r = self.source.get_char(self.current);
        self.current += 1;
        Some(r)
    }

    /// Consumes the next character if it is `expected`, and says whether it
    /// did. Otherwise the cursor stays.
    pub fn match_char(&mut self, expected: char) -> (matched: bool)
        requires
            old(self).wf(),
        ensures
            final(self).wf(),
            matched == follows(old(self)@.source, old(self)@.current, expected),
            matched ==> final(self)@ == old(self)@.moved_to(old(self)@.current + 1),
            !matched ==> final(self)@ == old(self)@,
    {
        if self.is_at_end() {
            return false;
        }
        if self.source.get_char(self.current) != expected {
            return false;
        }
        self.current += 1;
        true
    }
}

} // verus!
