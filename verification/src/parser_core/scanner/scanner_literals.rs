//! The literals: strings, numbers, and words.

use vstd::prelude::*;
use crate::error::{ErrorKind, Report};
use crate::parser_core::grammar::{
    lemma_newlines_bounds, lemma_run_end, newlines, number_step, run_end, string_step, word_step,
    CharClass,
};
use crate::parser_core::scanner::{answers, Scanner};
use crate::parser_core::text::{
    check_numeral, is_ascii_digit, is_ascii_word, resolve_word, substring,
};
use crate::parser_core::token::{LiteralValue, TokenType};

verus! {

impl<'a> Scanner<'a> {
    /// Consumes the digits at the cursor, up to the first character that is
    /// none.
    fn skip_digits(&mut self)
        requires
            old(self).wf(),
        ensures
            final(self).wf(),
            final(self)@ == old(self)@.moved_to(
                run_end(old(self)@.source, old(self)@.current, CharClass::Digit),
            ),
    {
        proof {
            lemma_run_end(self@.source, self@.current, CharClass::Digit);
        }
        while is_ascii_digit(self.peek())
            invariant
                self.wf(),
                self@ == old(self)@.moved_to(self@.current),
                run_end(self@.source, self@.current, CharClass::Digit) == run_end(
                    old(self)@.source,
                    old(self)@.current,
                    CharClass::Digit,
                ),
            decreases self@.source.len() - self@.current,
        {
            self.advance();
        }
    }

    /// Scans the rest of a string literal, the opening quote consumed: up to
    /// and including the closing quote, counting the lines on the way. The
    /// token carries the text between the quotes and stands on the line on
    /// which the scan began. Where the input ends first, the scan fails on
    /// the line on which it ended.
    pub fn string_literal(&mut self) -> (result: Result<(), Report>)
        requires
            old(self).wf(),
        ensures
            final(self).wf(),
            final(self)@ == old(self)@.after(
                string_step(
                    old(self)@.source,
                    old(self)@.start,
                    old(self)@.current,
                    old(self)@.line,
                ),
            ),
            answers(
                result,
                string_step(
                    old(self)@.source,
                    old(self)@.start,
                    old(self)@.current,
                    old(self)@.line,
                ),
            ),
    {
        let mut lines: usize = 0;
        while self.peek() != '"' && !self.is_at_end()
            invariant
                self.wf(),
                self@ == old(self)@.moved_to(self@.current),
                old(self)@.current <= self@.current,
                run_end(self@.source, self@.current, CharClass::StringBody) == run_end(
                    old(self)@.source,
                    old(self)@.current,
                    CharClass::StringBody,
                ),
                lines as int == newlines(self@.source, old(self)@.current, self@.current),
            decreases self@.source.len() - self@.current,
        {
            proof {
                lemma_newlines_bounds(self@.source, old(self)@.current, self@.current);
            }
            if self.peek() == '\n' {
                lines += 1
            }
            self.advance();
        }
        proof {
            lemma_newlines_bounds(self@.source, old(self)@.current, self@.current);
        }

        if self.is_at_end() {
            self.line += lines;
            return Err(ErrorKind::UnterminatedString.report_at(self.line));
        }
        self.advance();

        let trimmed: String = substring(self.source, self.start + 1, self.current - 1).to_owned();
        self.add_token_literal(TokenType::STRING, Some(LiteralValue::StringValue(trimmed)));
        self.line += lines;
        proof {
            let step = string_step(
                old(self)@.source,
                old(self)@.start,
                old(self)@.current,
                old(self)@.line,
            );
            assert(self@.tokens =~= old(self)@.after(step).tokens);
        }
        Ok(())
    }

    /// Scans the rest of a number literal, its first digit consumed: the
    /// digits that follow and, where a point with a digit behind it comes
    /// next, the point and the digits of the fraction. The text from the
    /// start mark on becomes a number token where it is a numeral;
    /// otherwise the scan fails on the current line. Behind a first digit
    /// the text is always a numeral. Called in another state, the text may
    /// be none even where a more liberal number syntax would take it: `.5`
    /// and `1e5` are refused.
    pub fn number_literal(&mut self) -> (result: Result<(), Report>)
        requires
            old(self).wf(),
        ensures
            final(self).wf(),
            final(self)@ == old(self)@.after(
                number_step(
                    old(self)@.source,
                    old(self)@.start,
                    old(self)@.current,
                    old(self)@.line,
                ),
            ),
            answers(
                result,
                number_step(
                    old(self)@.source,
                    old(self)@.start,
                    old(self)@.current,
                    old(self)@.line,
                ),
            ),
    {
        self.skip_digits();
        if self.peek() == '.' && is_ascii_digit(self.peek_next()) {
            self.advance();
            self.skip_digits();
        }
        let text: &str = substring(self.source, self.start, self.current);
        assert(text@ =~= self@.source.subrange(self@.start, self@.current));
        if check_numeral(text) {
            let number = LiteralValue::NumberValue(text.to_owned());
            self.add_token_literal(TokenType::NUMBER, Some(number));
            proof {
                let step = number_step(
                    old(self)@.source,
                    old(self)@.start,
                    old(self)@.current,
                    old(self)@.line,
                );
                assert(self@.tokens =~= old(self)@.after(step).tokens);
            }
        } else {
            proof {
                let step = number_step(
                    old(self)@.source,
                    old(self)@.start,
                    old(self)@.current,
                    old(self)@.line,
                );
                assert(self@.tokens =~= old(self)@.after(step).tokens);
            }
            return Err(ErrorKind::InvalidNumberLiteral.report_at(self.line));
        }
        Ok(())
    }

    /// Scans the rest of a word, its first letter consumed: the letters,
    /// digits and underscores that follow. The token's kind is `IDENTIFIER`
    /// whether the word is reserved or not; its literal holds the keyword's
    /// kind for a reserved word and the name itself for any other. Never
    /// fails.
    pub fn reserved_literal(&mut self) -> (result: Result<(), Report>)
        requires
            old(self).wf(),
        ensures
            final(self).wf(),
            final(self)@ == old(self)@.after(
                word_step(
                    old(self)@.source,
                    old(self)@.start,
                    old(self)@.current,
                    old(self)@.line,
                ),
            ),
            result is Ok,
    {
        proof {
            lemma_run_end(self@.source, self@.current, CharClass::Word);
        }
        while is_ascii_word(self.peek())
            invariant
                self.wf(),
                self@ == old(self)@.moved_to(self@.current),
                run_end(self@.source, self@.current, CharClass::Word) == run_end(
                    old(self)@.source,
                    old(self)@.current,
                    CharClass::Word,
                ),
            decreases self@.source.len() - self@.current,
        {
            self.advance();
        }
        let trimmed: &str = substring(self.source, self.start, self.current);
        assert(trimmed@ =~= self@.source.subrange(self@.start, self@.current));
        let word = resolve_word(trimmed);
        self.add_token_literal(TokenType::IDENTIFIER, Some(LiteralValue::IdentifierValue(word)));
        proof {
            let step = word_step(
                old(self)@.source,
                old(self)@.start,
                old(self)@.current,
                old(self)@.line,
            );
            assert(self@.tokens =~= old(self)@.after(step).tokens);
        }
        Ok(())
    }
}

} // verus!
