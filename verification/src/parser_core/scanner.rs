//! The scanner: a cursor over the source that turns it into tokens.

use vstd::prelude::*;
use vstd::string::StrSliceExecFns;
use crate::error::{report_of, report_views, ErrorKind, Report};
use crate::parser_core::grammar::{
    eof_token, lemma_run_end, lemma_token_step_advances, output, run_end, scan, scan_from,
    step_errors, step_tokens, token_step, CharClass, Emit, Scan, Step,
};
use crate::parser_core::text::{is_ascii_alphabetic, is_ascii_digit};
use crate::parser_core::token::{token_views, Token, TokenType, TokenView};

mod scanner_helpers;
mod scanner_literals;

verus! {

/// The mathematical value of a [`Scanner`]: the source as a sequence of
/// characters, the tokens produced so far, the position at which the token
/// under construction begins, the position of the next unconsumed character,
/// and the line counter.
pub ghost struct ScannerView {
    pub source: Seq<char>,
    pub tokens: Seq<TokenView>,
    pub start: int,
    pub current: int,
    pub line: int,
}

impl ScannerView {
    /// The state of a scanner that has not yet looked at `source`.
    pub open spec fn fresh(source: Seq<char>) -> ScannerView {
        ScannerView { source, tokens: Seq::empty(), start: 0, current: 0, line: 1 }
    }

    /// The start mark does not lie behind the cursor, the cursor lies within
    /// the source, lines are counted from 1, and the counter can still take
    /// a newline for every character that is left.
    pub open spec fn wf(self) -> bool {
        &&& 0 <= self.start <= self.current <= self.source.len()
        &&& 1 <= self.line
        &&& self.line + (self.source.len() - self.current) <= usize::MAX
    }

    /// The state with the cursor moved to `current`.
    pub open spec fn moved_to(self, current: int) -> ScannerView {
        ScannerView { current, ..self }
    }

    /// The state with `token` appended to the output.
    pub open spec fn with_token(self, token: TokenView) -> ScannerView {
        ScannerView { tokens: self.tokens.push(token), ..self }
    }

    /// The state at the end of a scan that went as `scan` says: the cursor at
    /// the end of the source, the scan's tokens and the end-of-input token
    /// appended to the output.
    pub open spec fn finished(self, scan: Scan) -> ScannerView {
        ScannerView {
            source: self.source,
            tokens: self.tokens + scan.tokens + seq![eof_token(scan.line)],
            start: scan.start,
            current: self.source.len() as int,
            line: scan.line,
        }
    }

    /// The state after `step`: cursor and line counter where the step left
    /// them, and its token, if it has one, appended to the output.
    pub open spec fn after(self, step: Step) -> ScannerView {
        ScannerView {
            current: step.current,
            line: step.line,
            tokens: self.tokens + step_tokens(step),
            ..self
        }
    }
}

/// A scanner that has not yet looked at its source ends with the output of
/// the scan of that source, and with nothing else.
pub proof fn lemma_fresh_scanner_output(src: Seq<char>)
    ensures
        ScannerView::fresh(src).finished(scan(src)).tokens == output(scan(src)),
{
    assert(ScannerView::fresh(src).finished(scan(src)).tokens =~= output(scan(src)));
}

/// Whether `result` is what a routine owes its caller after `step`: the
/// report of the step's error, on the line on which the step ended, or
/// success where the step met none.
pub open spec fn answers(result: Result<(), Report>, step: Step) -> bool {
    match step.emit {
        Emit::Error(kind) => result is Err && result->Err_0@ == report_of(kind, step.line),
        _ => result is Ok,
    }
}

/// A scanner over one source text. It is made once for a source, driven to
/// the end by `scan_tokens`, and then discarded. Besides what its view
/// shows it keeps the number of characters of the source, which the
/// invariant ties to the source.
pub struct Scanner<'a> {
    source: &'a str,
    /// The number of characters of `source`.
    length: usize,
    tokens: Vec<Token>,
    start: usize,
    current: usize,
    line: usize,
}

impl<'a> View for Scanner<'a> {
    type V = ScannerView;

    closed spec fn view(&self) -> ScannerView {
        ScannerView {
            source: self.source@,
            tokens: token_views(self.tokens@),
            start: self.start as int,
            current: self.current as int,
            line: self.line as int,
        }
    }
}

impl<'a> Scanner<'a> {
    /// The scanner's invariant: its state is well-formed.
    pub closed spec fn wf(&self) -> bool {
        &&& self@.wf()
        &&& self.length as int == self.source@.len()
    }

    /// What the invariant says of the scanner's state.
    pub proof fn lemma_wf(&self)
        requires
            self.wf(),
        ensures
            self@.wf(),
    {
    }

    /// A scanner at the beginning of `source`, on line 1, with no tokens.
    /// The source must leave the line counter room for one line more than it
    /// has characters.
    pub fn new(source: &'a str) -> (scanner: Self)
        requires
            source@.len() < usize::MAX,
        ensures
            scanner.wf(),
            scanner@ == ScannerView::fresh(source@),
    {
        let scanner = Self {
            source,
            length: source.unicode_len(),
            start: 0,
            current: 0,
            line: 1,
            tokens: Vec::new(),
        };
        assert(token_views(scanner.tokens@) =~= Seq::empty());
        scanner
    }

    /// Whether every character of the source has been consumed.
    pub fn is_at_end(&self) -> (at_end: bool)
        requires
            self.wf(),
        ensures
            at_end == (self@.current >= self@.source.len()),
    {
        self.current >= self.length
    }

    /// Scans the source from the cursor to its end and appends the
    /// end-of-input token. Each step marks the cursor as the start of a
    /// token and scans one; an error is kept and the scan goes on behind it.
    /// Returns the whole output where no step failed, and otherwise the
    /// reports of all the steps that did, in source order.
    pub fn scan_tokens(&mut self) -> (result: Result<Vec<Token>, Vec<Report>>)
        requires
            old(self).wf(),
        ensures
            final(self).wf(),
            final(self)@ == old(self)@.finished(
                scan_from(
                    old(self)@.source,
                    old(self)@.start,
                    old(self)@.current,
                    old(self)@.line,
                ),
            ),
            result is Ok <==> scan_from(
                old(self)@.source,
                old(self)@.start,
                old(self)@.current,
                old(self)@.line,
            ).errors.len() == 0,
            result is Ok ==> token_views(result->Ok_0@) == final(self)@.tokens,
            result is Err ==> result->Err_0@.len() > 0,
            result is Err ==> report_views(result->Err_0@) == scan_from(
                old(self)@.source,
                old(self)@.start,
                old(self)@.current,
                old(self)@.line,
            ).errors,
    {
        let ghost whole = scan_from(self@.source, self@.start, self@.current, self@.line);
        let mut errors: Vec<Report> = Vec::new();
        assert(report_views(errors@) =~= Seq::empty());
        while !self.is_at_end()
            invariant
                self.wf(),
                self@.source == old(self)@.source,
                old(self)@.tokens + whole.tokens =~= self@.tokens + scan_from(
                    self@.source,
                    self@.start,
                    self@.current,
                    self@.line,
                ).tokens,
                whole.errors =~= report_views(errors@) + scan_from(
                    self@.source,
                    self@.start,
                    self@.current,
                    self@.line,
                ).errors,
                whole.start == scan_from(
                    self@.source,
                    self@.start,
                    self@.current,
                    self@.line,
                ).start,
                whole.line == scan_from(
                    self@.source,
                    self@.start,
                    self@.current,
                    self@.line,
                ).line,
            decreases self@.source.len() - self@.current,
        {
            self.start = self.current;
            let ghost step = token_step(self@.source, self@.current, self@.current, self@.line);
            proof {
                lemma_token_step_advances(self@.source, self@.current, self@.current, self@.line);
            }
            match self.scan_token() {
                Ok(_) => (),
                Err(report) => {
                    let ghost before = errors@;
                    errors.push(report);
                    assert(report_views(errors@) =~= report_views(before) + step_errors(step));
                },
            }
        }

        let ghost before = self.tokens@;
        let eof = Token::new(TokenType::EOF, String::new(), None, self.line);
        self.tokens.push(eof);
        assert(token_views(self.tokens@) =~= token_views(before).push(eof@));
        assert(self@.tokens =~= old(self)@.tokens + whole.tokens + seq![eof_token(whole.line)]);

        if errors.len() > 0 {
            return Err(errors);
        }
        let tokens = self.tokens.clone();
        assert(token_views(tokens@) =~= token_views(self.tokens@));
        Ok(tokens)
    }

    /// Scans one token at the cursor: consumes one character and whatever
    /// that character begins. Appends at most one token, whose lexeme runs
    /// from the start mark to the new cursor; blanks, newlines and comments
    /// append none. Fails on a character that begins nothing, with the
    /// cursor behind it. At the end of the input it does nothing.
    pub fn scan_token(&mut self) -> (result: Result<(), Report>)
        requires
            old(self).wf(),
        ensures
            final(self).wf(),
            old(self)@.current < old(self)@.source.len() ==> final(self)@ == old(self)@.after(
                token_step(
                    old(self)@.source,
                    old(self)@.start,
                    old(self)@.current,
                    old(self)@.line,
                ),
            ) && answers(
                result,
                token_step(
                    old(self)@.source,
                    old(self)@.start,
                    old(self)@.current,
                    old(self)@.line,
                ),
            ),
            old(self)@.current >= old(self)@.source.len() ==> final(self)@ == old(self)@
                && result is Ok,
    {
        let c = self.advance();

        if let Some(first) = c {
            let ghost step = token_step(
                old(self)@.source,
                old(self)@.start,
                old(self)@.current,
                old(self)@.line,
            );
            match first {
                '(' => self.add_token(TokenType::LEFT_PAREN),
                ')' => self.add_token(TokenType::RIGHT_PAREN),
                '{' => self.add_token(TokenType::LEFT_BRACE),
                '}' => self.add_token(TokenType::RIGHT_BRACE),
                ',' => self.add_token(TokenType::COMMA),
                '.' => self.add_token(TokenType::DOT),
                '-' => self.add_token(TokenType::MINUS),
                '+' => self.add_token(TokenType::PLUS),
                ';' => self.add_token(TokenType::SEMICOLON),
                '*' => self.add_token(TokenType::STAR),
                // An operator takes the `=` behind it where there is one.
                '!' => {
                    let token = if self.match_char('=') {
                        TokenType::BANG_EQUAL
                    } else {
                        TokenType::BANG
                    };
                    self.add_token(token)
                },
                '=' => {
                    let token = if self.match_char('=') {
                        TokenType::EQUAL_EQUAL
                    } else {
                        TokenType::EQUAL
                    };
                    self.add_token(token)
                },
                '<' => {
                    let token = if self.match_char('=') {
                        TokenType::LESS_EQUAL
                    } else {
                        TokenType::LESS
                    };
                    self.add_token(token)
                },
                '>' => {
                    let token = if self.match_char('=') {
                        TokenType::GREATER_EQUAL
                    } else {
                        TokenType::GREATER
                    };
                    self.add_token(token)
                },
                '/' => {
                    if self.match_char('/') {
                        // A comment runs to the end of the line.
                        proof {
                            lemma_run_end(self@.source, self@.current, CharClass::CommentBody);
                        }
                        while self.peek() != '\n' && !self.is_at_end()
                            invariant
                                self.wf(),
                                self@ == old(self)@.moved_to(self@.current),
                                run_end(self@.source, self@.current, CharClass::CommentBody)
                                    == run_end(
                                    old(self)@.source,
                                    old(self)@.current + 2,
                                    CharClass::CommentBody,
                                ),
                            decreases self@.source.len() - self@.current,
                        {
                            self.advance();
                        }
                    } else {
                        self.add_token(TokenType::SLASH);
                    }
                },
                '"' => {
                    let scanned = self.string_literal();
                    proof {
                        assert(self@.tokens =~= old(self)@.after(step).tokens);
                    }
                    return scanned;
                },
                ' ' | '\r' | '\t' => (),
                '\n' => {
                    self.line += 1;
                },
                _ => {
                    if is_ascii_digit(first) {
                        let scanned = self.number_literal();
                        assert(self@.tokens =~= old(self)@.after(step).tokens);
                        return scanned;
                    } else if is_ascii_alphabetic(first) {
                        let scanned = self.reserved_literal();
                        assert(self@.tokens =~= old(self)@.after(step).tokens);
                        return scanned;
                    } else {
                        assert(self@.tokens =~= old(self)@.after(step).tokens);
                        return Err(ErrorKind::UnexpectedCharacter.report_at(self.line));
                    }
                },
            }
            assert(self@.tokens =~= old(self)@.after(step).tokens);
        }
        Ok(())
    }

    /// The tokens produced so far.
    pub fn tokens(&self) -> (tokens: &Vec<Token>)
        ensures
            token_views(tokens@) == self@.tokens,
    {
        &self.tokens
    }

    /// The line counter.
    pub fn line(&self) -> (line: usize)
        ensures
            line as int == self@.line,
    {
        self.line
    }

    /// The position at which the token under construction begins.
    pub fn start(&self) -> (start: usize)
        ensures
            start as int == self@.start,
    {
        self.start
    }

    /// The position of the next unconsumed character.
    pub fn current(&self) -> (current: usize)
        ensures
            current as int == self@.current,
    {
        self.current
    }
}

} // verus!
