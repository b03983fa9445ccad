//! The lexical grammar of the language, stated over sequences of characters.
//!
//! Everything here is mathematics: what a run of characters is, where a
//! literal ends, which token a position yields and what a whole scan of a
//! source produces. The scanner's contracts are written against these
//! definitions, and the lemmas at the end state what follows from them for
//! every source.

use vstd::prelude::*;
use crate::error::{report_of, ErrorKind, ReportView};
use crate::parser_core::token::{LiteralView, TokenType, TokenView, WordView};

verus! {

/// An ASCII decimal digit.
pub open spec fn is_digit(c: char) -> bool {
    '0' <= c && c <= '9'
}

/// An ASCII letter.
pub open spec fn is_alphabetic(c: char) -> bool {
    ('a' <= c && c <= 'z') || ('A' <= c && c <= 'Z')
}

/// A character that may continue a word: an ASCII letter, a digit or an
/// underscore.
pub open spec fn is_word_char(c: char) -> bool {
    is_alphabetic(c) || is_digit(c) || c == '_'
}

/// A blank that separates tokens without ending a line.
pub open spec fn is_blank(c: char) -> bool {
    c == ' ' || c == '\r' || c == '\t'
}

/// The sets of characters of which the grammar takes maximal runs.
pub ghost enum CharClass {
    /// The digits of a numeral.
    Digit,
    /// The characters of a word after its first letter.
    Word,
    /// The body of a string: everything but the double quote.
    StringBody,
    /// The body of a line comment: everything but the newline.
    CommentBody,
}

impl CharClass {
    pub open spec fn holds(self, c: char) -> bool {
        match self {
            CharClass::Digit => is_digit(c),
            CharClass::Word => is_word_char(c),
            CharClass::StringBody => c != '"',
            CharClass::CommentBody => c != '\n',
        }
    }
}

/// The end of the maximal run of characters of `class` that begins at `from`:
/// the first position at or after `from` whose character is not of the class,
/// or the length of the source where there is none.
pub open spec fn run_end(src: Seq<char>, from: int, class: CharClass) -> int
    decreases src.len() - from,
{
    if 0 <= from < src.len() && class.holds(src[from]) {
        run_end(src, from + 1, class)
    } else {
        from
    }
}

/// The number of newline characters of `src` at the positions from `from` up
/// to, not including, `to`.
pub open spec fn newlines(src: Seq<char>, from: int, to: int) -> int
    decreases to - from,
{
    if to <= from {
        0
    } else {
        newlines(src, from, to - 1) + if src[to - 1] == '\n' {
            1int
        } else {
            0int
        }
    }
}

/// The characters of `text` from position `start` up to, not including,
/// `end`, with both positions cut down to the length of the text; empty where
/// `end` does not lie after `start`.
pub open spec fn char_span(text: Seq<char>, start: int, end: int) -> Seq<char> {
    if end <= start {
        Seq::empty()
    } else if start >= text.len() {
        Seq::empty()
    } else if end >= text.len() {
        text.subrange(start, text.len() as int)
    } else {
        text.subrange(start, end)
    }
}

/// A decimal numeral: one or more digits, optionally followed by a point and
/// one or more digits. No sign, no exponent, no separators.
pub open spec fn is_numeral(text: Seq<char>) -> bool {
    let whole = run_end(text, 0, CharClass::Digit);
    &&& 0 < whole
    &&& (whole == text.len() || (text[whole] == '.' && whole + 1 < text.len() && run_end(
        text,
        whole + 1,
        CharClass::Digit,
    ) == text.len()))
}

/// The kind of the reserved word `word`, if it is one.
pub open spec fn keyword(word: Seq<char>) -> Option<TokenType> {
    if word == "and"@ {
        Some(TokenType::AND)
    } else if word == "class"@ {
        Some(TokenType::CLASS)
    } else if word == "else"@ {
        Some(TokenType::ELSE)
    } else if word == "false"@ {
        Some(TokenType::FALSE)
    } else if word == "for"@ {
        Some(TokenType::FOR)
    } else if word == "fun"@ {
        Some(TokenType::FUN)
    } else if word == "if"@ {
        Some(TokenType::IF)
    } else if word == "nil"@ {
        Some(TokenType::NIL)
    } else if word == "or"@ {
        Some(TokenType::OR)
    } else if word == "print"@ {
        Some(TokenType::PRINT)
    } else if word == "return"@ {
        Some(TokenType::RETURN)
    } else if word == "super"@ {
        Some(TokenType::SUPER)
    } else if word == "this"@ {
        Some(TokenType::THIS)
    } else if word == "true"@ {
        Some(TokenType::TRUE)
    } else if word == "var"@ {
        Some(TokenType::VAR)
    } else if word == "while"@ {
        Some(TokenType::WHILE)
    } else {
        None
    }
}

/// What a word is: the keyword of its kind where it is reserved, and
/// otherwise a name that is the word itself.
pub open spec fn word_value(word: Seq<char>) -> WordView {
    match keyword(word) {
        Some(kind) => WordView::Keyword(kind),
        None => WordView::Name(word),
    }
}

/// The character of `src` at `at`, or the null character where there is
/// none.
pub open spec fn char_at(src: Seq<char>, at: int) -> char {
    if 0 <= at < src.len() {
        src[at]
    } else {
        '\0'
    }
}

/// The kind of the punctuation mark that `c` alone always denotes.
pub open spec fn punctuation(c: char) -> Option<TokenType> {
    if c == '(' {
        Some(TokenType::LEFT_PAREN)
    } else if c == ')' {
        Some(TokenType::RIGHT_PAREN)
    } else if c == '{' {
        Some(TokenType::LEFT_BRACE)
    } else if c == '}' {
        Some(TokenType::RIGHT_BRACE)
    } else if c == ',' {
        Some(TokenType::COMMA)
    } else if c == '.' {
        Some(TokenType::DOT)
    } else if c == '-' {
        Some(TokenType::MINUS)
    } else if c == '+' {
        Some(TokenType::PLUS)
    } else if c == ';' {
        Some(TokenType::SEMICOLON)
    } else if c == '*' {
        Some(TokenType::STAR)
    } else {
        None
    }
}

/// The two kinds of an operator that may take a `=` behind it.
pub ghost struct Operator {
    pub alone: TokenType,
    pub with_equal: TokenType,
}

/// The operator that begins with `c`.
pub open spec fn operator(c: char) -> Option<Operator> {
    if c == '!' {
        Some(Operator { alone: TokenType::BANG, with_equal: TokenType::BANG_EQUAL })
    } else if c == '=' {
        Some(Operator { alone: TokenType::EQUAL, with_equal: TokenType::EQUAL_EQUAL })
    } else if c == '<' {
        Some(Operator { alone: TokenType::LESS, with_equal: TokenType::LESS_EQUAL })
    } else if c == '>' {
        Some(Operator { alone: TokenType::GREATER, with_equal: TokenType::GREATER_EQUAL })
    } else {
        None
    }
}

/// Whether the character at `at` exists and is `expected`.
pub open spec fn follows(src: Seq<char>, at: int, expected: char) -> bool {
    0 <= at < src.len() && src[at] == expected
}

/// What one step of the scanner hands on.
pub ghost enum Emit {
    /// Blanks, newlines and comments leave no trace.
    Nothing,
    Token(TokenView),
    Error(ErrorKind),
}

/// The outcome of one step of the scanner: where the cursor and the line
/// counter stand afterwards, and what was produced. An error is reported on
/// the line that the counter shows after the step.
pub ghost struct Step {
    pub current: int,
    pub line: int,
    pub emit: Emit,
}

/// The step that consumes up to `end` and yields a token without a literal,
/// whose lexeme begins at `start`.
pub open spec fn plain_step(src: Seq<char>, start: int, end: int, line: int, kind: TokenType)
    -> Step {
    Step {
        current: end,
        line,
        emit: Emit::Token(
            TokenView { kind, lexeme: src.subrange(start, end), literal: None, line },
        ),
    }
}

/// A string literal whose opening quote lies just before `current`: it runs
/// to the next double quote, whatever stands between, and counts the
/// newlines on its way. Without a closing quote it is an error at the end of
/// the input. The token stands on the line on which it started.
pub open spec fn string_step(src: Seq<char>, start: int, current: int, line: int) -> Step {
    let close = run_end(src, current, CharClass::StringBody);
    let line_after = line + newlines(src, current, close);
    if close >= src.len() {
        Step { current: close, line: line_after, emit: Emit::Error(ErrorKind::UnterminatedString) }
    } else {
        Step {
            current: close + 1,
            line: line_after,
            emit: Emit::Token(
                TokenView {
                    kind: TokenType::STRING,
                    lexeme: src.subrange(start, close + 1),
                    literal: Some(LiteralView::Text(char_span(src, start + 1, close))),
                    line,
                },
            ),
        }
    }
}

/// Whether a fraction begins at `at`: a point with a digit right after it.
pub open spec fn fraction_at(src: Seq<char>, at: int) -> bool {
    follows(src, at, '.') && at + 1 < src.len() && is_digit(src[at + 1])
}

/// The end of the number whose digits go on at `current`: after the run of
/// digits and, where a fraction follows it, after the fraction's digits. A
/// point that no digit follows is left where it is.
pub open spec fn number_end(src: Seq<char>, current: int) -> int {
    let whole = run_end(src, current, CharClass::Digit);
    if fraction_at(src, whole) {
        run_end(src, whole + 1, CharClass::Digit)
    } else {
        whole
    }
}

/// A number literal whose text begins at `start` and whose digits go on at
/// `current`. The text is a token where it is a numeral, and an error
/// otherwise.
pub open spec fn number_step(src: Seq<char>, start: int, current: int, line: int) -> Step {
    let end = number_end(src, current);
    let text = src.subrange(start, end);
    Step {
        current: end,
        line,
        emit: if is_numeral(text) {
            Emit::Token(
                TokenView {
                    kind: TokenType::NUMBER,
                    lexeme: text,
                    literal: Some(LiteralView::Number(text)),
                    line,
                },
            )
        } else {
            Emit::Error(ErrorKind::InvalidNumberLiteral)
        },
    }
}

/// A word whose text begins at `start` and goes on at `current`: a keyword
/// or a name. Either way the token's kind is `IDENTIFIER`; its literal holds
/// the keyword's kind for a reserved word, and the name for any other.
pub open spec fn word_step(src: Seq<char>, start: int, current: int, line: int) -> Step {
    let end = run_end(src, current, CharClass::Word);
    let text = src.subrange(start, end);
    Step {
        current: end,
        line,
        emit: Emit::Token(
            TokenView {
                kind: TokenType::IDENTIFIER,
                lexeme: text,
                literal: Some(LiteralView::Identifier(word_value(text))),
                line,
            },
        ),
    }
}

/// One step of the scanner on the character at `current`, for a token whose
/// text begins at `start`. Two-character operators win over their first
/// character alone.
pub open spec fn token_step(src: Seq<char>, start: int, current: int, line: int) -> Step
    recommends
        0 <= start <= current < src.len(),
{
    let c = src[current];
    let next = current + 1;
    if punctuation(c) is Some {
        plain_step(src, start, next, line, punctuation(c)->0)
    } else if operator(c) is Some {
        if follows(src, next, '=') {
            plain_step(src, start, next + 1, line, operator(c)->0.with_equal)
        } else {
            plain_step(src, start, next, line, operator(c)->0.alone)
        }
    } else if c == '/' {
        if follows(src, next, '/') {
            Step {
                current: run_end(src, next + 1, CharClass::CommentBody),
                line,
                emit: Emit::Nothing,
            }
        } else {
            plain_step(src, start, next, line, TokenType::SLASH)
        }
    } else if c == '"' {
        string_step(src, start, next, line)
    } else if is_digit(c) {
        number_step(src, start, next, line)
    } else if is_alphabetic(c) {
        word_step(src, start, next, line)
    } else if is_blank(c) {
        Step { current: next, line, emit: Emit::Nothing }
    } else if c == '\n' {
        Step { current: next, line: line + 1, emit: Emit::Nothing }
    } else {
        Step { current: next, line, emit: Emit::Error(ErrorKind::UnexpectedCharacter) }
    }
}

/// The tokens that a step adds to the output.
pub open spec fn step_tokens(step: Step) -> Seq<TokenView> {
    match step.emit {
        Emit::Token(token) => seq![token],
        _ => Seq::empty(),
    }
}

/// The reports that a step adds to the errors.
pub open spec fn step_errors(step: Step) -> Seq<ReportView> {
    match step.emit {
        Emit::Error(kind) => seq![report_of(kind, step.line)],
        _ => Seq::empty(),
    }
}

/// What a scan produces: the tokens and the error reports, each in source
/// order, and where the start mark and the line counter stand at the end.
pub ghost struct Scan {
    pub tokens: Seq<TokenView>,
    pub errors: Seq<ReportView>,
    pub start: int,
    pub line: int,
}

/// The scan of `src` from position `pos` on, with the line counter at `line`
/// and the start mark at `start`: step after step, each token beginning
/// where the step before it ended, until the input is used up. An error
/// stops nothing: the next step begins behind it.
pub open spec fn scan_from(src: Seq<char>, start: int, pos: int, line: int) -> Scan
    decreases src.len() - pos,
{
    if 0 <= pos < src.len() {
        let step = token_step(src, pos, pos, line);
        proof {
            lemma_token_step_advances(src, pos, pos, line);
        }
        let rest = scan_from(src, pos, step.current, step.line);
        Scan {
            tokens: step_tokens(step) + rest.tokens,
            errors: step_errors(step) + rest.errors,
            start: rest.start,
            line: rest.line,
        }
    } else {
        Scan { tokens: Seq::empty(), errors: Seq::empty(), start, line }
    }
}

/// The token that ends every scan: no text, no literal, on the line that the
/// counter shows at the end of the input.
pub open spec fn eof_token(line: int) -> TokenView {
    TokenView { kind: TokenType::EOF, lexeme: Seq::empty(), literal: None, line }
}

/// The scan of a whole source by a scanner that has not yet looked at it.
pub open spec fn scan(src: Seq<char>) -> Scan {
    scan_from(src, 0, 0, 1)
}

/// The output of a scan: its tokens, and the end-of-input token behind them.
pub open spec fn output(scan: Scan) -> Seq<TokenView> {
    scan.tokens.push(eof_token(scan.line))
}

/// A run ends at or after its beginning and within the source; every
/// character in it is of the class, and the character at its end, if there
/// is one, is not.
pub proof fn lemma_run_end(src: Seq<char>, from: int, class: CharClass)
    requires
        0 <= from <= src.len(),
    ensures
        from <= run_end(src, from, class) <= src.len(),
        forall|i: int| from <= i < run_end(src, from, class) ==> class.holds(#[trigger] src[i]),
        run_end(src, from, class) < src.len() ==> !class.holds(
            src[run_end(src, from, class)],
        ),
    decreases src.len() - from,
{
    if from < src.len() && class.holds(src[from]) {
        lemma_run_end(src, from + 1, class);
    }
}

/// Between two positions in order there are at least no and at most as many
/// newlines as there are characters.
pub proof fn lemma_newlines_bounds(src: Seq<char>, from: int, to: int)
    ensures
        0 <= newlines(src, from, to),
        from <= to ==> newlines(src, from, to) <= to - from,
        to <= from ==> newlines(src, from, to) == 0,
    decreases to - from,
{
    if from < to {
        lemma_newlines_bounds(src, from, to - 1);
    }
}

/// Every step consumes at least one character and stays within the source;
/// the line counter never goes back, and goes up by no more than the number
/// of characters consumed.
pub proof fn lemma_token_step_advances(src: Seq<char>, start: int, current: int, line: int)
    requires
        0 <= current < src.len(),
    ensures
        current < token_step(src, start, current, line).current <= src.len(),
        line <= token_step(src, start, current, line).line,
        token_step(src, start, current, line).line - line <= token_step(
            src,
            start,
            current,
            line,
        ).current - current,
{
    let next = current + 1;
    lemma_run_end(src, next, CharClass::StringBody);
    lemma_run_end(src, next, CharClass::Digit);
    lemma_run_end(src, next, CharClass::Word);
    lemma_newlines_bounds(src, next, run_end(src, next, CharClass::StringBody));
    if next + 1 <= src.len() {
        lemma_run_end(src, next + 1, CharClass::CommentBody);
    }
    let whole = run_end(src, next, CharClass::Digit);
    if fraction_at(src, whole) {
        lemma_run_end(src, whole + 1, CharClass::Digit);
    }
}

/// A run inside a span of the source is the run in the source, cut off at
/// the end of the span.
pub proof fn lemma_run_end_in_span(src: Seq<char>, from: int, to: int, at: int, class: CharClass)
    requires
        0 <= from <= at <= to <= src.len(),
    ensures
        run_end(src.subrange(from, to), at - from, class) == if run_end(src, at, class) < to {
            run_end(src, at, class) - from
        } else {
            to - from
        },
    decreases to - at,
{
    lemma_run_end(src, at, class);
    if at < to && class.holds(src[at]) {
        lemma_run_end_in_span(src, from, to, at + 1, class);
    }
}

/// The text of a number that begins with a digit is a numeral: the digits
/// from `start` on, with the fraction that follows them if there is one.
pub proof fn lemma_number_text_is_numeral(src: Seq<char>, start: int)
    requires
        0 <= start < src.len(),
        is_digit(src[start]),
    ensures
        is_numeral(src.subrange(start, number_end(src, start + 1))),
{
    let whole = run_end(src, start + 1, CharClass::Digit);
    let end = number_end(src, start + 1);
    let text = src.subrange(start, end);
    lemma_run_end(src, start + 1, CharClass::Digit);
    if fraction_at(src, whole) {
        lemma_run_end(src, whole + 1, CharClass::Digit);
        lemma_run_end_in_span(src, start, end, whole + 1, CharClass::Digit);
    }
    lemma_run_end_in_span(src, start, end, start, CharClass::Digit);
}

/// A step that begins a token where the cursor stands never fails on a
/// number: what the grammar takes for a number is a numeral.
pub proof fn lemma_step_number_is_valid(src: Seq<char>, pos: int, line: int)
    requires
        0 <= pos < src.len(),
    ensures
        token_step(src, pos, pos, line).emit != Emit::Error(ErrorKind::InvalidNumberLiteral),
{
    if is_digit(src[pos]) {
        lemma_number_text_is_numeral(src, pos);
    }
}

/// No token of a scan is the end-of-input token.
pub proof fn lemma_scan_tokens_not_eof(src: Seq<char>, start: int, pos: int, line: int)
    ensures
        forall|i: int|
            0 <= i < scan_from(src, start, pos, line).tokens.len() ==> (#[trigger] scan_from(
                src,
                start,
                pos,
                line,
            ).tokens[i]).kind != TokenType::EOF,
    decreases src.len() - pos,
{
    if 0 <= pos < src.len() {
        let step = token_step(src, pos, pos, line);
        lemma_token_step_advances(src, pos, pos, line);
        lemma_scan_tokens_not_eof(src, pos, step.current, step.line);
    }
}

/// The output of every scan ends in the end-of-input token, and holds no
/// other.
pub proof fn lemma_output_ends_in_single_eof(src: Seq<char>, start: int, pos: int, line: int)
    ensures
        output(scan_from(src, start, pos, line)).len() >= 1,
        output(scan_from(src, start, pos, line)).last() == eof_token(
            scan_from(src, start, pos, line).line,
        ),
        forall|i: int|
            0 <= i < output(scan_from(src, start, pos, line)).len() - 1 ==> (#[trigger] output(
                scan_from(src, start, pos, line),
            )[i]).kind != TokenType::EOF,
{
    lemma_scan_tokens_not_eof(src, start, pos, line);
}

/// The scan of an empty source yields the end-of-input token on line 1,
/// and nothing else.
pub proof fn lemma_scan_of_empty(src: Seq<char>)
    requires
        src.len() == 0,
    ensures
        scan(src).errors.len() == 0,
        output(scan(src)) == seq![eof_token(1)],
{
    assert(output(scan(src)) =~= seq![eof_token(1)]);
}

/// The lines of the tokens of a scan never go back: each token stands on a
/// line between the line at which the scan began and the line at which it
/// ended, and no token stands on an earlier line than one before it. The
/// same holds of the reports.
pub proof fn lemma_scan_lines_ordered(src: Seq<char>, start: int, pos: int, line: int)
    ensures
        line <= scan_from(src, start, pos, line).line,
        forall|i: int|
            0 <= i < scan_from(src, start, pos, line).tokens.len() ==> line <= (
            #[trigger] scan_from(src, start, pos, line).tokens[i]).line <= scan_from(
                src,
                start,
                pos,
                line,
            ).line,
        forall|i: int, j: int|
            0 <= i <= j < scan_from(src, start, pos, line).tokens.len() ==> (#[trigger] scan_from(
                src,
                start,
                pos,
                line,
            ).tokens[i]).line <= (#[trigger] scan_from(src, start, pos, line).tokens[j]).line,
        forall|i: int|
            0 <= i < scan_from(src, start, pos, line).errors.len() ==> line <= (
            #[trigger] scan_from(src, start, pos, line).errors[i]).line <= scan_from(
                src,
                start,
                pos,
                line,
            ).line,
        forall|i: int, j: int|
            0 <= i <= j < scan_from(src, start, pos, line).errors.len() ==> (#[trigger] scan_from(
                src,
                start,
                pos,
                line,
            ).errors[i]).line <= (#[trigger] scan_from(src, start, pos, line).errors[j]).line,
    decreases src.len() - pos,
{
    if 0 <= pos < src.len() {
        let step = token_step(src, pos, pos, line);
        lemma_token_step_advances(src, pos, pos, line);
        lemma_scan_lines_ordered(src, pos, step.current, step.line);
    }
}

/// Whether `report` is one that a scan can make: of an unexpected character
/// or of an unterminated string, on its line and without a location.
pub open spec fn is_scan_report(report: ReportView) -> bool {
    ||| report == report_of(ErrorKind::UnexpectedCharacter, report.line)
    ||| report == report_of(ErrorKind::UnterminatedString, report.line)
}

/// A scan reports unexpected characters and unterminated strings, and
/// nothing else.
pub proof fn lemma_scan_errors(src: Seq<char>, start: int, pos: int, line: int)
    ensures
        forall|i: int|
            0 <= i < scan_from(src, start, pos, line).errors.len() ==> is_scan_report(
                #[trigger] scan_from(src, start, pos, line).errors[i],
            ),
    decreases src.len() - pos,
{
    if 0 <= pos < src.len() {
        let step = token_step(src, pos, pos, line);
        let rest = scan_from(src, pos, step.current, step.line);
        let whole = scan_from(src, start, pos, line);
        lemma_token_step_advances(src, pos, pos, line);
        lemma_step_number_is_valid(src, pos, line);
        lemma_scan_errors(src, pos, step.current, step.line);
        assert forall|i: int| 0 <= i < whole.errors.len() implies is_scan_report(
            #[trigger] whole.errors[i],
        ) by {
            if i < step_errors(step).len() {
                assert(whole.errors[i] == step_errors(step)[i]);
            } else {
                assert(whole.errors[i] == rest.errors[i - step_errors(step).len()]);
            }
        }
    }
}

/// The newlines of a stretch are those of its two parts.
pub proof fn lemma_newlines_split(src: Seq<char>, from: int, mid: int, to: int)
    requires
        from <= mid <= to,
    ensures
        newlines(src, from, to) == newlines(src, from, mid) + newlines(src, mid, to),
    decreases to - mid,
{
    if mid < to {
        lemma_newlines_split(src, from, mid, to - 1);
    }
}

/// A stretch without a newline character counts no newline.
pub proof fn lemma_newlines_none(src: Seq<char>, from: int, to: int)
    requires
        forall|i: int| from <= i < to ==> src[i] != '\n',
    ensures
        newlines(src, from, to) == 0,
    decreases to - from,
{
    if from < to {
        lemma_newlines_none(src, from, to - 1);
    }
}

/// A step moves the line counter on by the number of newline characters
/// that it consumes.
pub proof fn lemma_step_counts_newlines(src: Seq<char>, start: int, current: int, line: int)
    requires
        0 <= current < src.len(),
    ensures
        token_step(src, start, current, line).line == line + newlines(
            src,
            current,
            token_step(src, start, current, line).current,
        ),
{
    let c = src[current];
    let next = current + 1;
    let step = token_step(src, start, current, line);
    lemma_token_step_advances(src, start, current, line);
    if c == '"' {
        let close = run_end(src, next, CharClass::StringBody);
        lemma_run_end(src, next, CharClass::StringBody);
        lemma_newlines_none(src, current, next);
        lemma_newlines_split(src, current, next, close);
        if close < src.len() {
            lemma_newlines_none(src, close, close + 1);
            lemma_newlines_split(src, current, close, close + 1);
        }
    } else if c == '\n' {
        lemma_newlines_none(src, current, current);
    } else {
        lemma_run_end(src, next, CharClass::Digit);
        lemma_run_end(src, next, CharClass::Word);
        if next < src.len() {
            lemma_run_end(src, next + 1, CharClass::CommentBody);
        }
        let whole = run_end(src, next, CharClass::Digit);
        if fraction_at(src, whole) {
            lemma_run_end(src, whole + 1, CharClass::Digit);
        }
        lemma_newlines_none(src, current, step.current);
    }
}

/// At the end of a scan the line counter has moved on by the number of
/// newline characters between the position at which the scan began and the
/// end of the source, wherever they stand: between tokens, in a string, or
/// at the end of a comment.
pub proof fn lemma_scan_counts_newlines(src: Seq<char>, start: int, pos: int, line: int)
    requires
        0 <= pos <= src.len(),
    ensures
        scan_from(src, start, pos, line).line == line + newlines(src, pos, src.len() as int),
    decreases src.len() - pos,
{
    if pos < src.len() {
        let step = token_step(src, pos, pos, line);
        lemma_token_step_advances(src, pos, pos, line);
        lemma_step_counts_newlines(src, pos, pos, line);
        lemma_scan_counts_newlines(src, pos, step.current, step.line);
        lemma_newlines_split(src, pos, step.current, src.len() as int);
    }
}

/// The sixteen reserved words, each with its kind.
pub proof fn lemma_keywords()
    ensures
        keyword("and"@) == Some(TokenType::AND),
        keyword("class"@) == Some(TokenType::CLASS),
        keyword("else"@) == Some(TokenType::ELSE),
        keyword("false"@) == Some(TokenType::FALSE),
        keyword("for"@) == Some(TokenType::FOR),
        keyword("fun"@) == Some(TokenType::FUN),
        keyword("if"@) == Some(TokenType::IF),
        keyword("nil"@) == Some(TokenType::NIL),
        keyword("or"@) == Some(TokenType::OR),
        keyword("print"@) == Some(TokenType::PRINT),
        keyword("return"@) == Some(TokenType::RETURN),
        keyword("super"@) == Some(TokenType::SUPER),
        keyword("this"@) == Some(TokenType::THIS),
        keyword("true"@) == Some(TokenType::TRUE),
        keyword("var"@) == Some(TokenType::VAR),
        keyword("while"@) == Some(TokenType::WHILE),
{
    reveal_strlit("and");
    reveal_strlit("class");
    reveal_strlit("else");
    reveal_strlit("false");
    reveal_strlit("for");
    reveal_strlit("fun");
    reveal_strlit("if");
    reveal_strlit("nil");
    reveal_strlit("or");
    reveal_strlit("print");
    reveal_strlit("return");
    reveal_strlit("super");
    reveal_strlit("this");
    reveal_strlit("true");
    reveal_strlit("var");
    reveal_strlit("while");
    assert("and"@.len() == 3 && "and"@[0] == 'a');
    assert("class"@.len() == 5 && "class"@[0] == 'c');
    assert("else"@.len() == 4 && "else"@[0] == 'e');
    assert("false"@.len() == 5 && "false"@[1] == 'a');
    assert("for"@.len() == 3 && "for"@[1] == 'o');
    assert("fun"@.len() == 3 && "fun"@[1] == 'u');
    assert("if"@.len() == 2 && "if"@[0] == 'i');
    assert("nil"@.len() == 3 && "nil"@[0] == 'n');
    assert("or"@.len() == 2 && "or"@[0] == 'o');
    assert("print"@.len() == 5 && "print"@[0] == 'p');
    assert("return"@.len() == 6);
    assert("super"@.len() == 5 && "super"@[0] == 's');
    assert("this"@.len() == 4 && "this"@[1] == 'h');
    assert("true"@.len() == 4 && "true"@[1] == 'r');
    assert("var"@.len() == 3 && "var"@[0] == 'v');
    assert("while"@.len() == 5 && "while"@[0] == 'w');
}

} // verus!
