//! Tokens: the classified units of source text that the scanner hands on.

use vstd::prelude::*;
use vstd::string::StringExecFns;

verus! {

/// The kind of a token.
#[allow(non_camel_case_types)]
#[derive(Debug, Clone, Copy, PartialEq, Eq, Structural)]
pub enum TokenType {
    // Single-character tokens.
    LEFT_PAREN,
    RIGHT_PAREN,
    LEFT_BRACE,
    RIGHT_BRACE,
    COMMA,
    DOT,
    MINUS,
    PLUS,
    SEMICOLON,
    SLASH,
    STAR,
    // One or two character tokens.
    BANG,
    BANG_EQUAL,
    EQUAL,
    EQUAL_EQUAL,
    GREATER,
    GREATER_EQUAL,
    LESS,
    LESS_EQUAL,
    // Literals.
    IDENTIFIER,
    STRING,
    NUMBER,
    // Keywords.
    AND,
    CLASS,
    ELSE,
    FALSE,
    FUN,
    FOR,
    IF,
    NIL,
    OR,
    PRINT,
    RETURN,
    SUPER,
    THIS,
    TRUE,
    VAR,
    WHILE,
    EOF,
}

impl TokenType {
    /// The name of the kind, as it is written and printed.
    pub open spec fn name_text(self) -> Seq<char> {
        match self {
            TokenType::LEFT_PAREN => "LEFT_PAREN"@,
            TokenType::RIGHT_PAREN => "RIGHT_PAREN"@,
            TokenType::LEFT_BRACE => "LEFT_BRACE"@,
            TokenType::RIGHT_BRACE => "RIGHT_BRACE"@,
            TokenType::COMMA => "COMMA"@,
            TokenType::DOT => "DOT"@,
            TokenType::MINUS => "MINUS"@,
            TokenType::PLUS => "PLUS"@,
            TokenType::SEMICOLON => "SEMICOLON"@,
            TokenType::SLASH => "SLASH"@,
            TokenType::STAR => "STAR"@,
            TokenType::BANG => "BANG"@,
            TokenType::BANG_EQUAL => "BANG_EQUAL"@,
            TokenType::EQUAL => "EQUAL"@,
            TokenType::EQUAL_EQUAL => "EQUAL_EQUAL"@,
            TokenType::GREATER => "GREATER"@,
            TokenType::GREATER_EQUAL => "GREATER_EQUAL"@,
            TokenType::LESS => "LESS"@,
            TokenType::LESS_EQUAL => "LESS_EQUAL"@,
            TokenType::IDENTIFIER => "IDENTIFIER"@,
            TokenType::STRING => "STRING"@,
            TokenType::NUMBER => "NUMBER"@,
            TokenType::AND => "AND"@,
            TokenType::CLASS => "CLASS"@,
            TokenType::ELSE => "ELSE"@,
            TokenType::FALSE => "FALSE"@,
            TokenType::FUN => "FUN"@,
            TokenType::FOR => "FOR"@,
            TokenType::IF => "IF"@,
            TokenType::NIL => "NIL"@,
            TokenType::OR => "OR"@,
            TokenType::PRINT => "PRINT"@,
            TokenType::RETURN => "RETURN"@,
            TokenType::SUPER => "SUPER"@,
            TokenType::THIS => "THIS"@,
            TokenType::TRUE => "TRUE"@,
            TokenType::VAR => "VAR"@,
            TokenType::WHILE => "WHILE"@,
            TokenType::EOF => "EOF"@,
        }
    }

    /// The printed form of the kind: its name.
    pub fn name(&self) -> (text: String)
        ensures
            text@ == self.name_text(),
    {
        match self {
            TokenType::LEFT_PAREN => String::from_str("LEFT_PAREN"),
            TokenType::RIGHT_PAREN => String::from_str("RIGHT_PAREN"),
            TokenType::LEFT_BRACE => String::from_str("LEFT_BRACE"),
            TokenType::RIGHT_BRACE => String::from_str("RIGHT_BRACE"),
            TokenType::COMMA => String::from_str("COMMA"),
            TokenType::DOT => String::from_str("DOT"),
            TokenType::MINUS => String::from_str("MINUS"),
            TokenType::PLUS => String::from_str("PLUS"),
            TokenType::SEMICOLON => String::from_str("SEMICOLON"),
            TokenType::SLASH => String::from_str("SLASH"),
            TokenType::STAR => String::from_str("STAR"),
            TokenType::BANG => String::from_str("BANG"),
            TokenType::BANG_EQUAL => String::from_str("BANG_EQUAL"),
            TokenType::EQUAL => String::from_str("EQUAL"),
            TokenType::EQUAL_EQUAL => String::from_str("EQUAL_EQUAL"),
            TokenType::GREATER => String::from_str("GREATER"),
            TokenType::GREATER_EQUAL => String::from_str("GREATER_EQUAL"),
            TokenType::LESS => String::from_str("LESS"),
            TokenType::LESS_EQUAL => String::from_str("LESS_EQUAL"),
            TokenType::IDENTIFIER => String::from_str("IDENTIFIER"),
            TokenType::STRING => String::from_str("STRING"),
            TokenType::NUMBER => String::from_str("NUMBER"),
            TokenType::AND => String::from_str("AND"),
            TokenType::CLASS => String::from_str("CLASS"),
            TokenType::ELSE => String::from_str("ELSE"),
            TokenType::FALSE => String::from_str("FALSE"),
            TokenType::FUN => String::from_str("FUN"),
            TokenType::FOR => String::from_str("FOR"),
            TokenType::IF => String::from_str("IF"),
            TokenType::NIL => String::from_str("NIL"),
            TokenType::OR => String::from_str("OR"),
            TokenType::PRINT => String::from_str("PRINT"),
            TokenType::RETURN => String::from_str("RETURN"),
            TokenType::SUPER => String::from_str("SUPER"),
            TokenType::THIS => String::from_str("THIS"),
            TokenType::TRUE => String::from_str("TRUE"),
            TokenType::VAR => String::from_str("VAR"),
            TokenType::WHILE => String::from_str("WHILE"),
            TokenType::EOF => String::from_str("EOF"),
        }
    }
}

/// What a word is: a reserved word, known by its kind, or a name, known by
/// its text.
#[derive(Debug)]
pub enum WordValue {
    Keyword(TokenType),
    Name(String),
}

/// The mathematical value of a [`WordValue`].
pub ghost enum WordView {
    Keyword(TokenType),
    Name(Seq<char>),
}

impl View for WordValue {
    type V = WordView;

    open spec fn view(&self) -> WordView {
        match self {
            WordValue::Keyword(kind) => WordView::Keyword(*kind),
            WordValue::Name(name) => WordView::Name(name@),
        }
    }
}

impl Clone for WordValue {
    fn clone(&self) -> (res: Self)
        ensures
            res == *self,
    {
        match self {
            WordValue::Keyword(kind) => WordValue::Keyword(*kind),
            WordValue::Name(name) => WordValue::Name(name.clone()),
        }
    }
}

/// The decoded value that a literal token carries.
#[derive(Debug)]
pub enum LiteralValue {
    /// The decimal numeral of a number token: a run of digits, optionally
    /// followed by a point and a second run of digits. The scanner keeps the
    /// numeral exact; turning it into a binary floating-point value is left
    /// to the consumer.
    NumberValue(String),
    /// The text strictly between the quotes of a string token, with
    /// backslashes taken literally.
    StringValue(String),
    /// What the word of an identifier token is: the keyword's own kind where
    /// the word is reserved, and the name itself where it is not.
    IdentifierValue(WordValue),
}

/// The mathematical value of a [`LiteralValue`].
pub ghost enum LiteralView {
    Number(Seq<char>),
    Text(Seq<char>),
    Identifier(WordView),
}

impl View for LiteralValue {
    type V = LiteralView;

    open spec fn view(&self) -> LiteralView {
        match self {
            LiteralValue::NumberValue(numeral) => LiteralView::Number(numeral@),
            LiteralValue::StringValue(text) => LiteralView::Text(text@),
            LiteralValue::IdentifierValue(word) => LiteralView::Identifier(word@),
        }
    }
}

impl Clone for LiteralValue {
    fn clone(&self) -> (res: Self)
        ensures
            res == *self,
    {
        match self {
            LiteralValue::NumberValue(numeral) => LiteralValue::NumberValue(numeral.clone()),
            LiteralValue::StringValue(text) => LiteralValue::StringValue(text.clone()),
            LiteralValue::IdentifierValue(word) => LiteralValue::IdentifierValue(word.clone()),
        }
    }
}

/// A classified unit of source text.
#[derive(Debug)]
pub struct Token {
    pub token_type: TokenType,
    /// The exact source text that produced the token.
    pub lexeme: String,
    pub literal: Option<LiteralValue>,
    /// The line, counted from 1, on which the token started.
    pub line: usize,
}

/// The mathematical value of a [`Token`].
pub ghost struct TokenView {
    pub kind: TokenType,
    pub lexeme: Seq<char>,
    pub literal: Option<LiteralView>,
    pub line: int,
}

/// The view of an optional literal.
pub open spec fn literal_view(literal: Option<LiteralValue>) -> Option<LiteralView> {
    match literal {
        Some(value) => Some(value@),
        None => None,
    }
}

impl View for Token {
    type V = TokenView;

    open spec fn view(&self) -> TokenView {
        TokenView {
            kind: self.token_type,
            lexeme: self.lexeme@,
            literal: literal_view(self.literal),
            line: self.line as int,
        }
    }
}

impl Token {
    pub fn new(
        token_type: TokenType,
        lexeme: String,
        literal: Option<LiteralValue>,
        line: usize,
    ) -> (token: Self)
        ensures
            token.token_type == token_type,
            token.lexeme == lexeme,
            token.literal == literal,
            token.line == line,
    {
        Token { token_type, lexeme, literal, line }
    }
}

impl Clone for Token {
    fn clone(&self) -> (res: Self)
        ensures
            res == *self,
    {
        let literal = match &self.literal {
            Some(value) => Some(value.clone()),
            None => None,
        };
        Token {
            token_type: self.token_type,
            lexeme: self.lexeme.clone(),
            literal,
            line: self.line,
        }
    }
}

/// The views of a sequence of tokens, in order.
pub open spec fn token_views(tokens: Seq<Token>) -> Seq<TokenView> {
    Seq::new(tokens.len(), |i: int| tokens[i]@)
}

} // verus!
