use rlox::error::{ErrorKind, Report};
use rlox::parser_core::text::{
    check_numeral, find_keyword, is_ascii_alphabetic, is_ascii_digit, is_ascii_word, resolve_word,
    same_text,
};
use rlox::parser_core::token::{LiteralValue, Token, TokenType, WordValue};

#[test]
fn report_keeps_what_it_is_given() {
    let report = Report::new(12, String::from("at end"), String::from("Something."));
    assert_eq!(report.line, 12);
    assert_eq!(report.location, "at end");
    assert_eq!(report.msg, "Something.");
}

#[test]
fn error_messages() {
    assert_eq!(ErrorKind::UnexpectedCharacter.message(), "Unexpected character.");
    assert_eq!(ErrorKind::UnterminatedString.message(), "Unterminated string.");
    assert_eq!(ErrorKind::InvalidNumberLiteral.message(), "Invalid number literal");
}

#[test]
fn report_of_a_kind() {
    let report = ErrorKind::UnterminatedString.report_at(7);
    assert_eq!(report.line, 7);
    assert_eq!(report.location, "");
    assert_eq!(report.msg, "Unterminated string.");
}

#[test]
fn token_keeps_what_it_is_given() {
    let token = Token::new(
        TokenType::STRING,
        String::from("\"a\""),
        Some(LiteralValue::StringValue(String::from("a"))),
        3,
    );
    assert_eq!(token.token_type, TokenType::STRING);
    assert_eq!(token.lexeme, "\"a\"");
    assert_eq!(token.line, 3);
    match &token.literal {
        Some(LiteralValue::StringValue(text)) => assert_eq!(text, "a"),
        other => panic!("unexpected literal {:?}", other),
    }
}

#[test]
fn token_clone_is_equal() {
    let token = Token::new(
        TokenType::NUMBER,
        String::from("1.5"),
        Some(LiteralValue::NumberValue(String::from("1.5"))),
        9,
    );
    let copy = token.clone();
    assert_eq!(copy.token_type, token.token_type);
    assert_eq!(copy.lexeme, token.lexeme);
    assert_eq!(copy.line, token.line);
    match (&copy.literal, &token.literal) {
        (Some(LiteralValue::NumberValue(a)), Some(LiteralValue::NumberValue(b))) => {
            assert_eq!(a, b)
        }
        other => panic!("unexpected literals {:?}", other),
    }
    let word = LiteralValue::IdentifierValue(WordValue::Keyword(TokenType::FUN)).clone();
    assert!(matches!(word, LiteralValue::IdentifierValue(WordValue::Keyword(TokenType::FUN))));
    let name = LiteralValue::IdentifierValue(WordValue::Name(String::from("x1"))).clone();
    match name {
        LiteralValue::IdentifierValue(WordValue::Name(text)) => assert_eq!(text, "x1"),
        other => panic!("unexpected literal {:?}", other),
    }
}

#[test]
fn character_classes() {
    assert!(is_ascii_digit('0'));
    assert!(is_ascii_digit('9'));
    assert!(!is_ascii_digit('/'));
    assert!(!is_ascii_digit(':'));
    assert!(!is_ascii_digit('\u{663}'));
    assert!(is_ascii_alphabetic('a'));
    assert!(is_ascii_alphabetic('z'));
    assert!(is_ascii_alphabetic('A'));
    assert!(is_ascii_alphabetic('Z'));
    assert!(!is_ascii_alphabetic('`'));
    assert!(!is_ascii_alphabetic('{'));
    assert!(!is_ascii_alphabetic('@'));
    assert!(!is_ascii_alphabetic('['));
    assert!(!is_ascii_alphabetic('_'));
    assert!(!is_ascii_alphabetic('\u{e9}'));
    assert!(is_ascii_word('_'));
    assert!(is_ascii_word('q'));
    assert!(is_ascii_word('5'));
    assert!(!is_ascii_word('-'));
    assert!(!is_ascii_word('\0'));
}

#[test]
fn numerals() {
    for text in ["0", "7", "52", "5.43", "1.9", "007", "0.0", "123456789012345678901234567890"] {
        assert!(check_numeral(text), "{}", text);
    }
    for text in ["", ".", "7.", ".5", "1.2.3", "1e5", "-1", "+1", "1_000", "0x10", " 1", "1 ", "a", "1.a", "1..2", "\u{663}"] {
        assert!(!check_numeral(text), "{}", text);
    }
}

#[test]
fn texts_compare_by_characters() {
    assert!(same_text("", ""));
    assert!(same_text("h\u{e9}", "h\u{e9}"));
    assert!(!same_text("he", "h\u{e9}"));
    assert!(!same_text("ab", "abc"));
    assert!(!same_text("abc", "ab"));
    assert!(!same_text("abc", "abd"));
}

#[test]
fn keywords_are_found() {
    assert_eq!(find_keyword("and"), Some(TokenType::AND));
    assert_eq!(find_keyword("for"), Some(TokenType::FOR));
    assert_eq!(find_keyword("fun"), Some(TokenType::FUN));
    assert_eq!(find_keyword("while"), Some(TokenType::WHILE));
    assert_eq!(find_keyword("super"), Some(TokenType::SUPER));
    assert_eq!(find_keyword("And"), None);
    assert_eq!(find_keyword("supe"), None);
    assert_eq!(find_keyword(""), None);
    assert_eq!(find_keyword("EOF"), None);
    assert_eq!(find_keyword("IDENTIFIER"), None);
}

#[test]
fn words_resolve() {
    assert!(matches!(resolve_word("and"), WordValue::Keyword(TokenType::AND)));
    assert!(matches!(resolve_word("while"), WordValue::Keyword(TokenType::WHILE)));
    assert!(matches!(resolve_word("super"), WordValue::Keyword(TokenType::SUPER)));
    for name in ["And", "supe", "", "EOF", "foo_1"] {
        match resolve_word(name) {
            WordValue::Name(text) => assert_eq!(text, name),
            other => panic!("unexpected word {:?}", other),
        }
    }
}

#[test]
fn kinds_print_as_their_names() {
    assert_eq!(TokenType::LEFT_PAREN.name(), "LEFT_PAREN");
    assert_eq!(TokenType::BANG_EQUAL.name(), "BANG_EQUAL");
    assert_eq!(TokenType::IDENTIFIER.name(), "IDENTIFIER");
    assert_eq!(TokenType::FUN.name(), "FUN");
    assert_eq!(TokenType::FOR.name(), "FOR");
    assert_eq!(TokenType::EOF.name(), "EOF");
    let all = [
        TokenType::LEFT_PAREN,
        TokenType::RIGHT_PAREN,
        TokenType::LEFT_BRACE,
        TokenType::RIGHT_BRACE,
        TokenType::COMMA,
        TokenType::DOT,
        TokenType::MINUS,
        TokenType::PLUS,
        TokenType::SEMICOLON,
        TokenType::SLASH,
        TokenType::STAR,
        TokenType::BANG,
        TokenType::BANG_EQUAL,
        TokenType::EQUAL,
        TokenType::EQUAL_EQUAL,
        TokenType::GREATER,
        TokenType::GREATER_EQUAL,
        TokenType::LESS,
        TokenType::LESS_EQUAL,
        TokenType::IDENTIFIER,
        TokenType::STRING,
        TokenType::NUMBER,
        TokenType::AND,
        TokenType::CLASS,
        TokenType::ELSE,
        TokenType::FALSE,
        TokenType::FUN,
        TokenType::FOR,
        TokenType::IF,
        TokenType::NIL,
        TokenType::OR,
        TokenType::PRINT,
        TokenType::RETURN,
        TokenType::SUPER,
        TokenType::THIS,
        TokenType::TRUE,
        TokenType::VAR,
        TokenType::WHILE,
        TokenType::EOF,
    ];
    for kind in all {
        assert_eq!(kind.name(), format!("{:?}", kind));
    }
}
