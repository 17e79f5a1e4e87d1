use crepl::lexer::Token::{TokInt, TokSemicolon};
use crepl::lexer::{CLangToken, Error, Token, TokenKind};
use std::collections::VecDeque;

#[test]
fn tokenize_nothing() {
    assert_eq![Token::tokenize(""), Ok(VecDeque::from([]))];
}

#[test]
fn tokenize_int32_single() {
    assert_eq![Token::tokenize("5"), Ok(VecDeque::from([Token::TokInt(5)]))];
}

#[test]
fn tokenize_int32_multi() {
    assert_eq![Token::tokenize("36127"), Ok(VecDeque::from([Token::TokInt(36127)]))];
}

#[test]
fn tokenize_int32_neg() {
    assert_eq![Token::tokenize("-42"), Ok(VecDeque::from([Token::TokInt(-42)]))];
}

#[test]
fn tokenize_int32_semi() {
    assert_eq![Token::tokenize(";"), Ok(VecDeque::from([Token::TokSemicolon]))];
}

#[test]
fn tokenize_int32_many() {
    assert_eq![Token::tokenize("42; 21;; 1;0;"),
               Ok(VecDeque::from([TokInt(42), TokSemicolon, TokInt(21), TokSemicolon,
                    TokSemicolon,
                    TokInt(1), TokSemicolon, TokInt(0), TokSemicolon]))];
}

#[test]
fn tokenize_wrong_int32() {
    let result = Token::tokenize("42n4");
    assert!(result.is_err());
}

#[test]
fn tokenize_names_the_whole_word() {
    assert_eq!(Token::tokenize("42n4"), Err(Error::UnknownToken("42n4")));
    assert_eq!(Token::tokenize("1; 42n4 7"), Err(Error::UnknownToken("42n4")));
    assert_eq!(Token::tokenize("7;x"), Err(Error::UnknownToken("7;x")));
}

#[test]
fn tokenize_names_the_first_bad_word() {
    assert_eq!(Token::tokenize("1 foo 2 bar"), Err(Error::UnknownToken("foo")));
}

#[test]
fn tokenize_only_whitespace() {
    assert_eq!(Token::tokenize("  \t \r\n"), Ok(VecDeque::from([])));
}

#[test]
fn tokenize_line_with_newline() {
    assert_eq!(
        Token::tokenize("5;\n"),
        Ok(VecDeque::from([Token::TokInt(5), Token::TokSemicolon]))
    );
}

#[test]
fn tokenize_two_terminators() {
    assert_eq!(
        Token::tokenize(";;"),
        Ok(VecDeque::from([Token::TokSemicolon, Token::TokSemicolon]))
    );
}

#[test]
fn tokenize_two_words() {
    assert_eq!(
        Token::tokenize("10 12"),
        Ok(VecDeque::from([Token::TokInt(10), Token::TokInt(12)]))
    );
}

#[test]
fn tokenize_minus_inside_a_word() {
    assert_eq!(
        Token::tokenize("1-2"),
        Ok(VecDeque::from([Token::TokInt(1), Token::TokInt(-2)]))
    );
    assert_eq!(Token::tokenize("-"), Err(Error::UnknownToken("-")));
    assert_eq!(Token::tokenize("--1"), Err(Error::UnknownToken("--1")));
}

#[test]
fn tokenize_at_the_32_bit_boundary() {
    assert_eq!(
        Token::tokenize("2147483647 -2147483648"),
        Ok(VecDeque::from([Token::TokInt(i32::MAX), Token::TokInt(i32::MIN)]))
    );
}

#[test]
fn tokenize_beyond_the_32_bit_range() {
    assert_eq!(Token::tokenize("2147483648"), Err(Error::UnknownToken("2147483648")));
    assert_eq!(Token::tokenize("-2147483649"), Err(Error::UnknownToken("-2147483649")));
    assert_eq!(
        Token::tokenize("1; 99999999999999999999999;"),
        Err(Error::UnknownToken("99999999999999999999999;"))
    );
}

#[test]
fn tokenize_leading_zeros() {
    assert_eq!(
        Token::tokenize("000000000000000000000042"),
        Ok(VecDeque::from([Token::TokInt(42)]))
    );
}

#[test]
fn tokenize_text_that_is_not_ascii() {
    assert_eq!(Token::tokenize("1; caf\u{e9} 2"), Err(Error::UnknownToken("caf\u{e9}")));
    assert_eq!(Token::tokenize("\u{663}"), Err(Error::UnknownToken("\u{663}")));
    assert_eq!(Token::tokenize("4\u{a0}2"), Err(Error::UnknownToken("4\u{a0}2")));
}

#[test]
fn tokenize_vertical_tab_is_no_separator() {
    assert_eq!(Token::tokenize("1\u{b}2"), Err(Error::UnknownToken("1\u{b}2")));
    assert_eq!(
        Token::tokenize("1\u{c}2"),
        Ok(VecDeque::from([Token::TokInt(1), Token::TokInt(2)]))
    );
}

#[test]
fn tokenize_twice_gives_the_same() {
    for line in ["", "5", "42; 21;; 1;0;", "10 12", "42n4", " -7 ;"] {
        assert_eq!(Token::tokenize(line), Token::tokenize(line));
    }
}

#[test]
fn tokenize_with_the_standard_rules() {
    let handlers = Token::init_handlers().unwrap();
    assert_eq!(handlers.len(), 2);
    assert_eq!(handlers[0].kind, TokenKind::Int);
    assert_eq!(handlers[1].kind, TokenKind::Semicolon);
    assert_eq!(
        Token::tokenize_with(&handlers, "3;-4"),
        Ok(VecDeque::from([Token::TokInt(3), Token::TokSemicolon, Token::TokInt(-4)]))
    );
}

#[test]
fn tokenize_with_no_rules() {
    let handlers: Vec<CLangToken> = Vec::new();
    assert_eq!(Token::tokenize_with(&handlers, "  "), Ok(VecDeque::from([])));
    assert_eq!(Token::tokenize_with(&handlers, " 5"), Err(Error::UnknownToken("5")));
}

#[test]
fn tokenize_with_rules_in_another_order() {
    let digits = CLangToken::compile("[0-9]", TokenKind::Int).unwrap();
    let number = CLangToken::compile("[0-9]+", TokenKind::Int).unwrap();
    let first_wins = vec![digits, number];
    assert_eq!(
        Token::tokenize_with(&first_wins, "12"),
        Ok(VecDeque::from([Token::TokInt(1), Token::TokInt(2)]))
    );
}

#[test]
fn tokenize_with_a_rule_that_matches_nothing_long() {
    let maybe = CLangToken::compile("x*", TokenKind::Semicolon).unwrap();
    let rules = vec![maybe];
    assert_eq!(
        Token::tokenize_with(&rules, "xx x"),
        Ok(VecDeque::from([Token::TokSemicolon, Token::TokSemicolon]))
    );
    assert_eq!(Token::tokenize_with(&rules, "xy"), Err(Error::UnknownToken("xy")));
}

#[test]
fn compile_refuses_a_bad_pattern() {
    assert!(matches!(CLangToken::compile("(", TokenKind::Int), Err(Error::BadPattern)));
    assert!(matches!(CLangToken::compile("[0-9", TokenKind::Semicolon), Err(Error::BadPattern)));
    assert!(CLangToken::compile(";", TokenKind::Semicolon).is_ok());
}

#[test]
fn scan_word_keeps_what_it_recognized() {
    let handlers = Token::init_handlers().unwrap();
    let mut toks = VecDeque::from([Token::TokSemicolon]);
    assert!(Token::scan_word(&handlers, "1;2", &mut toks));
    assert_eq!(
        toks,
        VecDeque::from([Token::TokSemicolon, Token::TokInt(1), Token::TokSemicolon, Token::TokInt(2)])
    );
    assert!(!Token::scan_word(&handlers, "3;x", &mut toks));
    assert_eq!(toks.len(), 6);
    assert_eq!(toks[4], Token::TokInt(3));
    assert_eq!(toks[5], Token::TokSemicolon);
}

#[test]
fn match_at_is_anchored_at_the_cursor() {
    let handlers = Token::init_handlers().unwrap();
    assert_eq!(handlers[0].match_at("42;7", 0), Some((Token::TokInt(42), 2)));
    assert_eq!(handlers[0].match_at("42;7", 1), Some((Token::TokInt(2), 2)));
    assert_eq!(handlers[0].match_at("42;7", 2), None);
    assert_eq!(handlers[1].match_at("42;7", 2), Some((Token::TokSemicolon, 3)));
    assert_eq!(handlers[1].match_at("42;7", 0), None);
    assert_eq!(handlers[0].match_at("42;7", 3), Some((Token::TokInt(7), 4)));
    assert_eq!(handlers[0].match_at("42;7", 4), None);
}

#[test]
fn accept_decides_on_what_was_found() {
    let handlers = Token::init_handlers().unwrap();
    let int_rule = &handlers[0];
    let semicolon_rule = &handlers[1];
    let word = "42n4".as_bytes();
    assert_eq!(int_rule.accept(word, 0, Some((0, 2))), Some((Token::TokInt(42), 2)));
    assert_eq!(int_rule.accept(word, 0, Some((3, 4))), None);
    assert_eq!(int_rule.accept(word, 0, None), None);
    assert_eq!(int_rule.accept(word, 0, Some((0, 0))), None);
    assert_eq!(int_rule.accept(word, 0, Some((0, 3))), None);
    assert_eq!(int_rule.accept(word, 0, Some((0, 5))), None);
    assert_eq!(int_rule.accept(word, 3, Some((3, 4))), Some((Token::TokInt(4), 4)));
    assert_eq!(semicolon_rule.accept(word, 2, Some((2, 3))), Some((Token::TokSemicolon, 3)));
    assert_eq!(semicolon_rule.accept(word, 2, Some((2, 2))), None);
    assert_eq!(semicolon_rule.accept(word, 2, Some((1, 3))), None);
    assert_eq!(semicolon_rule.accept(word, 4, Some((4, 5))), None);
}

#[test]
fn lexer_error_messages() {
    assert_eq!(Error::UnknownToken("42n4").message(), "Encountered unknown token: 42n4");
    assert_eq!(
        Error::BadPattern.message(),
        "Encountered a token pattern that the regex engine refuses"
    );
}

#[test]
fn from_compiled_follows_the_engine() {
    let built = regex::Regex::new(";").ok();
    let rule = CLangToken::from_compiled(built, TokenKind::Semicolon).unwrap();
    assert_eq!(rule.kind, TokenKind::Semicolon);
    assert_eq!(rule.regex.as_str(), ";");
    assert_eq!(rule.match_at(";;", 1), Some((TokSemicolon, 2)));
    assert!(matches!(
        CLangToken::from_compiled(None, TokenKind::Int),
        Err(Error::BadPattern)
    ));
    let refused = regex::Regex::new("(").ok();
    assert!(matches!(
        CLangToken::from_compiled(refused, TokenKind::Int),
        Err(Error::BadPattern)
    ));
}

#[test]
fn collect_handlers_keeps_the_order() {
    let first = CLangToken::compile("a", TokenKind::Semicolon);
    let second = CLangToken::compile("[0-9]+", TokenKind::Int);
    let handlers = Token::collect_handlers(first, second).unwrap();
    assert_eq!(handlers.len(), 2);
    assert_eq!(handlers[0].kind, TokenKind::Semicolon);
    assert_eq!(handlers[0].regex.as_str(), "a");
    assert_eq!(handlers[1].kind, TokenKind::Int);
    assert_eq!(handlers[1].regex.as_str(), "[0-9]+");
}

#[test]
fn collect_handlers_gives_the_first_error() {
    let good = CLangToken::compile(";", TokenKind::Semicolon);
    let bad = CLangToken::compile("(", TokenKind::Int);
    assert!(matches!(Token::collect_handlers(bad, good), Err(Error::BadPattern)));
    let good = CLangToken::compile(";", TokenKind::Semicolon);
    let bad = CLangToken::compile("(", TokenKind::Int);
    assert!(matches!(Token::collect_handlers(good, bad), Err(Error::BadPattern)));
    let good = CLangToken::compile(";", TokenKind::Semicolon);
    assert!(matches!(
        Token::collect_handlers(Err(Error::UnknownToken("x")), good),
        Err(Error::UnknownToken("x"))
    ));
    assert!(matches!(
        Token::collect_handlers(Err(Error::BadPattern), Err(Error::UnknownToken("y"))),
        Err(Error::BadPattern)
    ));
}

#[test]
fn tokenize_given_rules() {
    assert_eq!(
        Token::tokenize_given(Token::init_handlers(), "42; 7"),
        Ok(VecDeque::from([TokInt(42), TokSemicolon, TokInt(7)]))
    );
    assert_eq!(
        Token::tokenize_given(Token::init_handlers(), "42n4"),
        Err(Error::UnknownToken("42n4"))
    );
}

#[test]
fn tokenize_given_a_refused_pattern() {
    assert_eq!(Token::tokenize_given(Err(Error::BadPattern), "42; 7"), Err(Error::BadPattern));
    assert_eq!(Token::tokenize_given(Err(Error::BadPattern), ""), Err(Error::BadPattern));
    assert_eq!(Token::tokenize_given(Err(Error::BadPattern), "42n4"), Err(Error::BadPattern));
}

#[test]
fn the_rules_of_the_language_compile() {
    assert!(Token::init_handlers().is_ok());
    for line in ["", "5", "42n4", "10 12"] {
        assert_ne!(Token::tokenize(line), Err(Error::BadPattern));
    }
}
