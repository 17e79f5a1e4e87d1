use crepl::interp::interp;
use crepl::lexer::Token;
use crepl::parser::Expr;
use crepl::pipeline::{process_line, process_line_given, LineError};

#[test]
fn interp_nothing() {
    assert_eq!(interp(vec![]), Vec::<String>::new());
}

#[test]
fn interp_one_line_for_each_statement() {
    assert_eq!(
        interp(vec![Expr::CInt(42), Expr::CInt(21), Expr::CInt(1), Expr::CInt(0)]),
        vec!["42", "21", "1", "0"]
    );
}

#[test]
fn interp_signed_decimal() {
    assert_eq!(
        interp(vec![Expr::CInt(-42), Expr::CInt(i32::MAX), Expr::CInt(i32::MIN), Expr::CInt(-1)]),
        vec!["-42", "2147483647", "-2147483648", "-1"]
    );
}

#[test]
fn eval_is_the_value() {
    assert_eq!(Expr::CInt(5).eval(), 5);
    assert_eq!(Expr::CInt(-77).eval(), -77);
}

#[test]
fn empty_line_prints_nothing() {
    assert_eq!(process_line(""), Ok(vec![]));
    assert_eq!(process_line("\n"), Ok(vec![]));
}

#[test]
fn line_of_one_literal() {
    assert_eq!(process_line("5"), Ok(vec!["5".to_string()]));
}

#[test]
fn line_of_a_negative_literal() {
    assert_eq!(process_line("-42"), Ok(vec!["-42".to_string()]));
}

#[test]
fn line_of_many_statements() {
    assert_eq!(
        process_line("42; 21;; 1;0;"),
        Ok(vec!["42".to_string(), "21".to_string(), "1".to_string(), "0".to_string()])
    );
}

#[test]
fn line_of_terminators_prints_nothing() {
    assert_eq!(process_line(";;;"), Ok(vec![]));
    assert_eq!(process_line("; ;"), Ok(vec![]));
}

#[test]
fn line_of_two_expressions() {
    assert_eq!(process_line("10 12"), Err(LineError::Parse(crepl::parser::Error::MultExpr)));
}

#[test]
fn line_with_an_unknown_token() {
    assert_eq!(
        process_line("42n4"),
        Err(LineError::Lex(crepl::lexer::Error::UnknownToken("42n4")))
    );
}

#[test]
fn lexical_error_comes_first() {
    assert_eq!(
        process_line("1 2 x"),
        Err(LineError::Lex(crepl::lexer::Error::UnknownToken("x")))
    );
}

#[test]
fn line_at_the_32_bit_boundary() {
    assert_eq!(
        process_line("-2147483648; 2147483647"),
        Ok(vec!["-2147483648".to_string(), "2147483647".to_string()])
    );
}

#[test]
fn line_twice_gives_the_same() {
    for line in ["", "5", "-42", "42; 21;; 1;0;", "10 12", "42n4", "007;-0"] {
        assert_eq!(process_line(line), process_line(line));
    }
}

#[test]
fn output_has_one_line_for_each_literal() {
    for line in ["", ";", "5", "5;", "1;2;3", ";;1;;2;;", "-1; -2; -3; -4;"] {
        let tokens = Token::tokenize(line).unwrap();
        let literals = tokens.iter().filter(|t| matches!(t, Token::TokInt(_))).count();
        assert_eq!(process_line(line).unwrap().len(), literals);
    }
}

#[test]
fn leading_zeros_are_not_printed() {
    assert_eq!(process_line("007;-0"), Ok(vec!["7".to_string(), "0".to_string()]));
}

#[test]
fn line_error_messages() {
    assert_eq!(
        process_line("42n4").unwrap_err().message(),
        "Lex error: Encountered unknown token: 42n4"
    );
    assert_eq!(
        process_line("10 12").unwrap_err().message(),
        "parse error: too many expressions given!"
    );
    assert_eq!(
        LineError::Lex(crepl::lexer::Error::BadPattern).message(),
        "Lex error: Encountered a token pattern that the regex engine refuses"
    );
}

#[test]
fn line_given_rules() {
    assert_eq!(
        process_line_given(Token::init_handlers(), "42; 21;; 1;0;"),
        Ok(vec!["42".to_string(), "21".to_string(), "1".to_string(), "0".to_string()])
    );
    assert_eq!(
        process_line_given(Token::init_handlers(), "10 12"),
        Err(LineError::Parse(crepl::parser::Error::MultExpr))
    );
}

#[test]
fn line_given_a_refused_pattern() {
    for line in ["", "5", "10 12", "42n4"] {
        assert_eq!(
            process_line_given(Err(crepl::lexer::Error::BadPattern), line),
            Err(LineError::Lex(crepl::lexer::Error::BadPattern))
        );
    }
}

#[test]
fn line_is_never_a_refused_pattern() {
    for line in ["", "5", "10 12", "42n4"] {
        assert_ne!(process_line(line), Err(LineError::Lex(crepl::lexer::Error::BadPattern)));
    }
}
