//! One line through the whole pipeline: lexer, then parser, then
//! interpreter. Nothing is kept from one line to the next.

use crate::interp::{interp, output, texts};
use crate::lexer::{lex_line, standard_rules, CLangToken, Token};
use crate::parser::{parse, Expr};
use vstd::prelude::*;
use vstd::string::{StringExecFns, StringSliceAdditionalSpecFns};

verus! {

/// Why a line printed nothing.
#[derive(PartialEq, Debug)]
pub enum LineError<'a> {
    /// The lexer failed.
    Lex(crate::lexer::Error<'a>),
    /// The parser failed.
    Parse(crate::parser::Error),
}

/// What becomes of a line, as a plain value.
pub enum Outcome {
    /// The line is valid and prints these lines.
    Output(Seq<Seq<char>>),
    /// This word of the line, given as its bytes, is an unknown token.
    UnknownToken(Seq<u8>),
    /// Two expressions follow each other with no terminator between them.
    MultExpr,
}

/// What becomes of a line, given as its UTF-8 bytes, under the given rules.
/// An error of the lexer comes before one of the parser, and a line with an
/// error prints nothing.
pub open spec fn run_line(rules: Seq<CLangToken>, line: Seq<u8>) -> Outcome {
    match lex_line(rules, line) {
        Err(word) => Outcome::UnknownToken(word),
        Ok(tokens) => match parse(tokens) {
            Err(_) => Outcome::MultExpr,
            Ok(exprs) => Outcome::Output(output(exprs)),
        },
    }
}

/// The result of a call of the pipeline says what `outcome` says. A refused
/// pattern is no outcome of a line.
pub open spec fn reports(r: Result<Vec<String>, LineError<'_>>, outcome: Outcome) -> bool {
    match r {
        Ok(lines) => outcome == Outcome::Output(texts(lines@)),
        Err(LineError::Lex(crate::lexer::Error::UnknownToken(word))) => outcome
            == Outcome::UnknownToken(word.spec_bytes()),
        Err(LineError::Lex(crate::lexer::Error::BadPattern)) => false,
        Err(LineError::Parse(crate::parser::Error::MultExpr)) => outcome == Outcome::MultExpr,
    }
}

/// The regex engine refused a pattern, so the line was not looked at.
pub open spec fn is_bad_pattern(r: Result<Vec<String>, LineError<'_>>) -> bool {
    r matches Err(LineError::Lex(crate::lexer::Error::BadPattern))
}

/// Runs one line through lexer, parser and interpreter with the rules of the
/// language, compiled for this line, and gives the lines to print or the
/// error to report. Unless the engine refuses a pattern of the rules, the
/// result is what becomes of the line under them. What is returned for each
/// outcome of compiling is said by `process_line_given`.
pub fn process_line(line: &str) -> (r: Result<Vec<String>, LineError<'_>>)
    ensures
        is_bad_pattern(r) || reports(r, run_line(standard_rules(), line.spec_bytes())),
{
    process_line_given(Token::init_handlers(), line)
}

/// Runs one line through the pipeline, given what compiling the rules came
/// to: with rules, what becomes of the line under them; with an error, that
/// error as an error of the lexer, and the line is not looked at.
pub fn process_line_given<'a>(
    handlers: Result<Vec<CLangToken>, crate::lexer::Error<'static>>,
    line: &'a str,
) -> (r: Result<Vec<String>, LineError<'a>>)
    ensures
        match handlers {
            Ok(rules) => reports(r, run_line(rules@, line.spec_bytes())),
            Err(e) => r == Err::<Vec<String>, LineError<'a>>(LineError::Lex(e)),
        },
{
    match handlers {
        Ok(rules) => process_line_with(&rules, line),
        Err(e) => Err(LineError::Lex(e)),
    }
}

/// Runs one line through lexer, parser and interpreter with the given rules
/// and gives the lines to print, or the error to report.
pub fn process_line_with<'a>(handlers: &Vec<CLangToken>, line: &'a str) -> (r: Result<
    Vec<String>,
    LineError<'a>,
>)
    ensures
        reports(r, run_line(handlers@, line.spec_bytes())),
{
    let tokens = match Token::tokenize_with(handlers, line) {
        Ok(v) => v,
        Err(e) => {
            return Err(LineError::Lex(e));
        },
    };
    let exprs = match Expr::parse_statement(tokens) {
        Ok(v) => v,
        Err(e) => {
            return Err(LineError::Parse(e));
        },
    };
    Ok(interp(exprs))
}

impl<'a> LineError<'a> {
    /// The message that a user reads: the stage that failed, then its error.
    pub fn message(&self) -> (r: String)
        ensures
            r@ == match *self {
                LineError::Lex(e) => "Lex error: "@ + e.message_text(),
                LineError::Parse(e) => "parse error: "@ + e.message_text(),
            },
    {
        match self {
            LineError::Lex(e) => {
                let mut text = String::from_str("Lex error: ");
                let detail = e.message();
                text.append(detail.as_str());
                text
            },
            LineError::Parse(e) => {
                let mut text = String::from_str("parse error: ");
                let detail = e.message();
                text.append(detail.as_str());
                text
            },
        }
    }
}

} // verus!
