//! What holds of the pipeline as a whole.

use crate::interp::{output, texts};
use crate::lexer::{lex_line, CLangToken, Token};
use crate::parser::{adjacent_literals_at, expressions_of, has_adjacent_literals, parse, Expr};
use crate::pipeline::{reports, run_line, LineError, Outcome};
use crate::words::{
    is_space, lemma_skip_spaces, lemma_skip_word, skip_spaces, skip_word, words, words_from,
};
use vstd::prelude::*;
use vstd::utf8::encode_utf8_decode_utf8;

verus! {

/// The number of integer literals in a token stream.
pub open spec fn literal_count(tokens: Seq<Token>) -> nat {
    tokens.filter(|t: Token| t is TokInt).len()
}

/// Two results of the pipeline are the same to an observer: the same lines
/// to print, or the same error with the same word.
pub open spec fn same_result(
    a: Result<Vec<String>, LineError<'_>>,
    b: Result<Vec<String>, LineError<'_>>,
) -> bool {
    match (a, b) {
        (Ok(x), Ok(y)) => texts(x@) == texts(y@),
        (
            Err(LineError::Lex(crate::lexer::Error::UnknownToken(x))),
            Err(LineError::Lex(crate::lexer::Error::UnknownToken(y))),
        ) => x@ == y@,
        (
            Err(LineError::Parse(crate::parser::Error::MultExpr)),
            Err(LineError::Parse(crate::parser::Error::MultExpr)),
        ) => true,
        _ => false,
    }
}

/// The pipeline is a function of the rules and the line: two runs with the
/// same rules on the same line give the same result. No other state has a
/// part in it.
pub proof fn lemma_pipeline_is_deterministic(
    rules: Seq<CLangToken>,
    line: Seq<u8>,
    a: Result<Vec<String>, LineError<'_>>,
    b: Result<Vec<String>, LineError<'_>>,
)
    requires
        reports(a, run_line(rules, line)),
        reports(b, run_line(rules, line)),
    ensures
        same_result(a, b),
{
    match (a, b) {
        (
            Err(LineError::Lex(crate::lexer::Error::UnknownToken(x))),
            Err(LineError::Lex(crate::lexer::Error::UnknownToken(y))),
        ) => {
            encode_utf8_decode_utf8(x@);
            encode_utf8_decode_utf8(y@);
        },
        _ => {},
    }
}

/// Every word of a line is non-empty and holds no whitespace byte. With
/// `i` at 0 the words are those of the whole line.
pub proof fn lemma_words_have_no_space(s: Seq<u8>, i: int, k: int)
    requires
        0 <= i <= s.len(),
        0 <= k < words_from(s, i).len(),
    ensures
        words_from(s, i)[k].len() > 0,
        forall|j: int|
            0 <= j < words_from(s, i)[k].len() ==> !is_space(#[trigger] words_from(s, i)[k][j]),
    decreases s.len() - i,
{
    let a = skip_spaces(s, i);
    let b = skip_word(s, a);
    lemma_skip_spaces(s, i);
    lemma_skip_word(s, a);
    if k > 0 {
        lemma_words_have_no_space(s, b, k - 1);
    }
}

/// A line of no bytes has no tokens and no statements, and prints nothing,
/// whatever the rules are.
pub proof fn lemma_empty_line(rules: Seq<CLangToken>)
    ensures
        lex_line(rules, Seq::empty()) == Ok::<Seq<Token>, Seq<u8>>(Seq::empty()),
        parse(Seq::empty()) == Ok::<Seq<Expr>, crate::parser::Error>(Seq::empty()),
        run_line(rules, Seq::empty()) == Outcome::Output(Seq::empty()),
{
    assert(words(Seq::<u8>::empty()) =~= Seq::<Seq<u8>>::empty());
    assert(!has_adjacent_literals(Seq::<Token>::empty()));
    assert(output(Seq::<Expr>::empty()) =~= Seq::<Seq<char>>::empty());
}

/// A line of whitespace alone has no words, so it has no tokens and prints
/// nothing, whatever the rules are.
pub proof fn lemma_blank_line(rules: Seq<CLangToken>, line: Seq<u8>)
    requires
        forall|i: int| 0 <= i < line.len() ==> is_space(#[trigger] line[i]),
    ensures
        words(line) == Seq::<Seq<u8>>::empty(),
        run_line(rules, line) == Outcome::Output(Seq::empty()),
{
    lemma_skip_spaces(line, 0);
    assert(words(line) =~= Seq::<Seq<u8>>::empty());
    assert(!has_adjacent_literals(Seq::<Token>::empty()));
    assert(output(Seq::<Expr>::empty()) =~= Seq::<Seq<char>>::empty());
}

/// Parsing yields one statement for each integer literal of the stream.
pub proof fn lemma_one_statement_per_literal(tokens: Seq<Token>)
    ensures
        expressions_of(tokens).len() == literal_count(tokens),
    decreases tokens.len(),
{
    reveal(Seq::filter);
    if tokens.len() > 0 {
        lemma_one_statement_per_literal(tokens.drop_last());
    }
}

/// In a stream that parses, a terminator follows every integer literal but
/// the last token: only the last statement of a line can be a bare
/// expression.
pub proof fn lemma_statements_are_terminated(tokens: Seq<Token>, i: int)
    requires
        parse(tokens) is Ok,
        0 <= i < tokens.len() - 1,
        tokens[i] is TokInt,
    ensures
        tokens[i + 1] is TokSemicolon,
{
    assert(!adjacent_literals_at(tokens, i));
}

/// A valid line prints as many lines as it has integer literals.
pub proof fn lemma_output_count(rules: Seq<CLangToken>, line: Seq<u8>)
    requires
        run_line(rules, line) is Output,
    ensures
        lex_line(rules, line) matches Ok(tokens) && run_line(rules, line) matches Outcome::Output(
            lines,
        ) && lines.len() == literal_count(tokens),
{
    let tokens = lex_line(rules, line)->Ok_0;
    lemma_one_statement_per_literal(tokens);
}

} // verus!
