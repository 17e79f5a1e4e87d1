//! The parser: from a stream of tokens to a sequence of statements.
//!
//! A line holds any number of statements, each an expression followed by a
//! terminator, and after them at most one bare expression. A terminator with
//! no expression before it is an empty statement and yields nothing. Two
//! expressions with no terminator between them are an error.

use crate::lexer::Token;
use std::collections::VecDeque;
use vstd::prelude::*;
use vstd::string::StringExecFns;

verus! {

/// An expression. That there is none is said by an `Option` around it.
#[derive(PartialEq, Debug)]
pub enum Expr {
    /// An integer constant with its value.
    CInt(i32),
}

/// Why a token stream has no statement sequence.
#[derive(PartialEq, Debug)]
pub enum Error {
    /// Two expressions follow each other with no terminator between them.
    MultExpr,
}

/// The outcome of parsing as a plain value.
pub type Parsed = Result<Seq<Expr>, Error>;

/// Two integer literals stand side by side at the positions `i` and `i + 1`.
pub open spec fn adjacent_literals_at(tokens: Seq<Token>, i: int) -> bool {
    0 <= i < tokens.len() - 1 && tokens[i] is TokInt && tokens[i + 1] is TokInt
}

/// Two integer literals stand side by side somewhere in the stream.
pub open spec fn has_adjacent_literals(tokens: Seq<Token>) -> bool {
    exists|i: int| adjacent_literals_at(tokens, i)
}

/// The integer literals of the stream as expressions, in the order of the
/// stream; terminators yield nothing.
pub open spec fn expressions_of(tokens: Seq<Token>) -> Seq<Expr>
    decreases tokens.len(),
{
    if tokens.len() == 0 {
        Seq::empty()
    } else {
        match tokens.last() {
            Token::TokInt(value) => expressions_of(tokens.drop_last()).push(Expr::CInt(value)),
            Token::TokSemicolon => expressions_of(tokens.drop_last()),
        }
    }
}

/// The outcome of parsing a token stream: an error where two literals stand
/// side by side, and otherwise every literal of the stream, in order.
pub open spec fn parse(tokens: Seq<Token>) -> Parsed {
    if has_adjacent_literals(tokens) {
        Err(Error::MultExpr)
    } else {
        Ok(expressions_of(tokens))
    }
}

/// The result of a parser call says what `outcome` says.
pub open spec fn reports(r: Result<Vec<Expr>, Error>, outcome: Parsed) -> bool {
    match r {
        Ok(statements) => outcome == Ok::<Seq<Expr>, Error>(statements@),
        Err(error) => outcome == Err::<Seq<Expr>, Error>(error),
    }
}

/// What one more token adds to the expressions of the tokens before it.
pub proof fn lemma_expressions_step(tokens: Seq<Token>, n: int)
    requires
        0 <= n < tokens.len(),
    ensures
        expressions_of(tokens.take(n + 1)) == match tokens[n] {
            Token::TokInt(value) => expressions_of(tokens.take(n)).push(Expr::CInt(value)),
            Token::TokSemicolon => expressions_of(tokens.take(n)),
        },
{
    assert(tokens.take(n + 1).drop_last() =~= tokens.take(n));
}

impl Expr {
    /// Parses a token stream into the statements of a line, in source order.
    /// Fails exactly where two expressions follow each other with no
    /// terminator between them.
    pub fn parse_statement(tokens: VecDeque<Token>) -> (r: Result<Vec<Expr>, Error>)
        ensures
            reports(r, parse(tokens@)),
    {
        let ghost all = tokens@;
        let mut queue = tokens;
        let ghost mut done: int = 0;
        let mut statements: Vec<Expr> = Vec::new();
        assert(all.take(0) =~= Seq::<Token>::empty());
        assert(all.skip(0) =~= all);
        while queue.len() > 0
            invariant
                all == tokens@,
                0 <= done <= all.len(),
                queue@ == all.skip(done),
                statements@ == expressions_of(all.take(done)),
                done == 0 || done == all.len() || all[done - 1] is TokSemicolon,
                forall|i: int| 0 <= i < done - 1 ==> !adjacent_literals_at(all, i),
            decreases queue@.len(),
        {
            proof {
                lemma_expressions_step(all, done);
            }
            if let Some(e) = Self::parse_expr(&mut queue) {
                assert(queue@ =~= all.skip(done + 1));
                match queue.pop_front() {
                    Some(Token::TokSemicolon) => {
                        proof {
                            lemma_expressions_step(all, done + 1);
                            assert(queue@ =~= all.skip(done + 2));
                            done = done + 2;
                        }
                        statements.push(e);
                    },
                    Some(_) => {
                        assert(adjacent_literals_at(all, done));
                        return Err(Error::MultExpr);
                    },
                    None => {
                        proof {
                            done = done + 1;
                        }
                        statements.push(e);
                    },
                }
            } else {
                queue.pop_front();
                proof {
                    assert(queue@ =~= all.skip(done + 1));
                    done = done + 1;
                }
            }
        }
        assert(all.take(done) =~= all);
        Ok(statements)
    }

    /// Takes one expression from the front of the stream: the integer
    /// literal that stands there, as a constant. Where a terminator stands
    /// there, or nothing, the stream is left as it is and there is no
    /// expression.
    pub fn parse_expr(tokens: &mut VecDeque<Token>) -> (r: Option<Expr>)
        ensures
            match r {
                Some(e) => old(tokens)@.len() > 0 && old(tokens)@[0] == Token::TokInt(e->0)
                    && final(tokens)@ == old(tokens)@.drop_first(),
                None => final(tokens)@ == old(tokens)@ && (old(tokens)@.len() > 0 ==> old(tokens)@[0]
                    is TokSemicolon),
            },
    {
        match tokens.pop_front() {
            Some(Token::TokInt(i)) => {
                assert(tokens@ =~= old(tokens)@.drop_first());
                Some(Expr::CInt(i))
            },
            Some(token) => {
                tokens.push_front(token);
                assert(tokens@ =~= old(tokens)@);
                None
            },
            None => None,
        }
    }
}

impl Error {
    /// The characters of the message.
    pub open spec fn message_text(&self) -> Seq<char> {
        "too many expressions given!"@
    }

    /// The message that a user reads.
    pub fn message(&self) -> (r: String)
        ensures
            r@ == self.message_text(),
    {
        String::from_str("too many expressions given!")
    }
}

} // verus!
