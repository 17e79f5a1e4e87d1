//! The interpreter: from the statements of a line to the lines to print.
//!
//! There is one kind of expression, the integer constant, and its value is
//! the constant itself. Each statement yields one line of output, its value
//! in signed decimal, in the order of the statements.

use crate::decimal::{format_int, int_text};
use crate::parser::Expr;
use vstd::prelude::*;

verus! {

/// The value of an expression.
pub open spec fn value_of(e: Expr) -> int {
    match e {
        Expr::CInt(value) => value as int,
    }
}

/// The lines that a sequence of statements prints: the value of each in
/// decimal, in order.
pub open spec fn output(exprs: Seq<Expr>) -> Seq<Seq<char>> {
    exprs.map_values(|e: Expr| int_text(value_of(e)))
}

/// The characters of each of a sequence of strings.
pub open spec fn texts(lines: Seq<String>) -> Seq<Seq<char>> {
    lines.map_values(|line: String| line@)
}

impl Expr {
    /// Evaluates the expression.
    pub fn eval(&self) -> (v: i32)
        ensures
            v == value_of(*self),
    {
        match self {
            Expr::CInt(value) => *value,
        }
    }
}

/// Evaluates the statements in order and gives the lines to print, one for
/// each statement.
pub fn interp(exprs: Vec<Expr>) -> (lines: Vec<String>)
    ensures
        texts(lines@) == output(exprs@),
{
    let mut lines: Vec<String> = Vec::new();
    let mut i: usize = 0;
    while i < exprs.len()
        invariant
            i <= exprs.len(),
            texts(lines@) == output(exprs@.take(i as int)),
        decreases exprs.len() - i,
    {
        let line = format_int(exprs[i].eval());
        proof {
            let before = exprs@.take(i as int);
            assert(exprs@.take(i + 1) =~= before.push(exprs@[i as int]));
            assert(output(before.push(exprs@[i as int])) =~= output(before).push(line@));
            assert(texts(lines@.push(line)) =~= texts(lines@).push(line@));
        }
        lines.push(line);
        i += 1;
    }
    assert(exprs@.take(exprs@.len() as int) =~= exprs@);
    lines
}

} // verus!
