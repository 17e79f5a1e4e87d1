//! The lexer: from a line of text to a stream of tokens.
//!
//! A line is split on ASCII whitespace into words. Each word is scanned from
//! its first byte: at the cursor the recognizer rules are tried in their
//! fixed order, the first that matches there yields a token and moves the
//! cursor past the text it matched, and the trial starts again with the first
//! rule. A word that the rules do not consume to its end is an unknown token.

use crate::decimal::{int_value, parse_int};
use crate::engine::{compile, compiled, find_at, regex_find_at};
use crate::words::{bytes_of, split_words, words};
use regex::Regex;
use std::collections::VecDeque;
use vstd::prelude::*;
use vstd::string::{StringExecFns, StringSliceAdditionalSpecFns};

verus! {

/// The pattern of integer literals: an optional minus sign and one or more
/// decimal digits.
pub const INT_PATTERN: &'static str = r"-?\d+";

/// The pattern of the statement terminator.
pub const SEMICOLON_PATTERN: &'static str = ";";

/// A lexical unit.
#[derive(PartialEq, Debug)]
pub enum Token {
    /// An integer literal with its value.
    TokInt(i32),
    /// The statement terminator.
    TokSemicolon,
}

/// Why a line has no token stream.
#[derive(PartialEq, Debug)]
pub enum Error<'a> {
    /// The rules do not consume this word of the line to its end.
    UnknownToken(&'a str),
    /// The regex engine refused the pattern of a rule, so the line was not
    /// looked at.
    BadPattern,
}

/// What a rule makes of the text that its pattern matched.
#[derive(PartialEq, Eq, Clone, Copy, Debug)]
pub enum TokenKind {
    /// The text is read as a signed decimal integer.
    Int,
    /// The text stands for the statement terminator, whatever it holds.
    Semicolon,
}

/// A recognizer rule: a compiled pattern and the kind of token it yields.
pub struct CLangToken {
    pub regex: Regex,
    pub kind: TokenKind,
}

/// The outcome of lexing as a plain value: the tokens of the line, or the
/// bytes of the first word that is an unknown token.
pub type Lexed = Result<Seq<Token>, Seq<u8>>;

/// What a rule of the given kind makes of a word at the cursor `pos`, when
/// the search from `pos` for its pattern reports `found`: a token and the
/// cursor behind it, or `None` where the rule does not apply.
///
/// The rule applies only to a match that begins exactly at the cursor, ends
/// within the word and is not empty, so that the cursor moves forward. An
/// integer rule applies only where the matched text has a 32-bit value.
pub open spec fn accept(kind: TokenKind, word: Seq<u8>, pos: int, found: Option<(usize, usize)>)
    -> Option<(Token, int)> {
    match found {
        Some((start, end)) => {
            if start == pos && pos < end <= word.len() {
                match kind {
                    TokenKind::Int => match int_value(word.subrange(pos, end as int)) {
                        Some(value) => Some((Token::TokInt(value), end as int)),
                        None => None,
                    },
                    TokenKind::Semicolon => Some((Token::TokSemicolon, end as int)),
                }
            } else {
                None
            }
        },
        None => None,
    }
}

/// What a rule yields in a word at the cursor `pos`.
pub open spec fn rule_match(rule: CLangToken, word: Seq<u8>, pos: int) -> Option<(Token, int)> {
    accept(rule.kind, word, pos, regex_find_at(rule.regex, word, pos as usize))
}

/// What the first of the rules `rules[i..]` that applies at the cursor
/// yields.
pub open spec fn first_match(rules: Seq<CLangToken>, word: Seq<u8>, pos: int, i: int) -> Option<
    (Token, int),
>
    decreases rules.len() - i,
{
    if 0 <= i < rules.len() {
        match rule_match(rules[i], word, pos) {
            Some(step) => Some(step),
            None => first_match(rules, word, pos, i + 1),
        }
    } else {
        None
    }
}

/// Scans a word from the cursor `pos`: the tokens that the rules yield one
/// after another, and the cursor at which no rule applies any more.
pub open spec fn scan(rules: Seq<CLangToken>, word: Seq<u8>, pos: int) -> (Seq<Token>, int)
    decreases word.len() - pos,
    via scan_decreases
{
    match first_match(rules, word, pos, 0) {
        Some((token, end)) => {
            let rest = scan(rules, word, end);
            (seq![token] + rest.0, rest.1)
        },
        None => (Seq::empty(), pos),
    }
}

#[via_fn]
proof fn scan_decreases(rules: Seq<CLangToken>, word: Seq<u8>, pos: int) {
    lemma_first_match_advances(rules, word, pos, 0);
}

/// The tokens of a word, or `None` where the scan stops before its end.
pub open spec fn lex_word(rules: Seq<CLangToken>, word: Seq<u8>) -> Option<Seq<Token>> {
    if scan(rules, word, 0).1 == word.len() {
        Some(scan(rules, word, 0).0)
    } else {
        None
    }
}

/// The tokens of a sequence of words in order, or the first word among them
/// that is an unknown token.
pub open spec fn lex_words(rules: Seq<CLangToken>, ws: Seq<Seq<u8>>) -> Lexed
    decreases ws.len(),
{
    if ws.len() == 0 {
        Ok(Seq::empty())
    } else {
        match lex_word(rules, ws[0]) {
            None => Err(ws[0]),
            Some(tokens) => prepend(tokens, lex_words(rules, ws.drop_first())),
        }
    }
}

/// Puts tokens in front of an outcome that has tokens.
pub open spec fn prepend(tokens: Seq<Token>, rest: Lexed) -> Lexed {
    match rest {
        Ok(more) => Ok(tokens + more),
        Err(word) => Err(word),
    }
}

/// The outcome of lexing a line, given as its UTF-8 bytes.
pub open spec fn lex_line(rules: Seq<CLangToken>, line: Seq<u8>) -> Lexed {
    lex_words(rules, words(line))
}

/// The rule that compiling `pattern` gives, for tokens of the given kind.
pub open spec fn rule_of(pattern: Seq<char>, kind: TokenKind) -> CLangToken {
    CLangToken { regex: compiled(pattern), kind }
}

/// The rules of the language in their order: integer literals first, then
/// the statement terminator.
pub open spec fn standard_rules() -> Seq<CLangToken> {
    seq![
        rule_of(INT_PATTERN@, TokenKind::Int),
        rule_of(SEMICOLON_PATTERN@, TokenKind::Semicolon),
    ]
}

/// The result of a lexer call says what `outcome` says: the same tokens, or
/// the same word. A refused pattern is no outcome of lexing.
pub open spec fn reports(r: Result<VecDeque<Token>, Error<'_>>, outcome: Lexed) -> bool {
    match r {
        Ok(tokens) => outcome == Ok::<Seq<Token>, Seq<u8>>(tokens@),
        Err(Error::UnknownToken(word)) => outcome == Err::<Seq<Token>, Seq<u8>>(
            word.spec_bytes(),
        ),
        Err(Error::BadPattern) => false,
    }
}

/// A rule that applies moves the cursor forward and keeps it in the word.
pub proof fn lemma_first_match_advances(rules: Seq<CLangToken>, word: Seq<u8>, pos: int, i: int)
    ensures
        first_match(rules, word, pos, i) matches Some((_, end)) ==> pos < end <= word.len(),
    decreases rules.len() - i,
{
    if 0 <= i < rules.len() {
        lemma_first_match_advances(rules, word, pos, i + 1);
    }
}

impl CLangToken {
    /// A rule from its parts.
    pub fn new(regex: Regex, kind: TokenKind) -> (r: CLangToken)
        ensures
            r.regex == regex,
            r.kind == kind,
    {
        CLangToken { regex, kind }
    }

    /// Compiles a pattern into a rule for tokens of the given kind. The
    /// regex engine decides whether it accepts the pattern; what becomes of
    /// its answer is said by `from_compiled`.
    pub fn compile(pattern: &str, kind: TokenKind) -> (r: Result<CLangToken, Error<'static>>)
        ensures
            match r {
                Ok(rule) => rule == rule_of(pattern@, kind),
                Err(e) => e == Error::BadPattern,
            },
    {
        Self::from_compiled(compile(pattern), kind)
    }

    /// The rule for tokens of the given kind from what the regex engine made
    /// of its pattern: the rule with that regex, or `BadPattern` where the
    /// engine refused the pattern.
    pub fn from_compiled(regex: Option<Regex>, kind: TokenKind) -> (r: Result<
        CLangToken,
        Error<'static>,
    >)
        ensures
            match regex {
                Some(built) => r matches Ok(rule) && rule.regex == built && rule.kind == kind,
                None => r == Err::<CLangToken, Error<'static>>(Error::BadPattern),
            },
    {
        match regex {
            Some(built) => Ok(CLangToken::new(built, kind)),
            None => Err(Error::BadPattern),
        }
    }

    /// Decides what this rule makes of `word` at the cursor `pos`, given what
    /// the search for its pattern from `pos` reported.
    pub fn accept(&self, word: &[u8], pos: usize, found: Option<(usize, usize)>) -> (r: Option<
        (Token, usize),
    >)
        ensures
            match r {
                Some((token, end)) => accept(self.kind, word@, pos as int, found) == Some(
                    (token, end as int),
                ),
                None => accept(self.kind, word@, pos as int, found) is None,
            },
    {
        match found {
            Some((start, end)) => {
                if start == pos && pos < end && end <= word.len() {
                    match self.kind {
                        TokenKind::Int => match parse_int(&word[pos..end]) {
                            Some(value) => Some((Token::TokInt(value), end)),
                            None => None,
                        },
                        TokenKind::Semicolon => Some((Token::TokSemicolon, end)),
                    }
                } else {
                    None
                }
            },
            None => None,
        }
    }

    /// Tries this rule on `word` at the cursor `pos`: searches for its
    /// pattern from there and decides on what was found. At the end of the
    /// word and beyond it no rule applies.
    pub fn match_at(&self, word: &str, pos: usize) -> (r: Option<(Token, usize)>)
        ensures
            match r {
                Some((token, end)) => rule_match(*self, word.spec_bytes(), pos as int) == Some(
                    (token, end as int),
                ),
                None => rule_match(*self, word.spec_bytes(), pos as int) is None,
            },
    {
        let bytes = word.as_bytes();
        if pos > bytes.len() {
            return None;
        }
        let found = find_at(&self.regex, word, pos);
        self.accept(bytes, pos, found)
    }
}

impl Token {
    /// Lexes a line with the rules of the language.
    ///
    /// The rules are compiled first. Unless the engine refuses one of their
    /// patterns, the result is the outcome of lexing the line with them: the
    /// tokens of all words in order, or the first word that the rules do not
    /// consume to its end. What is returned for each outcome of compiling is
    /// said by `tokenize_given`.
    pub fn tokenize(line: &str) -> (r: Result<VecDeque<Token>, Error<'_>>)
        ensures
            r matches Err(Error::BadPattern) || reports(
                r,
                lex_line(standard_rules(), line.spec_bytes()),
            ),
    {
        Self::tokenize_given(Self::init_handlers(), line)
    }

    /// Lexes a line, given what compiling the rules came to: with rules, the
    /// outcome of lexing the line with them; with an error, that error, and
    /// the line is not looked at.
    pub fn tokenize_given<'a>(
        handlers: Result<Vec<CLangToken>, Error<'static>>,
        line: &'a str,
    ) -> (r: Result<VecDeque<Token>, Error<'a>>)
        ensures
            match handlers {
                Ok(rules) => reports(r, lex_line(rules@, line.spec_bytes())),
                Err(e) => r == Err::<VecDeque<Token>, Error<'a>>(e),
            },
    {
        match handlers {
            Ok(rules) => Self::tokenize_with(&rules, line),
            Err(e) => Err(e),
        }
    }

    /// Lexes a line with the given rules, tried in their order.
    pub fn tokenize_with<'a>(handlers: &Vec<CLangToken>, line: &'a str) -> (r: Result<
        VecDeque<Token>,
        Error<'a>,
    >)
        ensures
            reports(r, lex_line(handlers@, line.spec_bytes())),
    {
        let ws = split_words(line);
        let mut toks: VecDeque<Token> = VecDeque::new();
        let mut k: usize = 0;
        let ghost all = bytes_of(ws@);
        assert(all.skip(0) =~= all);
        while k < ws.len()
            invariant
                k <= ws.len(),
                all == bytes_of(ws@),
                all == words(line.spec_bytes()),
                lex_words(handlers@, all) == prepend(toks@, lex_words(handlers@, all.skip(k as int))),
            decreases ws.len() - k,
        {
            let word = ws[k];
            let ghost before = toks@;
            let ghost tail = all.skip(k as int);
            assert(tail[0] == word.spec_bytes());
            assert(tail.drop_first() =~= all.skip(k + 1));
            if !Self::scan_word(handlers, word, &mut toks) {
                return Err(Error::UnknownToken(word));
            }
            proof {
                let found = lex_word(handlers@, word.spec_bytes())->0;
                let rest = lex_words(handlers@, all.skip(k + 1));
                match rest {
                    Ok(more) => {
                        assert(before + (found + more) =~= (before + found) + more);
                    },
                    Err(_) => {},
                }
            }
            k += 1;
        }
        Ok(toks)
    }

    /// Scans one word and appends the tokens it yields to `toks`. Tells
    /// whether the rules consumed the word to its end; if not, `toks` has
    /// gained the tokens that were recognized before the scan stopped.
    pub fn scan_word(handlers: &Vec<CLangToken>, word: &str, toks: &mut VecDeque<Token>) -> (ok:
        bool)
        ensures
            final(toks)@ == old(toks)@ + scan(handlers@, word.spec_bytes(), 0).0,
            ok == lex_word(handlers@, word.spec_bytes()).is_some(),
    {
        let num_handlers = handlers.len();
        let length = word.as_bytes().len();
        let mut pos: usize = 0;
        let mut i: usize = 0;
        let ghost w = word.spec_bytes();
        let ghost mut seen: Seq<Token> = Seq::empty();
        assert(old(toks)@ + seen =~= old(toks)@);
        assert(seen + scan(handlers@, w, 0).0 =~= scan(handlers@, w, 0).0);
        while i < num_handlers
            invariant
                num_handlers == handlers@.len(),
                length == w.len(),
                w == word.spec_bytes(),
                i <= num_handlers,
                pos <= length,
                toks@ == old(toks)@ + seen,
                scan(handlers@, w, 0).0 == seen + scan(handlers@, w, pos as int).0,
                scan(handlers@, w, 0).1 == scan(handlers@, w, pos as int).1,
                first_match(handlers@, w, pos as int, 0) == first_match(
                    handlers@,
                    w,
                    pos as int,
                    i as int,
                ),
            decreases length - pos, num_handlers - i,
        {
            match handlers[i].match_at(word, pos) {
                Some((token, end)) => {
                    proof {
                        let rest = scan(handlers@, w, end as int).0;
                        assert(seen + (seq![token] + rest) =~= seen.push(token) + rest);
                        assert((old(toks)@ + seen).push(token) =~= old(toks)@ + seen.push(token));
                        seen = seen.push(token);
                    }
                    toks.push_back(token);
                    pos = end;
                    i = 0;
                },
                None => {
                    i += 1;
                },
            }
        }
        assert(seen + Seq::<Token>::empty() =~= seen);
        pos == length
    }

    /// Compiles the rules of the language, in their order. The regex engine
    /// decides whether it accepts their patterns; what becomes of its answers
    /// is said by `collect_handlers`.
    pub fn init_handlers() -> (r: Result<Vec<CLangToken>, Error<'static>>)
        ensures
            match r {
                Ok(handlers) => handlers@ == standard_rules(),
                Err(e) => e == Error::BadPattern,
            },
    {
        let int_rule = CLangToken::compile(INT_PATTERN, TokenKind::Int);
        let semicolon_rule = CLangToken::compile(SEMICOLON_PATTERN, TokenKind::Semicolon);
        Self::collect_handlers(int_rule, semicolon_rule)
    }

    /// Puts two rules in their order of priority, given what compiling each
    /// came to: both rules where both were compiled, and otherwise the error
    /// of the first that was not.
    pub fn collect_handlers(
        first: Result<CLangToken, Error<'static>>,
        second: Result<CLangToken, Error<'static>>,
    ) -> (r: Result<Vec<CLangToken>, Error<'static>>)
        ensures
            match (first, second) {
                (Ok(a), Ok(b)) => r matches Ok(handlers) && handlers@ == seq![a, b],
                (Err(e), _) => r == Err::<Vec<CLangToken>, Error<'static>>(e),
                (Ok(_), Err(e)) => r == Err::<Vec<CLangToken>, Error<'static>>(e),
            },
    {
        let a = match first {
            Ok(rule) => rule,
            Err(e) => {
                return Err(e);
            },
        };
        let b = match second {
            Ok(rule) => rule,
            Err(e) => {
                return Err(e);
            },
        };
        let mut handlers: Vec<CLangToken> = Vec::new();
        handlers.push(a);
        handlers.push(b);
        assert(handlers@ =~= seq![a, b]);
        Ok(handlers)
    }
}

impl<'a> Error<'a> {
    /// The characters of the message.
    pub open spec fn message_text(&self) -> Seq<char> {
        match *self {
            Error::UnknownToken(word) => "Encountered unknown token: "@ + word@,
            Error::BadPattern => "Encountered a token pattern that the regex engine refuses"@,
        }
    }

    /// The message that a user reads.
    pub fn message(&self) -> (r: String)
        ensures
            r@ == self.message_text(),
    {
        match self {
            Error::UnknownToken(word) => {
                let mut text = String::from_str("Encountered unknown token: ");
                text.append(word);
                text
            },
            Error::BadPattern => String::from_str(
                "Encountered a token pattern that the regex engine refuses",
            ),
        }
    }
}

} // verus!
