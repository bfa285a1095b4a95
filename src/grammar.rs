use vstd::prelude::*;

use crate::chunk::OpCode;
use crate::compiler::rule_of;
use crate::scanner::{line_at, next_token, TokenType};

verus! {

/// Where a parse stands: the current token (kind and lexeme) and how much of
/// the source has been scanned.
pub ghost struct PState {
    pub kind: TokenType,
    pub lexeme: Seq<char>,
    pub line: nat,
    pub pos: int,
}

/// A compile error as reported: its line, the lexeme it is reported at
/// (`None` for the end of input), and its message.
pub ghost struct Failure {
    pub line: nat,
    pub location: Option<Seq<char>>,
    pub message: Seq<char>,
}

/// What parsing a piece of source produces: its code, its number literals
/// in order, and where the parse stands afterwards.
pub ghost struct Parsed {
    pub code: Seq<OpCode>,
    pub lits: Seq<Seq<char>>,
    pub end: PState,
}

/// The token read from position `pos`; `Eof` once only whitespace and
/// comments are left.
pub open spec fn read_token(s: Seq<char>, pos: int) -> PState {
    match next_token(s, pos) {
        Some(x) => PState { kind: x.0, lexeme: x.1, line: x.2, pos: x.3 },
        None => PState {
            kind: TokenType::Eof,
            lexeme: Seq::empty(),
            line: line_at(s, s.len() as int),
            pos: s.len() as int,
        },
    }
}

/// Input left to read: the unread characters, and the current token.
pub open spec fn token_measure(s: Seq<char>, st: PState) -> int {
    (s.len() - st.pos) + if st.kind == TokenType::Eof {
        0int
    } else {
        1int
    }
}

/// Moving to the next token; a lexical error ends the parse.
pub open spec fn advance_spec(s: Seq<char>, st: PState) -> Option<PState> {
    let t = read_token(s, st.pos);
    if t.kind == TokenType::Error {
        None
    } else {
        Some(t)
    }
}

pub open spec fn binary_opcode(kind: TokenType) -> OpCode {
    match kind {
        TokenType::Plus => OpCode::Add,
        TokenType::Minus => OpCode::Subtract,
        TokenType::Star => OpCode::Multiply,
        _ => OpCode::Divide,
    }
}

/// Whether the parse moves from `from` to `to` with fewer tokens left.
pub open spec fn shrinks(s: Seq<char>, from: PState, to: PState) -> bool {
    0 <= token_measure(s, to) < token_measure(s, from)
}

/// An expression whose operators bind at least as tightly as level `prec`,
/// read from the token after the current one of `st`; its literals take
/// pool indices from `n` on. `None` where the tokens form no such
/// expression, or an index would pass what an operand can hold.
pub open spec fn parse_expr(s: Seq<char>, st: PState, prec: u8, n: nat) -> Option<Parsed>
    decreases token_measure(s, st), 1nat,
{
    match advance_spec(s, st) {
        None => None,
        Some(st1) => if shrinks(s, st, st1) {
            match parse_prefix(s, st.kind, st.lexeme, st1, n) {
                None => None,
                Some(left) => if shrinks(s, st, left.end) {
                    parse_infix(s, left, prec, n)
                } else {
                    None
                },
            }
        } else {
            None
        },
    }
}

/// What a token of kind `kind` and text `lexeme` starts: a number, a
/// parenthesised expression, or a negation at unary level.
pub open spec fn parse_prefix(
    s: Seq<char>,
    kind: TokenType,
    lexeme: Seq<char>,
    st: PState,
    n: nat,
) -> Option<Parsed>
    decreases token_measure(s, st), 2nat,
{
    if kind == TokenType::Number {
        if n > 255 {
            None
        } else {
            Some(Parsed { code: seq![OpCode::Constant, OpCode::OpArg(n as usize)], lits: seq![lexeme], end: st })
        }
    } else if kind == TokenType::LeftParen {
        match parse_expr(s, st, 1, n) {
            None => None,
            Some(inner) => if inner.end.kind == TokenType::RightParen {
                match advance_spec(s, inner.end) {
                    None => None,
                    Some(after) => Some(Parsed { code: inner.code, lits: inner.lits, end: after }),
                }
            } else {
                None
            },
        }
    } else if kind == TokenType::Minus {
        match parse_expr(s, st, 8, n) {
            None => None,
            Some(e) => Some(Parsed { code: e.code.push(OpCode::Negate), lits: e.lits, end: e.end }),
        }
    } else {
        None
    }
}

/// Extends `left` with operators of level at least `prec`. The right
/// operand of each is read at that operator's own level, so operators of one
/// level group to the right.
pub open spec fn parse_infix(s: Seq<char>, left: Parsed, prec: u8, n: nat) -> Option<Parsed>
    decreases token_measure(s, left.end), 3nat,
{
    let op = left.end.kind;
    let level = rule_of(op).precedence.spec_level();
    if prec > level {
        Some(left)
    } else {
        match advance_spec(s, left.end) {
            None => None,
            Some(st2) => if shrinks(s, left.end, st2) {
                match parse_expr(s, st2, level, n + left.lits.len()) {
                    None => None,
                    Some(right) => if shrinks(s, left.end, right.end) {
                        parse_infix(
                            s,
                            Parsed {
                                code: left.code + right.code.push(binary_opcode(op)),
                                lits: left.lits + right.lits,
                                end: right.end,
                            },
                            prec,
                            n,
                        )
                    } else {
                        None
                    },
                }
            } else {
                None
            },
        }
    }
}

/// The first token from `pos` on that is not a lexical error, or `Eof`.
pub open spec fn next_good_token(s: Seq<char>, pos: int) -> PState
    decreases s.len() - pos,
{
    let t = read_token(s, pos);
    if t.kind == TokenType::Error && pos < t.pos <= s.len() {
        next_good_token(s, t.pos)
    } else {
        t
    }
}

/// `message` reported at token `t`.
pub open spec fn failure_at(t: PState, message: Seq<char>) -> Failure {
    Failure {
        line: t.line,
        location: if t.kind == TokenType::Eof {
            None
        } else {
            Some(t.lexeme)
        },
        message,
    }
}

/// The lexical error met when reading the token after `st`.
pub open spec fn read_failure(s: Seq<char>, st: PState) -> Failure {
    let t = read_token(s, st.pos);
    failure_at(t, t.lexeme)
}

pub open spec fn expect_expression() -> Seq<char> {
    "Expect expression."@
}

pub open spec fn expect_close_paren() -> Seq<char> {
    "Expect ')' after expression."@
}

pub open spec fn too_many_constants() -> Seq<char> {
    "Too many constants in one chunk."@
}

/// The first error of `parse_expr(s, st, prec, n)` where that fails.
pub open spec fn expr_failure(s: Seq<char>, st: PState, prec: u8, n: nat) -> Failure
    decreases token_measure(s, st), 1nat,
{
    match advance_spec(s, st) {
        None => read_failure(s, st),
        Some(st1) => if shrinks(s, st, st1) {
            match parse_prefix(s, st.kind, st.lexeme, st1, n) {
                None => prefix_failure(s, st, st1, n),
                Some(left) => if shrinks(s, st, left.end) {
                    infix_failure(s, left, prec, n)
                } else {
                    failure_at(st, expect_expression())
                },
            }
        } else {
            failure_at(st, expect_expression())
        },
    }
}

/// The first error of `parse_prefix` for the token `prev`, where that fails.
pub open spec fn prefix_failure(s: Seq<char>, prev: PState, st: PState, n: nat) -> Failure
    decreases token_measure(s, st), 2nat,
{
    if prev.kind == TokenType::Number {
        failure_at(prev, too_many_constants())
    } else if prev.kind == TokenType::LeftParen {
        match parse_expr(s, st, 1, n) {
            None => expr_failure(s, st, 1, n),
            Some(inner) => if inner.end.kind == TokenType::RightParen {
                read_failure(s, inner.end)
            } else {
                failure_at(inner.end, expect_close_paren())
            },
        }
    } else if prev.kind == TokenType::Minus {
        expr_failure(s, st, 8, n)
    } else {
        failure_at(prev, expect_expression())
    }
}

/// The first error of `parse_infix`, where that fails.
pub open spec fn infix_failure(s: Seq<char>, left: Parsed, prec: u8, n: nat) -> Failure
    decreases token_measure(s, left.end), 3nat,
{
    let op = left.end.kind;
    let level = rule_of(op).precedence.spec_level();
    if prec > level {
        failure_at(left.end, expect_expression())
    } else {
        match advance_spec(s, left.end) {
            None => read_failure(s, left.end),
            Some(st2) => if shrinks(s, left.end, st2) {
                match parse_expr(s, st2, level, n + left.lits.len()) {
                    None => expr_failure(s, st2, level, n + left.lits.len()),
                    Some(right) => if shrinks(s, left.end, right.end) {
                        infix_failure(
                            s,
                            Parsed {
                                code: left.code + right.code.push(binary_opcode(op)),
                                lits: left.lits + right.lits,
                                end: right.end,
                            },
                            prec,
                            n,
                        )
                    } else {
                        failure_at(left.end, expect_expression())
                    },
                }
            } else {
                failure_at(left.end, expect_expression())
            },
        }
    }
}

/// The error that compiling `s` reports, where `compile_spec(s)` fails.
pub open spec fn compile_failure(s: Seq<char>) -> Failure {
    let first = read_token(s, 0);
    if first.kind == TokenType::Error {
        failure_at(first, first.lexeme)
    } else {
        expr_failure(s, first, 1, 0)
    }
}

/// The whole source as one expression, from its first token; whatever
/// follows the expression is not read.
pub open spec fn compile_spec(s: Seq<char>) -> Option<Parsed> {
    let first = read_token(s, 0);
    if first.kind == TokenType::Error {
        None
    } else {
        parse_expr(s, first, 1, 0)
    }
}

} // verus!
