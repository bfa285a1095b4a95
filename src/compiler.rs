use vstd::prelude::*;
use vstd::string::*;

use crate::chunk::{
    lemma_operands_valid_empty, lemma_operands_valid_grow_pool, lemma_push_constant,
    lemma_push_plain, lemma_stack_depth_nonneg, operands_valid, MAX_CONSTANT_INDEX, returns_one_value, shifted, stack_depth, Chunk, OpCode,
};
use crate::grammar::{
    advance_spec, binary_opcode, compile_failure, compile_spec, expr_failure, failure_at,
    infix_failure, next_good_token, parse_expr, parse_infix, parse_prefix, prefix_failure,
    read_failure, read_token, token_measure, Failure, PState, Parsed,
};
use crate::scanner::{
    is_numeral, lemma_next_token_at_end, line_at, next_token, Scanner, Token, TokenType};

verus! {

/// Binding strength of operators, weakest first.
#[derive(Debug, Clone, Copy, PartialEq, Eq, Structural)]
pub enum Precedence {
    Lowest,
    Assignment,
    Or,
    And,
    Equality,
    Comparison,
    Term,
    Factor,
    Unary,
    Call,
    Primary,
}

impl Precedence {
    pub open spec fn spec_level(self) -> u8 {
        match self {
            Precedence::Lowest => 0,
            Precedence::Assignment => 1,
            Precedence::Or => 2,
            Precedence::And => 3,
            Precedence::Equality => 4,
            Precedence::Comparison => 5,
            Precedence::Term => 6,
            Precedence::Factor => 7,
            Precedence::Unary => 8,
            Precedence::Call => 9,
            Precedence::Primary => 10,
        }
    }

    pub fn level(self) -> (r: u8)
        ensures
            r == self.spec_level(),
    {
        match self {
            Precedence::Lowest => 0,
            Precedence::Assignment => 1,
            Precedence::Or => 2,
            Precedence::And => 3,
            Precedence::Equality => 4,
            Precedence::Comparison => 5,
            Precedence::Term => 6,
            Precedence::Factor => 7,
            Precedence::Unary => 8,
            Precedence::Call => 9,
            Precedence::Primary => 10,
        }
    }

    /// The precedence of level `num`; levels past the highest give `Primary`.
    pub fn from_u8(num: u8) -> (r: Precedence)
        ensures
            r.spec_level() == if num <= 10 {
                num
            } else {
                10
            },
    {
        match num {
            0 => Precedence::Lowest,
            1 => Precedence::Assignment,
            2 => Precedence::Or,
            3 => Precedence::And,
            4 => Precedence::Equality,
            5 => Precedence::Comparison,
            6 => Precedence::Term,
            7 => Precedence::Factor,
            8 => Precedence::Unary,
            9 => Precedence::Call,
            _ => Precedence::Primary,
        }
    }
}

/// The parse routines that a rule can name.
#[derive(Debug, Clone, Copy, PartialEq, Eq, Structural)]
pub enum ParseFn {
    Number,
    Grouping,
    Unary,
    Binary,
}

/// How a token kind parses: in prefix position, in infix position, and the
/// precedence of its infix use.
#[derive(Debug, Clone, Copy, PartialEq, Eq, Structural)]
pub struct ParseRule {
    pub prefix: Option<ParseFn>,
    pub infix: Option<ParseFn>,
    pub precedence: Precedence,
}

pub open spec fn rule_of(kind: TokenType) -> ParseRule {
    match kind {
        TokenType::Plus => ParseRule {
            prefix: None,
            infix: Some(ParseFn::Binary),
            precedence: Precedence::Term,
        },
        TokenType::Minus => ParseRule {
            prefix: Some(ParseFn::Unary),
            infix: Some(ParseFn::Binary),
            precedence: Precedence::Term,
        },
        TokenType::Star => ParseRule {
            prefix: None,
            infix: Some(ParseFn::Binary),
            precedence: Precedence::Factor,
        },
        TokenType::Slash => ParseRule {
            prefix: None,
            infix: Some(ParseFn::Binary),
            precedence: Precedence::Factor,
        },
        TokenType::Number => ParseRule {
            prefix: Some(ParseFn::Number),
            infix: None,
            precedence: Precedence::Lowest,
        },
        TokenType::LeftParen => ParseRule {
            prefix: Some(ParseFn::Grouping),
            infix: None,
            precedence: Precedence::Lowest,
        },
        _ => ParseRule { prefix: None, infix: None, precedence: Precedence::Lowest },
    }
}

/// The parse rule table, keyed by token kind.
pub struct ParseRules {}

impl ParseRules {
    pub fn new() -> (r: ParseRules) {
        ParseRules {  }
    }

    pub fn rule(&self, kind: TokenType) -> (r: ParseRule)
        ensures
            r == rule_of(kind),
    {
        match kind {
            TokenType::Plus => ParseRule {
                prefix: None,
                infix: Some(ParseFn::Binary),
                precedence: Precedence::Term,
            },
            TokenType::Minus => ParseRule {
                prefix: Some(ParseFn::Unary),
                infix: Some(ParseFn::Binary),
                precedence: Precedence::Term,
            },
            TokenType::Star => ParseRule {
                prefix: None,
                infix: Some(ParseFn::Binary),
                precedence: Precedence::Factor,
            },
            TokenType::Slash => ParseRule {
                prefix: None,
                infix: Some(ParseFn::Binary),
                precedence: Precedence::Factor,
            },
            TokenType::Number => ParseRule {
                prefix: Some(ParseFn::Number),
                infix: None,
                precedence: Precedence::Lowest,
            },
            TokenType::LeftParen => ParseRule {
                prefix: Some(ParseFn::Grouping),
                infix: None,
                precedence: Precedence::Lowest,
            },
            _ => ParseRule { prefix: None, infix: None, precedence: Precedence::Lowest },
        }
    }
}

/// A compile error as reported: source line, the offending lexeme (`None`
/// for the end of input), and the message.
#[derive(Debug)]
pub struct CompileError {
    pub line: usize,
    pub location: Option<String>,
    pub message: String,
}

pub open spec fn expect_expression_message() -> Seq<char> {
    "Expect expression."@
}

/// Single-pass compiler from source text to a chunk.
pub struct Compiler {
    current: Token,
    previous: Token,
    had_error: bool,
    panic_mode: bool,
    scanner: Scanner,
    chunk: Chunk,
    current_precedence: Precedence,
    first_error: Option<CompileError>,
}

/// The texts of a constant pool.
pub open spec fn pool_texts(pool: Seq<String>) -> Seq<Seq<char>> {
    pool.map_values(|c: String| c@)
}

/// Whether `e` is the report `f`.
pub open spec fn reports_failure(e: CompileError, f: Failure) -> bool {
    &&& e.line == f.line
    &&& e.message@ == f.message
    &&& match f.location {
        None => e.location is None,
        Some(l) => e.location is Some && e.location.unwrap()@ == l,
    }
}

/// Whether `e` reports `message` at `token`.
pub open spec fn reports(e: CompileError, token: Token, message: Seq<char>) -> bool {
    &&& e.line == token.line
    &&& e.message@ == message
    &&& if token.token_type == TokenType::Eof {
        e.location.is_none()
    } else {
        e.location.is_some() && e.location.unwrap()@ == token.lexeme@
    }
}

/// The report of `message` at `token`.
fn error_at(token: &Token, message: String) -> (e: CompileError)
    ensures
        reports(e, *token, message@),
{
    let location = if token.token_type == TokenType::Eof {
        None
    } else {
        Some(token.lexeme.clone())
    };
    CompileError { line: token.line, location, message }
}

impl Compiler {
    /// The source text being compiled.
    pub closed spec fn source(&self) -> Seq<char> {
        self.scanner.source()
    }

    /// The current token and the scanner's position.
    pub closed spec fn state(&self) -> PState {
        PState {
            kind: self.current.token_type,
            lexeme: self.current.lexeme@,
            line: self.current.line as nat,
            pos: self.scanner.position(),
        }
    }

    /// The previous token, as a parse state.
    pub closed spec fn prev_state(&self) -> PState {
        PState {
            kind: self.previous.token_type,
            lexeme: self.previous.lexeme@,
            line: self.previous.line as nat,
            pos: 0,
        }
    }

    /// Without an earlier error: an error made now is reported as `f`.
    spec fn failed_as(&self, o: &Compiler, f: Failure) -> bool {
        !o.had_error && self.had_error ==> reports_failure(self.first_error.unwrap(), f)
    }

    /// The texts of the constant pool.
    pub closed spec fn pool(&self) -> Seq<Seq<char>> {
        pool_texts(self.chunk.constants@)
    }

    /// Without an earlier error: an error now exactly where `r` fails, and
    /// otherwise the state that `r` gives.
    spec fn steps(&self, o: &Compiler, r: Option<PState>) -> bool {
        !o.had_error ==> (self.had_error <==> r is None) && (r matches Some(st) ==> self.state()
            == st)
    }

    /// Without an earlier error: an error now exactly where the parse `r`
    /// fails, and otherwise its code and literals appended, and its state.
    spec fn parsed(&self, o: &Compiler, r: Option<Parsed>) -> bool {
        !o.had_error ==> (self.had_error <==> r is None) && (r matches Some(p) ==> {
            &&& self.chunk.code@ == o.chunk.code@ + p.code
            &&& self.pool() == o.pool() + p.lits
            &&& self.state() == p.end
        })
    }

    /// Nothing scanned, emitted or reported yet.
    pub closed spec fn is_fresh(&self) -> bool {
        &&& self.scanner.position() == 0
        &&& self.chunk.code@.len() == 0
        &&& self.chunk.constants@.len() == 0
        &&& !self.had_error
        &&& self.current.token_type != TokenType::Eof
    }

    /// The compiler's invariant: the scanner and chunk are well formed, the
    /// current token is never a lexical error, number tokens and pooled
    /// constants are numerals, and the first error is kept once reported.
    pub closed spec fn inv(&self) -> bool {
        &&& self.scanner.wf()
        &&& self.scanner.position() <= self.scanner.source().len()
        &&& self.chunk.wf()
        &&& operands_valid(self.chunk.code@, self.chunk.constants@.len())
        &&& self.current.token_type != TokenType::Error
        &&& self.current.token_type == TokenType::Number ==> is_numeral(self.current.lexeme@)
        &&& self.previous.token_type == TokenType::Number ==> is_numeral(self.previous.lexeme@)
        &&& forall|i: int|
            0 <= i < self.chunk.constants@.len() ==> is_numeral(#[trigger] self.chunk.constants@[i]@)
        &&& self.current.token_type == TokenType::Eof ==> self.scanner.position()
            == self.scanner.source().len()
        &&& self.had_error == self.first_error.is_some()
        &&& self.panic_mode == self.had_error
    }

    /// Tokens left to read: the unread characters, and the current token.
    spec fn measure(&self) -> nat {
        (self.scanner.source().len() - self.scanner.position()) as nat + if self.current.token_type
            == TokenType::Eof {
            0nat
        } else {
            1nat
        }
    }

    spec fn depth(&self) -> Option<int> {
        stack_depth(self.chunk.code@)
    }

    /// What every step keeps: the source, and the first error once made.
    spec fn keeps(&self, o: &Compiler) -> bool {
        &&& self.scanner.source() == o.scanner.source()
        &&& o.had_error ==> self.had_error && self.first_error == o.first_error
        &&& self.chunk.code@.len() >= o.chunk.code@.len()
    }

    pub fn new(source: String) -> (r: Self)
        requires
            source@.len() < usize::MAX,
        ensures
            r.inv(),
            r.is_fresh(),
            r.source() == source@,
            r.pool().len() == 0,
    {
        let chunk = Chunk::new();
        proof {
            lemma_operands_valid_empty(chunk.code@, 0);
        }
        // Until the first token is read, both token slots hold a placeholder.
        Self {
            current: Token { token_type: TokenType::LeftParen, lexeme: String::new(), line: 1 },
            previous: Token { token_type: TokenType::LeftParen, lexeme: String::new(), line: 1 },
            had_error: false,
            panic_mode: false,
            scanner: Scanner::new(source),
            chunk,
            current_precedence: Precedence::Lowest,
            first_error: None,
        }
    }

    fn error_at_current(&mut self, message: String)
        ensures
            final(self).had_error,
            final(self).panic_mode,
            old(self).panic_mode ==> final(self).first_error == old(self).first_error,
            !old(self).panic_mode ==> final(self).first_error.is_some() && reports(
                final(self).first_error.unwrap(),
                old(self).current,
                message@,
            ),
            final(self).current == old(self).current,
            final(self).previous == old(self).previous,
            final(self).scanner == old(self).scanner,
            final(self).chunk == old(self).chunk,
            final(self).current_precedence == old(self).current_precedence,
    {
        if !self.panic_mode {
            self.first_error = Some(error_at(&self.current, message));
        }
        self.had_error = true;
        self.panic_mode = true;
    }

    fn error(&mut self, message: String)
        ensures
            final(self).had_error,
            final(self).panic_mode,
            old(self).panic_mode ==> final(self).first_error == old(self).first_error,
            !old(self).panic_mode ==> final(self).first_error.is_some() && reports(
                final(self).first_error.unwrap(),
                old(self).previous,
                message@,
            ),
            final(self).current == old(self).current,
            final(self).previous == old(self).previous,
            final(self).scanner == old(self).scanner,
            final(self).chunk == old(self).chunk,
            final(self).current_precedence == old(self).current_precedence,
    {
        if !self.panic_mode {
            self.first_error = Some(error_at(&self.previous, message));
        }
        self.had_error = true;
        self.panic_mode = true;
    }

    /// Moves to the next token that is not a lexical error, reporting each
    /// lexical error on the way.
    fn advance(&mut self)
        requires
            old(self).inv(),
        ensures
            final(self).inv(),
            final(self).keeps(old(self)),
            final(self).chunk == old(self).chunk,
            final(self).current_precedence == old(self).current_precedence,
            final(self).previous.token_type == old(self).current.token_type,
            final(self).previous.line == old(self).current.line,
            final(self).previous.lexeme@ == old(self).current.lexeme@,
            final(self).measure() <= old(self).measure(),
            old(self).current.token_type != TokenType::Eof ==> final(self).measure() < old(
                self,
            ).measure(),
            !old(self).had_error ==> match next_token(
                old(self).scanner.source(),
                old(self).scanner.position(),
            ) {
                Some(x) => x.0 == TokenType::Error ==> final(self).had_error
                    && final(self).first_error.unwrap().message@ == x.1
                    && final(self).first_error.unwrap().line == x.2,
                None => final(self).current.token_type == TokenType::Eof,
            },
            final(self).current.token_type == TokenType::Eof ==> final(self).current.line == line_at(
                old(self).scanner.source(),
                old(self).scanner.source().len() as int,
            ),
            next_token(old(self).scanner.source(), old(self).scanner.position()) is None
                ==> final(self).had_error == old(self).had_error && final(self).first_error == old(
                self,
            ).first_error,
            final(self).steps(old(self), advance_spec(old(self).scanner.source(), old(self).state())),
            final(self).failed_as(old(self), read_failure(old(self).scanner.source(), old(self).state())),
            final(self).state() == next_good_token(
                old(self).scanner.source(),
                old(self).scanner.position(),
            ),
    {
        let mut taken = Token { token_type: TokenType::Eof, lexeme: String::new(), line: 0 };
        std::mem::swap(&mut self.current, &mut taken);
        self.previous = taken;
        let ghost first = next_token(old(self).scanner.source(), old(self).scanner.position());
        loop
            invariant_except_break
                self.scanner.position() > old(self).scanner.position() ==> first is Some,
                next_good_token(self.scanner.source(), self.scanner.position()) == next_good_token(
                    old(self).scanner.source(),
                    old(self).scanner.position(),
                ),
                self.scanner.position() > old(self).scanner.position() && !old(self).had_error
                    ==> self.had_error,
            invariant
                first == next_token(old(self).scanner.source(), old(self).scanner.position()),
                !old(self).had_error && self.had_error ==> (first matches Some(x) && x.0
                    == TokenType::Error),
                self.scanner.wf(),
                self.scanner.position() <= self.scanner.source().len(),
                self.chunk == old(self).chunk,
                self.current_precedence == old(self).current_precedence,
                self.scanner.source() == old(self).scanner.source(),
                old(self).scanner.position() <= self.scanner.position(),
                old(self).current.token_type == TokenType::Eof ==> self.scanner.position()
                    == self.scanner.source().len(),
                self.scanner.position() == old(self).scanner.position() ==> self.had_error
                    == old(self).had_error && self.first_error == old(self).first_error,
                self.had_error == self.first_error.is_some(),
                self.panic_mode == self.had_error,
                old(self).had_error ==> self.had_error && self.first_error == old(self).first_error,
                self.previous.token_type == old(self).current.token_type,
                self.previous.line == old(self).current.line,
                self.previous.lexeme@ == old(self).current.lexeme@,
                self.previous.token_type == TokenType::Number ==> is_numeral(self.previous.lexeme@),
                self.scanner.position() > old(self).scanner.position() && !old(self).had_error ==> (
                first matches Some(x) ==> (x.0 == TokenType::Error ==> self.had_error
                    && self.first_error.unwrap().message@ == x.1 && self.first_error.unwrap().line
                    == x.2 && self.first_error.unwrap().location is Some
                    && self.first_error.unwrap().location.unwrap()@ == x.1)),
            ensures
                self.current.token_type != TokenType::Error,
                self.current.token_type == TokenType::Number ==> is_numeral(self.current.lexeme@),
                self.current.token_type == TokenType::Eof ==> self.scanner.position()
                    == self.scanner.source().len(),
                self.current.token_type != TokenType::Eof ==> self.scanner.position() > old(
                    self,
                ).scanner.position(),
                first is None ==> self.current.token_type == TokenType::Eof,
                self.current.token_type == TokenType::Eof ==> self.current.line == line_at(
                    self.scanner.source(),
                    self.scanner.source().len() as int,
                ),
                first is None ==> self.had_error == old(self).had_error && self.first_error == old(
                    self,
                ).first_error,
                !old(self).had_error && !self.had_error ==> self.state() == read_token(
                    old(self).scanner.source(),
                    old(self).scanner.position(),
                ),
                !old(self).had_error && (first matches Some(x) && x.0 == TokenType::Error)
                    ==> self.had_error,
                self.state() == next_good_token(
                    old(self).scanner.source(),
                    old(self).scanner.position(),
                ),
            decreases self.scanner.source().len() - self.scanner.position(),
        {
            proof {
                lemma_next_token_at_end(self.scanner.source());
            }
            let next = self.scanner.next();
            match next {
                Some(t) => {
                    if t.token_type != TokenType::Error {
                        self.current = t;
                        break ;
                    }
                    let message = t.lexeme.clone();
                    self.current = t;
                    self.error_at_current(message);
                },
                None => {
                    let line = self.scanner.line();
                    self.current = Token { token_type: TokenType::Eof, lexeme: String::new(), line };
                    break ;
                },
            }
        }
        proof {
            lemma_next_token_at_end(self.scanner.source());
        }
    }

    fn consume(&mut self, token_type: TokenType, message: String)
        requires
            old(self).inv(),
        ensures
            old(self).current.token_type == token_type ==> final(self).steps(
                old(self),
                advance_spec(old(self).scanner.source(), old(self).state()),
            ),
            old(self).current.token_type != token_type ==> final(self).had_error,
            old(self).current.token_type == token_type ==> final(self).failed_as(
                old(self),
                read_failure(old(self).scanner.source(), old(self).state()),
            ),
            old(self).current.token_type != token_type ==> final(self).failed_as(
                old(self),
                failure_at(old(self).state(), message@),
            ),
            final(self).inv(),
            final(self).keeps(old(self)),
            final(self).chunk == old(self).chunk,
            final(self).current_precedence == old(self).current_precedence,
            final(self).measure() <= old(self).measure(),
    {
        if self.current.token_type == token_type {
            self.advance();
            return ;
        }
        self.error_at_current(message);
    }

    fn emit_byte(&mut self, byte: OpCode)
        ensures
            final(self).chunk.code@ == old(self).chunk.code@.push(byte),
            final(self).chunk.lines@ == old(self).chunk.lines@.push(old(self).previous.line),
            final(self).chunk.constants@ == old(self).chunk.constants@,
            final(self).scanner == old(self).scanner,
            final(self).current == old(self).current,
            final(self).previous == old(self).previous,
            final(self).had_error == old(self).had_error,
            final(self).panic_mode == old(self).panic_mode,
            final(self).first_error == old(self).first_error,
            final(self).current_precedence == old(self).current_precedence,
    {
        self.chunk.write_chunk(byte, self.previous.line);
    }

    /// Emits a `Constant` and its operand.
    fn emit_bytes(&mut self, byte1: OpCode, byte2: OpCode)
        requires
            old(self).inv(),
            byte1 == OpCode::Constant,
            byte2 is OpArg,
            byte2->OpArg_0 < old(self).chunk.constants@.len(),
            byte2->OpArg_0 <= MAX_CONSTANT_INDEX,
        ensures
            final(self).inv(),
            final(self).keeps(old(self)),
            final(self).had_error == old(self).had_error,
            final(self).depth() == shifted(old(self).depth(), 1),
            final(self).measure() == old(self).measure(),
            final(self).current_precedence == old(self).current_precedence,
            final(self).previous == old(self).previous,
            final(self).current == old(self).current,
            final(self).scanner == old(self).scanner,
            final(self).chunk.constants@ == old(self).chunk.constants@,
            final(self).chunk.code@ == old(self).chunk.code@ + seq![byte1, byte2],
    {
        proof {
            lemma_push_constant(
                old(self).chunk.code@,
                old(self).chunk.constants@.len(),
                byte2->OpArg_0,
            );
        }
        self.emit_byte(byte1);
        self.emit_byte(byte2);
        assert(self.chunk.code@ =~= old(self).chunk.code@ + seq![byte1, byte2]);
    }

    fn end_compiler(&mut self)
        requires
            old(self).inv(),
        ensures
            final(self).inv(),
            final(self).keeps(old(self)),
            final(self).had_error == old(self).had_error,
            final(self).chunk.code@ == old(self).chunk.code@.push(OpCode::Return),
            final(self).chunk.constants@ == old(self).chunk.constants@,
    {
        self.emit_return();
    }

    fn emit_return(&mut self)
        requires
            old(self).inv(),
        ensures
            final(self).inv(),
            final(self).keeps(old(self)),
            final(self).had_error == old(self).had_error,
            final(self).chunk.code@ == old(self).chunk.code@.push(OpCode::Return),
            final(self).chunk.constants@ == old(self).chunk.constants@,
    {
        self.emit_byte(OpCode::Return);
        proof {
            lemma_push_plain(
                old(self).chunk.code@,
                old(self).chunk.constants@.len(),
                OpCode::Return,
            );
        }
    }

    fn emit_constant(&mut self, value: String)
        requires
            old(self).inv(),
            is_numeral(value@),
        ensures
            final(self).inv(),
            final(self).keeps(old(self)),
            final(self).depth() == shifted(old(self).depth(), 1),
            final(self).measure() == old(self).measure(),
            final(self).current_precedence == old(self).current_precedence,
            final(self).previous == old(self).previous,
            final(self).current == old(self).current,
            final(self).scanner == old(self).scanner,
            final(self).pool() == old(self).pool().push(value@),
            final(self).had_error == (old(self).had_error || old(self).chunk.constants@.len()
                > MAX_CONSTANT_INDEX),
            old(self).chunk.constants@.len() > MAX_CONSTANT_INDEX && !old(self).panic_mode
                ==> reports(
                final(self).first_error.unwrap(),
                old(self).previous,
                "Too many constants in one chunk."@,
            ),
            old(self).chunk.constants@.len() <= MAX_CONSTANT_INDEX ==> final(self).chunk.code@
                == old(self).chunk.code@ + seq![
                OpCode::Constant,
                OpCode::OpArg(old(self).chunk.constants@.len() as usize),
            ],
    {
        let index = self.make_constant(value);
        self.emit_bytes(OpCode::Constant, OpCode::OpArg(index));
    }

    /// Adds `value` to the pool and returns its index; past the largest
    /// index an operand can hold it reports an error and returns 0.
    fn make_constant(&mut self, value: String) -> (r: usize)
        requires
            old(self).inv(),
            is_numeral(value@),
        ensures
            final(self).inv(),
            final(self).keeps(old(self)),
            final(self).chunk.code@ == old(self).chunk.code@,
            r < final(self).chunk.constants@.len(),
            r <= MAX_CONSTANT_INDEX,
            final(self).chunk.constants@ == old(self).chunk.constants@.push(value),
            final(self).pool() == old(self).pool().push(value@),
            r == if old(self).chunk.constants@.len() <= MAX_CONSTANT_INDEX {
                old(self).chunk.constants@.len()
            } else {
                0
            },
            final(self).had_error == (old(self).had_error || old(self).chunk.constants@.len()
                > MAX_CONSTANT_INDEX),
            old(self).chunk.constants@.len() > MAX_CONSTANT_INDEX && !old(self).panic_mode
                ==> reports(
                final(self).first_error.unwrap(),
                old(self).previous,
                "Too many constants in one chunk."@,
            ),
            final(self).current == old(self).current,
            final(self).scanner == old(self).scanner,
            final(self).measure() == old(self).measure(),
            final(self).current_precedence == old(self).current_precedence,
            final(self).previous == old(self).previous,
    {
        let index = self.chunk.add_constant(value);
        proof {
            assert(pool_texts(self.chunk.constants@) =~= pool_texts(old(self).chunk.constants@).push(
                value@,
            ));
            lemma_operands_valid_grow_pool(
                old(self).chunk.code@,
                old(self).chunk.constants@.len(),
                self.chunk.constants@.len(),
            );
        }
        if index > MAX_CONSTANT_INDEX {
            self.error(String::from_str("Too many constants in one chunk."));
            return 0;
        }
        index
    }

    /// Compiles the whole source to a chunk, or returns the first error
    /// reported.
    pub fn compile(&mut self) -> (r: Result<Chunk, CompileError>)
        requires
            old(self).inv(),
            old(self).is_fresh(),
        ensures
            final(self).inv(),
            match r {
                Ok(chunk) => {
                    &&& chunk.wf()
                    &&& operands_valid(chunk.code@, chunk.constants@.len())
                    &&& returns_one_value(chunk.code@)
                    &&& forall|i: int|
                        0 <= i < chunk.constants@.len() ==> is_numeral(
                            #[trigger] chunk.constants@[i]@,
                        )
                },
                Err(_) => true,
            },
            (r is Ok) == (compile_spec(old(self).source()) is Some),
            r is Ok ==> r->Ok_0.code@ == compile_spec(old(self).source()).unwrap().code.push(
                OpCode::Return,
            ),
            r is Ok ==> pool_texts(r->Ok_0.constants@) == compile_spec(old(self).source()).unwrap().lits,
            r is Err ==> reports_failure(r->Err_0, compile_failure(old(self).source())),
            match next_token(old(self).source(), 0) {
                None => r is Err && r->Err_0.location.is_none() && r->Err_0.message@
                    == expect_expression_message() && r->Err_0.line == line_at(
                    old(self).source(),
                    old(self).source().len() as int,
                ),
                Some(x) => x.0 == TokenType::Error ==> r is Err && r->Err_0.message@ == x.1
                    && r->Err_0.line == x.2,
            },
    {
        self.advance();
        let ghost mid = self.state();
        expression(self);
        let ghost body = self.chunk.code@;
        let ghost body_pool = self.pool();
        self.end_compiler();
        assert(self.chunk.code@.drop_last() =~= body);
        proof {
            if !self.had_error {
                let p = compile_spec(old(self).source()).unwrap();
                assert(mid == read_token(old(self).source(), 0));
                assert(body =~= p.code);
                assert(body_pool =~= p.lits);
            }
        }
        if self.had_error {
            let mut report: Option<CompileError> = None;
            std::mem::swap(&mut self.first_error, &mut report);
            self.had_error = false;
            self.panic_mode = false;
            Err(report.unwrap())
        } else {
            let mut chunk = Chunk::new();
            proof {
                lemma_operands_valid_empty(chunk.code@, chunk.constants@.len());
            }
            std::mem::swap(&mut self.chunk, &mut chunk);
            Ok(chunk)
        }
    }
}

/// A parse with the operator of kind `kind` appended to its code.
pub open spec fn with_operator(r: Option<Parsed>, kind: TokenType) -> Option<Parsed> {
    match r {
        Some(p) => Some(Parsed { code: p.code.push(binary_opcode(kind)), lits: p.lits, end: p.end }),
        None => None,
    }
}

proof fn lemma_measure(c: &Compiler)
    requires
        c.inv(),
    ensures
        c.measure() == token_measure(c.source(), c.state()),
        0 <= token_measure(c.source(), c.state()),
        c.pool().len() == c.chunk.constants@.len(),
{
}

pub open spec fn is_operator(kind: TokenType) -> bool {
    kind == TokenType::Plus || kind == TokenType::Minus || kind == TokenType::Star || kind
        == TokenType::Slash
}

/// Parses an expression whose operators bind at least as tightly as
/// `precedence`, emitting its code.
fn parse_precedence(compiler: &mut Compiler, precedence: Precedence)
    requires
        old(compiler).inv(),
        !old(compiler).had_error ==> old(compiler).depth() is Some,
        precedence.spec_level() >= 1,
    ensures
        final(compiler).inv(),
        final(compiler).keeps(old(compiler)),
        final(compiler).measure() <= old(compiler).measure(),
        !final(compiler).had_error ==> final(compiler).depth() == shifted(old(compiler).depth(), 1),
        !old(compiler).had_error && old(compiler).current.token_type == TokenType::Eof
            ==> final(compiler).had_error && reports(
            final(compiler).first_error.unwrap(),
            old(compiler).current,
            expect_expression_message(),
        ),
        !old(compiler).had_error && rule_of(old(compiler).current.token_type).prefix is None
            && advance_spec(old(compiler).source(), old(compiler).state()) is Some
            ==> final(compiler).had_error && reports(
            final(compiler).first_error.unwrap(),
            old(compiler).current,
            expect_expression_message(),
        ),
        final(compiler).parsed(
            old(compiler),
            parse_expr(
                old(compiler).source(),
                old(compiler).state(),
                precedence.spec_level(),
                old(compiler).chunk.constants@.len(),
            ),
        ),
        final(compiler).failed_as(
            old(compiler),
            expr_failure(
                old(compiler).source(),
                old(compiler).state(),
                precedence.spec_level(),
                old(compiler).chunk.constants@.len(),
            ),
        ),
    decreases old(compiler).measure(), 0nat,
{
    let ghost s = old(compiler).source();
    let ghost n = old(compiler).chunk.constants@.len();
    let ghost target = parse_expr(s, old(compiler).state(), precedence.spec_level(), n);
    let rules = ParseRules::new();
    proof {
        lemma_next_token_at_end(compiler.scanner.source());
        lemma_measure(compiler);
    }
    compiler.advance();
    proof {
        lemma_measure(compiler);
    }
    let ghost mid_state = compiler.state();
    let ghost mid_had_error = compiler.had_error;
    let prefix = rules.rule(compiler.previous.token_type).prefix;
    match prefix {
        None => {
            compiler.error(String::from_str("Expect expression."));
            return ;
        },
        Some(f) => match f {
            ParseFn::Number => number(compiler),
            ParseFn::Grouping => grouping(compiler),
            ParseFn::Unary => unary(compiler),
            ParseFn::Binary => binary(compiler),
        },
    }
    let ghost entry = old(compiler).measure();
    let ghost mut acc = Parsed {
        code: compiler.chunk.code@.subrange(old(compiler).chunk.code@.len() as int, compiler.chunk.code@.len() as int),
        lits: compiler.pool().subrange(n as int, compiler.pool().len() as int),
        end: compiler.state(),
    };
    proof {
        lemma_stack_depth_nonneg(old(compiler).chunk.code@);
        lemma_measure(compiler);
        if !compiler.had_error {
            let st = old(compiler).state();
            assert(!mid_had_error);
            assert(advance_spec(s, st) == Some(mid_state));
            let left = parse_prefix(s, st.kind, st.lexeme, mid_state, n).unwrap();
            assert(compiler.chunk.code@ == old(compiler).chunk.code@ + left.code);
            assert(compiler.pool() == old(compiler).pool() + left.lits);
            assert(left.code =~= acc.code);
            assert(left.lits =~= acc.lits);
            assert(left == acc);
            assert(compiler.chunk.code@ =~= old(compiler).chunk.code@ + acc.code);
            assert(compiler.pool() =~= old(compiler).pool() + acc.lits);
        }
    }
    while precedence.level() <= rules.rule(compiler.current.token_type).precedence.level()
        invariant
            compiler.inv(),
            compiler.keeps(old(compiler)),
            compiler.measure() < entry,
            entry == old(compiler).measure(),
            precedence.spec_level() >= 1,
            s == old(compiler).source(),
            n == old(compiler).chunk.constants@.len(),
            target == parse_expr(s, old(compiler).state(), precedence.spec_level(), n),
            !compiler.had_error ==> compiler.depth() == shifted(old(compiler).depth(), 1),
            !old(compiler).had_error ==> (old(compiler).depth() matches Some(d) && d >= 0),
            !old(compiler).had_error && old(compiler).current.token_type == TokenType::Eof
                ==> compiler.had_error && reports(
                compiler.first_error.unwrap(),
                old(compiler).current,
                expect_expression_message(),
            ),
            !old(compiler).had_error && compiler.had_error ==> target is None,
            compiler.failed_as(
                old(compiler),
                expr_failure(s, old(compiler).state(), precedence.spec_level(), n),
            ),
            !compiler.had_error ==> infix_failure(s, acc, precedence.spec_level(), n)
                == expr_failure(s, old(compiler).state(), precedence.spec_level(), n),
            !old(compiler).had_error && rule_of(old(compiler).current.token_type).prefix is None
                && advance_spec(s, old(compiler).state()) is Some ==> compiler.had_error
                && reports(
                compiler.first_error.unwrap(),
                old(compiler).current,
                expect_expression_message(),
            ),
            !compiler.had_error ==> {
                &&& compiler.chunk.code@ == old(compiler).chunk.code@ + acc.code
                &&& compiler.pool() == old(compiler).pool() + acc.lits
                &&& acc.end == compiler.state()
                &&& parse_infix(s, acc, precedence.spec_level(), n) == target
            },
        decreases compiler.measure(),
    {
        proof {
            lemma_measure(compiler);
        }
        compiler.advance();
        proof {
            lemma_measure(compiler);
        }
        let rule = rules.rule(compiler.previous.token_type);
        compiler.current_precedence = rule.precedence;
        let ghost mid_code = compiler.chunk.code@;
        match rule.infix {
            Some(ParseFn::Binary) => binary(compiler),
            _ => {},
        }
        proof {
            lemma_measure(compiler);
            if !compiler.had_error {
                let right = parse_expr(
                    s,
                    read_token(s, acc.end.pos),
                    rule.precedence.spec_level(),
                    n + acc.lits.len(),
                ).unwrap();
                let next = Parsed {
                    code: acc.code + right.code.push(binary_opcode(acc.end.kind)),
                    lits: acc.lits + right.lits,
                    end: right.end,
                };
                assert(compiler.chunk.code@ =~= old(compiler).chunk.code@ + next.code);
                assert(compiler.pool() =~= old(compiler).pool() + next.lits);
                acc = next;
            }
        }
    }
}

fn number(compiler: &mut Compiler)
    requires
        old(compiler).inv(),
        old(compiler).previous.token_type == TokenType::Number,
        !old(compiler).had_error ==> old(compiler).depth() is Some,
    ensures
        final(compiler).inv(),
        final(compiler).keeps(old(compiler)),
        final(compiler).measure() <= old(compiler).measure(),
        !final(compiler).had_error ==> final(compiler).depth() == shifted(old(compiler).depth(), 1),
        final(compiler).parsed(
            old(compiler),
            parse_prefix(
                old(compiler).source(),
                TokenType::Number,
                old(compiler).previous.lexeme@,
                old(compiler).state(),
                old(compiler).chunk.constants@.len(),
            ),
        ),
        final(compiler).failed_as(
            old(compiler),
            prefix_failure(
                old(compiler).source(),
                old(compiler).prev_state(),
                old(compiler).state(),
                old(compiler).chunk.constants@.len(),
            ),
        ),
    decreases old(compiler).measure(), 2nat,
{
    let value = compiler.previous.lexeme.clone();
    let ghost text = value@;
    compiler.emit_constant(value);
    assert(old(compiler).pool().push(text) =~= old(compiler).pool() + seq![text]);
}

fn expression(compiler: &mut Compiler)
    requires
        old(compiler).inv(),
        !old(compiler).had_error ==> old(compiler).depth() is Some,
    ensures
        final(compiler).inv(),
        final(compiler).keeps(old(compiler)),
        final(compiler).measure() <= old(compiler).measure(),
        !final(compiler).had_error ==> final(compiler).depth() == shifted(old(compiler).depth(), 1),
        !old(compiler).had_error && old(compiler).current.token_type == TokenType::Eof
            ==> final(compiler).had_error && reports(
            final(compiler).first_error.unwrap(),
            old(compiler).current,
            expect_expression_message(),
        ),
        final(compiler).parsed(
            old(compiler),
            parse_expr(
                old(compiler).source(),
                old(compiler).state(),
                1,
                old(compiler).chunk.constants@.len(),
            ),
        ),
        final(compiler).failed_as(
            old(compiler),
            expr_failure(old(compiler).source(), old(compiler).state(), 1, old(compiler).chunk.constants@.len()),
        ),
    decreases old(compiler).measure(), 1nat,
{
    parse_precedence(compiler, Precedence::Assignment);
}

fn unary(compiler: &mut Compiler)
    requires
        old(compiler).inv(),
        old(compiler).previous.token_type == TokenType::Minus,
        !old(compiler).had_error ==> old(compiler).depth() is Some,
    ensures
        final(compiler).inv(),
        final(compiler).keeps(old(compiler)),
        final(compiler).measure() <= old(compiler).measure(),
        !final(compiler).had_error ==> final(compiler).depth() == shifted(old(compiler).depth(), 1),
        final(compiler).parsed(
            old(compiler),
            parse_prefix(
                old(compiler).source(),
                TokenType::Minus,
                old(compiler).previous.lexeme@,
                old(compiler).state(),
                old(compiler).chunk.constants@.len(),
            ),
        ),
        final(compiler).failed_as(
            old(compiler),
            prefix_failure(
                old(compiler).source(),
                old(compiler).prev_state(),
                old(compiler).state(),
                old(compiler).chunk.constants@.len(),
            ),
        ),
    decreases old(compiler).measure(), 2nat,
{
    let operator = compiler.previous.token_type;
    parse_precedence(compiler, Precedence::Unary);
    let ghost mid = compiler.chunk.code@;
    match operator {
        TokenType::Minus => {
            let ghost before = compiler.chunk.code@;
            compiler.emit_byte(OpCode::Negate);
            proof {
                lemma_push_plain(before, compiler.chunk.constants@.len(), OpCode::Negate);
                if !compiler.had_error {
                    let p = parse_expr(
                        old(compiler).source(),
                        old(compiler).state(),
                        8,
                        old(compiler).chunk.constants@.len(),
                    ).unwrap();
                    assert(compiler.chunk.code@ =~= old(compiler).chunk.code@ + p.code.push(
                        OpCode::Negate,
                    ));
                }
            }
        },
        _ => {},
    }
}

fn binary(compiler: &mut Compiler)
    requires
        old(compiler).inv(),
        is_operator(old(compiler).previous.token_type),
        old(compiler).current_precedence.spec_level() >= 1,
        !old(compiler).had_error ==> (old(compiler).depth() matches Some(d) && d >= 1),
    ensures
        final(compiler).inv(),
        final(compiler).keeps(old(compiler)),
        final(compiler).measure() <= old(compiler).measure(),
        !final(compiler).had_error ==> final(compiler).depth() == old(compiler).depth(),
        final(compiler).parsed(
            old(compiler),
            with_operator(
                parse_expr(
                    old(compiler).source(),
                    old(compiler).state(),
                    old(compiler).current_precedence.spec_level(),
                    old(compiler).chunk.constants@.len(),
                ),
                old(compiler).previous.token_type,
            ),
        ),
        final(compiler).failed_as(
            old(compiler),
            expr_failure(
                old(compiler).source(),
                old(compiler).state(),
                old(compiler).current_precedence.spec_level(),
                old(compiler).chunk.constants@.len(),
            ),
        ),
    decreases old(compiler).measure(), 2nat,
{
    let operator = compiler.previous.token_type;
    let level = compiler.current_precedence.level();
    parse_precedence(compiler, Precedence::from_u8(level));
    let op = match operator {
        TokenType::Plus => OpCode::Add,
        TokenType::Minus => OpCode::Subtract,
        TokenType::Star => OpCode::Multiply,
        _ => OpCode::Divide,
    };
    let ghost before = compiler.chunk.code@;
    compiler.emit_byte(op);
    proof {
        lemma_push_plain(before, compiler.chunk.constants@.len(), op);
        if !compiler.had_error {
            let p = parse_expr(
                old(compiler).source(),
                old(compiler).state(),
                old(compiler).current_precedence.spec_level(),
                old(compiler).chunk.constants@.len(),
            ).unwrap();
            assert(compiler.chunk.code@ =~= old(compiler).chunk.code@ + p.code.push(op));
        }
    }
}

fn grouping(compiler: &mut Compiler)
    requires
        old(compiler).inv(),
        old(compiler).previous.token_type == TokenType::LeftParen,
        !old(compiler).had_error ==> old(compiler).depth() is Some,
    ensures
        final(compiler).inv(),
        final(compiler).keeps(old(compiler)),
        final(compiler).measure() <= old(compiler).measure(),
        !final(compiler).had_error ==> final(compiler).depth() == shifted(old(compiler).depth(), 1),
        final(compiler).parsed(
            old(compiler),
            parse_prefix(
                old(compiler).source(),
                TokenType::LeftParen,
                old(compiler).previous.lexeme@,
                old(compiler).state(),
                old(compiler).chunk.constants@.len(),
            ),
        ),
        final(compiler).failed_as(
            old(compiler),
            prefix_failure(
                old(compiler).source(),
                old(compiler).prev_state(),
                old(compiler).state(),
                old(compiler).chunk.constants@.len(),
            ),
        ),
    decreases old(compiler).measure(), 2nat,
{
    expression(compiler);
    compiler.consume(TokenType::RightParen, String::from_str("Expect ')' after expression."));
}

} // verus!
