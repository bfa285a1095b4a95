use vstd::prelude::*;
use vstd::string::*;

verus! {

/// The kinds of lexical units.
#[derive(Debug, Clone, Copy, PartialEq, Eq, Structural)]
pub enum TokenType {
    // Single-character tokens.
    LeftParen,
    RightParen,
    LeftBrace,
    RightBrace,
    Comma,
    Dot,
    Minus,
    Plus,
    Semicolon,
    Slash,
    Star,
    // One or two character tokens.
    Bang,
    BangEqual,
    Equal,
    EqualEqual,
    Greater,
    GreaterEqual,
    Less,
    LessEqual,
    // Literals.
    Identifier,
    String,
    Number,
    // Keywords.
    And,
    Class,
    Else,
    False,
    For,
    Fun,
    If,
    Nil,
    Or,
    Print,
    Return,
    Super,
    This,
    True,
    Var,
    While,
    // A lexical error; the lexeme holds the message.
    Error,
    // End of input; never produced by the scanner itself.
    Eof,
}

/// A classified lexical unit with its text and source line.
#[derive(Debug)]
pub struct Token {
    pub token_type: TokenType,
    pub lexeme: String,
    pub line: usize,
}

// ----- character classes -----

pub open spec fn spec_is_digit(c: char) -> bool {
    '0' <= c && c <= '9'
}

pub open spec fn spec_is_alpha(c: char) -> bool {
    ('a' <= c && c <= 'z') || ('A' <= c && c <= 'Z') || c == '_'
}

pub open spec fn spec_is_alphanumeric(c: char) -> bool {
    spec_is_alpha(c) || spec_is_digit(c)
}

pub open spec fn is_blank(c: char) -> bool {
    c == ' ' || c == '\t' || c == '\r' || c == '\n'
}

// ----- the lexical grammar over the source characters -----

/// Number of newline characters in `t`.
pub open spec fn newlines(t: Seq<char>) -> nat
    decreases t.len(),
{
    if t.len() == 0 {
        0
    } else {
        newlines(t.drop_last()) + if t.last() == '\n' {
            1nat
        } else {
            0nat
        }
    }
}

/// The 1-based line on which position `pos` of `s` lies.
pub open spec fn line_at(s: Seq<char>, pos: int) -> nat {
    1 + newlines(s.take(pos))
}

/// First position at or after `pos` that is neither whitespace nor part of a
/// `//` comment; `in_comment` tells whether `pos` lies inside a comment.
pub open spec fn trivia_end(s: Seq<char>, pos: int, in_comment: bool) -> int
    decreases s.len() - pos,
{
    if pos < 0 || pos >= s.len() {
        pos
    } else if in_comment {
        trivia_end(s, pos + 1, s[pos] != '\n')
    } else if is_blank(s[pos]) {
        trivia_end(s, pos + 1, false)
    } else if s[pos] == '/' && pos + 1 < s.len() && s[pos + 1] == '/' {
        trivia_end(s, pos + 2, true)
    } else {
        pos
    }
}

/// First position at or after `pos` that does not hold a digit.
pub open spec fn digits_end(s: Seq<char>, pos: int) -> int
    decreases s.len() - pos,
{
    if 0 <= pos < s.len() && spec_is_digit(s[pos]) {
        digits_end(s, pos + 1)
    } else {
        pos
    }
}

/// First position at or after `pos` that does not hold a letter, digit or `_`.
pub open spec fn ident_end(s: Seq<char>, pos: int) -> int
    decreases s.len() - pos,
{
    if 0 <= pos < s.len() && spec_is_alphanumeric(s[pos]) {
        ident_end(s, pos + 1)
    } else {
        pos
    }
}

/// Position of the first `"` at or after `pos`, or the length of `s`.
pub open spec fn string_close(s: Seq<char>, pos: int) -> int
    decreases s.len() - pos,
{
    if 0 <= pos < s.len() && s[pos] != '"' {
        string_close(s, pos + 1)
    } else {
        pos
    }
}

/// End of the number literal whose first digit is at `p`: digits, then
/// optionally a `.` that is followed by at least one more digit.
pub open spec fn number_end(s: Seq<char>, p: int) -> int {
    let e = digits_end(s, p + 1);
    if e + 1 < s.len() && s[e] == '.' && spec_is_digit(s[e + 1]) {
        digits_end(s, e + 2)
    } else {
        e
    }
}

/// The kind of a word: its keyword if it is one, else `Identifier`.
pub open spec fn keyword_kind(w: Seq<char>) -> TokenType {
    if w == "and"@ {
        TokenType::And
    } else if w == "class"@ {
        TokenType::Class
    } else if w == "else"@ {
        TokenType::Else
    } else if w == "false"@ {
        TokenType::False
    } else if w == "for"@ {
        TokenType::For
    } else if w == "fun"@ {
        TokenType::Fun
    } else if w == "if"@ {
        TokenType::If
    } else if w == "nil"@ {
        TokenType::Nil
    } else if w == "or"@ {
        TokenType::Or
    } else if w == "print"@ {
        TokenType::Print
    } else if w == "return"@ {
        TokenType::Return
    } else if w == "super"@ {
        TokenType::Super
    } else if w == "this"@ {
        TokenType::This
    } else if w == "true"@ {
        TokenType::True
    } else if w == "var"@ {
        TokenType::Var
    } else if w == "while"@ {
        TokenType::While
    } else {
        TokenType::Identifier
    }
}

proof fn lemma_keyword_letters()
    ensures
        "and"@.len() == 3 && "and"@[0] == 'a' && "and"@[1] == 'n' && "and"@[2] == 'd',
        "class"@.len() == 5 && "class"@[0] == 'c' && "class"@[1] == 'l' && "class"@[2] == 'a' && "class"@[3] == 's' && "class"@[4] == 's',
        "else"@.len() == 4 && "else"@[0] == 'e' && "else"@[1] == 'l' && "else"@[2] == 's' && "else"@[3] == 'e',
        "false"@.len() == 5 && "false"@[0] == 'f' && "false"@[1] == 'a' && "false"@[2] == 'l' && "false"@[3] == 's' && "false"@[4] == 'e',
        "for"@.len() == 3 && "for"@[0] == 'f' && "for"@[1] == 'o' && "for"@[2] == 'r',
        "fun"@.len() == 3 && "fun"@[0] == 'f' && "fun"@[1] == 'u' && "fun"@[2] == 'n',
        "if"@.len() == 2 && "if"@[0] == 'i' && "if"@[1] == 'f',
        "nil"@.len() == 3 && "nil"@[0] == 'n' && "nil"@[1] == 'i' && "nil"@[2] == 'l',
        "or"@.len() == 2 && "or"@[0] == 'o' && "or"@[1] == 'r',
        "print"@.len() == 5 && "print"@[0] == 'p' && "print"@[1] == 'r' && "print"@[2] == 'i' && "print"@[3] == 'n' && "print"@[4] == 't',
        "return"@.len() == 6 && "return"@[0] == 'r' && "return"@[1] == 'e' && "return"@[2] == 't' && "return"@[3] == 'u' && "return"@[4] == 'r' && "return"@[5] == 'n',
        "super"@.len() == 5 && "super"@[0] == 's' && "super"@[1] == 'u' && "super"@[2] == 'p' && "super"@[3] == 'e' && "super"@[4] == 'r',
        "this"@.len() == 4 && "this"@[0] == 't' && "this"@[1] == 'h' && "this"@[2] == 'i' && "this"@[3] == 's',
        "true"@.len() == 4 && "true"@[0] == 't' && "true"@[1] == 'r' && "true"@[2] == 'u' && "true"@[3] == 'e',
        "var"@.len() == 3 && "var"@[0] == 'v' && "var"@[1] == 'a' && "var"@[2] == 'r',
        "while"@.len() == 5 && "while"@[0] == 'w' && "while"@[1] == 'h' && "while"@[2] == 'i' && "while"@[3] == 'l' && "while"@[4] == 'e',
{
    reveal_strlit("and");
    reveal_strlit("class");
    reveal_strlit("else");
    reveal_strlit("false");
    reveal_strlit("for");
    reveal_strlit("fun");
    reveal_strlit("if");
    reveal_strlit("nil");
    reveal_strlit("or");
    reveal_strlit("print");
    reveal_strlit("return");
    reveal_strlit("super");
    reveal_strlit("this");
    reveal_strlit("true");
    reveal_strlit("var");
    reveal_strlit("while");
}

/// A one-character operator that becomes a two-character one before `=`.
pub open spec fn with_equal(s: Seq<char>, p: int, one: TokenType, two: TokenType) -> (TokenType, int) {
    if p + 1 < s.len() && s[p + 1] == '=' {
        (two, p + 2)
    } else {
        (one, p + 1)
    }
}

/// Kind and end of the token that starts at position `p` (`p < s.len()`).
pub open spec fn scan_token(s: Seq<char>, p: int) -> (TokenType, int) {
    let c = s[p];
    if c == '(' {
        (TokenType::LeftParen, p + 1)
    } else if c == ')' {
        (TokenType::RightParen, p + 1)
    } else if c == '{' {
        (TokenType::LeftBrace, p + 1)
    } else if c == '}' {
        (TokenType::RightBrace, p + 1)
    } else if c == ';' {
        (TokenType::Semicolon, p + 1)
    } else if c == ',' {
        (TokenType::Comma, p + 1)
    } else if c == '.' {
        (TokenType::Dot, p + 1)
    } else if c == '-' {
        (TokenType::Minus, p + 1)
    } else if c == '+' {
        (TokenType::Plus, p + 1)
    } else if c == '/' {
        (TokenType::Slash, p + 1)
    } else if c == '*' {
        (TokenType::Star, p + 1)
    } else if c == '!' {
        with_equal(s, p, TokenType::Bang, TokenType::BangEqual)
    } else if c == '=' {
        with_equal(s, p, TokenType::Equal, TokenType::EqualEqual)
    } else if c == '<' {
        with_equal(s, p, TokenType::Less, TokenType::LessEqual)
    } else if c == '>' {
        with_equal(s, p, TokenType::Greater, TokenType::GreaterEqual)
    } else if c == '"' {
        let q = string_close(s, p + 1);
        if q < s.len() {
            (TokenType::String, q + 1)
        } else {
            (TokenType::Error, q)
        }
    } else if spec_is_digit(c) {
        (TokenType::Number, number_end(s, p))
    } else if spec_is_alpha(c) {
        let e = ident_end(s, p + 1);
        (keyword_kind(s.subrange(p, e)), e)
    } else {
        (TokenType::Error, p + 1)
    }
}

pub open spec fn unterminated_message() -> Seq<char> {
    "Unterminated String"@
}

pub open spec fn unexpected_message() -> Seq<char> {
    "unexpected character"@
}

/// The lexeme of the token of kind `k` that spans `[p, e)`: the source text,
/// or for an error its message.
pub open spec fn token_lexeme(s: Seq<char>, p: int, k: TokenType, e: int) -> Seq<char> {
    if k == TokenType::Error {
        if s[p] == '"' {
            unterminated_message()
        } else {
            unexpected_message()
        }
    } else {
        s.subrange(p, e)
    }
}

/// The token that scanning from `pos` yields, as (kind, lexeme, line, end),
/// or `None` when only whitespace and comments are left.
#[verifier::opaque]
pub open spec fn next_token(s: Seq<char>, pos: int) -> Option<(TokenType, Seq<char>, nat, int)> {
    let p = trivia_end(s, pos, false);
    if p >= s.len() {
        None
    } else {
        let (k, e) = scan_token(s, p);
        Some((k, token_lexeme(s, p, k, e), line_at(s, e), e))
    }
}

// ----- lemmas -----

/// Nothing is left to scan at the end of the source.
pub proof fn lemma_next_token_at_end(s: Seq<char>)
    ensures
        next_token(s, s.len() as int) is None,
{
    reveal(next_token);
}

proof fn lemma_line_at_step(s: Seq<char>, pos: int)
    requires
        0 <= pos < s.len(),
    ensures
        line_at(s, pos + 1) == line_at(s, pos) + if s[pos] == '\n' {
            1nat
        } else {
            0nat
        },
{
    assert(s.take(pos + 1).drop_last() =~= s.take(pos));
}

proof fn lemma_newlines_bound(t: Seq<char>)
    ensures
        newlines(t) <= t.len(),
    decreases t.len(),
{
    if t.len() > 0 {
        lemma_newlines_bound(t.drop_last());
    }
}

proof fn lemma_trivia_end_bounds(s: Seq<char>, pos: int, in_comment: bool)
    requires
        0 <= pos <= s.len(),
    ensures
        pos <= trivia_end(s, pos, in_comment) <= s.len(),
    decreases s.len() - pos,
{
    if pos < s.len() {
        if in_comment {
            lemma_trivia_end_bounds(s, pos + 1, s[pos] != '\n');
        } else if is_blank(s[pos]) {
            lemma_trivia_end_bounds(s, pos + 1, false);
        } else if s[pos] == '/' && pos + 1 < s.len() && s[pos + 1] == '/' {
            lemma_trivia_end_bounds(s, pos + 2, true);
        }
    }
}

/// Every character of `t` is a digit, and there is at least one.
pub open spec fn all_digits(t: Seq<char>) -> bool {
    t.len() > 0 && forall|i: int| 0 <= i < t.len() ==> spec_is_digit(#[trigger] t[i])
}

/// Digits, optionally followed by a `.` and more digits.
pub open spec fn is_numeral(t: Seq<char>) -> bool {
    all_digits(t) || exists|k: int|
        0 < k < t.len() && #[trigger] t[k] == '.' && all_digits(t.take(k)) && all_digits(
            t.skip(k + 1),
        )
}

proof fn lemma_digits_end(s: Seq<char>, pos: int)
    requires
        0 <= pos <= s.len(),
    ensures
        pos <= digits_end(s, pos) <= s.len(),
        forall|i: int| pos <= i < digits_end(s, pos) ==> spec_is_digit(#[trigger] s[i]),
    decreases s.len() - pos,
{
    if pos < s.len() && spec_is_digit(s[pos]) {
        lemma_digits_end(s, pos + 1);
    }
}

/// An unterminated string literal ends the token stream: it is scanned as
/// one `Error` token with that message, reaching the end of the source, and
/// no token follows it.
pub proof fn unterminated_string_ends_input(s: Seq<char>, pos: int)
    requires
        0 <= pos <= s.len(),
        trivia_end(s, pos, false) < s.len(),
        s[trivia_end(s, pos, false)] == '"',
        string_close(s, trivia_end(s, pos, false) + 1) == s.len(),
    ensures
        next_token(s, pos) is Some,
        next_token(s, pos).unwrap().0 == TokenType::Error,
        next_token(s, pos).unwrap().1 == unterminated_message(),
        next_token(s, pos).unwrap().3 == s.len(),
        next_token(s, s.len() as int) is None,
{
    reveal(next_token);
}

/// Every number token is a numeral and is exactly the source text it was
/// scanned from, so reading its lexeme back gives the literal's value.
pub proof fn number_lexeme_is_source_numeral(s: Seq<char>, pos: int)
    requires
        0 <= pos <= s.len(),
        next_token(s, pos) is Some,
        next_token(s, pos).unwrap().0 == TokenType::Number,
    ensures
        is_numeral(next_token(s, pos).unwrap().1),
        next_token(s, pos).unwrap().1 == s.subrange(
            trivia_end(s, pos, false),
            next_token(s, pos).unwrap().3,
        ),
{
    reveal(next_token);
    let p = trivia_end(s, pos, false);
    lemma_trivia_end_bounds(s, pos, false);
    let t = next_token(s, pos).unwrap();
    assert(spec_is_digit(s[p]));
    let e = digits_end(s, p + 1);
    lemma_digits_end(s, p + 1);
    if e + 1 < s.len() && s[e] == '.' && spec_is_digit(s[e + 1]) {
        let e2 = digits_end(s, e + 2);
        lemma_digits_end(s, e + 2);
        assert(t.1 =~= s.subrange(p, e2));
        let k = e - p;
        assert(t.1[k] == '.');
        assert(all_digits(t.1.take(k)));
        assert(all_digits(t.1.skip(k + 1)));
    } else {
        assert(t.1 =~= s.subrange(p, e));
        assert(all_digits(t.1));
    }
}

// ----- the scanner -----

/// A single-direction cursor over a source text that yields its tokens.
pub struct Scanner {
    contents: String,
    chars: Vec<char>,
    start: usize,
    current: usize,
    line: usize,
}

impl Token {
    fn new(token_type: TokenType, lexeme: String, line: usize) -> (r: Self)
        ensures
            r.token_type == token_type,
            r.lexeme@ == lexeme@,
            r.line == line,
    {
        Self { token_type, lexeme, line }
    }
}

impl Scanner {
    /// The characters of the source text.
    pub closed spec fn source(&self) -> Seq<char> {
        self.chars@
    }

    /// How many characters of the source have been consumed.
    pub closed spec fn position(&self) -> int {
        self.current as int
    }

    pub closed spec fn wf(&self) -> bool {
        &&& self.chars@ == self.contents@
        &&& self.start <= self.current <= self.chars.len()
        &&& self.chars.len() < usize::MAX
        &&& self.line == line_at(self.chars@, self.current as int)
    }

    /// A well-formed scanner's cursor lies within its source.
    pub proof fn lemma_position_in_source(&self)
        requires
            self.wf(),
        ensures
            0 <= self.position() <= self.source().len(),
    {
    }

    spec fn same_text(&self, o: &Scanner) -> bool {
        &&& self.chars@ == o.chars@
        &&& self.contents@ == o.contents@
        &&& self.start == o.start
    }

    /// Whether `t` is the token that the grammar gives for `[start, current)`.
    spec fn produced(&self, t: &Token) -> bool {
        let (k, e) = scan_token(self.chars@, self.start as int);
        &&& t.token_type == k
        &&& self.current == e
        &&& t.lexeme@ == token_lexeme(self.chars@, self.start as int, k, e)
        &&& t.line == self.line
    }

    pub fn new(contents: String) -> (r: Self)
        requires
            contents@.len() < usize::MAX,
        ensures
            r.wf(),
            r.source() == contents@,
            r.position() == 0,
    {
        let n = contents.as_str().unicode_len();
        let mut chars: Vec<char> = Vec::new();
        let mut i: usize = 0;
        while i < n
            invariant
                n == contents@.len(),
                i <= n,
                chars@ == contents@.take(i as int),
            decreases n - i,
        {
            let c = contents.as_str().get_char(i);
            chars.push(c);
            i += 1;
            assert(chars@ =~= contents@.take(i as int));
        }
        assert(chars@ =~= contents@);
        assert(chars@.take(0) =~= Seq::<char>::empty());
        Self { contents, chars, start: 0, current: 0, line: 1 }
    }

    fn make_token(&self, token_type: TokenType) -> (t: Token)
        requires
            self.wf(),
        ensures
            t.token_type == token_type,
            t.lexeme@ == self.chars@.subrange(self.start as int, self.current as int),
            t.line == self.line,
    {
        let text = self.contents.as_str().substring_char(self.start, self.current);
        Token::new(token_type, text.to_owned(), self.line)
    }

    fn make_error_token(&self, message: String) -> (t: Token)
        ensures
            t.token_type == TokenType::Error,
            t.lexeme@ == message@,
            t.line == self.line,
    {
        Token::new(TokenType::Error, message, self.line)
    }

    fn advance(&mut self) -> (c: char)
        requires
            old(self).wf(),
            old(self).current < old(self).chars.len(),
        ensures
            final(self).wf(),
            final(self).same_text(old(self)),
            final(self).current == old(self).current + 1,
            c == old(self).chars@[old(self).current as int],
    {
        let c = self.peek();
        proof {
            lemma_line_at_step(self.chars@, self.current as int);
            lemma_newlines_bound(self.chars@.take(self.current as int));
        }
        if c == '\n' {
            self.line += 1;
        }
        self.current += 1;
        c
    }

    fn skip_whitespace(&mut self)
        requires
            old(self).wf(),
        ensures
            final(self).wf(),
            final(self).same_text(old(self)),
            final(self).current == trivia_end(old(self).chars@, old(self).current as int, false),
    {
        let ghost s = self.chars@;
        let ghost target = trivia_end(s, self.current as int, false);
        loop
            invariant
                self.wf(),
                self.same_text(old(self)),
                s == self.chars@,
                trivia_end(s, self.current as int, false) == target,
                target == trivia_end(old(self).chars@, old(self).current as int, false),
            decreases self.chars.len() - self.current,
        {
            if self.is_end() {
                return;
            }
            let c = self.peek();
            let ghost before = self.current;
            if c == ' ' || c == '\t' || c == '\r' || c == '\n' {
                self.advance();
            } else if c == '/' && self.can_peek_next() && self.peek_next() == '/' {
                self.advance();
                self.advance();
                while !self.is_end() && self.peek() != '\n'
                    invariant
                        self.wf(),
                        self.same_text(old(self)),
                        s == self.chars@,
                        trivia_end(s, self.current as int, true) == target,
                        self.current >= before + 2,
                        target == trivia_end(old(self).chars@, old(self).current as int, false),
                    decreases self.chars.len() - self.current,
                {
                    self.advance();
                }
                if !self.is_end() {
                    self.advance();
                }
            } else {
                return;
            }
        }
    }

    fn matches(&mut self, expected: char) -> (r: bool)
        requires
            old(self).wf(),
            expected != '\n',
        ensures
            final(self).wf(),
            final(self).same_text(old(self)),
            r == (old(self).current < old(self).chars.len() && old(self).chars@[old(self).current as int] == expected),
            final(self).current == old(self).current + if r { 1int } else { 0int },
    {
        if self.is_end() {
            return false;
        }
        if self.peek() != expected {
            return false;
        }
        self.advance();
        true
    }

    fn is_end(&self) -> (r: bool)
        requires
            self.wf(),
        ensures
            r == (self.current == self.chars.len()),
    {
        self.current == self.chars.len()
    }

    fn can_peek_next(&self) -> (r: bool)
        requires
            self.wf(),
        ensures
            r == (self.current + 1 < self.chars.len()),
    {
        !self.is_end() && self.current != self.chars.len() - 1
    }

    fn peek(&self) -> (c: char)
        requires
            self.wf(),
            self.current < self.chars.len(),
        ensures
            c == self.chars@[self.current as int],
    {
        self.chars[self.current]
    }

    fn peek_next(&self) -> (c: char)
        requires
            self.wf(),
            self.current + 1 < self.chars.len(),
        ensures
            c == self.chars@[self.current + 1],
    {
        self.chars[self.current + 1]
    }

    fn string(&mut self) -> (t: Token)
        requires
            old(self).wf(),
            old(self).current == old(self).start + 1,
            old(self).chars@[old(self).start as int] == '"',
        ensures
            final(self).wf(),
            final(self).same_text(old(self)),
            final(self).produced(&t),
            final(self).current >= old(self).current,
    {
        let ghost s = self.chars@;
        while !self.is_end() && self.peek() != '"'
            invariant
                self.wf(),
                self.same_text(old(self)),
                s == self.chars@,
                self.start + 1 <= self.current,
                string_close(s, self.current as int) == string_close(s, self.start + 1),
            decreases self.chars.len() - self.current,
        {
            self.advance();
        }
        if self.is_end() {
            return self.make_error_token(String::from_str("Unterminated String"));
        }
        self.advance();
        self.make_token(TokenType::String)
    }

    fn number(&mut self) -> (t: Token)
        requires
            old(self).wf(),
            old(self).current == old(self).start + 1,
            spec_is_digit(old(self).chars@[old(self).start as int]),
        ensures
            final(self).wf(),
            final(self).same_text(old(self)),
            final(self).produced(&t),
            final(self).current >= old(self).current,
    {
        let ghost s = self.chars@;
        while !self.is_end() && is_digit(self.peek())
            invariant
                self.wf(),
                self.same_text(old(self)),
                s == self.chars@,
                self.start + 1 <= self.current,
                digits_end(s, self.current as int) == digits_end(s, self.start + 1),
            decreases self.chars.len() - self.current,
        {
            self.advance();
        }
        if self.can_peek_next() && self.peek() == '.' && is_digit(self.peek_next()) {
            self.advance();
            self.advance();
            let ghost fraction = self.current as int;
            while !self.is_end() && is_digit(self.peek())
                invariant
                    self.wf(),
                    self.same_text(old(self)),
                    s == self.chars@,
                    fraction <= self.current,
                    digits_end(s, self.current as int) == digits_end(s, fraction),
                decreases self.chars.len() - self.current,
            {
                self.advance();
            }
        }
        self.make_token(TokenType::Number)
    }

    fn identifier(&mut self) -> (t: Token)
        requires
            old(self).wf(),
            old(self).current == old(self).start + 1,
            spec_is_alpha(old(self).chars@[old(self).start as int]),
        ensures
            final(self).wf(),
            final(self).same_text(old(self)),
            final(self).produced(&t),
            final(self).current >= old(self).current,
    {
        let ghost s = self.chars@;
        while !self.is_end() && is_alphanumeric(self.peek())
            invariant
                self.wf(),
                self.same_text(old(self)),
                s == self.chars@,
                self.start + 1 <= self.current,
                ident_end(s, self.current as int) == ident_end(s, self.start + 1),
            decreases self.chars.len() - self.current,
        {
            self.advance();
        }
        let kind = self.identifier_type();
        self.make_token(kind)
    }

    fn identifier_type(&self) -> (r: TokenType)
        requires
            self.wf(),
            self.start < self.current,
        ensures
            r == keyword_kind(self.chars@.subrange(self.start as int, self.current as int)),
    {
        proof {
            lemma_keyword_letters();
        }
        let c0 = self.chars[self.start];
        match c0 {
            'a' => self.check_keyword("and", TokenType::And),
            'c' => self.check_keyword("class", TokenType::Class),
            'e' => self.check_keyword("else", TokenType::Else),
            'i' => self.check_keyword("if", TokenType::If),
            'n' => self.check_keyword("nil", TokenType::Nil),
            'o' => self.check_keyword("or", TokenType::Or),
            'p' => self.check_keyword("print", TokenType::Print),
            'r' => self.check_keyword("return", TokenType::Return),
            's' => self.check_keyword("super", TokenType::Super),
            'v' => self.check_keyword("var", TokenType::Var),
            'w' => self.check_keyword("while", TokenType::While),
            'f' => {
                if self.current - self.start > 1 {
                    let c1 = self.chars[self.start + 1];
                    match c1 {
                        'a' => self.check_keyword("false", TokenType::False),
                        'o' => self.check_keyword("for", TokenType::For),
                        'u' => self.check_keyword("fun", TokenType::Fun),
                        _ => TokenType::Identifier,
                    }
                } else {
                    TokenType::Identifier
                }
            },
            't' => {
                if self.current - self.start > 1 {
                    let c1 = self.chars[self.start + 1];
                    match c1 {
                        'h' => self.check_keyword("this", TokenType::This),
                        'r' => self.check_keyword("true", TokenType::True),
                        _ => TokenType::Identifier,
                    }
                } else {
                    TokenType::Identifier
                }
            },
            _ => TokenType::Identifier,
        }
    }

    /// `kind` if the word from `start` to the cursor is `keyword`, else
    /// `Identifier`.
    fn check_keyword(&self, keyword: &str, kind: TokenType) -> (r: TokenType)
        requires
            self.wf(),
        ensures
            r == if self.chars@.subrange(self.start as int, self.current as int) == keyword@ {
                kind
            } else {
                TokenType::Identifier
            },
    {
        let n = keyword.unicode_len();
        if self.current - self.start != n {
            return TokenType::Identifier;
        }
        let ghost w = self.chars@.subrange(self.start as int, self.current as int);
        let mut i: usize = 0;
        while i < n
            invariant
                self.wf(),
                w == self.chars@.subrange(self.start as int, self.current as int),
                self.current - self.start == n,
                n == keyword@.len(),
                i <= n,
                forall|j: int| 0 <= j < i ==> w[j] == keyword@[j],
            decreases n - i,
        {
            if self.chars[self.start + i] != keyword.get_char(i) {
                assert(w[i as int] != keyword@[i as int]);
                return TokenType::Identifier;
            }
            i += 1;
        }
        assert(w =~= keyword@);
        kind
    }

    /// The line that the cursor is on.
    pub fn line(&self) -> (r: usize)
        requires
            self.wf(),
        ensures
            r == line_at(self.source(), self.position()),
    {
        self.line
    }

    /// Yields the next token, or `None` once only whitespace and comments
    /// are left.
    pub fn next(&mut self) -> (r: Option<Token>)
        requires
            old(self).wf(),
        ensures
            final(self).wf(),
            final(self).source() == old(self).source(),
            old(self).position() <= final(self).position() <= final(self).source().len(),
            r.is_some() ==> r.unwrap().token_type != TokenType::Eof,
            r.is_some() && r.unwrap().token_type == TokenType::Number ==> is_numeral(
                r.unwrap().lexeme@,
            ),
            match next_token(old(self).source(), old(self).position()) {
                None => r.is_none() && final(self).position() == final(self).source().len(),
                Some(x) => {
                    &&& r.is_some()
                    &&& r.unwrap().token_type == x.0
                    &&& r.unwrap().lexeme@ == x.1
                    &&& r.unwrap().line == x.2
                    &&& final(self).position() == x.3
                    &&& x.3 > old(self).position()
                },
            },
    {
        proof {
            lemma_trivia_end_bounds(self.chars@, self.current as int, false);
            reveal(next_token);
        }
        self.skip_whitespace();
        self.start = self.current;
        if self.is_end() {
            return None;
        }
        let c = self.advance();
        let t = match c {
            '(' => self.make_token(TokenType::LeftParen),
            ')' => self.make_token(TokenType::RightParen),
            '{' => self.make_token(TokenType::LeftBrace),
            '}' => self.make_token(TokenType::RightBrace),
            ';' => self.make_token(TokenType::Semicolon),
            ',' => self.make_token(TokenType::Comma),
            '.' => self.make_token(TokenType::Dot),
            '-' => self.make_token(TokenType::Minus),
            '+' => self.make_token(TokenType::Plus),
            '/' => self.make_token(TokenType::Slash),
            '*' => self.make_token(TokenType::Star),
            '!' => {
                let kind = if self.matches('=') {
                    TokenType::BangEqual
                } else {
                    TokenType::Bang
                };
                self.make_token(kind)
            },
            '=' => {
                let kind = if self.matches('=') {
                    TokenType::EqualEqual
                } else {
                    TokenType::Equal
                };
                self.make_token(kind)
            },
            '<' => {
                let kind = if self.matches('=') {
                    TokenType::LessEqual
                } else {
                    TokenType::Less
                };
                self.make_token(kind)
            },
            '>' => {
                let kind = if self.matches('=') {
                    TokenType::GreaterEqual
                } else {
                    TokenType::Greater
                };
                self.make_token(kind)
            },
            '"' => self.string(),
            _ => {
                if is_digit(c) {
                    self.number()
                } else if is_alpha(c) {
                    self.identifier()
                } else {
                    self.make_error_token(String::from_str("unexpected character"))
                }
            },
        };
        assert(self.produced(&t));
        assert(next_token(old(self).chars@, old(self).current as int) == Some(
            (t.token_type, t.lexeme@, t.line as nat, self.current as int),
        ));
        proof {
            if t.token_type == TokenType::Number {
                number_lexeme_is_source_numeral(old(self).chars@, old(self).current as int);
            }
        }
        Some(t)
    }
}

pub fn is_alphanumeric(c: char) -> (r: bool)
    ensures
        r == spec_is_alphanumeric(c),
{
    is_alpha(c) || is_digit(c)
}

pub fn is_digit(c: char) -> (r: bool)
    ensures
        r == spec_is_digit(c),
{
    c >= '0' && c <= '9'
}

pub fn is_alpha(c: char) -> (r: bool)
    ensures
        r == spec_is_alpha(c),
{
    (c >= 'A' && c <= 'Z') || (c >= 'a' && c <= 'z') || c == '_'
}

} // verus!
