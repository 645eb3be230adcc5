use crate::ast1::Span;
use crate::cursor::{
    char_at, char_stream, lemma_location_monotone, loc_le, location_at, lines_fit,
};
use crate::line_map::{lines_ordered, Line};
use crate::text::{
    is_ascii_digit, is_ascii_digit_spec, is_ident_char, is_ident_char_spec, is_ident_start,
    is_ident_start_spec, is_white_space, is_white_space_spec,
};
use vstd::prelude::*;
use vstd::string::{StrSliceExecFns, StringExecFns};

pub use crate::cursor::{Cursor, Location};

verus! {

/// A classified token and the place where it starts.
#[derive(Debug, Clone, PartialEq)]
pub struct Token {
    pub kind: TokenKind,
    pub span: Span,
}

/// The kinds of token. Literals carry their raw source text; a string
/// literal carries its content without the quotes.
#[derive(Debug, Clone, PartialEq)]
pub enum TokenKind {
    Ident(String),
    Int(String),
    Float(String),
    String(String),
    Let,
    If,
    Elif,
    Else,
    Yield,
    Return,
    True,
    False,
    Eq,
    EqEq,
    Bang,
    BangEq,
    Plus,
    Minus,
    Star,
    Slash,
    Lt,
    Le,
    Gt,
    Ge,
    And,
    Or,
    LParen,
    RParen,
    LBrace,
    RBrace,
    Comma,
    Colon,
    Semi,
    Eof,
    Error(String),
}

/// The mathematical value of a `TokenKind`: text as character sequences.
pub enum Tok {
    Ident(Seq<char>),
    Int(Seq<char>),
    Float(Seq<char>),
    Str(Seq<char>),
    Let,
    If,
    Elif,
    Else,
    Yield,
    Return,
    True,
    False,
    Eq,
    EqEq,
    Bang,
    BangEq,
    Plus,
    Minus,
    Star,
    Slash,
    Lt,
    Le,
    Gt,
    Ge,
    And,
    Or,
    LParen,
    RParen,
    LBrace,
    RBrace,
    Comma,
    Colon,
    Semi,
    Eof,
    Error(Seq<char>),
}

impl View for TokenKind {
    type V = Tok;

    open spec fn view(&self) -> Tok {
        match self {
            TokenKind::Ident(t) => Tok::Ident(t@),
            TokenKind::Int(t) => Tok::Int(t@),
            TokenKind::Float(t) => Tok::Float(t@),
            TokenKind::String(t) => Tok::Str(t@),
            TokenKind::Let => Tok::Let,
            TokenKind::If => Tok::If,
            TokenKind::Elif => Tok::Elif,
            TokenKind::Else => Tok::Else,
            TokenKind::Yield => Tok::Yield,
            TokenKind::Return => Tok::Return,
            TokenKind::True => Tok::True,
            TokenKind::False => Tok::False,
            TokenKind::Eq => Tok::Eq,
            TokenKind::EqEq => Tok::EqEq,
            TokenKind::Bang => Tok::Bang,
            TokenKind::BangEq => Tok::BangEq,
            TokenKind::Plus => Tok::Plus,
            TokenKind::Minus => Tok::Minus,
            TokenKind::Star => Tok::Star,
            TokenKind::Slash => Tok::Slash,
            TokenKind::Lt => Tok::Lt,
            TokenKind::Le => Tok::Le,
            TokenKind::Gt => Tok::Gt,
            TokenKind::Ge => Tok::Ge,
            TokenKind::And => Tok::And,
            TokenKind::Or => Tok::Or,
            TokenKind::LParen => Tok::LParen,
            TokenKind::RParen => Tok::RParen,
            TokenKind::LBrace => Tok::LBrace,
            TokenKind::RBrace => Tok::RBrace,
            TokenKind::Comma => Tok::Comma,
            TokenKind::Colon => Tok::Colon,
            TokenKind::Semi => Tok::Semi,
            TokenKind::Eof => Tok::Eof,
            TokenKind::Error(m) => Tok::Error(m@),
        }
    }
}

/// The text a token kind is shown as: literals and identifiers with their
/// text in the variant's name, a few kinds as their source symbol, the
/// others by their name.
pub open spec fn describe_spec(k: Tok) -> Seq<char> {
    match k {
        Tok::Ident(t) => "Ident("@ + t + ")"@,
        Tok::Int(t) => "Int("@ + t + ")"@,
        Tok::Float(t) => "Float("@ + t + ")"@,
        Tok::Str(t) => "String(\""@ + t + "\")"@,
        Tok::Error(t) => "Error(\""@ + t + "\")"@,
        Tok::Let => "let"@,
        Tok::If => "If"@,
        Tok::Elif => "Elif"@,
        Tok::Else => "Else"@,
        Tok::Yield => "Yield"@,
        Tok::Return => "Return"@,
        Tok::True => "True"@,
        Tok::False => "False"@,
        Tok::Eq => "="@,
        Tok::EqEq => "EqEq"@,
        Tok::Bang => "Bang"@,
        Tok::BangEq => "BangEq"@,
        Tok::Plus => "Plus"@,
        Tok::Minus => "Minus"@,
        Tok::Star => "Star"@,
        Tok::Slash => "Slash"@,
        Tok::Lt => "Lt"@,
        Tok::Le => "Le"@,
        Tok::Gt => "Gt"@,
        Tok::Ge => "Ge"@,
        Tok::And => "And"@,
        Tok::Or => "Or"@,
        Tok::LParen => "LParen"@,
        Tok::RParen => "RParen"@,
        Tok::LBrace => "LBrace"@,
        Tok::RBrace => "RBrace"@,
        Tok::Comma => "Comma"@,
        Tok::Colon => "Colon"@,
        Tok::Semi => ";"@,
        Tok::Eof => "<EOF>"@,
    }
}

impl TokenKind {
    /// The text this kind is shown as (see `describe_spec`).
    pub fn describe(&self) -> (r: String)
        ensures
            r@ == describe_spec(self@),
    {
        match self {
            TokenKind::Ident(t) => {
                let mut r = String::from_str("Ident(");
                r.append(t.as_str());
                r.append(")");
                r
            },
            TokenKind::Int(t) => {
                let mut r = String::from_str("Int(");
                r.append(t.as_str());
                r.append(")");
                r
            },
            TokenKind::Float(t) => {
                let mut r = String::from_str("Float(");
                r.append(t.as_str());
                r.append(")");
                r
            },
            TokenKind::String(t) => {
                let mut r = String::from_str("String(\"");
                r.append(t.as_str());
                r.append("\")");
                r
            },
            TokenKind::Error(t) => {
                let mut r = String::from_str("Error(\"");
                r.append(t.as_str());
                r.append("\")");
                r
            },
            TokenKind::Let => String::from_str("let"),
            TokenKind::If => String::from_str("If"),
            TokenKind::Elif => String::from_str("Elif"),
            TokenKind::Else => String::from_str("Else"),
            TokenKind::Yield => String::from_str("Yield"),
            TokenKind::Return => String::from_str("Return"),
            TokenKind::True => String::from_str("True"),
            TokenKind::False => String::from_str("False"),
            TokenKind::Eq => String::from_str("="),
            TokenKind::EqEq => String::from_str("EqEq"),
            TokenKind::Bang => String::from_str("Bang"),
            TokenKind::BangEq => String::from_str("BangEq"),
            TokenKind::Plus => String::from_str("Plus"),
            TokenKind::Minus => String::from_str("Minus"),
            TokenKind::Star => String::from_str("Star"),
            TokenKind::Slash => String::from_str("Slash"),
            TokenKind::Lt => String::from_str("Lt"),
            TokenKind::Le => String::from_str("Le"),
            TokenKind::Gt => String::from_str("Gt"),
            TokenKind::Ge => String::from_str("Ge"),
            TokenKind::And => String::from_str("And"),
            TokenKind::Or => String::from_str("Or"),
            TokenKind::LParen => String::from_str("LParen"),
            TokenKind::RParen => String::from_str("RParen"),
            TokenKind::LBrace => String::from_str("LBrace"),
            TokenKind::RBrace => String::from_str("RBrace"),
            TokenKind::Comma => String::from_str("Comma"),
            TokenKind::Colon => String::from_str("Colon"),
            TokenKind::Semi => String::from_str(";"),
            TokenKind::Eof => String::from_str("<EOF>"),
        }
    }
}

// ---------------------------------------------------------------------------
// The tokenizer as a function on character streams.
// ---------------------------------------------------------------------------

/// The end of the longest run of characters satisfying `f` that starts at `p`.
pub open spec fn run_end(s: Seq<char>, p: nat, f: spec_fn(char) -> bool) -> nat
    decreases s.len() - p,
{
    if p < s.len() && f(s[p as int]) {
        run_end(s, p + 1, f)
    } else {
        p
    }
}

pub open spec fn is_digit_or_underscore(c: char) -> bool {
    is_ascii_digit_spec(c) || c == '_'
}

/// Where the white space that starts at `p` ends.
pub open spec fn ws_end(s: Seq<char>, p: nat) -> nat {
    run_end(s, p, |c: char| is_white_space_spec(c))
}

/// A line comment starts at `q`.
pub open spec fn comment_at(s: Seq<char>, q: nat) -> bool {
    q + 1 < s.len() && s[q as int] == '/' && s[q as int + 1] == '/'
}

/// Where a comment that starts at `q` ends: at the next newline, which it
/// leaves in place.
pub open spec fn comment_end(s: Seq<char>, q: nat) -> nat {
    run_end(s, q + 1, |c: char| c != '\n')
}

/// The kind of a word: a keyword when it is one exactly, else an identifier.
pub open spec fn word_kind(w: Seq<char>) -> Tok {
    if w == "let"@ {
        Tok::Let
    } else if w == "if"@ {
        Tok::If
    } else if w == "elif"@ {
        Tok::Elif
    } else if w == "else"@ {
        Tok::Else
    } else if w == "yield"@ {
        Tok::Yield
    } else if w == "return"@ {
        Tok::Return
    } else if w == "true"@ {
        Tok::True
    } else if w == "false"@ {
        Tok::False
    } else {
        Tok::Ident(w)
    }
}

/// The end of the integer part of a number that starts at `q`, and of its
/// fractional part if a `.` follows.
pub open spec fn mantissa_end(s: Seq<char>, q: nat) -> (nat, bool) {
    let e1 = run_end(s, q, |c: char| is_digit_or_underscore(c));
    if e1 < s.len() && s[e1 as int] == '.' {
        (run_end(s, e1 + 1, |c: char| is_digit_or_underscore(c)), true)
    } else {
        (e1, false)
    }
}

/// Extends a mantissa ending at `e` by an exponent (`e` or `E`, an optional
/// sign, digits) if one follows.
pub open spec fn exponent_end(s: Seq<char>, e: nat) -> (nat, bool) {
    if e < s.len() && (s[e as int] == 'e' || s[e as int] == 'E') {
        let d = if e + 1 < s.len() && (s[e as int + 1] == '+' || s[e as int + 1] == '-') {
            e + 2
        } else {
            e + 1
        };
        (run_end(s, d, |c: char| is_ascii_digit_spec(c)), true)
    } else {
        (e, false)
    }
}

/// The end of a number that starts at `q`, and whether it is a float: it
/// has a fractional part, an exponent or the suffix `f`. The suffixes `u`
/// and `i` are kept in the text and change nothing else.
pub open spec fn number_end(s: Seq<char>, q: nat) -> (nat, bool) {
    let (e2, frac) = mantissa_end(s, q);
    let (e3, exp) = exponent_end(s, e2);
    if e3 < s.len() && s[e3 as int] == 'f' {
        (e3 + 1, true)
    } else if e3 < s.len() && (s[e3 as int] == 'u' || s[e3 as int] == 'i') {
        (e3 + 1, frac || exp)
    } else {
        (e3, frac || exp)
    }
}

/// The message of the error token for an unterminated string.
pub open spec fn unterminated_msg() -> Seq<char> {
    "Unterminated string"@
}

/// The message of the error token for a lone `&`.
pub open spec fn lone_ampersand_msg() -> Seq<char> {
    "Expected '&&', found '&'"@
}

/// The message of the error token for a character that starts no token.
pub open spec fn unexpected_msg(c: char) -> Seq<char> {
    "Unexpected character: '"@ + seq![c, '\'']
}

/// The string literal whose opening quote is at `q`, and where it ends: the
/// content runs to the next `"`, across line breaks; without one it is an
/// error that runs to the end of the input.
pub open spec fn string_token(s: Seq<char>, q: nat) -> (Tok, nat) {
    let e = run_end(s, q + 1, |c: char| c != '"');
    if e < s.len() {
        (Tok::Str(s.subrange(q as int + 1, e as int)), e + 1)
    } else {
        (Tok::Error(unterminated_msg()), e)
    }
}

/// An operator of one character, or of two where the second is `second`.
pub open spec fn one_or_two(s: Seq<char>, q: nat, second: char, two: Tok, one: Tok) -> (Tok, nat) {
    if char_at(s, q as int + 1) == Some(second) {
        (two, q + 2)
    } else {
        (one, q + 1)
    }
}

/// The operator or punctuation token at `q`, and where it ends.
pub open spec fn symbol_token(s: Seq<char>, q: nat) -> (Tok, nat) {
    let c = s[q as int];
    if c == '(' {
        (Tok::LParen, q + 1)
    } else if c == ')' {
        (Tok::RParen, q + 1)
    } else if c == '{' {
        (Tok::LBrace, q + 1)
    } else if c == '}' {
        (Tok::RBrace, q + 1)
    } else if c == ',' {
        (Tok::Comma, q + 1)
    } else if c == ';' {
        (Tok::Semi, q + 1)
    } else if c == ':' {
        (Tok::Colon, q + 1)
    } else if c == '+' {
        (Tok::Plus, q + 1)
    } else if c == '-' {
        (Tok::Minus, q + 1)
    } else if c == '*' {
        (Tok::Star, q + 1)
    } else if c == '/' {
        (Tok::Slash, q + 1)
    } else if c == '=' {
        one_or_two(s, q, '=', Tok::EqEq, Tok::Eq)
    } else if c == '!' {
        one_or_two(s, q, '=', Tok::BangEq, Tok::Bang)
    } else if c == '<' {
        one_or_two(s, q, '=', Tok::Le, Tok::Lt)
    } else if c == '>' {
        one_or_two(s, q, '=', Tok::Ge, Tok::Gt)
    } else if c == '&' {
        one_or_two(s, q, '&', Tok::And, Tok::Error(lone_ampersand_msg()))
    } else {
        (Tok::Error(unexpected_msg(c)), q + 1)
    }
}

/// The token that starts at `q` (not white space, not a comment, not the
/// end), and where it ends.
pub open spec fn token_at(s: Seq<char>, q: nat) -> (Tok, nat) {
    let c = s[q as int];
    if is_ident_start_spec(c) {
        let e = run_end(s, q, |c: char| is_ident_char_spec(c));
        (word_kind(s.subrange(q as int, e as int)), e)
    } else if is_ascii_digit_spec(c) {
        let (e, float) = number_end(s, q);
        let raw = s.subrange(q as int, e as int);
        (if float {
            Tok::Float(raw)
        } else {
            Tok::Int(raw)
        }, e)
    } else if c == '"' {
        string_token(s, q)
    } else {
        symbol_token(s, q)
    }
}

/// The next token of `s` from offset `p`: its kind, the offset where it
/// starts, and the offset just past it. White space and comments before it
/// are skipped; at the end of the input the token is `Eof`.
pub open spec fn lex_token(s: Seq<char>, p: nat) -> (Tok, nat, nat)
    decreases s.len() - p via lex_token_decreases
{
    let q = ws_end(s, p);
    if q >= s.len() {
        (Tok::Eof, q, q)
    } else if comment_at(s, q) {
        lex_token(s, comment_end(s, q))
    } else {
        let (k, e) = token_at(s, q);
        (k, q, e)
    }
}

proof fn lemma_run_end_bounds(s: Seq<char>, p: nat, f: spec_fn(char) -> bool)
    ensures
        p <= run_end(s, p, f),
        p <= s.len() ==> run_end(s, p, f) <= s.len(),
    decreases s.len() - p,
{
    if p < s.len() && f(s[p as int]) {
        lemma_run_end_bounds(s, p + 1, f);
    }
}

#[via_fn]
proof fn lex_token_decreases(s: Seq<char>, p: nat) {
    let q = ws_end(s, p);
    lemma_run_end_bounds(s, p, |c: char| is_white_space_spec(c));
    if q < s.len() && comment_at(s, q) {
        lemma_run_end_bounds(s, q + 1, |c: char| c != '\n');
    }
}

proof fn lemma_run_end_unique(s: Seq<char>, p: nat, e: nat, f: spec_fn(char) -> bool)
    requires
        p <= e <= s.len(),
        forall|i: int| p <= i < e ==> f(#[trigger] s[i]),
        e < s.len() ==> !f(s[e as int]),
    ensures
        run_end(s, p, f) == e,
    decreases e - p,
{
    if p < e {
        lemma_run_end_unique(s, p + 1, e, f);
    }
}

fn not_newline(c: char) -> (r: bool)
    ensures
        r == (c != '\n'),
{
    c != '\n'
}

fn not_quote(c: char) -> (r: bool)
    ensures
        r == (c != '"'),
{
    c != '"'
}

fn is_digit_or_underscore_char(c: char) -> (r: bool)
    ensures
        r == is_digit_or_underscore(c),
{
    is_ascii_digit(c) || c == '_'
}

/// Whether two texts are the same, character for character.
fn same_text(a: &str, b: &str) -> (r: bool)
    ensures
        r == (a@ == b@),
{
    let n = a.unicode_len();
    if n != b.unicode_len() {
        return false;
    }
    let mut i: usize = 0;
    while i < n
        invariant
            n == a@.len() == b@.len(),
            i <= n,
            forall|j: int| 0 <= j < i ==> a@[j] == b@[j],
        decreases n - i,
    {
        if a.get_char(i) != b.get_char(i) {
            return false;
        }
        i = i + 1;
    }
    assert(a@ =~= b@);
    true
}

/// The token for a word: a keyword when it is one exactly, else an identifier.
fn word_token(w: String) -> (r: TokenKind)
    ensures
        r@ == word_kind(w@),
{
    let t = w.as_str();
    if same_text(t, "let") {
        TokenKind::Let
    } else if same_text(t, "if") {
        TokenKind::If
    } else if same_text(t, "elif") {
        TokenKind::Elif
    } else if same_text(t, "else") {
        TokenKind::Else
    } else if same_text(t, "yield") {
        TokenKind::Yield
    } else if same_text(t, "return") {
        TokenKind::Return
    } else if same_text(t, "true") {
        TokenKind::True
    } else if same_text(t, "false") {
        TokenKind::False
    } else {
        TokenKind::Ident(w)
    }
}

/// A token of kind `k` that starts at offset `start` of the stream of `ls`.
pub open spec fn token_is(t: Token, ls: Seq<Line>, k: Tok, start: nat) -> bool {
    &&& t.kind@ == k
    &&& t.span.line as nat == location_at(ls, start).0
    &&& t.span.col as nat == location_at(ls, start).1
}

/// Turns the character stream of a cursor into tokens, one per call.
pub struct Lexer<'a> {
    cursor: Cursor<'a>,
}

impl<'a> Lexer<'a> {
    /// The lines being tokenized.
    pub closed spec fn lines(&self) -> Seq<Line> {
        self.cursor.lines()
    }

    /// The offset in `char_stream(self.lines())` where the next call starts.
    pub closed spec fn pos(&self) -> nat {
        self.cursor.pos()
    }

    pub closed spec fn wf(&self) -> bool {
        self.cursor.wf() && lines_fit(self.cursor.lines())
    }

    /// A well-formed lexer stands within the stream.
    pub proof fn lemma_pos_in_stream(&self)
        requires
            self.wf(),
        ensures
            self.pos() <= char_stream(self.lines()).len(),
    {
        self.cursor.lemma_pos_in_stream();
    }

    pub fn new(cursor: Cursor<'a>) -> (r: Lexer<'a>)
        requires
            cursor.wf(),
            lines_fit(cursor.lines()),
        ensures
            r.wf(),
            r.lines() == cursor.lines(),
            r.pos() == cursor.pos(),
    {
        Lexer { cursor }
    }

    /// Returns the next token: white space and comments are skipped, and at
    /// the end of the input every call returns `Eof`. Malformed input gives
    /// an `Error` token and scanning goes on after it.
    pub fn next_token(&mut self) -> (r: Token)
        requires
            old(self).wf(),
        ensures
            final(self).wf(),
            final(self).lines() == old(self).lines(),
            ({
                let t = lex_token(char_stream(old(self).lines()), old(self).pos());
                token_is(r, old(self).lines(), t.0, t.1) && final(self).pos() == t.2
            }),
    {
        let ghost s = char_stream(self.lines());
        let ghost p0 = self.pos();
        loop
            invariant
                self.wf(),
                self.lines() == old(self).lines(),
                s == char_stream(self.lines()),
                p0 == old(self).pos(),
                lex_token(s, self.pos()) == lex_token(s, p0),
            decreases s.len() - self.pos(),
        {
            let ghost p = self.pos();
            self.skip_whitespace();
            let ghost q = self.pos();
            let start_loc = self.cursor.loc();
            proof {
                self.lemma_pos_in_stream();
                lemma_run_end_bounds(s, p, |c: char| is_white_space_spec(c));
            }
            let ch = match self.cursor.peek() {
                Some(c) => c,
                None => {
                    return self.make_token(TokenKind::Eof, start_loc);
                },
            };
            if is_ident_start(ch) {
                let raw = self.cursor.eat_while(is_ident_char);
                proof {
                    lemma_run_end_unique(s, q, self.pos(), |c: char| is_ident_char_spec(c));
                }
                let kind = word_token(raw);
                return self.make_token(kind, start_loc);
            }
            if is_ascii_digit(ch) {
                return self.scan_number(start_loc);
            }
            if ch == '"' {
                return self.scan_string(start_loc);
            }
            self.cursor.advance();
            if ch == '/' {
                match self.cursor.peek() {
                    Some(c2) => {
                        if c2 == '/' {
                            self.cursor.eat_while(not_newline);
                            proof {
                                lemma_run_end_unique(s, q + 1, self.pos(), |c: char| c != '\n');
                            }
                            continue ;
                        }
                    },
                    None => {},
                }
            }
            let kind = self.symbol(ch);
            return self.make_token(kind, start_loc);
        }
    }

    // --- Helpers ---

    fn make_token(&self, kind: TokenKind, start_loc: Location) -> (r: Token)
        ensures
            r.kind == kind,
            r.span.line == start_loc.line,
            r.span.col == start_loc.col,
    {
        Token { kind, span: Span { line: start_loc.line, col: start_loc.col } }
    }

    fn skip_whitespace(&mut self)
        requires
            old(self).wf(),
        ensures
            final(self).wf(),
            final(self).lines() == old(self).lines(),
            final(self).pos() == ws_end(char_stream(old(self).lines()), old(self).pos()),
    {
        let ghost s = char_stream(self.lines());
        let ghost p = self.pos();
        self.cursor.eat_while(is_white_space);
        proof {
            lemma_run_end_unique(s, p, self.pos(), |c: char| is_white_space_spec(c));
        }
    }

    /// Consumes the next character if it is `expected`.
    fn match_char(&mut self, expected: char) -> (r: bool)
        requires
            old(self).wf(),
        ensures
            final(self).wf(),
            final(self).lines() == old(self).lines(),
            r == (char_at(char_stream(old(self).lines()), old(self).pos() as int) == Some(
                expected,
            )),
            final(self).pos() == if r {
                old(self).pos() + 1
            } else {
                old(self).pos()
            },
    {
        match self.cursor.peek() {
            Some(c) => {
                if c == expected {
                    self.cursor.advance();
                    true
                } else {
                    false
                }
            },
            None => false,
        }
    }

    /// Classifies the operator or punctuation character `ch`, which has just
    /// been consumed, reading one more character for a two-character operator.
    fn symbol(&mut self, ch: char) -> (r: TokenKind)
        requires
            old(self).wf(),
            old(self).pos() >= 1,
            char_at(char_stream(old(self).lines()), old(self).pos() - 1) == Some(ch),
        ensures
            final(self).wf(),
            final(self).lines() == old(self).lines(),
            ({
                let t = symbol_token(char_stream(old(self).lines()), (old(self).pos() - 1) as nat);
                r@ == t.0 && final(self).pos() == t.1
            }),
    {
        if ch == '(' {
            TokenKind::LParen
        } else if ch == ')' {
            TokenKind::RParen
        } else if ch == '{' {
            TokenKind::LBrace
        } else if ch == '}' {
            TokenKind::RBrace
        } else if ch == ',' {
            TokenKind::Comma
        } else if ch == ';' {
            TokenKind::Semi
        } else if ch == ':' {
            TokenKind::Colon
        } else if ch == '+' {
            TokenKind::Plus
        } else if ch == '-' {
            TokenKind::Minus
        } else if ch == '*' {
            TokenKind::Star
        } else if ch == '/' {
            TokenKind::Slash
        } else if ch == '=' {
            if self.match_char('=') {
                TokenKind::EqEq
            } else {
                TokenKind::Eq
            }
        } else if ch == '!' {
            if self.match_char('=') {
                TokenKind::BangEq
            } else {
                TokenKind::Bang
            }
        } else if ch == '<' {
            if self.match_char('=') {
                TokenKind::Le
            } else {
                TokenKind::Lt
            }
        } else if ch == '>' {
            if self.match_char('=') {
                TokenKind::Ge
            } else {
                TokenKind::Gt
            }
        } else if ch == '&' {
            if self.match_char('&') {
                TokenKind::And
            } else {
                TokenKind::Error(String::from_str("Expected '&&', found '&'"))
            }
        } else {
            let mut msg = String::from_str("Unexpected character: '");
            msg.push(ch);
            msg.push('\'');
            assert(msg@ =~= unexpected_msg(ch));
            TokenKind::Error(msg)
        }
    }

    /// Scans a string literal whose opening quote is the next character.
    fn scan_string(&mut self, start_loc: Location) -> (r: Token)
        requires
            old(self).wf(),
            char_at(char_stream(old(self).lines()), old(self).pos() as int) == Some('"'),
        ensures
            final(self).wf(),
            final(self).lines() == old(self).lines(),
            r.span.line == start_loc.line,
            r.span.col == start_loc.col,
            ({
                let t = string_token(char_stream(old(self).lines()), old(self).pos());
                r.kind@ == t.0 && final(self).pos() == t.1
            }),
    {
        let ghost s = char_stream(self.lines());
        let ghost q = self.pos();
        self.cursor.advance();
        let value = self.cursor.eat_while(not_quote);
        proof {
            lemma_run_end_unique(s, q + 1, self.pos(), |c: char| c != '"');
        }
        if self.match_char('"') {
            self.make_token(TokenKind::String(value), start_loc)
        } else {
            self.make_token(TokenKind::Error(String::from_str("Unterminated string")), start_loc)
        }
    }

    /// Scans a number whose first digit is the next character.
    fn scan_number(&mut self, start_loc: Location) -> (r: Token)
        requires
            old(self).wf(),
            old(self).pos() < char_stream(old(self).lines()).len(),
            is_ascii_digit_spec(char_stream(old(self).lines())[old(self).pos() as int]),
        ensures
            final(self).wf(),
            final(self).lines() == old(self).lines(),
            r.span.line == start_loc.line,
            r.span.col == start_loc.col,
            ({
                let s = char_stream(old(self).lines());
                let q = old(self).pos();
                let (e, float) = number_end(s, q);
                let raw = s.subrange(q as int, e as int);
                &&& r.kind@ == if float {
                    Tok::Float(raw)
                } else {
                    Tok::Int(raw)
                }
                &&& final(self).pos() == e
            }),
    {
        let ghost s = char_stream(self.lines());
        let ghost q = self.pos();
        let mut is_float = false;
        // integer part
        let mut raw = self.cursor.eat_while(is_digit_or_underscore_char);
        proof {
            lemma_run_end_unique(s, q, self.pos(), |c: char| is_digit_or_underscore(c));
        }
        // fractional part
        if self.match_char('.') {
            is_float = true;
            raw.push('.');
            let ghost d = self.pos();
            let frac = self.cursor.eat_while(is_digit_or_underscore_char);
            proof {
                lemma_run_end_unique(s, d, self.pos(), |c: char| is_digit_or_underscore(c));
            }
            raw.append(frac.as_str());
        }
        assert(raw@ =~= s.subrange(q as int, self.pos() as int));
        assert((self.pos(), is_float) == mantissa_end(s, q));
        // exponent
        let ghost e2 = self.pos();
        match self.cursor.peek() {
            Some(ch) => {
                if ch == 'e' || ch == 'E' {
                    is_float = true;
                    self.cursor.advance();
                    raw.push(ch);
                    match self.cursor.peek() {
                        Some(sign) => {
                            if sign == '+' || sign == '-' {
                                self.cursor.advance();
                                raw.push(sign);
                            }
                        },
                        None => {},
                    }
                    let ghost d = self.pos();
                    let digits = self.cursor.eat_while(is_ascii_digit);
                    proof {
                        lemma_run_end_unique(s, d, self.pos(), |c: char| is_ascii_digit_spec(c));
                    }
                    raw.append(digits.as_str());
                }
            },
            None => {},
        }
        assert(raw@ =~= s.subrange(q as int, self.pos() as int));
        assert(self.pos() == exponent_end(s, e2).0);
        // suffix
        match self.cursor.peek() {
            Some(ch) => {
                if ch == 'f' {
                    is_float = true;
                    self.cursor.advance();
                    raw.push(ch);
                } else if ch == 'u' || ch == 'i' {
                    self.cursor.advance();
                    raw.push(ch);
                }
            },
            None => {},
        }
        assert(raw@ =~= s.subrange(q as int, self.pos() as int));
        if is_float {
            self.make_token(TokenKind::Float(raw), start_loc)
        } else {
            self.make_token(TokenKind::Int(raw), start_loc)
        }
    }
}

// ---------------------------------------------------------------------------
// Repeated calls.
// ---------------------------------------------------------------------------

/// The offset where tokenizing stands after `n` calls that started at `p`.
pub open spec fn pos_after(s: Seq<char>, p: nat, n: nat) -> nat
    decreases n,
{
    if n == 0 {
        p
    } else {
        lex_token(s, pos_after(s, p, (n - 1) as nat)).2
    }
}

/// What the call numbered `n` (from 0) returns, when the calls start at `p`.
pub open spec fn nth_token(s: Seq<char>, p: nat, n: nat) -> (Tok, nat, nat) {
    lex_token(s, pos_after(s, p, n))
}

/// One call: the token starts where the call began or later and ends no
/// earlier; it is `Eof` exactly when it starts at the end of the input, and
/// any other token consumes at least one character.
pub proof fn lemma_lex_token_bounds(s: Seq<char>, p: nat)
    requires
        p <= s.len(),
    ensures
        p <= lex_token(s, p).1 <= lex_token(s, p).2 <= s.len(),
        (lex_token(s, p).0 is Eof) <==> lex_token(s, p).1 == s.len(),
        lex_token(s, p).0 is Eof ==> lex_token(s, p).2 == s.len(),
        !(lex_token(s, p).0 is Eof) ==> lex_token(s, p).1 < lex_token(s, p).2,
    decreases s.len() - p,
{
    let q = ws_end(s, p);
    lemma_run_end_bounds(s, p, |c: char| is_white_space_spec(c));
    if q < s.len() {
        if comment_at(s, q) {
            lemma_run_end_bounds(s, q + 1, |c: char| c != '\n');
            lemma_lex_token_bounds(s, comment_end(s, q));
        } else {
            lemma_token_at_bounds(s, q);
        }
    }
}

proof fn lemma_token_at_bounds(s: Seq<char>, q: nat)
    requires
        q < s.len(),
    ensures
        q < token_at(s, q).1 <= s.len(),
        !(token_at(s, q).0 is Eof),
{
    let c = s[q as int];
    if is_ident_start_spec(c) {
        lemma_run_end_bounds(s, q + 1, |c: char| is_ident_char_spec(c));
    } else if is_ascii_digit_spec(c) {
        lemma_run_end_bounds(s, q + 1, |c: char| is_digit_or_underscore(c));
        let e1 = run_end(s, q, |c: char| is_digit_or_underscore(c));
        lemma_run_end_bounds(s, e1 + 1, |c: char| is_digit_or_underscore(c));
        let e2 = mantissa_end(s, q).0;
        lemma_run_end_bounds(s, e2 + 1, |c: char| is_ascii_digit_spec(c));
        lemma_run_end_bounds(s, e2 + 2, |c: char| is_ascii_digit_spec(c));
    } else if c == '"' {
        lemma_run_end_bounds(s, q + 1, |c: char| c != '"');
    }
}

proof fn lemma_pos_after_bounded(s: Seq<char>, p: nat, n: nat)
    requires
        p <= s.len(),
    ensures
        p <= pos_after(s, p, n) <= s.len(),
    decreases n,
{
    if n > 0 {
        lemma_pos_after_bounded(s, p, (n - 1) as nat);
        lemma_lex_token_bounds(s, pos_after(s, p, (n - 1) as nat));
    }
}

proof fn lemma_eof_stays(s: Seq<char>, p: nat, m: nat, k: nat)
    requires
        p <= s.len(),
        m <= k,
        nth_token(s, p, m).0 is Eof,
    ensures
        nth_token(s, p, k).0 is Eof,
    decreases k - m,
{
    if m < k {
        lemma_pos_after_bounded(s, p, m);
        lemma_lex_token_bounds(s, pos_after(s, p, m));
        let e = s.len();
        assert(pos_after(s, p, m + 1) == e);
        lemma_run_end_bounds(s, e, |c: char| is_white_space_spec(c));
        lemma_eof_stays(s, p, m + 1, k);
    }
}

proof fn lemma_progress(s: Seq<char>, p: nat, n: nat)
    requires
        p <= s.len(),
        forall|m: nat| m < n ==> !(#[trigger] nth_token(s, p, m).0 is Eof),
    ensures
        pos_after(s, p, n) >= p + n,
    decreases n,
{
    if n > 0 {
        let m = (n - 1) as nat;
        lemma_progress(s, p, m);
        lemma_pos_after_bounded(s, p, m);
        lemma_lex_token_bounds(s, pos_after(s, p, m));
        assert(!(nth_token(s, p, m).0 is Eof));
    }
}

/// Tokenizing ends: from offset `p`, every call from the one numbered
/// `s.len() - p` on returns `Eof`, so no input of `k` characters gives
/// more than `k` tokens before the end, and the end never gives way again.
pub proof fn lemma_tokenizing_terminates(s: Seq<char>, p: nat, n: nat)
    requires
        p <= s.len(),
        n >= s.len() - p,
    ensures
        nth_token(s, p, n).0 is Eof,
        forall|k: nat| k >= n ==> (#[trigger] nth_token(s, p, k)).0 is Eof,
{
    if !(nth_token(s, p, n).0 is Eof) {
        assert forall|m: nat| m < n + 1 implies !(#[trigger] nth_token(s, p, m).0 is Eof) by {
            if nth_token(s, p, m).0 is Eof {
                lemma_eof_stays(s, p, m, n);
            }
        }
        lemma_progress(s, p, n + 1);
        lemma_pos_after_bounded(s, p, n + 1);
    }
    assert forall|k: nat| k >= n implies (#[trigger] nth_token(s, p, k)).0 is Eof by {
        lemma_eof_stays(s, p, n, k);
    }
}

/// Tokenizing the same lines twice gives the same tokens: the same kinds,
/// starting at the same places, call after call.
pub proof fn lemma_tokenizing_deterministic(a: Seq<Line>, b: Seq<Line>, n: nat)
    requires
        a == b,
    ensures
        nth_token(char_stream(a), 0, n) == nth_token(char_stream(b), 0, n),
        location_at(a, nth_token(char_stream(a), 0, n).1) == location_at(
            b,
            nth_token(char_stream(b), 0, n).1,
        ),
{
}

/// On lines ordered by number, each token starts at a location at or after
/// the start of the token before it.
pub proof fn lemma_token_positions_monotone(ls: Seq<Line>, p: nat, n: nat)
    requires
        lines_ordered(ls),
        p <= char_stream(ls).len(),
    ensures
        loc_le(
            location_at(ls, nth_token(char_stream(ls), p, n).1),
            location_at(ls, nth_token(char_stream(ls), p, n + 1).1),
        ),
{
    let s = char_stream(ls);
    lemma_pos_after_bounded(s, p, n);
    lemma_lex_token_bounds(s, pos_after(s, p, n));
    lemma_pos_after_bounded(s, p, n + 1);
    lemma_lex_token_bounds(s, pos_after(s, p, n + 1));
    lemma_location_monotone(ls, nth_token(s, p, n).1, nth_token(s, p, n + 1).1);
}

} // verus!
