use shallows_vm::cursor::Cursor;
use shallows_vm::lexer::{Lexer, Token, TokenKind};
use shallows_vm::line_map::Lines;

fn lines_of(text: &str) -> Lines {
    let raw: Vec<String> = text.lines().map(|l| l.to_string()).collect();
    Lines::from_raw_lines(&raw)
}

fn tokens(text: &str) -> Vec<Token> {
    let lines = lines_of(text);
    let mut lexer = Lexer::new(Cursor::new(&lines));
    let mut out = Vec::new();
    loop {
        let t = lexer.next_token();
        let done = t.kind == TokenKind::Eof;
        out.push(t);
        if done {
            return out;
        }
    }
}

fn kinds(text: &str) -> Vec<TokenKind> {
    tokens(text).into_iter().map(|t| t.kind).collect()
}

fn s(t: &str) -> String {
    t.to_string()
}

#[test]
fn keywords_are_exact() {
    assert_eq!(
        kinds("let if elif else yield return true false"),
        vec![
            TokenKind::Let,
            TokenKind::If,
            TokenKind::Elif,
            TokenKind::Else,
            TokenKind::Yield,
            TokenKind::Return,
            TokenKind::True,
            TokenKind::False,
            TokenKind::Eof,
        ]
    );
    assert_eq!(kinds("Let"), vec![TokenKind::Ident(s("Let")), TokenKind::Eof]);
    assert_eq!(kinds("lets"), vec![TokenKind::Ident(s("lets")), TokenKind::Eof]);
    assert_eq!(kinds("_if2"), vec![TokenKind::Ident(s("_if2")), TokenKind::Eof]);
}

#[test]
fn integer_literals_keep_raw_text() {
    assert_eq!(kinds("123u"), vec![TokenKind::Int(s("123u")), TokenKind::Eof]);
    assert_eq!(kinds("1_000"), vec![TokenKind::Int(s("1_000")), TokenKind::Eof]);
    assert_eq!(kinds("7i"), vec![TokenKind::Int(s("7i")), TokenKind::Eof]);
}

#[test]
fn float_literals_keep_raw_text() {
    assert_eq!(kinds("10.0"), vec![TokenKind::Float(s("10.0")), TokenKind::Eof]);
    assert_eq!(kinds("1.5f"), vec![TokenKind::Float(s("1.5f")), TokenKind::Eof]);
    assert_eq!(kinds("1e-3"), vec![TokenKind::Float(s("1e-3")), TokenKind::Eof]);
    assert_eq!(kinds("2E+5"), vec![TokenKind::Float(s("2E+5")), TokenKind::Eof]);
    assert_eq!(kinds("3f"), vec![TokenKind::Float(s("3f")), TokenKind::Eof]);
    assert_eq!(kinds("1."), vec![TokenKind::Float(s("1.")), TokenKind::Eof]);
    assert_eq!(kinds("1.5u"), vec![TokenKind::Float(s("1.5u")), TokenKind::Eof]);
}

#[test]
fn binary_prefix_is_not_part_of_the_number_scan() {
    // The numeric scan reads decimal digits and underscores only: the `b`
    // starts an identifier.
    assert_eq!(
        kinds("0b1010"),
        vec![TokenKind::Int(s("0")), TokenKind::Ident(s("b1010")), TokenKind::Eof]
    );
}

#[test]
fn unterminated_string_is_one_error() {
    assert_eq!(
        kinds("\"abc"),
        vec![TokenKind::Error(s("Unterminated string")), TokenKind::Eof]
    );
}

#[test]
fn string_literal_content() {
    assert_eq!(
        kinds("\"On ground\" x"),
        vec![TokenKind::String(s("On ground")), TokenKind::Ident(s("x")), TokenKind::Eof]
    );
    assert_eq!(kinds("\"a\nb\""), vec![TokenKind::String(s("a\nb")), TokenKind::Eof]);
    assert_eq!(kinds("\"\""), vec![TokenKind::String(s("")), TokenKind::Eof]);
}

#[test]
fn comments_are_skipped() {
    assert_eq!(kinds("// comment\nlet x = 1;"), kinds("let x = 1;"));
    assert_eq!(
        kinds("let x = 1;"),
        vec![
            TokenKind::Let,
            TokenKind::Ident(s("x")),
            TokenKind::Eq,
            TokenKind::Int(s("1")),
            TokenKind::Semi,
            TokenKind::Eof,
        ]
    );
    assert_eq!(kinds("x // trailing"), vec![TokenKind::Ident(s("x")), TokenKind::Eof]);
    assert_eq!(
        kinds("a / b"),
        vec![TokenKind::Ident(s("a")), TokenKind::Slash, TokenKind::Ident(s("b")), TokenKind::Eof]
    );
}

#[test]
fn operators_are_greedy() {
    assert_eq!(kinds("<="), vec![TokenKind::Le, TokenKind::Eof]);
    assert_eq!(kinds(">="), vec![TokenKind::Ge, TokenKind::Eof]);
    assert_eq!(kinds("=="), vec![TokenKind::EqEq, TokenKind::Eof]);
    assert_eq!(kinds("!="), vec![TokenKind::BangEq, TokenKind::Eof]);
    assert_eq!(kinds("&&"), vec![TokenKind::And, TokenKind::Eof]);
    assert_eq!(kinds("< ="), vec![TokenKind::Lt, TokenKind::Eq, TokenKind::Eof]);
    assert_eq!(kinds("!x"), vec![TokenKind::Bang, TokenKind::Ident(s("x")), TokenKind::Eof]);
    assert_eq!(kinds(">"), vec![TokenKind::Gt, TokenKind::Eof]);
}

#[test]
fn lone_ampersand_is_an_error() {
    assert_eq!(
        kinds("&"),
        vec![TokenKind::Error(s("Expected '&&', found '&'")), TokenKind::Eof]
    );
}

#[test]
fn punctuation_tokens() {
    assert_eq!(
        kinds("(){},:;+-*"),
        vec![
            TokenKind::LParen,
            TokenKind::RParen,
            TokenKind::LBrace,
            TokenKind::RBrace,
            TokenKind::Comma,
            TokenKind::Colon,
            TokenKind::Semi,
            TokenKind::Plus,
            TokenKind::Minus,
            TokenKind::Star,
            TokenKind::Eof,
        ]
    );
}

#[test]
fn unexpected_character_does_not_stop_scanning() {
    assert_eq!(
        kinds("@ x |"),
        vec![
            TokenKind::Error(s("Unexpected character: '@'")),
            TokenKind::Ident(s("x")),
            TokenKind::Error(s("Unexpected character: '|'")),
            TokenKind::Eof,
        ]
    );
}

#[test]
fn token_positions() {
    let ts = tokens("let x\n\n  y = 2");
    let at: Vec<(usize, usize)> = ts.iter().map(|t| (t.span.line, t.span.col)).collect();
    assert_eq!(at, vec![(0, 0), (0, 4), (2, 2), (2, 4), (2, 6), (3, 0)]);
}

#[test]
fn empty_input_gives_eof_at_origin() {
    let ts = tokens("");
    assert_eq!(ts.len(), 1);
    assert_eq!(ts[0].kind, TokenKind::Eof);
    assert_eq!((ts[0].span.line, ts[0].span.col), (0, 0));
    assert_eq!(kinds("\n\n   \n"), vec![TokenKind::Eof]);
}

#[test]
fn end_of_input_is_stable() {
    let text = "let a = (1 + 2) * 3; // done\nreturn a;";
    let lines = lines_of(text);
    let mut lexer = Lexer::new(Cursor::new(&lines));
    let mut calls = 0;
    while lexer.next_token().kind != TokenKind::Eof {
        calls += 1;
        assert!(calls <= text.chars().count());
    }
    for _ in 0..5 {
        assert_eq!(lexer.next_token().kind, TokenKind::Eof);
    }
}

#[test]
fn lexing_twice_gives_the_same_tokens() {
    let text = "if (x >= 10.5f) { yield \"big\", 1u; } else { return; }";
    assert_eq!(tokens(text), tokens(text));
}

#[test]
fn positions_never_decrease() {
    let ts = tokens("a b\n\n\n  c\n// note\n d \"e\nf\" g");
    for w in ts.windows(2) {
        let a = (w[0].span.line, w[0].span.col);
        let b = (w[1].span.line, w[1].span.col);
        assert!(a <= b, "{:?} then {:?}", a, b);
    }
}

#[test]
fn token_kinds_describe_themselves() {
    assert_eq!(TokenKind::Ident(s("speed")).describe(), "Ident(speed)");
    assert_eq!(TokenKind::Int(s("5u")).describe(), "Int(5u)");
    assert_eq!(TokenKind::Float(s("0.5f")).describe(), "Float(0.5f)");
    assert_eq!(TokenKind::String(s("hi")).describe(), "String(\"hi\")");
    assert_eq!(TokenKind::Let.describe(), "let");
    assert_eq!(TokenKind::Eq.describe(), "=");
    assert_eq!(TokenKind::Semi.describe(), ";");
    assert_eq!(TokenKind::Eof.describe(), "<EOF>");
    assert_eq!(TokenKind::EqEq.describe(), "EqEq");
    assert_eq!(TokenKind::LParen.describe(), "LParen");
    assert_eq!(
        TokenKind::Error(s("Unterminated string")).describe(),
        "Error(\"Unterminated string\")"
    );
}
