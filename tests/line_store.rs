use shallows_vm::cursor::{Cursor, Location};
use shallows_vm::line_map::{Line, LineCounter, Lines};
use shallows_vm::text::is_white_space;

fn raw(lines: &[&str]) -> Vec<String> {
    lines.iter().map(|l| l.to_string()).collect()
}

fn line(idx: usize, content: &str) -> Line {
    Line { idx, content: content.to_string() }
}

#[test]
fn empty_lines_are_dropped_with_gaps_in_numbering() {
    let lines = Lines::from_raw_lines(&raw(&["a", "", "  ", "", "b"]));
    assert_eq!(lines.as_slice(), &[line(0, "a"), line(2, "  "), line(4, "b")]);
    assert_eq!(lines.len(), 3);
    assert!(!lines.is_empty());
    assert_eq!(lines.get(1), Some(&line(2, "  ")));
    assert_eq!(lines.get(3), None);
}

#[test]
fn no_lines_at_all() {
    let lines = Lines::from_raw_lines(&raw(&["", ""]));
    assert!(lines.is_empty());
    assert_eq!(lines, Lines::new());
}

#[test]
fn streaming_agrees_with_eager() {
    let input = raw(&["let x = 1;", "", "", "  ", "x = 2;", ""]);
    let mut counter = LineCounter::new();
    let mut streamed = Lines::new();
    for content in input.iter() {
        if let Some(l) = counter.feed(content.clone()) {
            streamed.push(l);
        }
    }
    assert_eq!(streamed, Lines::from_raw_lines(&input));
    assert_eq!(Lines::from_vec(vec![line(0, "let x = 1;"), line(3, "  "), line(4, "x = 2;")]), streamed);
}

#[test]
fn line_counter_numbers_every_raw_line() {
    let mut counter = LineCounter::new();
    assert_eq!(counter.feed(String::new()), None);
    assert_eq!(counter.feed("x".to_string()), Some(line(1, "x")));
    assert_eq!(counter.feed(String::new()), None);
    assert_eq!(counter.feed(" ".to_string()), Some(line(3, " ")));
}

#[test]
fn blank_lines_collapse_to_one_newline() {
    let lines = Lines::from_raw_lines(&raw(&["a", "", "", "", "b"]));
    let mut cursor = Cursor::new(&lines);
    let mut seen = Vec::new();
    while let Some(c) = cursor.advance() {
        seen.push(c);
    }
    assert_eq!(seen, vec!['a', '\n', 'b', '\n']);
}

#[test]
fn cursor_peek_advance_and_location() {
    let lines = Lines::from_vec(vec![line(0, "ab"), line(3, "c")]);
    let mut cursor = Cursor::new(&lines);
    assert_eq!(cursor.loc(), Location { line: 0, col: 0 });
    assert_eq!(cursor.peek(), Some('a'));
    assert_eq!(cursor.advance(), Some('a'));
    assert_eq!(cursor.advance(), Some('b'));
    assert_eq!(cursor.loc(), Location { line: 0, col: 2 });
    assert_eq!(cursor.peek(), Some('\n'));
    assert_eq!(cursor.advance(), Some('\n'));
    assert_eq!(cursor.loc(), Location { line: 3, col: 0 });
    assert_eq!(cursor.advance(), Some('c'));
    assert_eq!(cursor.advance(), Some('\n'));
    assert_eq!(cursor.loc(), Location { line: 4, col: 0 });
    assert_eq!(cursor.peek(), None);
    assert_eq!(cursor.advance(), None);
    assert_eq!(cursor.loc(), Location { line: 4, col: 0 });
}

#[test]
fn cursor_on_no_lines() {
    let lines = Lines::new();
    let mut cursor = Cursor::new(&lines);
    assert_eq!(cursor.peek(), None);
    assert_eq!(cursor.advance(), None);
    assert_eq!(cursor.loc(), Location { line: 0, col: 0 });
}

#[test]
fn cursor_counts_columns_in_characters() {
    let lines = Lines::from_vec(vec![line(0, "é√x")]);
    let mut cursor = Cursor::new(&lines);
    assert_eq!(cursor.advance(), Some('é'));
    assert_eq!(cursor.advance(), Some('√'));
    assert_eq!(cursor.loc(), Location { line: 0, col: 2 });
    assert_eq!(cursor.peek(), Some('x'));
}

#[test]
fn eat_while_stops_at_first_mismatch() {
    let lines = Lines::from_vec(vec![line(0, "ab1"), line(1, "cd")]);
    let mut cursor = Cursor::new(&lines);
    assert_eq!(cursor.eat_while(|c: char| c.is_ascii_alphabetic()), "ab");
    assert_eq!(cursor.peek(), Some('1'));
    assert_eq!(cursor.eat_while(|c: char| c != 'd'), "1\nc");
    assert_eq!(cursor.loc(), Location { line: 1, col: 1 });
    assert_eq!(cursor.eat_while(|_c: char| true), "d\n");
    assert_eq!(cursor.eat_while(|_c: char| true), "");
}

#[test]
fn white_space_matches_std() {
    for u in 0u32..=0x10FFFF {
        if let Some(c) = char::from_u32(u) {
            assert_eq!(is_white_space(c), c.is_whitespace(), "{:?}", c);
        }
    }
}
