use crate::line_map::{kept_lines, line_for, lines_ordered, Line, Lines};
use vstd::prelude::*;
use vstd::string::StrSliceExecFns;

verus! {

/// A place in the source: the original line number and the column within it.
#[derive(Debug, Clone, Copy, PartialEq, Eq, Structural)]
pub struct Location {
    pub line: usize,
    pub col: usize,
}

pub open spec fn line_len(ls: Seq<Line>, k: int) -> nat {
    ls[k].content@.len()
}

/// The character stream of the first `k` lines: each line's text followed
/// by one synthesized newline.
pub open spec fn text_upto(ls: Seq<Line>, k: int) -> Seq<char>
    decreases k,
{
    if k <= 0 {
        Seq::empty()
    } else {
        text_upto(ls, k - 1) + ls[k - 1].content@ + seq!['\n']
    }
}

/// The whole character stream that a cursor presents for the lines `ls`.
pub open spec fn char_stream(ls: Seq<Line>) -> Seq<char> {
    text_upto(ls, ls.len() as int)
}

pub open spec fn char_at(s: Seq<char>, p: int) -> Option<char> {
    if 0 <= p < s.len() {
        Some(s[p])
    } else {
        None
    }
}

/// The line number reported once every line has been scanned: one past the
/// last known line number.
pub open spec fn end_line(ls: Seq<Line>) -> nat {
    if ls.len() == 0 {
        0
    } else {
        (ls.last().idx + 1) as nat
    }
}

/// The location of offset `p` of the stream that starts at line `k`.
pub open spec fn location_from(ls: Seq<Line>, k: nat, p: nat) -> (nat, nat)
    decreases ls.len() - k,
{
    if k >= ls.len() {
        (end_line(ls), p)
    } else if p <= line_len(ls, k as int) {
        (ls[k as int].idx as nat, p)
    } else {
        location_from(ls, k + 1, (p - line_len(ls, k as int) - 1) as nat)
    }
}

/// The location (original line number, column) of offset `p` of
/// `char_stream(ls)`. A synthesized newline sits at the column just past its
/// line's text.
pub open spec fn location_at(ls: Seq<Line>, p: nat) -> (nat, nat) {
    location_from(ls, 0, p)
}

/// No line number is so large that "one past it" leaves `usize`.
pub open spec fn lines_fit(ls: Seq<Line>) -> bool {
    ls.len() > 0 ==> ls.last().idx < usize::MAX
}

pub proof fn lemma_text_upto_len(ls: Seq<Line>, k: int)
    requires
        0 <= k < ls.len(),
    ensures
        text_upto(ls, k + 1).len() == text_upto(ls, k).len() + line_len(ls, k) + 1,
{
}

pub proof fn lemma_text_upto_mono(ls: Seq<Line>, j: int, k: int)
    requires
        0 <= j <= k <= ls.len(),
    ensures
        text_upto(ls, j).len() <= text_upto(ls, k).len(),
        forall|i: int| 0 <= i < text_upto(ls, j).len() ==> text_upto(ls, k)[i] == text_upto(ls, j)[i],
    decreases k - j,
{
    if j < k {
        lemma_text_upto_mono(ls, j, k - 1);
    }
}

/// The stream holds line `k`'s text at its offset, then a newline.
pub proof fn lemma_stream_at(ls: Seq<Line>, k: int, c: int)
    requires
        0 <= k < ls.len(),
        0 <= c <= line_len(ls, k),
    ensures
        text_upto(ls, k).len() + c < char_stream(ls).len(),
        char_stream(ls)[text_upto(ls, k).len() + c] == if c < line_len(ls, k) {
            ls[k].content@[c]
        } else {
            '\n'
        },
{
    lemma_text_upto_mono(ls, k + 1, ls.len() as int);
    let t = text_upto(ls, k + 1);
    assert(t == text_upto(ls, k) + ls[k].content@ + seq!['\n']);
    assert(t[text_upto(ls, k).len() + c] == char_stream(ls)[text_upto(ls, k).len() + c]);
}

proof fn lemma_location_from(ls: Seq<Line>, j: int, k: int, c: int)
    requires
        0 <= j <= k < ls.len(),
        0 <= c <= line_len(ls, k),
    ensures
        location_from(
            ls,
            j as nat,
            (text_upto(ls, k).len() - text_upto(ls, j).len() + c) as nat,
        ) == (ls[k].idx as nat, c as nat),
    decreases k - j,
{
    lemma_text_upto_mono(ls, j, k);
    if j < k {
        lemma_text_upto_mono(ls, j + 1, k);
        lemma_text_upto_len(ls, j);
        lemma_location_from(ls, j + 1, k, c);
    }
}

proof fn lemma_location_end_from(ls: Seq<Line>, j: int)
    requires
        0 <= j <= ls.len(),
    ensures
        location_from(ls, j as nat, (char_stream(ls).len() - text_upto(ls, j).len()) as nat) == (
            end_line(ls),
            0nat,
        ),
    decreases ls.len() - j,
{
    lemma_text_upto_mono(ls, j, ls.len() as int);
    if j < ls.len() {
        lemma_text_upto_mono(ls, j + 1, ls.len() as int);
        lemma_text_upto_len(ls, j);
        lemma_location_end_from(ls, j + 1);
    }
}

/// The location of a character of line `k` is that line's number and the
/// character's column.
pub proof fn lemma_location_in_line(ls: Seq<Line>, k: int, c: int)
    requires
        0 <= k < ls.len(),
        0 <= c <= line_len(ls, k),
    ensures
        location_at(ls, (text_upto(ls, k).len() + c) as nat) == (ls[k].idx as nat, c as nat),
{
    lemma_location_from(ls, 0, k, c);
}

/// The end of the stream lies one past the last line number, at column 0.
pub proof fn lemma_location_end(ls: Seq<Line>)
    ensures
        location_at(ls, char_stream(ls).len()) == (end_line(ls), 0nat),
{
    lemma_location_end_from(ls, 0);
}

/// The text of raw lines as a cursor presents it: each non-empty line
/// followed by one newline, and nothing for an empty line.
pub open spec fn joined(raw: Seq<String>) -> Seq<char>
    decreases raw.len(),
{
    if raw.len() == 0 {
        Seq::empty()
    } else if raw.last()@.len() == 0 {
        joined(raw.drop_last())
    } else {
        joined(raw.drop_last()) + raw.last()@ + seq!['\n']
    }
}

proof fn lemma_text_upto_push(ls: Seq<Line>, l: Line, k: int)
    requires
        0 <= k <= ls.len(),
    ensures
        text_upto(ls.push(l), k) == text_upto(ls, k),
    decreases k,
{
    if k > 0 {
        lemma_text_upto_push(ls, l, k - 1);
        assert(ls.push(l)[k - 1] == ls[k - 1]);
    }
}

/// Blank lines leave no trace in the scanned stream: a run of them between
/// two lines of text yields the single newline that ends the first line,
/// and every kept line is followed by exactly one newline.
pub proof fn lemma_blank_lines_collapse(raw: Seq<String>)
    ensures
        char_stream(kept_lines(raw)) == joined(raw),
    decreases raw.len(),
{
    if raw.len() > 0 {
        let init = raw.drop_last();
        lemma_blank_lines_collapse(init);
        let ls = kept_lines(init);
        if raw.last()@.len() > 0 {
            let l = line_for((raw.len() - 1) as nat, raw.last())->Some_0;
            assert(kept_lines(raw) == ls.push(l));
            lemma_text_upto_push(ls, l, ls.len() as int);
        } else {
            assert(kept_lines(raw) == ls);
        }
    }
}

/// Location `a` is at or before location `b`: on an earlier line, or on the
/// same line at a column no greater.
pub open spec fn loc_le(a: (nat, nat), b: (nat, nat)) -> bool {
    a.0 < b.0 || (a.0 == b.0 && a.1 <= b.1)
}

proof fn lemma_split_from(ls: Seq<Line>, a: nat, k: int) -> (r: (int, int))
    requires
        0 <= k <= ls.len(),
        text_upto(ls, k).len() <= a <= char_stream(ls).len(),
    ensures
        0 <= r.0 <= ls.len(),
        r.0 < ls.len() ==> 0 <= r.1 <= line_len(ls, r.0),
        r.0 == ls.len() ==> r.1 == 0,
        a == text_upto(ls, r.0).len() + r.1,
    decreases ls.len() - k,
{
    if k == ls.len() {
        (k, 0)
    } else if a - text_upto(ls, k).len() <= line_len(ls, k) {
        (k, a - text_upto(ls, k).len())
    } else {
        lemma_text_upto_len(ls, k);
        lemma_split_from(ls, a, k + 1)
    }
}

/// Every offset of the stream is a column of some line, or the very end.
proof fn lemma_split(ls: Seq<Line>, a: nat) -> (r: (int, int))
    requires
        a <= char_stream(ls).len(),
    ensures
        0 <= r.0 <= ls.len(),
        r.0 < ls.len() ==> 0 <= r.1 <= line_len(ls, r.0),
        r.0 == ls.len() ==> r.1 == 0,
        a == text_upto(ls, r.0).len() + r.1,
        location_at(ls, a) == if r.0 < ls.len() {
            (ls[r.0].idx as nat, r.1 as nat)
        } else {
            (end_line(ls), 0nat)
        },
{
    let r = lemma_split_from(ls, a, 0);
    if r.0 < ls.len() {
        lemma_location_in_line(ls, r.0, r.1);
    } else {
        lemma_location_end(ls);
    }
    r
}

/// On lines ordered by number, a later offset of the stream never has an
/// earlier location.
pub proof fn lemma_location_monotone(ls: Seq<Line>, a: nat, b: nat)
    requires
        lines_ordered(ls),
        a <= b <= char_stream(ls).len(),
    ensures
        loc_le(location_at(ls, a), location_at(ls, b)),
{
    let (k1, c1) = lemma_split(ls, a);
    let (k2, c2) = lemma_split(ls, b);
    if k1 > k2 {
        lemma_text_upto_len(ls, k2);
        lemma_text_upto_mono(ls, k2 + 1, k1);
        assert(false);
    }
    if k1 < k2 && k2 == ls.len() {
        assert(ls[k1].idx <= ls.last().idx);
    }
}

/// Scans a collection of lines character by character, presenting them as
/// one stream in which a newline follows every line.
pub struct Cursor<'a> {
    lines: &'a Lines,
    line_idx: usize,
    col_idx: usize,
}

impl<'a> Cursor<'a> {
    /// The lines being scanned.
    pub closed spec fn lines(&self) -> Seq<Line> {
        self.lines@
    }

    /// The offset of the next character in `char_stream(self.lines())`.
    pub closed spec fn pos(&self) -> nat {
        text_upto(self.lines@, self.line_idx as int).len() + self.col_idx as nat
    }

    pub closed spec fn wf(&self) -> bool {
        &&& self.line_idx <= self.lines@.len()
        &&& self.line_idx < self.lines@.len() ==> self.col_idx <= line_len(
            self.lines@,
            self.line_idx as int,
        )
        &&& self.line_idx == self.lines@.len() ==> self.col_idx == 0
    }

    /// A well-formed cursor stands within the stream.
    pub proof fn lemma_pos_in_stream(&self)
        requires
            self.wf(),
        ensures
            self.pos() <= char_stream(self.lines()).len(),
    {
        lemma_text_upto_mono(self.lines@, self.line_idx as int, self.lines@.len() as int);
        if self.line_idx < self.lines@.len() {
            lemma_stream_at(self.lines@, self.line_idx as int, self.col_idx as int);
        }
    }

    pub fn new(lines: &'a Lines) -> (r: Cursor<'a>)
        ensures
            r.wf(),
            r.lines() == lines@,
            r.pos() == 0,
    {
        proof {
            lines.lemma_len_fits();
        }
        Cursor { lines, line_idx: 0, col_idx: 0 }
    }

    /// The next character of the stream, without consuming it.
    pub fn peek(&self) -> (r: Option<char>)
        requires
            self.wf(),
        ensures
            r == char_at(char_stream(self.lines()), self.pos() as int),
    {
        proof {
            self.lemma_pos_in_stream();
        }
        match self.lines.get(self.line_idx) {
            Some(line) => {
                proof {
                    lemma_stream_at(self.lines@, self.line_idx as int, self.col_idx as int);
                }
                let text = line.content.as_str();
                if self.col_idx < text.unicode_len() {
                    Some(text.get_char(self.col_idx))
                } else {
                    Some('\n')
                }
            },
            None => None,
        }
    }

    /// Consumes and returns the next character of the stream; `None` once
    /// the stream is exhausted, leaving the cursor where it is.
    pub fn advance(&mut self) -> (r: Option<char>)
        requires
            old(self).wf(),
        ensures
            final(self).wf(),
            final(self).lines() == old(self).lines(),
            r == char_at(char_stream(old(self).lines()), old(self).pos() as int),
            r is Some ==> final(self).pos() == old(self).pos() + 1,
            r is None ==> final(self).pos() == old(self).pos(),
    {
        match self.lines.get(self.line_idx) {
            Some(line) => {
                proof {
                    lemma_stream_at(self.lines@, self.line_idx as int, self.col_idx as int);
                    lemma_text_upto_len(self.lines@, self.line_idx as int);
                    self.lines.lemma_len_fits();
                }
                let text = line.content.as_str();
                if self.col_idx < text.unicode_len() {
                    let c = text.get_char(self.col_idx);
                    self.col_idx = self.col_idx + 1;
                    Some(c)
                } else {
                    self.line_idx = self.line_idx + 1;
                    self.col_idx = 0;
                    Some('\n')
                }
            },
            None => {
                proof {
                    self.lemma_pos_in_stream();
                }
                None
            },
        }
    }

    /// The location of the next character: its line's original number and
    /// its column; one past the last line number once every line is scanned.
    pub fn loc(&self) -> (r: Location)
        requires
            self.wf(),
            lines_fit(self.lines()),
        ensures
            r.line as nat == location_at(self.lines(), self.pos()).0,
            r.col as nat == location_at(self.lines(), self.pos()).1,
    {
        match self.lines.get(self.line_idx) {
            Some(line) => {
                proof {
                    lemma_location_in_line(self.lines@, self.line_idx as int, self.col_idx as int);
                }
                Location { line: line.idx, col: self.col_idx }
            },
            None => {
                proof {
                    lemma_location_end(self.lines@);
                }
                let n = self.lines.len();
                if n > 0 {
                    let last = self.lines.get(n - 1).unwrap();
                    Location { line: last.idx + 1, col: self.col_idx }
                } else {
                    Location { line: 0, col: self.col_idx }
                }
            },
        }
    }

    /// Consumes characters while `predicate` holds of them and returns the
    /// text consumed: stops at the first character that fails it, or at the
    /// end of the stream.
    pub fn eat_while<F: Fn(char) -> bool>(&mut self, predicate: F) -> (r: String)
        requires
            old(self).wf(),
            forall|c: char| predicate.requires((c,)),
        ensures
            final(self).wf(),
            final(self).lines() == old(self).lines(),
            old(self).pos() <= final(self).pos() <= char_stream(old(self).lines()).len(),
            r@ == char_stream(old(self).lines()).subrange(
                old(self).pos() as int,
                final(self).pos() as int,
            ),
            forall|i: int|
                old(self).pos() <= i < final(self).pos() ==> predicate.ensures(
                    (char_stream(old(self).lines())[i],),
                    true,
                ),
            final(self).pos() < char_stream(old(self).lines()).len() ==> predicate.ensures(
                (char_stream(old(self).lines())[final(self).pos() as int],),
                false,
            ),
    {
        let ghost s = char_stream(self.lines());
        let ghost start = self.pos();
        let mut result = String::new();
        proof {
            self.lemma_pos_in_stream();
        }
        loop
            invariant
                self.wf(),
                self.lines() == old(self).lines(),
                s == char_stream(self.lines()),
                start == old(self).pos(),
                start <= self.pos() <= s.len(),
                result@ == s.subrange(start as int, self.pos() as int),
                forall|c: char| predicate.requires((c,)),
                forall|i: int| start <= i < self.pos() ==> predicate.ensures((s[i],), true),
            ensures
                self.wf(),
                self.lines() == old(self).lines(),
                start <= self.pos() <= s.len(),
                result@ == s.subrange(start as int, self.pos() as int),
                forall|i: int| start <= i < self.pos() ==> predicate.ensures((s[i],), true),
                self.pos() < s.len() ==> predicate.ensures((s[self.pos() as int],), false),
            decreases s.len() - self.pos(),
        {
            match self.peek() {
                Some(ch) => {
                    if predicate(ch) {
                        self.advance();
                        result.push(ch);
                        assert(result@ == s.subrange(start as int, self.pos() as int));
                    } else {
                        break;
                    }
                },
                None => {
                    break;
                },
            }
        }
        result
    }
}

} // verus!
