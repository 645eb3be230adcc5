use vstd::prelude::*;

verus! {

/// One logical line of a source file: its ordinal position among all lines
/// read from the file, and its text without the terminator.
#[derive(Debug, Clone, Hash, Eq, PartialEq)]
pub struct Line {
    pub idx: usize,
    pub content: String,
}

/// An ordered collection of logical lines.
#[derive(Debug, Clone, Hash, Eq, PartialEq)]
pub struct Lines(Vec<Line>);

impl View for Lines {
    type V = Seq<Line>;

    closed spec fn view(&self) -> Seq<Line> {
        self.0@
    }
}

/// The line that a raw line numbered `n` becomes, if it is kept: a line
/// whose text is empty is dropped.
pub open spec fn line_for(n: nat, content: String) -> Option<Line> {
    if content@.len() == 0 {
        None
    } else {
        Some(Line { idx: n as usize, content })
    }
}

pub open spec fn option_to_seq(o: Option<Line>) -> Seq<Line> {
    match o {
        Some(l) => seq![l],
        None => Seq::empty(),
    }
}

/// The logical lines of a file whose raw lines (terminators stripped) are
/// `raw`: the non-empty ones, each numbered by its position in `raw`.
pub open spec fn kept_lines(raw: Seq<String>) -> Seq<Line>
    decreases raw.len(),
{
    if raw.len() == 0 {
        Seq::empty()
    } else {
        kept_lines(raw.drop_last()) + option_to_seq(
            line_for((raw.len() - 1) as nat, raw.last()),
        )
    }
}

/// What a line counter that has already numbered `n` lines hands out, in
/// order, when it is fed `raw` one line at a time.
pub open spec fn streamed_lines(raw: Seq<String>, n: nat) -> Seq<Line>
    decreases raw.len(),
{
    if raw.len() == 0 {
        Seq::empty()
    } else {
        option_to_seq(line_for(n, raw[0])) + streamed_lines(raw.drop_first(), n + 1)
    }
}

/// Line numbers strictly increase along the collection, and the last one
/// leaves room for "one past the last line".
pub open spec fn lines_ordered(ls: Seq<Line>) -> bool {
    &&& forall|i: int, j: int| 0 <= i < j < ls.len() ==> ls[i].idx < ls[j].idx
    &&& ls.len() > 0 ==> ls.last().idx < usize::MAX
}

impl Lines {
    pub fn new() -> (r: Lines)
        ensures
            r@ == Seq::<Line>::empty(),
    {
        Lines(Vec::new())
    }

    /// Wraps lines that the caller has already numbered.
    pub fn from_vec(v: Vec<Line>) -> (r: Lines)
        ensures
            r@ == v@,
    {
        Lines(v)
    }

    /// A collection never holds more lines than `usize` can count.
    pub proof fn lemma_len_fits(&self)
        ensures
            self@.len() <= usize::MAX,
    {
        assert(self.0.len() == self.0@.len());
    }

    pub fn len(&self) -> (r: usize)
        ensures
            r == self@.len(),
    {
        self.0.len()
    }

    pub fn is_empty(&self) -> (r: bool)
        ensures
            r == (self@.len() == 0),
    {
        self.0.len() == 0
    }

    pub fn get(&self, i: usize) -> (r: Option<&Line>)
        ensures
            i < self@.len() ==> r == Some(&self@[i as int]),
            i >= self@.len() ==> r is None,
    {
        if i < self.0.len() {
            Some(&self.0[i])
        } else {
            None
        }
    }

    pub fn push(&mut self, line: Line)
        ensures
            final(self)@ == old(self)@.push(line),
    {
        self.0.push(line);
    }

    pub fn as_slice(&self) -> (r: &[Line])
        ensures
            r@ == self@,
    {
        self.0.as_slice()
    }

    /// Builds the logical lines of a file from its raw lines, terminators
    /// already stripped: empty lines are dropped, and every kept line keeps
    /// its position among all raw lines.
    pub fn from_raw_lines(raw: &Vec<String>) -> (r: Lines)
        ensures
            r@ == kept_lines(raw@),
    {
        let mut out = Lines::new();
        let mut counter = LineCounter::new();
        let mut i: usize = 0;
        while i < raw.len()
            invariant
                i <= raw@.len(),
                counter.next_idx() == i,
                out@ == kept_lines(raw@.take(i as int)),
            decreases raw@.len() - i,
        {
            assert(raw@.take(i as int + 1).drop_last() == raw@.take(i as int));
            if let Some(line) = counter.feed(raw[i].clone()) {
                out.push(line);
            }
            i = i + 1;
        }
        assert(raw@.take(i as int) == raw@);
        out
    }
}

/// Numbers the raw lines of a file one at a time, dropping empty ones:
/// the streaming counterpart of `Lines::from_raw_lines`.
#[derive(Debug)]
pub struct LineCounter {
    next_idx: usize,
}

impl LineCounter {
    /// The number of raw lines seen so far.
    pub closed spec fn next_idx(&self) -> nat {
        self.next_idx as nat
    }

    pub fn new() -> (r: LineCounter)
        ensures
            r.next_idx() == 0,
    {
        LineCounter { next_idx: 0 }
    }

    /// The number of raw lines seen so far.
    pub fn lines_seen(&self) -> (r: usize)
        ensures
            r == self.next_idx(),
    {
        self.next_idx
    }

    /// Takes the next raw line and returns the logical line it becomes, or
    /// `None` when it is dropped for being empty.
    pub fn feed(&mut self, content: String) -> (r: Option<Line>)
        requires
            old(self).next_idx() < usize::MAX,
        ensures
            final(self).next_idx() == old(self).next_idx() + 1,
            r == line_for(old(self).next_idx(), content),
    {
        let n = self.next_idx;
        self.next_idx = n + 1;
        if content.as_str().is_empty() {
            None
        } else {
            Some(Line { idx: n, content })
        }
    }
}

proof fn lemma_streamed_push(raw: Seq<String>, n: nat, last: String)
    ensures
        streamed_lines(raw.push(last), n) == streamed_lines(raw, n) + option_to_seq(
            line_for(n + raw.len(), last),
        ),
    decreases raw.len(),
{
    if raw.len() == 0 {
        assert(raw.push(last).drop_first() == Seq::<String>::empty());
        assert(streamed_lines(raw.push(last).drop_first(), n + 1) == Seq::<Line>::empty());
    } else {
        assert(raw.push(last).drop_first() == raw.drop_first().push(last));
        lemma_streamed_push(raw.drop_first(), n + 1, last);
        assert(raw.push(last)[0] == raw[0]);
    }
}

/// Feeding the raw lines of a file one by one to a fresh line counter hands
/// out exactly the lines that the eager builder collects, in the same order
/// and with the same numbers.
pub proof fn lemma_streaming_agrees_with_eager(raw: Seq<String>)
    ensures
        streamed_lines(raw, 0) == kept_lines(raw),
    decreases raw.len(),
{
    if raw.len() > 0 {
        let init = raw.drop_last();
        lemma_streaming_agrees_with_eager(init);
        lemma_streamed_push(init, 0, raw.last());
        assert(init.push(raw.last()) == raw);
    }
}

/// The logical lines of any file are ordered by their line numbers.
pub proof fn lemma_kept_lines_ordered(raw: Seq<String>)
    requires
        raw.len() < usize::MAX,
    ensures
        lines_ordered(kept_lines(raw)),
        forall|i: int|
            0 <= i < kept_lines(raw).len() ==> (#[trigger] kept_lines(raw)[i]).idx < raw.len(),
    decreases raw.len(),
{
    if raw.len() > 0 {
        lemma_kept_lines_ordered(raw.drop_last());
    }
}

} // verus!
