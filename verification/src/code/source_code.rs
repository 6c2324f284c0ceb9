//! The source buffer: holds the raw program text and answers
//! offset-to-line/column queries.
//!
//! A line break is a `'\n'` character; the line of an offset is the number
//! of line breaks strictly before it, and a line's start is the position
//! just past its preceding break.  `lemma_line_round_trip` is the buffer's
//! idempotence law: going from an offset to its line index and back to that
//! line's start stays within the same line.

use vstd::prelude::*;
use vstd::string::StrSliceExecFns;

verus! {

/// The number of line breaks strictly before position `end`.
pub open spec fn count_newlines(text: Seq<char>, end: int) -> int
    decreases end,
{
    if end <= 0 {
        0
    } else {
        count_newlines(text, end - 1) + if text[end - 1] == '\n' {
            1int
        } else {
            0int
        }
    }
}

/// The line containing position `p`.
pub open spec fn spec_line_index(text: Seq<char>, p: int) -> int {
    count_newlines(text, p)
}

/// How many lines the text has: one more than its line breaks.
pub open spec fn spec_line_count(text: Seq<char>) -> int {
    count_newlines(text, text.len() as int) + 1
}

/// The position of the line break at or after `pos`, or the end of the
/// text when the last line is unterminated.
pub open spec fn spec_line_end(text: Seq<char>, pos: int) -> int
    decreases text.len() - pos,
{
    if pos < 0 || pos >= text.len() {
        text.len() as int
    } else if text[pos] == '\n' {
        pos
    } else {
        spec_line_end(text, pos + 1)
    }
}

/// The position where line `index` starts: just past its preceding line
/// break.
pub open spec fn spec_line_start(text: Seq<char>, index: int) -> int
    decreases index,
{
    if index <= 0 {
        0
    } else {
        let prev = spec_line_start(text, index - 1);
        let e = spec_line_end(text, prev);
        if e < text.len() {
            e + 1
        } else {
            text.len() as int
        }
    }
}

/// The text of line `index`, without its line break.
pub open spec fn spec_line_text(text: Seq<char>, index: int) -> Seq<char> {
    let s = spec_line_start(text, index);
    text.subrange(s, spec_line_end(text, s))
}

pub proof fn lemma_count_newlines_mono(text: Seq<char>, a: int, b: int)
    requires
        a <= b,
    ensures
        count_newlines(text, a) <= count_newlines(text, b),
    decreases b - a,
{
    if a < b {
        lemma_count_newlines_mono(text, a, b - 1);
    }
}

/// A line break strictly between `a` and `b` raises the count.
pub proof fn lemma_count_newlines_gap(text: Seq<char>, a: int, c: int, b: int)
    requires
        0 <= a <= c < b,
        c < text.len(),
        text[c] == '\n',
    ensures
        count_newlines(text, b) >= count_newlines(text, a) + 1,
{
    lemma_count_newlines_mono(text, a, c);
    assert(count_newlines(text, c + 1) == count_newlines(text, c) + 1);
    lemma_count_newlines_mono(text, c + 1, b);
}

pub proof fn lemma_line_end_bounds(text: Seq<char>, pos: int)
    requires
        0 <= pos <= text.len(),
    ensures
        pos <= spec_line_end(text, pos) <= text.len(),
        forall|j: int| pos <= j < spec_line_end(text, pos) ==> text[j] != '\n',
        spec_line_end(text, pos) < text.len() ==> text[spec_line_end(text, pos)] == '\n',
    decreases text.len() - pos,
{
    if pos < text.len() && text[pos] != '\n' {
        lemma_line_end_bounds(text, pos + 1);
    }
}

pub proof fn lemma_count_newlines_flat(text: Seq<char>, a: int, b: int)
    requires
        a <= b,
        forall|j: int| a <= j < b ==> text[j] != '\n',
    ensures
        count_newlines(text, b) == count_newlines(text, a),
    decreases b - a,
{
    if a < b {
        lemma_count_newlines_flat(text, a, b - 1);
    }
}

/// Line `index`'s start is in bounds, sits just past a line break (or at
/// the very beginning), and has exactly `index` line breaks before it.
pub proof fn lemma_line_start_count(text: Seq<char>, index: int)
    requires
        0 <= index <= count_newlines(text, text.len() as int),
    ensures
        0 <= spec_line_start(text, index) <= text.len(),
        count_newlines(text, spec_line_start(text, index)) == index,
        spec_line_start(text, index) == 0 || text[spec_line_start(text, index) - 1] == '\n',
    decreases index,
{
    if index > 0 {
        lemma_line_start_count(text, index - 1);
        let prev = spec_line_start(text, index - 1);
        let e = spec_line_end(text, prev);
        lemma_line_end_bounds(text, prev);
        lemma_count_newlines_flat(text, prev, e);
        if e >= text.len() {
            assert(count_newlines(text, text.len() as int) == index - 1);
        }
    }
}

/// The Source Buffer's idempotence: for every valid offset `p`, the start
/// of `p`'s line lies at or before `p`, `p` lies at or before that line's
/// end, and the reconstructed start offset is on the same line as `p`.
pub proof fn lemma_line_round_trip(text: Seq<char>, p: int)
    requires
        0 <= p <= text.len(),
    ensures
        ({
            let i = spec_line_index(text, p);
            let s = spec_line_start(text, i);
            &&& 0 <= i < spec_line_count(text)
            &&& 0 <= s <= p <= spec_line_end(text, s) <= text.len()
            &&& spec_line_index(text, s) == i
        }),
{
    let i = spec_line_index(text, p);
    let s = spec_line_start(text, i);
    lemma_count_newlines_mono(text, 0, p);
    lemma_count_newlines_mono(text, p, text.len() as int);
    lemma_line_start_count(text, i);
    if p < s {
        assert(s > 0);
        lemma_count_newlines_gap(text, p, s - 1, s);
    }
    let e = spec_line_end(text, s);
    lemma_line_end_bounds(text, s);
    lemma_count_newlines_flat(text, s, e);
    if p > e {
        assert(e < text.len());
        lemma_count_newlines_gap(text, e, e, p);
    }
}

/// The source buffer: the raw program text.
pub struct SourceCode {
    text: String,
}

impl View for SourceCode {
    type V = Seq<char>;

    closed spec fn view(&self) -> Seq<char> {
        self.text@
    }
}

impl SourceCode {
    pub fn new(text: String) -> (r: Self)
        ensures
            r@ == text@,
    {
        Self { text }
    }

    /// The index of the line containing `position`.
    pub fn line_index(&self, position: usize) -> (r: usize)
        requires
            position <= self@.len(),
        ensures
            r == spec_line_index(self@, position as int),
            r < spec_line_count(self@),
    {
        let ghost text = self@;
        let mut count: usize = 0;
        let mut i: usize = 0;
        while i < position
            invariant
                i <= position <= text.len(),
                text == self@,
                count == count_newlines(text, i as int),
                count <= i,
            decreases position - i,
        {
            if self.text.as_str().get_char(i) == '\n' {
                count = count + 1;
            }
            i = i + 1;
        }
        proof {
            lemma_count_newlines_mono(text, position as int, text.len() as int);
        }
        count
    }

    /// The position of the first line break at or after `pos`, or the text
    /// length when there is none.
    fn find_line_end(&self, pos: usize) -> (r: usize)
        requires
            pos <= self@.len(),
        ensures
            r == spec_line_end(self@, pos as int),
            pos <= r <= self@.len(),
    {
        let ghost text = self@;
        proof {
            lemma_line_end_bounds(text, pos as int);
        }
        let len = self.text.as_str().unicode_len();
        let mut i = pos;
        while i < len
            invariant
                pos <= i <= len,
                len == text.len(),
                text == self@,
                spec_line_end(text, pos as int) == spec_line_end(text, i as int),
            decreases len - i,
        {
            if self.text.as_str().get_char(i) == '\n' {
                return i;
            }
            i = i + 1;
        }
        len
    }

    /// The position where line `index` starts.
    pub fn line_start(&self, index: usize) -> (r: usize)
        requires
            index < spec_line_count(self@),
        ensures
            r == spec_line_start(self@, index as int),
            r <= self@.len(),
    {
        let ghost text = self@;
        let len = self.text.as_str().unicode_len();
        let mut pos: usize = 0;
        let mut k: usize = 0;
        while k < index
            invariant
                k <= index,
                index < spec_line_count(text),
                len == text.len(),
                text == self@,
                pos == spec_line_start(text, k as int),
                pos <= len,
            decreases index - k,
        {
            proof {
                lemma_line_start_count(text, k as int + 1);
                lemma_line_start_count(text, k as int);
                lemma_line_end_bounds(text, pos as int);
                lemma_count_newlines_flat(
                    text,
                    pos as int,
                    spec_line_end(text, pos as int),
                );
                if spec_line_end(text, pos as int) >= text.len() {
                    lemma_count_newlines_mono(text, 0, text.len() as int);
                    assert(count_newlines(text, text.len() as int) == k as int);
                }
            }
            let e = self.find_line_end(pos);
            pos = e + 1;
            k = k + 1;
        }
        pos
    }

    /// The text of line `index`, without its line break.
    pub fn get_line(&self, index: usize) -> (r: &str)
        requires
            index < spec_line_count(self@),
        ensures
            r@ == spec_line_text(self@, index as int),
    {
        let start = self.line_start(index);
        let end = self.find_line_end(start);
        self.text.as_str().substring_char(start, end)
    }
}

} // verus!
