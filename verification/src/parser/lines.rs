//! The lines of a source text and the positions that they span.
//!
//! Positions count the bytes of the text in UTF-8. Each line is given two
//! positions more than its bytes, for the line ending, and the next line
//! begins one position behind its end.
use crate::text::{
    byte_len, byte_length, chars_of, find_from, index_from, lemma_byte_len_bounds,
    lemma_byte_len_concat, lemma_char_bytes, substring,
};
use vstd::prelude::*;

verus! {

/// What a `Line` holds, as plain values.
pub struct LineView {
    pub start: u32,
    pub end: u32,
    pub content: Seq<char>,
}

/// A line of the source text, without its line ending, and the positions
/// that it spans.
#[derive(Debug, PartialEq)]
pub struct Line {
    pub start: u32,
    pub end: u32,
    pub content: String,
}

impl View for Line {
    type V = LineView;

    open spec fn view(&self) -> LineView {
        LineView { start: self.start, end: self.end, content: self.content@ }
    }
}

/// The views of a list of lines.
pub open spec fn line_views(lines: Seq<Line>) -> Seq<LineView> {
    lines.map_values(|l: Line| l@)
}

/// The line that begins at `from` and ends before the line feed at `end`,
/// or at the end of the text: the characters between the two, without a
/// carriage return that stands directly before the line feed.
pub open spec fn line_text(s: Seq<char>, from: int, end: int) -> Seq<char> {
    if end < s.len() && from < end && s[end - 1] == '\r' {
        s.subrange(from, end - 1)
    } else {
        s.subrange(from, end)
    }
}

/// The lines of `s` from position `from` on. A line ends with a line feed
/// or with the text; a text that ends with a line feed has no further,
/// empty line.
pub open spec fn line_texts(s: Seq<char>, from: int) -> Seq<Seq<char>>
    decreases s.len() + 1 - from,
{
    if 0 <= from < s.len() {
        let end = index_from(s, from, '\n');
        if from <= end <= s.len() {
            seq![line_text(s, from, end)] + line_texts(s, end + 1)
        } else {
            Seq::empty()
        }
    } else {
        Seq::empty()
    }
}

/// The end position of the last of the lines `texts`: two more than its
/// bytes behind the end of the line before it, and zero for no line.
pub open spec fn span_end(texts: Seq<Seq<char>>) -> int
    decreases texts.len(),
{
    if texts.len() == 0 {
        0
    } else {
        span_end(texts.drop_last()) + byte_len(texts.last()) + 2
    }
}

/// The start position of the line with the index `i`: zero for the first,
/// one behind the end of the line before it for the others.
pub open spec fn span_start(texts: Seq<Seq<char>>, i: int) -> int {
    if i == 0 {
        0
    } else {
        span_end(texts.take(i)) + 1
    }
}

/// The lines `texts` with their positions.
pub open spec fn spans(texts: Seq<Seq<char>>) -> Seq<LineView> {
    Seq::new(
        texts.len(),
        |i: int|
            LineView {
                start: span_start(texts, i) as u32,
                end: span_end(texts.take(i + 1)) as u32,
                content: texts[i],
            },
    )
}

/// The index of the first line at or behind the index `from` that spans
/// the position `n`, or the number of lines where none does.
pub open spec fn line_index(lines: Seq<LineView>, n: u32, from: int) -> int
    decreases lines.len() - from,
{
    if 0 <= from < lines.len() && !(lines[from].start <= n && n <= lines[from].end) {
        line_index(lines, n, from + 1)
    } else {
        from
    }
}

/// The end of a longer list of lines is not before the end of a shorter
/// beginning of it.
pub proof fn lemma_span_end_grows(texts: Seq<Seq<char>>, k: int)
    requires
        0 <= k <= texts.len(),
    ensures
        0 <= span_end(texts.take(k)) <= span_end(texts),
    decreases texts.len() - k,
{
    if k < texts.len() {
        lemma_span_end_grows(texts, k + 1);
        assert(texts.take(k + 1).drop_last() == texts.take(k));
        lemma_span_end_nonnegative(texts.take(k));
    } else {
        assert(texts.take(k) == texts);
        lemma_span_end_nonnegative(texts);
    }
}

/// No list of lines ends before position zero.
pub proof fn lemma_span_end_nonnegative(texts: Seq<Seq<char>>)
    ensures
        0 <= span_end(texts),
    decreases texts.len(),
{
    if texts.len() > 0 {
        lemma_span_end_nonnegative(texts.drop_last());
    }
}

impl Line {
    /// The lines of `content` with the positions that they span. The end of
    /// the last line must lie below `u32::MAX`.
    pub fn from_string(content: String) -> (lines: Vec<Line>)
        requires
            span_end(line_texts(content@, 0)) < u32::MAX,
        ensures
            line_views(lines@) == spans(line_texts(content@, 0)),
    {
        let cs = chars_of(content.as_str());
        let ghost texts = line_texts(cs@, 0);
        let mut lines: Vec<Line> = Vec::new();
        let mut start: u32 = 0;
        let mut end: u32 = 0;
        let mut from: usize = 0;
        let ghost mut done: Seq<Seq<char>> = Seq::empty();
        assert(done + line_texts(cs@, 0) == texts);
        while from < cs.len()
            invariant
                from <= cs.len(),
                cs@ == content@,
                texts == line_texts(cs@, 0),
                span_end(texts) < u32::MAX,
                texts == done + line_texts(cs@, from as int),
                lines.len() == done.len(),
                end == span_end(done),
                start == span_start(texts, done.len() as int),
                done.len() <= texts.len(),
                texts.take(done.len() as int) == done,
                forall|k: int| 0 <= k < lines.len() ==> (#[trigger] lines@[k])@ == spans(texts)[k],
            decreases cs.len() - from,
        {
            let stop = find_from(&cs, from, '\n');
            let cut = if stop < cs.len() && from < stop && cs[stop - 1] == '\r' {
                stop - 1
            } else {
                stop
            };
            let text = substring(&cs, from, cut);
            let ghost line = line_text(cs@, from as int, stop as int);
            let ghost next = done.push(line);
            proof {
                assert(line_texts(cs@, from as int) == seq![line] + line_texts(cs@, stop + 1));
                assert(texts == next + line_texts(cs@, stop + 1));
                assert(texts.take(next.len() as int) == next);
                assert(next.drop_last() == done);
                lemma_span_end_grows(texts, next.len() as int);
                lemma_span_end_nonnegative(done);
                assert(texts[done.len() as int] == line);
            }
            let width = byte_length(text.as_str());
            end = end + width as u32 + 2;
            lines.push(Line { start, end, content: text });
            start = end + 1;
            if stop < cs.len() {
                from = stop + 1;
            } else {
                from = cs.len();
            }
            proof {
                assert(line_texts(cs@, stop + 1) == line_texts(cs@, from as int));
                done = next;
            }
        }
        proof {
            assert(line_texts(cs@, from as int) == Seq::<Seq<char>>::empty());
            assert(texts == done);
            assert(line_views(lines@) =~= spans(texts));
        }
        lines
    }

    /// The index of the first line that spans the position `char_number`,
    /// or the number of lines where none does. There must be a line, and
    /// the position must not lie behind the end of the last.
    pub fn get_line(char_number: u32, lines: &Vec<Line>) -> (r: usize)
        requires
            lines.len() > 0,
            char_number <= lines@.last().end,
        ensures
            r == line_index(line_views(lines@), char_number, 0),
            r <= lines.len(),
            r < lines.len() ==> lines@[r as int].start <= char_number <= lines@[r as int].end,
    {
        let ghost all = line_views(lines@);
        let mut i: usize = 0;
        while i < lines.len()
            invariant
                i <= lines.len(),
                all == line_views(lines@),
                line_index(all, char_number, 0) == line_index(all, char_number, i as int),
            decreases lines.len() - i,
        {
            assert(all[i as int] == lines@[i as int]@);
            if lines[i].start <= char_number && lines[i].end >= char_number {
                return i;
            }
            i += 1;
        }
        i
    }
}

/// The end of a list of lines with one line put before it.
pub proof fn lemma_span_end_prepend(first: Seq<char>, rest: Seq<Seq<char>>)
    ensures
        span_end(seq![first] + rest) == byte_len(first) + 2 + span_end(rest),
    decreases rest.len(),
{
    let whole = seq![first] + rest;
    if rest.len() == 0 {
        assert(whole.drop_last() =~= Seq::<Seq<char>>::empty());
        assert(span_end(whole.drop_last()) == 0);
    } else {
        assert(whole.drop_last() =~= seq![first] + rest.drop_last());
        assert(whole.last() == rest.last());
        lemma_span_end_prepend(first, rest.drop_last());
    }
}

/// The lines of a text end at or behind the last byte of the text, and
/// not further behind its start than three times its bytes. A text that
/// is not empty has a line.
pub proof fn lemma_line_texts_span(s: Seq<char>, from: int)
    requires
        0 <= from <= s.len(),
    ensures
        byte_len(s.skip(from)) <= span_end(line_texts(s, from)) <= 3 * byte_len(s.skip(from)),
        from < s.len() ==> line_texts(s, from).len() >= 1,
    decreases s.len() - from,
{
    if from < s.len() {
        let end = index_from(s, from, '\n');
        lemma_index_from(s, from, '\n');
        let line = line_text(s, from, end);
        let part = s.subrange(from, end);
        let rest = line_texts(s, end + 1);
        lemma_span_end_prepend(line, rest);
        assert(s.skip(from) =~= part + s.skip(end));
        lemma_byte_len_concat(part, s.skip(end));
        if line != part {
            assert(part =~= line + seq!['\r']);
            lemma_byte_len_concat(line, seq!['\r']);
            lemma_single_byte('\r');
        }
        if end < s.len() {
            lemma_line_texts_span(s, end + 1);
            assert(s.skip(end) =~= seq!['\n'] + s.skip(end + 1));
            lemma_byte_len_concat(seq!['\n'], s.skip(end + 1));
            lemma_single_byte('\n');
        } else {
            assert(rest.len() == 0);
            assert(s.skip(end).len() == 0);
            lemma_byte_len_bounds(s.skip(end));
            lemma_byte_len_bounds(part);
        }
    } else {
        lemma_byte_len_bounds(s.skip(from));
    }
}

/// A character below 128 takes one byte.
pub proof fn lemma_single_byte(c: char)
    requires
        (c as u32) < 128,
    ensures
        byte_len(seq![c]) == 1,
{
    lemma_char_bytes(c);
    assert(seq![c].drop_first() =~= Seq::<char>::empty());
    assert(byte_len(seq![c].drop_first()) == 0);
}

/// The position found by `index_from` lies between `from` and the end, and
/// holds the character where it lies before the end.
pub proof fn lemma_index_from(s: Seq<char>, from: int, c: char)
    requires
        0 <= from <= s.len(),
    ensures
        from <= index_from(s, from, c) <= s.len(),
        index_from(s, from, c) < s.len() ==> s[index_from(s, from, c)] == c,
    decreases s.len() - from,
{
    if from < s.len() && s[from] != c {
        lemma_index_from(s, from + 1, c);
    }
}

/// A position that lies at or behind the start of the line with the index
/// `k`, and not behind the end of the last line, lies in a line.
pub proof fn lemma_line_index_found(texts: Seq<Seq<char>>, n: int, k: int)
    requires
        0 <= k < texts.len(),
        span_end(texts) <= u32::MAX,
        span_start(texts, k) <= n <= span_end(texts),
    ensures
        k <= line_index(spans(texts), n as u32, k) < texts.len(),
    decreases texts.len() - k,
{
    let lines = spans(texts);
    lemma_span_end_grows(texts, k + 1);
    lemma_span_end_grows(texts, k);
    assert(lines[k].end == span_end(texts.take(k + 1)));
    assert(lines[k].start == span_start(texts, k));
    if !(lines[k].start <= n as u32 && n as u32 <= lines[k].end) {
        assert(n > span_end(texts.take(k + 1)));
        if k + 1 == texts.len() {
            assert(texts.take(k + 1) == texts);
        } else {
            lemma_line_index_found(texts, n, k + 1);
        }
    }
}

} // verus!
