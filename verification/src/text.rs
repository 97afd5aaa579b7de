//! Text shaping: hard line breaks and greedy word wrap.
//!
//! The shaper works on measured text: each character comes with its advance,
//! the distance the pen moves for it, letter spacing included. Advances and
//! widths are whole numbers of whatever unit the caller measures in.

use vstd::prelude::*;

verus! {

/// A character and its advance.
pub type Glyph = (char, i32);

/// One line of shaped text.
pub struct TextLine {
    /// The line's characters with their advances, in order.
    pub chars: Vec<(char, i32)>,
    /// The sum of the advances.
    pub width: i64,
}

/// The sum of the advances of `s`.
pub open spec fn total(s: Seq<Glyph>) -> int
    decreases s.len(),
{
    if s.len() == 0 {
        0
    } else {
        total(s.drop_last()) + s.last().1
    }
}

/// Whether a width goes beyond the budget. Without a budget nothing does.
pub open spec fn exceeds(width: int, budget: Option<i64>) -> bool {
    budget matches Some(w) && width > w
}

/// The first place at or after `from` that holds the character `c`, or the
/// length of `s` where there is none.
pub open spec fn next_of(s: Seq<Glyph>, c: char, from: int) -> int
    decreases s.len() - from,
{
    if from >= s.len() {
        s.len() as int
    } else if from >= 0 && s[from].0 == c {
        from
    } else {
        next_of(s, c, from + 1)
    }
}

/// Wraps what is left of one source line, from place `p` on.
///
/// `done` holds the finished lines and `current` the line under way. A word
/// is a run that starts with the space at `p` and ends before the next space.
/// It is appended to the line under way unless that line has content and
/// would grow beyond the budget; then the line is finished and the word,
/// without its leading space, starts the next one.
pub open spec fn wrap_from(
    line: Seq<Glyph>,
    p: int,
    done: Seq<Seq<Glyph>>,
    current: Seq<Glyph>,
    budget: Option<i64>,
) -> Seq<Seq<Glyph>>
    decreases line.len() - p,
{
    if p >= line.len() || p < 0 {
        done.push(current)
    } else {
        let e = next_of(line, ' ', p + 1);
        let word = line.subrange(p, e);
        if e <= p || e > line.len() {
            done.push(current)
        } else if current.len() > 0 && exceeds(total(current) + total(word), budget) {
            wrap_from(line, e, done.push(current), word.skip(1), budget)
        } else {
            wrap_from(line, e, done, current + word, budget)
        }
    }
}

/// The lines that one source line wraps into. The first word, which has no
/// leading space, always goes on the first line.
pub open spec fn wrap_line(line: Seq<Glyph>, budget: Option<i64>) -> Seq<Seq<Glyph>> {
    let e = next_of(line, ' ', 0);
    wrap_from(line, e, Seq::empty(), line.subrange(0, e), budget)
}

/// Where the content of the source line that starts at `from` ends: before
/// its line feed, and before a carriage return that precedes the line feed.
pub open spec fn content_end(s: Seq<Glyph>, from: int) -> int {
    let e = next_of(s, '\n', from);
    if e < s.len() && e > from && s[e - 1].0 == '\r' {
        e - 1
    } else {
        e
    }
}

/// The shaped lines of the text from place `from` on.
pub open spec fn shape_from(s: Seq<Glyph>, from: int, budget: Option<i64>) -> Seq<Seq<Glyph>>
    decreases s.len() - from,
{
    if from >= s.len() || from < 0 {
        Seq::empty()
    } else {
        let e = next_of(s, '\n', from);
        let here = wrap_line(s.subrange(from, content_end(s, from)), budget);
        if e < from || e >= s.len() {
            here
        } else {
            here + shape_from(s, e + 1, budget)
        }
    }
}

/// The shaped lines of a text. Every line feed ends a source line, a last
/// source line needs none, and each source line is wrapped by itself. A text
/// without characters has no lines.
pub open spec fn shape(s: Seq<Glyph>, budget: Option<i64>) -> Seq<Seq<Glyph>> {
    shape_from(s, 0, budget)
}

/// The characters of each line.
pub open spec fn texts(lines: Seq<TextLine>) -> Seq<Seq<Glyph>> {
    Seq::new(lines.len(), |i: int| lines[i].chars@)
}

/// Every line's width is the sum of its advances.
pub open spec fn widths_agree(lines: Seq<TextLine>) -> bool {
    forall|i: int| 0 <= i < lines.len() ==> (#[trigger] lines[i]).width == total(lines[i].chars@)
}

proof fn lemma_next_of_bounds(s: Seq<Glyph>, c: char, from: int)
    requires
        0 <= from <= s.len(),
    ensures
        from <= next_of(s, c, from) <= s.len(),
    decreases s.len() - from,
{
    if from < s.len() && s[from].0 != c {
        lemma_next_of_bounds(s, c, from + 1);
    }
}

proof fn lemma_unbudgeted_from(line: Seq<Glyph>, p: int, done: Seq<Seq<Glyph>>)
    requires
        0 <= p <= line.len(),
    ensures
        wrap_from(line, p, done, line.subrange(0, p), None) == done.push(line),
    decreases line.len() - p,
{
    if p >= line.len() {
        assert(line.subrange(0, p) =~= line);
    } else {
        let e = next_of(line, ' ', p + 1);
        lemma_next_of_bounds(line, ' ', p + 1);
        assert(line.subrange(0, p) + line.subrange(p, e) =~= line.subrange(0, e));
        lemma_unbudgeted_from(line, e, done);
    }
}

/// Without a budget nothing wraps: a source line stays one line.
pub proof fn lemma_no_budget_no_wrap(line: Seq<Glyph>)
    ensures
        wrap_line(line, None) == seq![line],
{
    lemma_next_of_bounds(line, ' ', 0);
    lemma_unbudgeted_from(line, next_of(line, ' ', 0), Seq::empty());
    assert(Seq::<Seq<Glyph>>::empty().push(line) =~= seq![line]);
}

/// A place that holds `c` and is preceded only by other characters is the
/// next place of `c`.
proof fn lemma_next_of_is(s: Seq<Glyph>, c: char, from: int, at: int)
    requires
        0 <= from <= at <= s.len(),
        at < s.len() ==> s[at].0 == c,
        forall|k: int| from <= k < at ==> (#[trigger] s[k]).0 != c,
    ensures
        next_of(s, c, from) == at,
    decreases at - from,
{
    if from < at {
        assert(s[from].0 != c);
        lemma_next_of_is(s, c, from + 1, at);
    }
}

proof fn lemma_total_push(s: Seq<Glyph>, g: Glyph)
    ensures
        total(s.push(g)) == total(s) + g.1,
{
    assert(s.push(g).drop_last() =~= s);
}

/// A width lies within what its number of advances allows.
proof fn lemma_total_bounds(s: Seq<Glyph>)
    ensures
        -0x8000_0000 * s.len() <= total(s) <= 0x7fff_ffff * s.len(),
    decreases s.len(),
{
    if s.len() > 0 {
        lemma_total_bounds(s.drop_last());
    }
}

/// The first place of `c` in `glyphs[lo..hi]` at or after `from`, or `hi`.
fn find(glyphs: &Vec<(char, i32)>, lo: usize, hi: usize, c: char, from: usize) -> (at: usize)
    requires
        lo <= from <= hi <= glyphs.len(),
    ensures
        from <= at <= hi,
        at - lo == next_of(glyphs@.subrange(lo as int, hi as int), c, from - lo),
        at < hi ==> glyphs@[at as int].0 == c,
{
    let ghost line = glyphs@.subrange(lo as int, hi as int);
    let mut at: usize = from;
    while at < hi && glyphs[at].0 != c
        invariant
            lo <= from <= at <= hi <= glyphs.len(),
            line == glyphs@.subrange(lo as int, hi as int),
            forall|k: int| from - lo <= k < at - lo ==> (#[trigger] line[k]).0 != c,
        decreases hi - at,
    {
        at += 1;
    }
    proof {
        lemma_next_of_is(line, c, from - lo, at - lo);
    }
    at
}

/// The sum of the advances of `glyphs[from..to]`.
fn sum(glyphs: &Vec<(char, i32)>, from: usize, to: usize) -> (w: i64)
    requires
        from <= to <= glyphs.len() <= u32::MAX,
    ensures
        w == total(glyphs@.subrange(from as int, to as int)),
{
    let mut w: i64 = 0;
    let mut j: usize = from;
    while j < to
        invariant
            from <= j <= to <= glyphs.len() <= u32::MAX,
            w == total(glyphs@.subrange(from as int, j as int)),
        decreases to - j,
    {
        proof {
            lemma_total_bounds(glyphs@.subrange(from as int, j as int));
            lemma_total_push(glyphs@.subrange(from as int, j as int), glyphs@[j as int]);
            assert(glyphs@.subrange(from as int, j + 1) =~= glyphs@.subrange(from as int, j as int).push(
                glyphs@[j as int],
            ));
        }
        w = w + glyphs[j].1 as i64;
        j += 1;
    }
    w
}

/// Appends `glyphs[from..to]` to a line under way.
fn append(glyphs: &Vec<(char, i32)>, from: usize, to: usize, current: &mut Vec<(char, i32)>, width: &mut i64)
    requires
        from <= to <= glyphs.len() <= u32::MAX,
        old(current)@.len() + (to - from) <= u32::MAX,
        *old(width) == total(old(current)@),
    ensures
        final(current)@ == old(current)@ + glyphs@.subrange(from as int, to as int),
        *final(width) == total(final(current)@),
{
    let mut j: usize = from;
    while j < to
        invariant
            from <= j <= to <= glyphs.len() <= u32::MAX,
            old(current)@.len() + (to - from) <= u32::MAX,
            current@ == old(current)@ + glyphs@.subrange(from as int, j as int),
            *width == total(current@),
        decreases to - j,
    {
        proof {
            lemma_total_bounds(current@);
            lemma_total_push(current@, glyphs@[j as int]);
        }
        let g = glyphs[j];
        current.push(g);
        *width = *width + g.1 as i64;
        assert(current@ =~= old(current)@ + glyphs@.subrange(from as int, j + 1));
        j += 1;
    }
}

/// Wraps the source line `glyphs[lo..hi]` and appends its lines to `lines`.
fn wrap_range(glyphs: &Vec<(char, i32)>, lo: usize, hi: usize, budget: Option<i64>, lines: &mut Vec<TextLine>)
    requires
        lo <= hi <= glyphs.len() <= u32::MAX,
        widths_agree(old(lines)@),
    ensures
        texts(final(lines)@) == texts(old(lines)@) + wrap_line(
            glyphs@.subrange(lo as int, hi as int),
            budget,
        ),
        widths_agree(final(lines)@),
{
    let ghost line = glyphs@.subrange(lo as int, hi as int);
    let ghost base = texts(lines@);
    let first_end: usize = find(glyphs, lo, hi, ' ', lo);
    let mut current: Vec<(char, i32)> = Vec::new();
    let mut width: i64 = 0;
    append(glyphs, lo, first_end, &mut current, &mut width);
    assert(current@ =~= line.subrange(0, first_end - lo));
    let mut p: usize = first_end;
    let ghost mut done: Seq<Seq<Glyph>> = Seq::empty();
    assert(texts(lines@) =~= base + done);
    while p < hi
        invariant
            lo <= p <= hi <= glyphs.len() <= u32::MAX,
            line == glyphs@.subrange(lo as int, hi as int),
            texts(lines@) == base + done,
            widths_agree(lines@),
            width == total(current@),
            current@.len() <= p - lo,
            wrap_from(line, p - lo, done, current@, budget) == wrap_line(line, budget),
        decreases hi - p,
    {
        let e: usize = find(glyphs, lo, hi, ' ', p + 1);
        let ww: i64 = sum(glyphs, p, e);
        let ghost word = line.subrange(p - lo, e - lo);
        proof {
            assert(word =~= glyphs@.subrange(p as int, e as int));
            lemma_total_bounds(word);
            lemma_total_bounds(current@);
        }
        let over: bool = match budget {
            Some(w) => width + ww > w,
            None => false,
        };
        if current.len() > 0 && over {
            let ghost finished = current@;
            let ghost before = lines@;
            lines.push(TextLine { chars: current, width });
            proof {
                assert(texts(lines@) =~= texts(before).push(finished));
                done = done.push(finished);
                assert(texts(lines@) =~= base + done);
            }
            current = Vec::new();
            width = 0;
            append(glyphs, p + 1, e, &mut current, &mut width);
            assert(current@ =~= word.skip(1));
        } else {
            let ghost sofar = current@;
            append(glyphs, p, e, &mut current, &mut width);
            assert(current@ =~= sofar + word);
        }
        p = e;
    }
    let ghost last = current@;
    let ghost before = lines@;
    lines.push(TextLine { chars: current, width });
    assert(texts(lines@) =~= texts(before).push(last));
    assert(texts(lines@) =~= base + wrap_line(line, budget));
}

/// Shapes measured text into lines.
///
/// Line feeds in the text always end a line. Within what they delimit, words
/// are wrapped greedily under `max_width`; without one, nothing is wrapped.
pub fn compute_text_lines(glyphs: &Vec<(char, i32)>, max_width: Option<i64>) -> (lines: Vec<TextLine>)
    requires
        glyphs.len() <= u32::MAX,
    ensures
        texts(lines@) == shape(glyphs@, max_width),
        widths_agree(lines@),
{
    let n: usize = glyphs.len();
    let ghost s = glyphs@;
    let mut lines: Vec<TextLine> = Vec::new();
    let mut pos: usize = 0;
    assert(texts(lines@) + shape_from(s, 0, max_width) =~= shape(s, max_width));
    while pos < n
        invariant
            pos <= n,
            n == glyphs.len(),
            n <= u32::MAX,
            s == glyphs@,
            widths_agree(lines@),
            texts(lines@) + shape_from(s, pos as int, max_width) == shape(s, max_width),
        decreases n - pos,
    {
        let e: usize = find(glyphs, 0, n, '\n', pos);
        assert(s.subrange(0, n as int) =~= s);
        let stop: usize = if e < n && e > pos && glyphs[e - 1].0 == '\r' {
            e - 1
        } else {
            e
        };
        let ghost before = texts(lines@);
        let ghost here = wrap_line(s.subrange(pos as int, stop as int), max_width);
        wrap_range(glyphs, pos, stop, max_width, &mut lines);
        if e >= n {
            assert(shape_from(s, pos as int, max_width) == here);
            pos = n;
            assert(texts(lines@) + shape_from(s, pos as int, max_width) =~= before + here);
        } else {
            assert(shape_from(s, pos as int, max_width) == here + shape_from(s, e + 1, max_width));
            assert(texts(lines@) + shape_from(s, e + 1, max_width) =~= before + (here + shape_from(
                s,
                e + 1,
                max_width,
            )));
            pos = e + 1;
        }
    }
    assert(texts(lines@) =~= shape(s, max_width));
    lines
}

/// The width of the widest line, 0 where there is none or all are narrower.
pub open spec fn widest(lines: Seq<TextLine>) -> int
    decreases lines.len(),
{
    if lines.len() == 0 {
        0
    } else {
        let rest = widest(lines.drop_last());
        if lines.last().width > rest {
            lines.last().width as int
        } else {
            rest
        }
    }
}

/// The width that a block of shaped text takes: that of its widest line.
pub fn max_line_width(lines: &Vec<TextLine>) -> (w: i64)
    ensures
        w == widest(lines@),
{
    let mut w: i64 = 0;
    let mut i: usize = 0;
    while i < lines.len()
        invariant
            i <= lines.len(),
            w == widest(lines@.subrange(0, i as int)),
        decreases lines.len() - i,
    {
        assert(lines@.subrange(0, i + 1).drop_last() =~= lines@.subrange(0, i as int));
        if lines[i].width > w {
            w = lines[i].width;
        }
        i += 1;
    }
    assert(lines@.subrange(0, lines.len() as int) =~= lines@);
    w
}

} // verus!
