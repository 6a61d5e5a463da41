//! Rectangles of single characters, and of the characters in a selection.

use crate::geometry::{clamp, clamp_exec, Rectangle};
use crate::line::LineInfo;
use vstd::prelude::*;

verus! {

/// A cursor position in a broken text: a line, and a character offset in that
/// line. It belongs to the lines it was made for, and means nothing for the
/// same text broken in another way.
#[derive(Clone, Copy, Debug, PartialEq, Eq, Structural)]
pub struct Index {
    pub line: usize,
    pub char: usize,
}

/// What the font reports of one shaped glyph: its advance width and, where the
/// glyph has an outline, the right edge of its bounding box.
#[derive(Clone, Copy, Debug, PartialEq, Eq)]
pub struct GlyphMetrics {
    pub advance: u32,
    pub bbox_right: Option<i64>,
}

/// The shaped glyphs of one line, and the rectangle of that line.
#[derive(Debug, PartialEq, Eq)]
pub struct LineGlyphs {
    pub glyphs: Vec<GlyphMetrics>,
    pub rect: Rectangle,
}

/// Finds the index of the character that follows the cursor, counted from the
/// start of the text. There is none if the cursor names a line that does not
/// exist, or an offset beyond the end of its line.
pub fn index_after_cursor(line_infos: &Vec<LineInfo>, cursor_idx: Index) -> (idx: Option<usize>)
    ensures
        idx is Some <==> cursor_idx.line < line_infos@.len() && line_infos@[cursor_idx.line as int].start_char
            + cursor_idx.char <= line_infos@[cursor_idx.line as int].end_char,
        idx is Some ==> idx->0 == line_infos@[cursor_idx.line as int].start_char + cursor_idx.char,
{
    if cursor_idx.line >= line_infos.len() {
        return None;
    }
    let info = line_infos[cursor_idx.line];
    if info.start_char <= info.end_char && cursor_idx.char <= info.end_char - info.start_char {
        Some(info.start_char + cursor_idx.char)
    } else {
        None
    }
}

/// The right edge of a glyph whose left edge is `left`: the right edge of its
/// bounding box, or without one `left` plus its advance, and never left of
/// `left`.
pub open spec fn glyph_right(left: i64, glyph: GlyphMetrics) -> i64 {
    let measured = match glyph.bbox_right {
        Some(right) => right,
        None => clamp(left + glyph.advance),
    };
    if measured < left {
        left
    } else {
        measured
    }
}

/// The x position behind the first `k` glyphs of a line that starts at `left`.
pub open spec fn edge(left: i64, glyphs: Seq<GlyphMetrics>, k: int) -> i64
    decreases k,
{
    if k <= 0 {
        left
    } else {
        glyph_right(edge(left, glyphs, k - 1), glyphs[k - 1])
    }
}

/// The rectangle of character `k` of a line: from the right edge of the
/// character before it, or the left edge of the line, to its own right edge,
/// and as high as the line.
pub open spec fn char_rect(line_rect: Rectangle, glyphs: Seq<GlyphMetrics>, k: int) -> Rectangle {
    Rectangle {
        left: edge(line_rect.left, glyphs, k),
        top: line_rect.top,
        width: (edge(line_rect.left, glyphs, k + 1) - edge(line_rect.left, glyphs, k)) as u64,
        height: line_rect.height,
    }
}

/// The rectangles of all characters of a line with the given rectangle and
/// glyphs.
pub open spec fn char_rects_of(line_rect: Rectangle, glyphs: Seq<GlyphMetrics>) -> Seq<Rectangle> {
    Seq::new(glyphs.len(), |k: int| char_rect(line_rect, glyphs, k))
}

/// The rectangles of all characters of a line.
pub open spec fn char_rects(line: LineGlyphs) -> Seq<Rectangle> {
    char_rects_of(line.rect, line.glyphs@)
}

/// The x positions behind the glyphs of a line never decrease.
pub proof fn lemma_edge_mono(left: i64, glyphs: Seq<GlyphMetrics>, j: int, k: int)
    requires
        j <= k,
    ensures
        edge(left, glyphs, j) <= edge(left, glyphs, k),
    decreases k - j,
{
    if j < k {
        lemma_edge_mono(left, glyphs, j, k - 1);
        if k <= 0 {
            assert(edge(left, glyphs, k) == left);
            assert(edge(left, glyphs, j) == left);
        }
    }
}

/// Two neighbours among the character rectangles of a line share one edge:
/// the right edge of the first is the left edge of the second.
pub proof fn lemma_char_rects_abut(line_rect: Rectangle, glyphs: Seq<GlyphMetrics>, k: int)
    requires
        0 <= k,
    ensures
        char_rect(line_rect, glyphs, k).spec_right() == char_rect(line_rect, glyphs, k + 1).left,
        char_rect(line_rect, glyphs, k).top == char_rect(line_rect, glyphs, k + 1).top,
        char_rect(line_rect, glyphs, k).height == char_rect(line_rect, glyphs, k + 1).height,
{
    lemma_edge_mono(line_rect.left, glyphs, k, k + 1);
}

/// Two character rectangles of a line do not overlap: the one that comes
/// first ends where the other starts, or left of it.
pub proof fn lemma_char_rects_apart(line_rect: Rectangle, glyphs: Seq<GlyphMetrics>, j: int, k: int)
    requires
        0 <= j < k,
    ensures
        char_rect(line_rect, glyphs, j).spec_right() <= char_rect(line_rect, glyphs, k).left,
{
    lemma_edge_mono(line_rect.left, glyphs, j, j + 1);
    lemma_edge_mono(line_rect.left, glyphs, j + 1, k);
}

/// Yields the rectangle of each character of a line, from left to right.
pub struct Rects<'a> {
    /// The rectangle of the line.
    pub rect: Rectangle,
    /// The shaped glyphs of the line.
    pub glyphs: &'a Vec<GlyphMetrics>,
    /// The left edge of the next rectangle.
    pub next_left: i64,
    /// The number of rectangles that were yielded.
    pub pos: usize,
}

impl<'a> Rects<'a> {
    /// The next left edge is the one behind the glyphs that were yielded.
    pub open spec fn wf(&self) -> bool {
        &&& self.pos <= self.glyphs@.len()
        &&& self.next_left == edge(self.rect.left, self.glyphs@, self.pos as int)
    }

    /// The rectangles that are still to come.
    pub open spec fn remaining(&self) -> Seq<Rectangle> {
        char_rects_of(self.rect, self.glyphs@).skip(self.pos as int)
    }

    /// The rectangles of the characters of a line, none of them yielded yet.
    pub fn new(rect: Rectangle, glyphs: &'a Vec<GlyphMetrics>) -> (r: Self)
        ensures
            r.wf(),
            r.rect == rect,
            r.glyphs == glyphs,
            r.pos == 0,
            r.remaining() == char_rects_of(rect, glyphs@),
    {
        proof {
            assert(char_rects_of(rect, glyphs@).skip(0) =~= char_rects_of(rect, glyphs@));
        }
        Rects { rect, glyphs, next_left: rect.left, pos: 0 }
    }

    /// The rectangle of the next character, or `None` behind the last one.
    pub fn next(&mut self) -> (r: Option<Rectangle>)
        requires
            old(self).wf(),
        ensures
            final(self).wf(),
            final(self).rect == old(self).rect,
            final(self).glyphs == old(self).glyphs,
            old(self).remaining().len() == 0 ==> r is None && *final(self) == *old(self),
            old(self).remaining().len() > 0 ==> {
                &&& r == Some(old(self).remaining()[0])
                &&& final(self).pos == old(self).pos + 1
                &&& final(self).remaining() == old(self).remaining().skip(1)
            },
    {
        if self.pos >= self.glyphs.len() {
            return None;
        }
        let glyph = self.glyphs[self.pos];
        let left: i64 = self.next_left;
        let measured: i64 = match glyph.bbox_right {
            Some(right) => right,
            None => clamp_exec(left as i128 + glyph.advance as i128),
        };
        let right: i64 = if measured < left {
            left
        } else {
            measured
        };
        let width: u64 = (right as i128 - left as i128) as u64;
        self.next_left = right;
        self.pos = self.pos + 1;
        proof {
            assert(final(self).remaining() =~= old(self).remaining().skip(1));
        }
        Some(Rectangle { left, top: self.rect.top, width, height: self.rect.height })
    }

    /// All rectangles that are still to come.
    pub fn collect(self) -> (out: Vec<Rectangle>)
        requires
            self.wf(),
        ensures
            out@ == self.remaining(),
    {
        let mut it = self;
        let mut out: Vec<Rectangle> = Vec::new();
        while it.pos < it.glyphs.len()
            invariant
                it.wf(),
                it.rect == self.rect,
                it.glyphs == self.glyphs,
                self.pos <= it.pos,
                out@ == self.remaining().take(it.pos - self.pos),
            decreases it.glyphs@.len() - it.pos,
        {
            let ghost before = it.remaining();
            let next = it.next();
            proof {
                assert(before[0] == self.remaining()[it.pos - 1 - self.pos]);
                assert(out@.push(before[0]) =~= self.remaining().take(it.pos - self.pos));
            }
            match next {
                Some(rect) => {
                    out.push(rect);
                },
                None => {},
            }
        }
        proof {
            assert(self.remaining().take(it.pos - self.pos) =~= self.remaining());
        }
        out
    }
}

/// For every line, yields the rectangles of the characters of that line.
pub struct RectsPerLine<'a> {
    /// The glyphs and the rectangle of each line.
    pub lines_with_rects: &'a Vec<LineGlyphs>,
    /// The number of lines that were yielded.
    pub pos: usize,
}

/// Produces, for every line, the rectangles of the characters of that line.
pub fn rects_per_line<'a>(lines_with_rects: &'a Vec<LineGlyphs>) -> (r: RectsPerLine<'a>)
    ensures
        r.wf(),
        r.lines_with_rects == lines_with_rects,
        r.pos == 0,
{
    RectsPerLine { lines_with_rects, pos: 0 }
}

impl<'a> RectsPerLine<'a> {
    /// No more lines were yielded than there are.
    pub open spec fn wf(&self) -> bool {
        self.pos <= self.lines_with_rects@.len()
    }

    /// The rectangles of the next line, or `None` behind the last line.
    pub fn next(&mut self) -> (r: Option<Rects<'a>>)
        requires
            old(self).wf(),
        ensures
            final(self).wf(),
            final(self).lines_with_rects == old(self).lines_with_rects,
            old(self).pos == old(self).lines_with_rects@.len() ==> r is None && final(self).pos
                == old(self).pos,
            old(self).pos < old(self).lines_with_rects@.len() ==> {
                &&& r is Some
                &&& r->0.wf()
                &&& r->0.remaining() == char_rects(old(self).lines_with_rects@[old(self).pos as int])
                &&& final(self).pos == old(self).pos + 1
            },
    {
        if self.pos >= self.lines_with_rects.len() {
            return None;
        }
        let lines: &'a Vec<LineGlyphs> = self.lines_with_rects;
        let line = &lines[self.pos];
        self.pos = self.pos + 1;
        Some(Rects::new(line.rect, &line.glyphs))
    }

    /// The rectangles of all lines that are still to come.
    pub fn collect(self) -> (out: Vec<Vec<Rectangle>>)
        requires
            self.wf(),
        ensures
            out@.len() == self.lines_with_rects@.len() - self.pos,
            forall|i: int|
                0 <= i < out@.len() ==> (#[trigger] out@[i])@ == char_rects(
                    self.lines_with_rects@[self.pos + i],
                ),
    {
        let mut it = self;
        let mut out: Vec<Vec<Rectangle>> = Vec::new();
        while it.pos < it.lines_with_rects.len()
            invariant
                it.wf(),
                it.lines_with_rects == self.lines_with_rects,
                self.pos <= it.pos,
                out@.len() == it.pos - self.pos,
                forall|i: int|
                    0 <= i < out@.len() ==> (#[trigger] out@[i])@ == char_rects(
                        self.lines_with_rects@[self.pos + i],
                    ),
            decreases it.lines_with_rects@.len() - it.pos,
        {
            match it.next() {
                Some(line) => {
                    out.push(line.collect());
                },
                None => {},
            }
        }
        out
    }
}

/// Whether character `k` of line `line` lies in the selection from `start` to
/// `end`: on the first line of the selection from `start.char` on, on its last
/// line before `end.char`, and on every line between the two.
pub open spec fn is_selected(start: Index, end: Index, line: int, k: int) -> bool {
    &&& 0 <= k
    &&& start.line <= line <= end.line
    &&& line == start.line ==> start.char <= k
    &&& line == end.line ==> k < end.char
}

/// The first selected character of a line, if any is selected.
pub open spec fn selection_from(start: Index, line: int) -> int {
    if line == start.line {
        start.char as int
    } else {
        0
    }
}

/// The end of the selected characters of a line that holds `count` characters.
pub open spec fn selection_to(start: Index, end: Index, line: int, count: int) -> int {
    if line < start.line || line > end.line {
        0
    } else if line == end.line && end.char < count {
        end.char as int
    } else {
        count
    }
}

/// The rectangles of the selected characters of one line, from left to right.
pub open spec fn line_selection(glyphs: LineGlyphs, start: Index, end: Index, line: int) -> Seq<
    Rectangle,
> {
    let from = selection_from(start, line);
    let to = selection_to(start, end, line, glyphs.glyphs@.len() as int);
    if from < to {
        char_rects(glyphs).subrange(from, to)
    } else {
        Seq::empty()
    }
}

/// The selections of the lines `[lo, hi)`, without the lines in which no
/// character is selected.
pub open spec fn selection_between(
    lines: Seq<LineGlyphs>,
    start: Index,
    end: Index,
    lo: int,
    hi: int,
) -> Seq<Seq<Rectangle>>
    decreases hi - lo,
{
    if hi <= lo {
        Seq::empty()
    } else {
        let before = selection_between(lines, start, end, lo, hi - 1);
        let here = line_selection(lines[hi - 1], start, end, hi - 1);
        if here.len() > 0 {
            before.push(here)
        } else {
            before
        }
    }
}

/// The rectangles that a selection covers, line by line.
pub open spec fn selection(lines: Seq<LineGlyphs>, start: Index, end: Index) -> Seq<Seq<Rectangle>> {
    selection_between(lines, start, end, 0, lines.len() as int)
}

proof fn lemma_selection_peel(lines: Seq<LineGlyphs>, start: Index, end: Index, lo: int, hi: int)
    requires
        lo < hi,
    ensures
        selection_between(lines, start, end, lo, hi) == if line_selection(
            lines[lo],
            start,
            end,
            lo,
        ).len() > 0 {
            seq![line_selection(lines[lo], start, end, lo)] + selection_between(
                lines,
                start,
                end,
                lo + 1,
                hi,
            )
        } else {
            selection_between(lines, start, end, lo + 1, hi)
        },
    decreases hi - lo,
{
    let first = line_selection(lines[lo], start, end, lo);
    let rest = selection_between(lines, start, end, lo + 1, hi);
    if hi == lo + 1 {
        assert(selection_between(lines, start, end, lo, lo) =~= Seq::empty());
        assert(rest =~= Seq::empty());
        if first.len() > 0 {
            assert(selection_between(lines, start, end, lo, hi) =~= seq![first] + rest);
        }
    } else {
        lemma_selection_peel(lines, start, end, lo, hi - 1);
        let last = line_selection(lines[hi - 1], start, end, hi - 1);
        let rest_before = selection_between(lines, start, end, lo + 1, hi - 1);
        if first.len() > 0 {
            if last.len() > 0 {
                assert((seq![first] + rest_before).push(last) =~= seq![first] + rest_before.push(
                    last,
                ));
            }
        }
    }
}

/// Yields the rectangle of each selected character of one line.
pub struct SelectedRects<'a> {
    /// The rectangles of the line, of which those before the selection were
    /// yielded already.
    pub rects: Rects<'a>,
    /// The character at which the selection ends in this line.
    pub end_char_idx: usize,
}

impl<'a> SelectedRects<'a> {
    /// The rectangles of the line are in order.
    pub open spec fn wf(&self) -> bool {
        self.rects.wf()
    }

    /// The rectangles that are still to come.
    pub open spec fn remaining(&self) -> Seq<Rectangle> {
        let count = self.rects.glyphs@.len() as int;
        let to = if self.end_char_idx < count {
            self.end_char_idx as int
        } else {
            count
        };
        if self.rects.pos < to {
            char_rects_of(self.rects.rect, self.rects.glyphs@).subrange(self.rects.pos as int, to)
        } else {
            Seq::empty()
        }
    }

    /// The rectangle of the next selected character, or `None` behind the
    /// last one.
    pub fn next(&mut self) -> (r: Option<Rectangle>)
        requires
            old(self).wf(),
        ensures
            final(self).wf(),
            final(self).end_char_idx == old(self).end_char_idx,
            final(self).rects.rect == old(self).rects.rect,
            final(self).rects.glyphs == old(self).rects.glyphs,
            old(self).remaining().len() == 0 ==> r is None && *final(self) == *old(self),
            old(self).remaining().len() > 0 ==> {
                &&& r == Some(old(self).remaining()[0])
                &&& final(self).rects.pos == old(self).rects.pos + 1
                &&& final(self).remaining() == old(self).remaining().skip(1)
            },
    {
        if self.rects.pos >= self.end_char_idx {
            return None;
        }
        let r = self.rects.next();
        proof {
            if old(self).remaining().len() > 0 {
                assert(final(self).remaining() =~= old(self).remaining().skip(1));
            }
        }
        r
    }

    /// All rectangles that are still to come.
    pub fn collect(self) -> (out: Vec<Rectangle>)
        requires
            self.wf(),
        ensures
            out@ == self.remaining(),
    {
        let mut it = self;
        let mut out: Vec<Rectangle> = Vec::new();
        let mut done: bool = false;
        while !done
            invariant
                it.wf(),
                it.end_char_idx == self.end_char_idx,
                it.rects.rect == self.rects.rect,
                it.rects.glyphs == self.rects.glyphs,
                out@ + it.remaining() == self.remaining(),
                done ==> it.remaining().len() == 0,
            decreases it.remaining().len() + if done { 0int } else { 1int },
        {
            let ghost before = it.remaining();
            match it.next() {
                Some(rect) => {
                    out.push(rect);
                    proof {
                        assert(out@ + it.remaining() =~= out@.drop_last() + before);
                    }
                },
                None => {
                    done = true;
                },
            }
        }
        proof {
            assert(out@ + it.remaining() =~= out@);
        }
        out
    }
}

/// For every line that holds a selected character, yields the rectangles of
/// the selected characters of that line. Lines without a selected character
/// are left out.
pub struct SelectedRectsPerLine<'a> {
    /// The glyphs and the rectangle of each line.
    pub lines_with_rects: &'a Vec<LineGlyphs>,
    /// The number of lines that were looked at.
    pub pos: usize,
    /// Where the selection starts.
    pub start_cursor_idx: Index,
    /// Where the selection ends.
    pub end_cursor_idx: Index,
}

/// Produces, for every line that holds a character of the selection from
/// `start` to `end`, the rectangles of its selected characters.
pub fn selected_rects_per_line<'a>(
    lines_with_rects: &'a Vec<LineGlyphs>,
    start: Index,
    end: Index,
) -> (r: SelectedRectsPerLine<'a>)
    ensures
        r.wf(),
        r.lines_with_rects == lines_with_rects,
        r.pos == 0,
        r.start_cursor_idx == start,
        r.end_cursor_idx == end,
        r.remaining() == selection(lines_with_rects@, start, end),
{
    SelectedRectsPerLine {
        lines_with_rects,
        pos: 0,
        start_cursor_idx: start,
        end_cursor_idx: end,
    }
}

impl<'a> SelectedRectsPerLine<'a> {
    /// No more lines were looked at than there are.
    pub open spec fn wf(&self) -> bool {
        self.pos <= self.lines_with_rects@.len()
    }

    /// The selections of the lines that are still to come.
    pub open spec fn remaining(&self) -> Seq<Seq<Rectangle>> {
        selection_between(
            self.lines_with_rects@,
            self.start_cursor_idx,
            self.end_cursor_idx,
            self.pos as int,
            self.lines_with_rects@.len() as int,
        )
    }

    /// The selected rectangles of the next line that holds a selected
    /// character, or `None` if no such line is left.
    pub fn next(&mut self) -> (r: Option<SelectedRects<'a>>)
        requires
            old(self).wf(),
        ensures
            final(self).wf(),
            final(self).lines_with_rects == old(self).lines_with_rects,
            final(self).start_cursor_idx == old(self).start_cursor_idx,
            final(self).end_cursor_idx == old(self).end_cursor_idx,
            old(self).pos <= final(self).pos,
            old(self).remaining().len() == 0 ==> r is None && final(self).remaining().len() == 0,
            old(self).remaining().len() > 0 ==> {
                &&& r is Some
                &&& r->0.wf()
                &&& r->0.remaining() == old(self).remaining()[0]
                &&& old(self).pos < final(self).pos
                &&& final(self).remaining() == old(self).remaining().skip(1)
            },
    {
        let lines: &'a Vec<LineGlyphs> = self.lines_with_rects;
        let start = self.start_cursor_idx;
        let end = self.end_cursor_idx;
        while self.pos < lines.len()
            invariant
                self.wf(),
                self.lines_with_rects == lines,
                lines == old(self).lines_with_rects,
                self.start_cursor_idx == start,
                self.end_cursor_idx == end,
                start == old(self).start_cursor_idx,
                end == old(self).end_cursor_idx,
                old(self).pos <= self.pos,
                self.remaining() == old(self).remaining(),
            decreases lines@.len() - self.pos,
        {
            let i: usize = self.pos;
            let line = &lines[i];
            let count: usize = line.glyphs.len();
            let from: usize = if i == start.line {
                start.char
            } else {
                0
            };
            let to: usize = if i < start.line || i > end.line {
                0
            } else if i == end.line && end.char < count {
                end.char
            } else {
                count
            };
            proof {
                lemma_selection_peel(lines@, start, end, i as int, lines@.len() as int);
            }
            self.pos = i + 1;
            if from < to {
                let mut rects = Rects::new(line.rect, &line.glyphs);
                while rects.pos < from
                    invariant
                        rects.wf(),
                        rects.rect == line.rect,
                        rects.glyphs == &line.glyphs,
                        rects.pos <= from < to <= count,
                        count == line.glyphs@.len(),
                    decreases from - rects.pos,
                {
                    rects.next();
                }
                let selected = SelectedRects { rects, end_char_idx: to };
                proof {
                    let here = line_selection(lines@[i as int], start, end, i as int);
                    let rest = selection_between(lines@, start, end, i + 1, lines@.len() as int);
                    assert(selected.remaining() == here);
                    assert((seq![here] + rest)[0] == here);
                    assert((seq![here] + rest).skip(1) =~= rest);
                }
                return Some(selected);
            }
        }
        None
    }

    /// The selections of all lines that are still to come.
    pub fn collect(self) -> (out: Vec<Vec<Rectangle>>)
        requires
            self.wf(),
        ensures
            out@.map_values(|v: Vec<Rectangle>| v@) == self.remaining(),
    {
        let mut it = self;
        let mut out: Vec<Vec<Rectangle>> = Vec::new();
        let mut done: bool = false;
        while !done
            invariant
                it.wf(),
                it.lines_with_rects == self.lines_with_rects,
                it.start_cursor_idx == self.start_cursor_idx,
                it.end_cursor_idx == self.end_cursor_idx,
                out@.map_values(|v: Vec<Rectangle>| v@) + it.remaining() == self.remaining(),
                done ==> it.remaining().len() == 0,
            decreases it.lines_with_rects@.len() - it.pos + if done { 0int } else { 1int },
        {
            let ghost before = it.remaining();
            let ghost views = out@.map_values(|v: Vec<Rectangle>| v@);
            match it.next() {
                Some(line) => {
                    let rects = line.collect();
                    out.push(rects);
                    proof {
                        assert(out@.map_values(|v: Vec<Rectangle>| v@) =~= views.push(before[0]));
                        assert(views.push(before[0]) + before.skip(1) =~= views + before);
                    }
                },
                None => {
                    done = true;
                },
            }
        }
        proof {
            assert(out@.map_values(|v: Vec<Rectangle>| v@) + it.remaining() =~= out@.map_values(
                |v: Vec<Rectangle>| v@,
            ));
        }
        out
    }
}

/// A selection that ends where it starts covers no character, so it yields
/// no rectangle and no line.
pub proof fn lemma_empty_selection(lines: Seq<LineGlyphs>, at: Index)
    ensures
        selection(lines, at, at).len() == 0,
{
    lemma_empty_selection_between(lines, at, 0, lines.len() as int);
}

proof fn lemma_empty_selection_between(lines: Seq<LineGlyphs>, at: Index, lo: int, hi: int)
    ensures
        selection_between(lines, at, at, lo, hi).len() == 0,
    decreases hi - lo,
{
    if lo < hi {
        lemma_empty_selection_between(lines, at, lo, hi - 1);
    }
}

/// Every rectangle of a line's selection is the rectangle of a selected
/// character of that line.
pub proof fn lemma_line_selection_selected(
    glyphs: LineGlyphs,
    start: Index,
    end: Index,
    line: int,
    j: int,
)
    requires
        0 <= line,
        0 <= j < line_selection(glyphs, start, end, line).len(),
    ensures
        is_selected(start, end, line, selection_from(start, line) + j),
        selection_from(start, line) + j < glyphs.glyphs@.len(),
        line_selection(glyphs, start, end, line)[j] == char_rect(
            glyphs.rect,
            glyphs.glyphs@,
            selection_from(start, line) + j,
        ),
{
}

/// Within a line, the character rectangles of a selection tile its extent:
/// each one ends where the next one starts.
pub proof fn lemma_line_selection_abuts(
    glyphs: LineGlyphs,
    start: Index,
    end: Index,
    line: int,
    j: int,
)
    requires
        0 <= line,
        0 <= j,
        j + 1 < line_selection(glyphs, start, end, line).len(),
    ensures
        line_selection(glyphs, start, end, line)[j].spec_right() == line_selection(
            glyphs,
            start,
            end,
            line,
        )[j + 1].left,
{
    lemma_line_selection_selected(glyphs, start, end, line, j);
    lemma_line_selection_selected(glyphs, start, end, line, j + 1);
    lemma_char_rects_abut(glyphs.rect, glyphs.glyphs@, selection_from(start, line) + j);
}

/// Whether `a` comes before `b` in the text, or is `b`.
pub open spec fn index_le(a: Index, b: Index) -> bool {
    a.line < b.line || (a.line == b.line && a.char <= b.char)
}

/// Two selections of which the first ends before the second starts have no
/// character in common.
pub proof fn lemma_selections_disjoint(
    start1: Index,
    end1: Index,
    start2: Index,
    end2: Index,
    line: int,
    k: int,
)
    requires
        index_le(end1, start2),
    ensures
        !(is_selected(start1, end1, line, k) && is_selected(start2, end2, line, k)),
{
}

/// Of two selections of which the first ends before the second starts, no
/// rectangle of the first overlaps one of the second in the same line: the
/// one ends where the other starts, or left of it.
pub proof fn lemma_selections_apart(
    glyphs: LineGlyphs,
    start1: Index,
    end1: Index,
    start2: Index,
    end2: Index,
    line: int,
    j1: int,
    j2: int,
)
    requires
        index_le(end1, start2),
        0 <= line,
        0 <= j1 < line_selection(glyphs, start1, end1, line).len(),
        0 <= j2 < line_selection(glyphs, start2, end2, line).len(),
    ensures
        line_selection(glyphs, start1, end1, line)[j1].spec_right() <= line_selection(
            glyphs,
            start2,
            end2,
            line,
        )[j2].left,
{
    lemma_line_selection_selected(glyphs, start1, end1, line, j1);
    lemma_line_selection_selected(glyphs, start2, end2, line, j2);
    let k1 = selection_from(start1, line) + j1;
    let k2 = selection_from(start2, line) + j2;
    assert(k1 < k2);
    lemma_char_rects_apart(glyphs.rect, glyphs.glyphs@, k1, k2);
}

/// Two rectangles share no area: one ends where the other starts, or before
/// it, along x or along y.
pub open spec fn apart(a: Rectangle, b: Rectangle) -> bool {
    ||| a.spec_right() <= b.left
    ||| b.spec_right() <= a.left
    ||| a.spec_bottom() <= b.top
    ||| b.spec_bottom() <= a.top
}

/// Each line lies above the lines that follow it.
pub open spec fn lines_stacked(lines: Seq<LineGlyphs>) -> bool {
    forall|a: int, b: int|
        0 <= a < b < lines.len() ==> (#[trigger] lines[a]).rect.spec_bottom() <= (#[trigger] lines[b]).rect.top
}

/// Of two selections of which the first ends before the second starts, no
/// rectangle of the first overlaps a rectangle of the second, in lines that
/// do not overlap each other.
pub proof fn lemma_selected_rects_apart(
    lines: Seq<LineGlyphs>,
    start1: Index,
    end1: Index,
    start2: Index,
    end2: Index,
    line1: int,
    j1: int,
    line2: int,
    j2: int,
)
    requires
        index_le(end1, start2),
        lines_stacked(lines),
        0 <= line1 < lines.len(),
        0 <= line2 < lines.len(),
        0 <= j1 < line_selection(lines[line1], start1, end1, line1).len(),
        0 <= j2 < line_selection(lines[line2], start2, end2, line2).len(),
    ensures
        apart(
            line_selection(lines[line1], start1, end1, line1)[j1],
            line_selection(lines[line2], start2, end2, line2)[j2],
        ),
{
    lemma_line_selection_selected(lines[line1], start1, end1, line1, j1);
    lemma_line_selection_selected(lines[line2], start2, end2, line2, j2);
    if line1 == line2 {
        lemma_selections_apart(lines[line1], start1, end1, start2, end2, line1, j1, j2);
    } else {
        assert(line1 < line2);
        assert(lines[line1].rect.spec_bottom() <= lines[line2].rect.top);
    }
}

} // verus!
