//! Measuring a text and laying it out inside a rectangle.

use crate::geometry::{
    block_height, clamp, clamp_exec, clamp_extent, is_line_rects, layout_lines, line_rect, Align,
    Dimensions, Rectangle,
};
use crate::line::{break_lines, is_layout, ByteRange, LineInfo, Wrap};
use crate::text::MeasuredText;
use vstd::prelude::*;

verus! {

/// `width` is the width of the widest line.
pub open spec fn is_widest(lines: Seq<LineInfo>, width: u64) -> bool {
    &&& forall|i: int| 0 <= i < lines.len() ==> (#[trigger] lines[i]).width <= width
    &&& exists|i: int| 0 <= i < lines.len() && (#[trigger] lines[i]).width == width
}

fn widest(lines: &Vec<LineInfo>) -> (width: u64)
    requires
        lines@.len() >= 1,
    ensures
        is_widest(lines@, width),
{
    let mut width: u64 = lines[0].width;
    let mut i: usize = 1;
    while i < lines.len()
        invariant
            1 <= i <= lines@.len(),
            forall|k: int| 0 <= k < i ==> (#[trigger] lines@[k]).width <= width,
            exists|k: int| 0 <= k < i && (#[trigger] lines@[k]).width == width,
        decreases lines@.len() - i,
    {
        if lines[i].width > width {
            width = lines[i].width;
        }
        i = i + 1;
    }
    width
}

fn lines_height(count: usize, line_height: u32) -> (height: u64)
    ensures
        height == clamp_extent(count * line_height),
{
    let exact: i128 = block_height(count, line_height);
    if exact > 0xFFFF_FFFF_FFFF_FFFFi128 {
        u64::MAX
    } else {
        exact as u64
    }
}

/// The size of a text that is broken at line feeds, and by the wrap policy
/// only where a line would not fit in the largest width there is: the width
/// of its widest line, and the height of all its lines, which saturates.
pub fn get_text_dimensions(text: &MeasuredText, line_height: u32, wrap: Wrap) -> (dim: Dimensions)
    requires
        text.wf(),
    ensures
        exists|lines: Seq<LineInfo>|
            {
                &&& #[trigger] is_layout(text@, u64::MAX as int, wrap, lines)
                &&& is_widest(lines, dim.width)
                &&& dim.height == clamp_extent(lines.len() * line_height)
            },
{
    let lines = break_lines(text, u64::MAX, wrap);
    Dimensions { width: widest(&lines), height: lines_height(lines.len(), line_height) }
}

/// The height of a text that is wrapped at `width`: the height of all its
/// lines, which saturates.
pub fn get_text_height(text: &MeasuredText, line_height: u32, wrap: Wrap, width: u64) -> (height:
    u64)
    requires
        text.wf(),
    ensures
        exists|lines: Seq<LineInfo>|
            {
                &&& #[trigger] is_layout(text@, width as int, wrap, lines)
                &&& height == clamp_extent(lines.len() * line_height)
            },
{
    let lines = break_lines(text, width, wrap);
    lines_height(lines.len(), line_height)
}

/// The rectangle of each line of a text that is wrapped at the width of
/// `rect` and aligned inside it. There are as many rectangles as lines.
pub fn get_line_rects(
    text: &MeasuredText,
    rect: Rectangle,
    line_height: u32,
    line_wrap: Wrap,
    x_align: Align,
    y_align: Align,
) -> (rects: Vec<Rectangle>)
    requires
        text.wf(),
    ensures
        exists|lines: Seq<LineInfo>|
            {
                &&& #[trigger] is_layout(text@, rect.width as int, line_wrap, lines)
                &&& is_line_rects(lines, rect, x_align, y_align, line_height, rects@)
                &&& rects@.len() == lines.len()
            },
{
    let lines = break_lines(text, rect.width, line_wrap);
    layout_lines(&lines, rect, x_align, y_align, line_height)
}

/// What the font is asked to shape for one line: the bytes of the line and
/// the origin of its first glyph.
#[derive(Clone, Copy, Debug, PartialEq, Eq)]
pub struct GlyphRun {
    pub bytes: ByteRange,
    pub x: i64,
    pub y: i64,
}

/// The run of a line: its bytes, shaped from the left edge of its rectangle,
/// on a baseline one font size below the top of the rectangle.
pub open spec fn is_glyph_run(info: LineInfo, rect: Rectangle, font_size: u32, run: GlyphRun) -> bool {
    &&& run.bytes.start == info.start_byte
    &&& run.bytes.end == info.end_byte
    &&& run.x == rect.left
    &&& run.y == clamp(rect.top + font_size)
}

/// The run of each line that has a rectangle, in the order of the lines.
pub fn glyph_runs(lines: &Vec<LineInfo>, rects: &Vec<Rectangle>, font_size: u32) -> (runs: Vec<
    GlyphRun,
>)
    ensures
        runs@.len() == lines@.len() || runs@.len() == rects@.len(),
        runs@.len() <= lines@.len(),
        runs@.len() <= rects@.len(),
        forall|i: int|
            0 <= i < runs@.len() ==> is_glyph_run(lines@[i], rects@[i], font_size, #[trigger] runs@[i]),
{
    let n: usize = if lines.len() < rects.len() {
        lines.len()
    } else {
        rects.len()
    };
    let mut runs: Vec<GlyphRun> = Vec::new();
    let mut i: usize = 0;
    while i < n
        invariant
            i <= n,
            n <= lines@.len(),
            n <= rects@.len(),
            runs@.len() == i,
            forall|k: int|
                0 <= k < i ==> is_glyph_run(lines@[k], rects@[k], font_size, #[trigger] runs@[k]),
        decreases n - i,
    {
        let info = lines[i];
        let rect = rects[i];
        runs.push(
            GlyphRun {
                bytes: info.byte_range(),
                x: rect.left,
                y: clamp_exec(rect.top as i128 + font_size as i128),
            },
        );
        i = i + 1;
    }
    runs
}

/// The runs that position the glyphs of a text: the text is wrapped at the
/// width of `rect`, its lines are aligned inside `rect`, and each line gives
/// one run, in the order of the lines.
pub fn get_positioned_glyphs(
    text: &MeasuredText,
    rect: Rectangle,
    font_size: u32,
    line_height: u32,
    line_wrap: Wrap,
    x_align: Align,
    y_align: Align,
) -> (runs: Vec<GlyphRun>)
    requires
        text.wf(),
    ensures
        exists|lines: Seq<LineInfo>|
            {
                &&& #[trigger] is_layout(text@, rect.width as int, line_wrap, lines)
                &&& runs@.len() == lines.len()
                &&& forall|i: int|
                    0 <= i < runs@.len() ==> is_glyph_run(
                        lines[i],
                        line_rect(
                            rect,
                            x_align,
                            y_align,
                            line_height,
                            lines.len() as int,
                            i,
                            lines[i].width,
                        ),
                        font_size,
                        #[trigger] runs@[i],
                    )
            },
{
    let lines = break_lines(text, rect.width, line_wrap);
    let rects = layout_lines(&lines, rect, x_align, y_align, line_height);
    let runs = glyph_runs(&lines, &rects, font_size);
    proof {
        assert(is_layout(text@, rect.width as int, line_wrap, lines@));
    }
    runs
}

/// The items that are present, in their order: a glyph whose rectangle is not
/// cached yet is left out.
pub fn cached<T: Copy>(found: &Vec<Option<T>>) -> (present: Vec<T>)
    ensures
        present@ == found@.filter_map(|o: Option<T>| o),
{
    let mut present: Vec<T> = Vec::new();
    let mut i: usize = 0;
    while i < found.len()
        invariant
            i <= found@.len(),
            present@ == found@.take(i as int).filter_map(|o: Option<T>| o),
        decreases found@.len() - i,
    {
        proof {
            assert(found@.take(i + 1).drop_last() =~= found@.take(i as int));
        }
        match found[i] {
            Some(item) => {
                present.push(item);
                proof {
                    assert(present@ =~= found@.take(i as int).filter_map(|o: Option<T>| o)
                        + seq![item]);
                }
            },
            None => {},
        }
        i = i + 1;
    }
    proof {
        assert(found@.take(found@.len() as int) =~= found@);
    }
    present
}

} // verus!
