//! Rectangles, alignment, and the rectangle of each line inside a bounding box.
//!
//! Positions saturate at the ends of the `i64` range: a position that cannot
//! be represented is the nearest one that can.

use crate::line::LineInfo;
use vstd::prelude::*;

verus! {

/// Where content sits along one axis of the space that holds it.
#[derive(Clone, Copy, Debug, PartialEq, Eq, Structural)]
pub enum Align {
    Start,
    Middle,
    End,
}

/// An interval along one axis.
#[derive(Clone, Copy, Debug, PartialEq, Eq, Structural)]
pub struct Range {
    pub start: i64,
    pub end: i64,
}

/// A rectangle with its top left corner and its size. The y axis points down.
#[derive(Clone, Copy, Debug, PartialEq, Eq, Structural)]
pub struct Rectangle {
    pub left: i64,
    pub top: i64,
    pub width: u64,
    pub height: u64,
}

/// A size.
#[derive(Clone, Copy, Debug, PartialEq, Eq, Structural)]
pub struct Dimensions {
    pub width: u64,
    pub height: u64,
}

/// The position nearest to `x` that an `i64` holds.
pub open spec fn clamp(x: int) -> i64 {
    if x < i64::MIN {
        i64::MIN
    } else if x > i64::MAX {
        i64::MAX
    } else {
        x as i64
    }
}

/// The extent nearest to `x` that a `u64` holds.
pub open spec fn clamp_extent(x: int) -> u64 {
    if x < 0 {
        0
    } else if x > u64::MAX {
        u64::MAX
    } else {
        x as u64
    }
}

pub(crate) fn clamp_exec(x: i128) -> (r: i64)
    ensures
        r == clamp(x as int),
{
    if x < -0x8000_0000_0000_0000i128 {
        i64::MIN
    } else if x > 0x7FFF_FFFF_FFFF_FFFFi128 {
        i64::MAX
    } else {
        x as i64
    }
}

impl Rectangle {
    /// The right edge.
    pub open spec fn spec_right(&self) -> int {
        self.left + self.width
    }

    /// The bottom edge.
    pub open spec fn spec_bottom(&self) -> int {
        self.top + self.height
    }

    /// The interval that the rectangle covers along the x axis. Its end
    /// saturates.
    pub open spec fn spec_x_range(&self) -> Range {
        Range { start: self.left, end: clamp(self.spec_right()) }
    }

    /// The interval that the rectangle covers along the y axis. Its end
    /// saturates.
    pub open spec fn spec_y_range(&self) -> Range {
        Range { start: self.top, end: clamp(self.spec_bottom()) }
    }

    /// The rectangle that covers `x` along the x axis and `y` along the y
    /// axis. An interval that ends before it starts gives an extent of zero.
    pub open spec fn spec_from_ranges(x: Range, y: Range) -> Rectangle {
        Rectangle {
            left: x.start,
            top: y.start,
            width: clamp_extent(x.end - x.start),
            height: clamp_extent(y.end - y.start),
        }
    }

    /// The interval that the rectangle covers along the x axis.
    pub fn x_range(&self) -> (r: Range)
        ensures
            r == self.spec_x_range(),
    {
        Range { start: self.left, end: clamp_exec(self.left as i128 + self.width as i128) }
    }

    /// The interval that the rectangle covers along the y axis.
    pub fn y_range(&self) -> (r: Range)
        ensures
            r == self.spec_y_range(),
    {
        Range { start: self.top, end: clamp_exec(self.top as i128 + self.height as i128) }
    }

    /// The rectangle that covers `x` along the x axis and `y` along the y
    /// axis.
    pub fn from_ranges(x: Range, y: Range) -> (r: Rectangle)
        ensures
            r == Rectangle::spec_from_ranges(x, y),
    {
        Rectangle { left: x.start, top: y.start, width: extent(x), height: extent(y) }
    }
}

fn extent(r: Range) -> (n: u64)
    ensures
        n == clamp_extent(r.end - r.start),
{
    if r.end <= r.start {
        0
    } else {
        (r.end as i128 - r.start as i128) as u64
    }
}

/// A rectangle whose right and bottom edges can be represented is taken apart
/// into its two intervals and put together from them again without a change.
pub proof fn lemma_ranges_rebuild_rectangle(r: Rectangle)
    requires
        r.spec_right() <= i64::MAX,
        r.spec_bottom() <= i64::MAX,
    ensures
        Rectangle::spec_from_ranges(r.spec_x_range(), r.spec_y_range()) == r,
{
}

/// Half of a distance, rounded towards zero.
pub open spec fn half(d: int) -> int {
    if d >= 0 {
        d / 2
    } else {
        -((-d) / 2)
    }
}

/// How far content of extent `inner` is moved from the start of a space of
/// extent `outer` to be aligned in it.
pub open spec fn align_offset(align: Align, outer: int, inner: int) -> int {
    match align {
        Align::Start => 0,
        Align::Middle => half(outer - inner),
        Align::End => outer - inner,
    }
}

/// The rectangle of line `i` out of `count` lines: aligned along x by its own
/// width, and along y as part of the block of all lines.
pub open spec fn line_rect(
    bounds: Rectangle,
    x_align: Align,
    y_align: Align,
    line_height: u32,
    count: int,
    i: int,
    width: u64,
) -> Rectangle {
    Rectangle {
        left: clamp(bounds.left + align_offset(x_align, bounds.width as int, width as int)),
        top: clamp(
            bounds.top + align_offset(y_align, bounds.height as int, count * line_height) + i
                * line_height,
        ),
        width,
        height: line_height as u64,
    }
}

/// `rects` holds the rectangle of each line, in the order of the lines.
pub open spec fn is_line_rects(
    lines: Seq<LineInfo>,
    bounds: Rectangle,
    x_align: Align,
    y_align: Align,
    line_height: u32,
    rects: Seq<Rectangle>,
) -> bool {
    &&& rects.len() == lines.len()
    &&& forall|i: int|
        0 <= i < rects.len() ==> #[trigger] rects[i] == line_rect(
            bounds,
            x_align,
            y_align,
            line_height,
            lines.len() as int,
            i,
            lines[i].width,
        )
}

/// Where no position saturates, the lines are stacked: each rectangle ends
/// along y where the next one starts, so no two of them overlap.
pub proof fn lemma_line_rects_stack(
    bounds: Rectangle,
    x_align: Align,
    y_align: Align,
    line_height: u32,
    count: int,
    i: int,
    width: u64,
    next_width: u64,
)
    requires
        0 <= i,
        i + 1 < count,
        i64::MIN <= bounds.top + align_offset(y_align, bounds.height as int, count * line_height),
        bounds.top + align_offset(y_align, bounds.height as int, count * line_height) + count
            * line_height <= i64::MAX,
    ensures
        line_rect(bounds, x_align, y_align, line_height, count, i, width).spec_bottom()
            == line_rect(bounds, x_align, y_align, line_height, count, i + 1, next_width).top,
{
    assert((i + 1) * line_height == i * line_height + line_height) by (nonlinear_arith);
    assert(0 <= i * line_height && (i + 1) * line_height <= count * line_height)
        by (nonlinear_arith)
        requires
            0 <= i,
            i + 1 <= count,
            0 <= line_height,
    ;
}

/// The height of `count` lines, which is below 2^96.
pub(crate) fn block_height(count: usize, line_height: u32) -> (r: i128)
    ensures
        r == count * line_height,
        0 <= r <= 0xFFFF_FFFF_FFFF_FFFF * 0xFFFF_FFFF,
{
    assert(0 <= count * line_height <= 0xFFFF_FFFF_FFFF_FFFF * 0xFFFF_FFFF) by (nonlinear_arith)
        requires
            0 <= count <= 0xFFFF_FFFF_FFFF_FFFF,
            0 <= line_height <= 0xFFFF_FFFF,
    ;
    (count as i128) * (line_height as i128)
}

fn offset_exec(align: Align, outer: u64, inner: i128) -> (r: i128)
    requires
        0 <= inner <= 0xFFFF_FFFF_FFFF_FFFF * 0xFFFF_FFFF,
    ensures
        r == align_offset(align, outer as int, inner as int),
        -0xFFFF_FFFF_FFFF_FFFF * 0xFFFF_FFFF <= r <= 0xFFFF_FFFF_FFFF_FFFF,
{
    let d: i128 = outer as i128 - inner;
    match align {
        Align::Start => 0,
        Align::Middle => {
            if d >= 0 {
                d / 2
            } else {
                -((-d) / 2)
            }
        },
        Align::End => d,
    }
}

/// Gives each line its rectangle inside `bounds`. Each line is aligned along x
/// by its own width; the block of all lines, each `line_height` high, is
/// aligned along y.
pub fn layout_lines(
    lines: &Vec<LineInfo>,
    bounds: Rectangle,
    x_align: Align,
    y_align: Align,
    line_height: u32,
) -> (rects: Vec<Rectangle>)
    ensures
        is_line_rects(lines@, bounds, x_align, y_align, line_height, rects@),
{
    let n: usize = lines.len();
    let block: i128 = block_height(n, line_height);
    let first_top: i128 = bounds.top as i128 + offset_exec(y_align, bounds.height, block);
    let mut rects: Vec<Rectangle> = Vec::new();
    let mut i: usize = 0;
    while i < n
        invariant
            n == lines@.len(),
            i <= n,
            rects@.len() == i,
            first_top == bounds.top + align_offset(
                y_align,
                bounds.height as int,
                n * line_height,
            ),
            -0x8000_0000_0000_0000 - 0xFFFF_FFFF_FFFF_FFFF * 0xFFFF_FFFF <= first_top
                <= 0x7FFF_FFFF_FFFF_FFFF + 0xFFFF_FFFF_FFFF_FFFF,
            forall|k: int|
                0 <= k < i ==> #[trigger] rects@[k] == line_rect(
                    bounds,
                    x_align,
                    y_align,
                    line_height,
                    n as int,
                    k,
                    lines@[k].width,
                ),
        decreases n - i,
    {
        let width: u64 = lines[i].width;
        let left: i128 = bounds.left as i128 + offset_exec(x_align, bounds.width, width as i128);
        let top: i128 = first_top + block_height(i, line_height);
        rects.push(
            Rectangle {
                left: clamp_exec(left),
                top: clamp_exec(top),
                width,
                height: line_height as u64,
            },
        );
        i = i + 1;
    }
    rects
}

} // verus!
