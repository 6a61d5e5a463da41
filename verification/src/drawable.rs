//! A text as a widget draws it: the text with its font, size, wrap policy and
//! alignment.

use crate::geometry::{clamp_extent, Align, Dimensions, Rectangle};
use crate::layout::{get_text_dimensions, get_text_height, is_widest};
use crate::line::{is_layout, LineInfo, Wrap};
use crate::text::{MeasuredChar, MeasuredText};
use vstd::prelude::*;

verus! {

/// The height of a line of text of the given size: a quarter more than the
/// size, rounded down, and no more than a `u32` holds.
pub open spec fn line_height_for(font_size: u32) -> u32 {
    let exact = font_size + font_size / 4;
    if exact > u32::MAX {
        u32::MAX
    } else {
        exact as u32
    }
}

/// The height of a line of text of the given size.
pub fn line_height(font_size: u32) -> (height: u32)
    ensures
        height == line_height_for(font_size),
{
    let quarter: u32 = font_size / 4;
    if quarter > u32::MAX - font_size {
        u32::MAX
    } else {
        font_size + quarter
    }
}

/// A text with the settings by which it is laid out.
pub struct TextDrawable {
    pub text: MeasuredText,
    pub font_id: usize,
    pub font_size: u32,
    pub wrap: Wrap,
    pub align: Align,
    pub vertical_align: Align,
}

/// One setting of a `TextDrawable`.
pub enum TextStyleField {
    Text(MeasuredText),
    FontId(usize),
    FontSize(u32),
    Wrap(Wrap),
    Align(Align),
}

impl Default for TextDrawable {
    /// An empty text in the first font, of size 20, wrapped at whitespace,
    /// aligned at the start of its lines and in the middle of its space.
    fn default() -> (d: Self)
        ensures
            d.wf(),
            d.text@.len() == 0,
            d.font_id == 0,
            d.font_size == 20,
            d.wrap == Wrap::Whitespace,
            d.align == Align::Start,
            d.vertical_align == Align::Middle,
    {
        let chars: Vec<MeasuredChar> = Vec::new();
        TextDrawable {
            text: MeasuredText { chars },
            font_id: 0,
            font_size: 20,
            wrap: Wrap::Whitespace,
            align: Align::Start,
            vertical_align: Align::Middle,
        }
    }
}

impl TextDrawable {
    /// The text can be laid out.
    pub open spec fn wf(&self) -> bool {
        self.text.wf()
    }

    /// An empty text with the default settings.
    pub fn new() -> (d: Self)
        ensures
            d.wf(),
            d.text@.len() == 0,
            d.font_id == 0,
            d.font_size == 20,
            d.wrap == Wrap::Whitespace,
            d.align == Align::Start,
            d.vertical_align == Align::Middle,
    {
        TextDrawable::default()
    }

    /// The size of the text where lines are as wide as they need to be: the
    /// width of its widest line and the height of all its lines.
    pub fn measure(&self) -> (dim: Dimensions)
        requires
            self.wf(),
        ensures
            exists|lines: Seq<LineInfo>|
                {
                    &&& #[trigger] is_layout(self.text@, u64::MAX as int, self.wrap, lines)
                    &&& is_widest(lines, dim.width)
                    &&& dim.height == clamp_extent(lines.len() * line_height_for(self.font_size))
                },
    {
        get_text_dimensions(&self.text, line_height(self.font_size), self.wrap)
    }

    /// Whether `text`, drawn with these settings and wrapped at the width of
    /// `bounds`, is less high than `bounds`.
    pub fn text_fits(&self, text: &MeasuredText, bounds: Rectangle) -> (fits: bool)
        requires
            text.wf(),
        ensures
            exists|lines: Seq<LineInfo>|
                {
                    &&& #[trigger] is_layout(text@, bounds.width as int, self.wrap, lines)
                    &&& fits == (lines.len() * line_height_for(self.font_size) < bounds.height)
                },
    {
        let height = get_text_height(text, line_height(self.font_size), self.wrap, bounds.width);
        height < bounds.height
    }
}

impl TextStyleField {
    /// The setting can be applied: a text can be laid out.
    pub open spec fn wf(&self) -> bool {
        self matches TextStyleField::Text(t) ==> t.wf()
    }

    /// Sets the one setting that the field names, and leaves the others.
    pub fn apply(&self, state: &mut TextDrawable)
        requires
            self.wf(),
            old(state).wf(),
        ensures
            final(state).wf(),
            final(state).text@ == match *self {
                TextStyleField::Text(t) => t@,
                _ => old(state).text@,
            },
            final(state).font_id == match *self {
                TextStyleField::FontId(id) => id,
                _ => old(state).font_id,
            },
            final(state).font_size == match *self {
                TextStyleField::FontSize(size) => size,
                _ => old(state).font_size,
            },
            final(state).wrap == match *self {
                TextStyleField::Wrap(wrap) => wrap,
                _ => old(state).wrap,
            },
            final(state).align == match *self {
                TextStyleField::Align(align) => align,
                _ => old(state).align,
            },
            final(state).vertical_align == old(state).vertical_align,
    {
        match self {
            TextStyleField::Text(t) => {
                state.text = t.duplicate();
            },
            TextStyleField::FontId(id) => {
                state.font_id = *id;
            },
            TextStyleField::FontSize(size) => {
                state.font_size = *size;
            },
            TextStyleField::Wrap(wrap) => {
                state.wrap = *wrap;
            },
            TextStyleField::Align(align) => {
                state.align = *align;
            },
        }
    }
}

} // verus!
