use limn_core::drawable::{line_height, TextDrawable, TextStyleField};
use limn_core::geometry::{layout_lines, Align, Dimensions, Range, Rectangle};
use limn_core::layout::{
    cached, get_line_rects, get_positioned_glyphs, get_text_dimensions, get_text_height,
    glyph_runs, GlyphRun,
};
use limn_core::line::{break_lines, ByteRange, LineInfo, Wrap};
use limn_core::text::{MeasuredChar, MeasuredText};

fn measured(text: &str, advance: u32) -> MeasuredText {
    let chars: Vec<MeasuredChar> = text.chars().map(|ch| MeasuredChar { ch, advance }).collect();
    MeasuredText::new(chars).unwrap()
}

fn of_width(width: u64) -> LineInfo {
    LineInfo { start_char: 0, end_char: 0, next_char: 0, start_byte: 0, end_byte: 0, width }
}

fn rect(left: i64, top: i64, width: u64, height: u64) -> Rectangle {
    Rectangle { left, top, width, height }
}

#[test]
fn lines_align_along_x_by_their_own_width() {
    let lines = vec![of_width(100), of_width(40), of_width(70)];
    let bounds = rect(10, 20, 100, 300);
    let start = layout_lines(&lines, bounds, Align::Start, Align::Start, 25);
    assert_eq!(start, vec![rect(10, 20, 100, 25), rect(10, 45, 40, 25), rect(10, 70, 70, 25)]);
    let middle = layout_lines(&lines, bounds, Align::Middle, Align::Start, 25);
    assert_eq!(middle, vec![rect(10, 20, 100, 25), rect(40, 45, 40, 25), rect(25, 70, 70, 25)]);
    let end = layout_lines(&lines, bounds, Align::End, Align::Start, 25);
    assert_eq!(end, vec![rect(10, 20, 100, 25), rect(70, 45, 40, 25), rect(40, 70, 70, 25)]);
}

#[test]
fn the_block_of_lines_aligns_along_y() {
    let lines = vec![of_width(10), of_width(10)];
    let bounds = rect(0, 100, 50, 90);
    let start = layout_lines(&lines, bounds, Align::Start, Align::Start, 20);
    assert_eq!(start, vec![rect(0, 100, 10, 20), rect(0, 120, 10, 20)]);
    let middle = layout_lines(&lines, bounds, Align::Start, Align::Middle, 20);
    assert_eq!(middle, vec![rect(0, 125, 10, 20), rect(0, 145, 10, 20)]);
    let end = layout_lines(&lines, bounds, Align::Start, Align::End, 20);
    assert_eq!(end, vec![rect(0, 150, 10, 20), rect(0, 170, 10, 20)]);
}

#[test]
fn a_line_wider_than_its_bounds_is_still_aligned() {
    let lines = vec![of_width(130)];
    let bounds = rect(0, 0, 100, 10);
    assert_eq!(layout_lines(&lines, bounds, Align::Middle, Align::Middle, 30), vec![rect(-15, -10, 130, 30)]);
    assert_eq!(layout_lines(&lines, bounds, Align::End, Align::End, 30), vec![rect(-30, -20, 130, 30)]);
    let odd = vec![of_width(105)];
    assert_eq!(layout_lines(&odd, bounds, Align::Middle, Align::Start, 5), vec![rect(-2, 0, 105, 5)]);
}

#[test]
fn positions_saturate() {
    let lines = vec![of_width(0), of_width(u64::MAX)];
    let bounds = rect(i64::MAX - 5, i64::MAX - 5, 100, 0);
    let rects = layout_lines(&lines, bounds, Align::End, Align::Start, 10);
    assert_eq!(rects[0], rect(i64::MAX, i64::MAX - 5, 0, 10));
    assert_eq!(rects[1], rect(i64::MIN + 95, i64::MAX, u64::MAX, 10));
    let low = layout_lines(&vec![of_width(100)], rect(i64::MIN + 10, i64::MIN, 0, 0), Align::End, Align::End, 7);
    assert_eq!(low, vec![rect(i64::MIN, i64::MIN, 100, 7)]);
}

#[test]
fn no_lines_give_no_rectangles() {
    let lines: Vec<LineInfo> = Vec::new();
    assert_eq!(layout_lines(&lines, rect(0, 0, 10, 10), Align::Middle, Align::Middle, 10), Vec::new());
}

#[test]
fn there_is_one_rectangle_for_each_line() {
    let texts = ["", "one", "one two three four five", "a\nb\nc\n", "wrap me please, at every width"];
    for text in texts {
        for width in [0u64, 30, 60, 200] {
            for wrap in [Wrap::NoWrap, Wrap::Character, Wrap::Whitespace] {
                let m = measured(text, 10);
                let infos = break_lines(&m, width, wrap);
                let bounds = rect(5, 5, width, 100);
                let rects = get_line_rects(&m, bounds, 12, wrap, Align::Middle, Align::End);
                assert_eq!(rects.len(), infos.len());
                assert_eq!(rects, layout_lines(&infos, bounds, Align::Middle, Align::End, 12));
            }
        }
    }
}

#[test]
fn ranges_of_a_rectangle() {
    let r = rect(-5, 10, 20, 30);
    assert_eq!(r.x_range(), Range { start: -5, end: 15 });
    assert_eq!(r.y_range(), Range { start: 10, end: 40 });
    assert_eq!(Rectangle::from_ranges(r.x_range(), r.y_range()), r);
    let far = rect(i64::MAX - 1, 0, 10, 0);
    assert_eq!(far.x_range(), Range { start: i64::MAX - 1, end: i64::MAX });
    let backwards = Rectangle::from_ranges(Range { start: 5, end: 1 }, Range { start: i64::MIN, end: i64::MAX });
    assert_eq!(backwards, rect(5, i64::MIN, 0, u64::MAX));
}

#[test]
fn text_dimensions_are_the_widest_line_and_all_lines() {
    let m = measured("one\nthree\n\nsix", 10);
    assert_eq!(get_text_dimensions(&m, 25, Wrap::Whitespace), Dimensions { width: 50, height: 100 });
    assert_eq!(get_text_dimensions(&m, 25, Wrap::NoWrap), Dimensions { width: 50, height: 100 });
    let long = measured("no break in here at all", 10);
    assert_eq!(get_text_dimensions(&long, 7, Wrap::Character), Dimensions { width: 230, height: 7 });
    assert_eq!(get_text_dimensions(&measured("", 10), 9, Wrap::Whitespace), Dimensions { width: 0, height: 9 });
}

#[test]
fn text_height_counts_the_wrapped_lines() {
    let m = measured("The quick brown fox", 10);
    assert_eq!(get_text_height(&m, 25, Wrap::Whitespace, 90), 50);
    assert_eq!(get_text_height(&m, 25, Wrap::Whitespace, 50), 100);
    assert_eq!(get_text_height(&m, 25, Wrap::NoWrap, 50), 25);
    assert_eq!(get_text_height(&m, 0, Wrap::Character, 10), 0);
    assert_eq!(get_text_height(&m, 3, Wrap::Character, 10), 57);
}

#[test]
fn glyph_runs_start_one_font_size_below_the_top() {
    let infos = vec![
        LineInfo { start_char: 0, end_char: 3, next_char: 4, start_byte: 0, end_byte: 4, width: 30 },
        LineInfo { start_char: 4, end_char: 6, next_char: 6, start_byte: 4, end_byte: 6, width: 20 },
    ];
    let rects = vec![rect(10, 100, 30, 25), rect(15, 125, 20, 25)];
    let runs = glyph_runs(&infos, &rects, 20);
    assert_eq!(
        runs,
        vec![
            GlyphRun { bytes: ByteRange { start: 0, end: 4 }, x: 10, y: 120 },
            GlyphRun { bytes: ByteRange { start: 4, end: 6 }, x: 15, y: 145 },
        ]
    );
    assert_eq!(glyph_runs(&infos, &rects[..1].to_vec(), 20).len(), 1);
    assert_eq!(glyph_runs(&infos[..1].to_vec(), &rects, 20).len(), 1);
    let low = vec![rect(0, i64::MAX - 3, 0, 0)];
    assert_eq!(glyph_runs(&infos, &low, 20)[0].y, i64::MAX);
}

#[test]
fn positioned_glyphs_follow_the_lines() {
    let m = measured("The quick brown fox", 10);
    let bounds = rect(0, 0, 100, 100);
    let runs = get_positioned_glyphs(&m, bounds, 16, 20, Wrap::Whitespace, Align::Middle, Align::Middle);
    assert_eq!(
        runs,
        vec![
            GlyphRun { bytes: ByteRange { start: 0, end: 10 }, x: 5, y: 30 + 16 },
            GlyphRun { bytes: ByteRange { start: 10, end: 19 }, x: 5, y: 50 + 16 },
        ]
    );
}

#[test]
fn glyphs_without_a_cached_rectangle_are_skipped() {
    let found = vec![Some(1), None, Some(3), None, None, Some(6)];
    assert_eq!(cached(&found), vec![1, 3, 6]);
    let none: Vec<Option<u8>> = vec![None, None];
    assert_eq!(cached(&none), Vec::<u8>::new());
}

#[test]
fn line_height_is_a_quarter_more_than_the_font_size() {
    assert_eq!(line_height(20), 25);
    assert_eq!(line_height(0), 0);
    assert_eq!(line_height(7), 8);
    assert_eq!(line_height(u32::MAX), u32::MAX);
}

#[test]
fn default_text_drawable() {
    let d = TextDrawable::new();
    assert_eq!(d.text.len(), 0);
    assert_eq!(d.font_id, 0);
    assert_eq!(d.font_size, 20);
    assert_eq!(d.wrap, Wrap::Whitespace);
    assert_eq!(d.align, Align::Start);
    assert_eq!(d.vertical_align, Align::Middle);
    assert_eq!(d.measure(), Dimensions { width: 0, height: 25 });
    let e = TextDrawable::default();
    assert_eq!(e.font_size, 20);
}

#[test]
fn text_drawable_measures_and_fits() {
    let mut d = TextDrawable::new();
    TextStyleField::Text(measured("one\nthree", 10)).apply(&mut d);
    assert_eq!(d.measure(), Dimensions { width: 50, height: 50 });
    let text = measured("The quick brown fox", 10);
    assert!(d.text_fits(&text, rect(0, 0, 90, 51)));
    assert!(!d.text_fits(&text, rect(0, 0, 90, 50)));
    assert!(!d.text_fits(&text, rect(0, 0, 50, 99)));
}

#[test]
fn style_fields_set_one_setting() {
    let mut d = TextDrawable::new();
    TextStyleField::FontId(3).apply(&mut d);
    assert_eq!((d.font_id, d.font_size), (3, 20));
    TextStyleField::FontSize(40).apply(&mut d);
    assert_eq!((d.font_id, d.font_size), (3, 40));
    TextStyleField::Wrap(Wrap::Character).apply(&mut d);
    assert_eq!(d.wrap, Wrap::Character);
    TextStyleField::Align(Align::End).apply(&mut d);
    assert_eq!((d.align, d.vertical_align), (Align::End, Align::Middle));
    TextStyleField::Text(measured("hi", 5)).apply(&mut d);
    assert_eq!(d.text.len(), 2);
    assert_eq!(d.font_size, 40);
}

#[test]
fn a_copy_of_a_text_holds_the_same_characters() {
    let m = measured("héllo\n", 9);
    let copy = m.duplicate();
    assert_eq!(copy.chars, m.chars);
    assert_eq!(measured("", 1).duplicate().len(), 0);
}

#[test]
fn a_style_field_can_be_applied_again() {
    let field = TextStyleField::Text(measured("twice", 5));
    let mut a = TextDrawable::new();
    let mut b = TextDrawable::new();
    field.apply(&mut a);
    field.apply(&mut b);
    assert_eq!(a.text.chars, b.text.chars);
    assert_eq!(a.text.len(), 5);
}
