use limn_core::geometry::Rectangle;
use limn_core::glyph::{
    index_after_cursor, rects_per_line, selected_rects_per_line, GlyphMetrics, Index, LineGlyphs,
    Rects,
};
use limn_core::line::{break_lines, LineInfo, Wrap};
use limn_core::text::{MeasuredChar, MeasuredText};

fn rect(left: i64, top: i64, width: u64, height: u64) -> Rectangle {
    Rectangle { left, top, width, height }
}

fn advance(advance: u32) -> GlyphMetrics {
    GlyphMetrics { advance, bbox_right: None }
}

fn boxed(advance: u32, right: i64) -> GlyphMetrics {
    GlyphMetrics { advance, bbox_right: Some(right) }
}

fn at(line: usize, char: usize) -> Index {
    Index { line, char }
}

fn rects(line_rect: Rectangle, glyphs: &Vec<GlyphMetrics>) -> Vec<Rectangle> {
    Rects::new(line_rect, glyphs).collect()
}

fn selected(lines: &Vec<LineGlyphs>, start: Index, end: Index) -> Vec<Vec<Rectangle>> {
    selected_rects_per_line(lines, start, end).collect()
}

fn three_lines() -> Vec<LineGlyphs> {
    vec![
        LineGlyphs { glyphs: vec![advance(10); 4], rect: rect(0, 0, 40, 20) },
        LineGlyphs { glyphs: vec![advance(10); 3], rect: rect(5, 20, 30, 20) },
        LineGlyphs { glyphs: vec![advance(10); 5], rect: rect(0, 40, 50, 20) },
    ]
}

fn two_line_infos() -> Vec<LineInfo> {
    let chars: Vec<MeasuredChar> =
        "hello world".chars().map(|ch| MeasuredChar { ch, advance: 10 }).collect();
    break_lines(&MeasuredText::new(chars).unwrap(), 50, Wrap::Whitespace)
}

#[test]
fn cursor_in_the_first_of_two_lines() {
    let infos = two_line_infos();
    assert_eq!(infos.len(), 2);
    assert_eq!(infos[0].end_char - infos[0].start_char, 5);
    assert_eq!(index_after_cursor(&infos, at(0, 3)), Some(3));
}

#[test]
fn cursor_positions_and_their_indices() {
    let infos = two_line_infos();
    assert_eq!(index_after_cursor(&infos, at(0, 0)), Some(0));
    assert_eq!(index_after_cursor(&infos, at(0, 5)), Some(5));
    assert_eq!(index_after_cursor(&infos, at(1, 0)), Some(6));
    assert_eq!(index_after_cursor(&infos, at(1, 5)), Some(11));
}

#[test]
fn cursor_out_of_range_has_no_index() {
    let infos = two_line_infos();
    assert_eq!(index_after_cursor(&infos, at(0, 6)), None);
    assert_eq!(index_after_cursor(&infos, at(1, 6)), None);
    assert_eq!(index_after_cursor(&infos, at(2, 0)), None);
    assert_eq!(index_after_cursor(&infos, at(usize::MAX, 0)), None);
    assert_eq!(index_after_cursor(&infos, at(1, usize::MAX)), None);
    assert_eq!(index_after_cursor(&Vec::new(), at(0, 0)), None);
}

#[test]
fn character_rectangles_follow_the_advances() {
    let glyphs = vec![advance(10), advance(4), advance(0), advance(7)];
    let out = rects(rect(100, 50, 21, 20), &glyphs);
    assert_eq!(
        out,
        vec![rect(100, 50, 10, 20), rect(110, 50, 4, 20), rect(114, 50, 0, 20), rect(114, 50, 7, 20)]
    );
}

#[test]
fn character_rectangles_end_at_the_bounding_box() {
    let glyphs = vec![boxed(10, 9), advance(5), boxed(10, 30), boxed(10, 12)];
    let out = rects(rect(0, 0, 40, 16), &glyphs);
    assert_eq!(
        out,
        vec![rect(0, 0, 9, 16), rect(9, 0, 5, 16), rect(14, 0, 16, 16), rect(30, 0, 0, 16)]
    );
}

#[test]
fn neighbouring_character_rectangles_share_an_edge() {
    let glyphs = vec![boxed(10, 9), advance(5), boxed(3, -4), advance(u32::MAX), boxed(10, 12)];
    let out = rects(rect(-20, 0, 40, 16), &glyphs);
    assert_eq!(out.len(), glyphs.len());
    assert_eq!(out[0].left, -20);
    for pair in out.windows(2) {
        assert_eq!(pair[0].left as i128 + pair[0].width as i128, pair[1].left as i128);
        assert_eq!(pair[0].top, pair[1].top);
        assert_eq!(pair[0].height, pair[1].height);
    }
}

#[test]
fn character_rectangles_saturate() {
    let glyphs = vec![advance(10), advance(10)];
    let out = rects(rect(i64::MAX - 4, 0, 20, 16), &glyphs);
    assert_eq!(out, vec![rect(i64::MAX - 4, 0, 4, 16), rect(i64::MAX, 0, 0, 16)]);
}

#[test]
fn rectangles_of_every_line() {
    let lines = three_lines();
    let out = rects_per_line(&lines).collect();
    assert_eq!(out.len(), 3);
    assert_eq!(out[1], vec![rect(5, 20, 10, 20), rect(15, 20, 10, 20), rect(25, 20, 10, 20)]);
    assert_eq!(out[0].len(), 4);
    assert_eq!(out[2].len(), 5);
}

#[test]
fn selection_inside_one_line() {
    let out = selected(&three_lines(), at(1, 1), at(1, 3));
    assert_eq!(out, vec![vec![rect(15, 20, 10, 20), rect(25, 20, 10, 20)]]);
}

#[test]
fn selection_over_several_lines() {
    let out = selected(&three_lines(), at(0, 3), at(2, 2));
    assert_eq!(
        out,
        vec![
            vec![rect(30, 0, 10, 20)],
            vec![rect(5, 20, 10, 20), rect(15, 20, 10, 20), rect(25, 20, 10, 20)],
            vec![rect(0, 40, 10, 20), rect(10, 40, 10, 20)],
        ]
    );
}

#[test]
fn lines_without_a_selected_character_are_left_out() {
    let out = selected(&three_lines(), at(0, 4), at(2, 0));
    assert_eq!(out, vec![vec![rect(5, 20, 10, 20), rect(15, 20, 10, 20), rect(25, 20, 10, 20)]]);
    let beyond = selected(&three_lines(), at(1, 9), at(2, 1));
    assert_eq!(beyond, vec![vec![rect(0, 40, 10, 20)]]);
}

#[test]
fn selection_end_beyond_the_line_selects_to_its_end() {
    let out = selected(&three_lines(), at(2, 3), at(2, 99));
    assert_eq!(out, vec![vec![rect(30, 40, 10, 20), rect(40, 40, 10, 20)]]);
    let all = selected(&three_lines(), at(0, 0), at(7, 0));
    assert_eq!(all, rects_per_line(&three_lines()).collect());
}

#[test]
fn empty_selection_yields_nothing() {
    let lines = three_lines();
    for line in 0..5 {
        for char in 0..7 {
            let out = selected(&lines, at(line, char), at(line, char));
            assert_eq!(out, Vec::<Vec<Rectangle>>::new());
        }
    }
}

#[test]
fn selection_that_ends_before_it_starts_yields_nothing() {
    let out = selected(&three_lines(), at(2, 1), at(0, 3));
    assert_eq!(out, Vec::<Vec<Rectangle>>::new());
    let same_line = selected(&three_lines(), at(1, 2), at(1, 1));
    assert_eq!(same_line, Vec::<Vec<Rectangle>>::new());
}

#[test]
fn selections_that_follow_each_other_share_no_rectangle() {
    let lines = three_lines();
    let first = selected(&lines, at(0, 1), at(1, 2));
    let second = selected(&lines, at(1, 2), at(2, 4));
    let first: Vec<Rectangle> = first.into_iter().flatten().collect();
    let second: Vec<Rectangle> = second.into_iter().flatten().collect();
    assert_eq!(first.len(), 5);
    assert_eq!(second.len(), 5);
    for a in &first {
        for b in &second {
            let apart_x = a.left + a.width as i64 <= b.left || b.left + b.width as i64 <= a.left;
            let apart_y = a.top + a.height as i64 <= b.top || b.top + b.height as i64 <= a.top;
            assert!(apart_x || apart_y);
        }
    }
}

#[test]
fn character_rectangles_come_one_by_one() {
    let glyphs = vec![advance(10), boxed(10, 18), advance(2)];
    let mut it = Rects::new(rect(1, 2, 30, 9), &glyphs);
    assert_eq!(it.next(), Some(rect(1, 2, 10, 9)));
    assert_eq!(it.next(), Some(rect(11, 2, 7, 9)));
    assert_eq!(it.collect(), vec![rect(18, 2, 2, 9)]);
    let mut again = Rects::new(rect(1, 2, 30, 9), &glyphs);
    assert_eq!(again.next(), Some(rect(1, 2, 10, 9)));
    assert_eq!(again.next(), Some(rect(11, 2, 7, 9)));
    assert_eq!(again.next(), Some(rect(18, 2, 2, 9)));
    assert_eq!(again.next(), None);
    assert_eq!(again.next(), None);
    assert_eq!(again.collect(), Vec::<Rectangle>::new());
}

#[test]
fn lines_come_one_by_one() {
    let lines = three_lines();
    let mut it = rects_per_line(&lines);
    let first = it.next().unwrap();
    assert_eq!(first.collect().len(), 4);
    let mut second = it.next().unwrap();
    assert_eq!(second.next(), Some(rect(5, 20, 10, 20)));
    assert_eq!(it.collect().len(), 1);
    let mut done = rects_per_line(&lines);
    for _ in 0..3 {
        assert!(done.next().is_some());
    }
    assert!(done.next().is_none());
    assert!(done.next().is_none());
}

#[test]
fn selected_lines_come_one_by_one() {
    let lines = three_lines();
    let mut it = selected_rects_per_line(&lines, at(0, 4), at(2, 2));
    let mut second_line = it.next().unwrap();
    assert_eq!(second_line.next(), Some(rect(5, 20, 10, 20)));
    assert_eq!(second_line.next(), Some(rect(15, 20, 10, 20)));
    assert_eq!(second_line.next(), Some(rect(25, 20, 10, 20)));
    assert_eq!(second_line.next(), None);
    let mut third_line = it.next().unwrap();
    assert_eq!(third_line.next(), Some(rect(0, 40, 10, 20)));
    assert_eq!(third_line.collect(), vec![rect(10, 40, 10, 20)]);
    assert!(it.next().is_none());
    assert!(it.next().is_none());
    assert_eq!(it.collect(), Vec::<Vec<Rectangle>>::new());
}

#[test]
fn a_selection_can_be_asked_again() {
    let lines = three_lines();
    let once = selected_rects_per_line(&lines, at(0, 1), at(2, 3)).collect();
    let twice = selected_rects_per_line(&lines, at(0, 1), at(2, 3)).collect();
    assert_eq!(once, twice);
    assert_eq!(once.len(), 3);
    assert_eq!(once.iter().map(|line| line.len()).collect::<Vec<usize>>(), vec![3, 3, 3]);
}
