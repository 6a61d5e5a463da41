//! Line breaking: splitting measured text into lines under a wrap policy.

use crate::text::{bytes_upto, char_is_whitespace, is_whitespace, len_utf8, lemma_bytes_upto_mono, lemma_width_upto_mono, no_newline, no_space, span_width, width_upto, MeasuredChar, MeasuredText};
use vstd::prelude::*;

verus! {

/// The way in which text wraps when a line would exceed the available width.
#[derive(Clone, Copy, Debug, PartialEq, Eq, Structural)]
pub enum Wrap {
    /// Break only at line feeds.
    NoWrap,
    /// Break before the first character that exceeds the width.
    Character,
    /// Break at the whitespace before the first word that exceeds the width.
    Whitespace,
}

/// One line of a broken text.
///
/// The visible characters are `[start_char, end_char)`. The next line, if any,
/// starts at `next_char`, which lies one past `end_char` where the line was
/// broken at a line feed or at whitespace. The byte range covers the characters
/// `[start_char, next_char)`.
#[derive(Clone, Copy, Debug, PartialEq, Eq)]
pub struct LineInfo {
    pub start_char: usize,
    pub end_char: usize,
    pub next_char: usize,
    pub start_byte: usize,
    pub end_byte: usize,
    pub width: u64,
}

impl LineInfo {
    /// Number of visible characters in the line.
    pub open spec fn spec_char_count(&self) -> int {
        self.end_char - self.start_char
    }
}

/// The line that starts at `start` runs to `end`, which is a line feed or the
/// end of the text, and the next line starts behind that line feed.
pub open spec fn hard_break(text: Seq<MeasuredChar>, start: int, end: int, next: int) -> bool {
    &&& start <= end <= text.len()
    &&& no_newline(text, start, end)
    &&& end < text.len() ==> text[end].ch == '\n' && next == end + 1
    &&& end == text.len() ==> next == end
}

/// The characters `[start, end)` were placed on one line without a break
/// between characters: the first one always, the others because they fit.
pub open spec fn chars_fit(text: Seq<MeasuredChar>, max_width: int, start: int, end: int) -> bool {
    end <= start + 1 || span_width(text, start, end) <= max_width
}

/// The line is broken before the character at `end`, which is the first that
/// does not fit behind the characters `[start, end)`.
pub open spec fn char_wrap(text: Seq<MeasuredChar>, max_width: int, start: int, end: int) -> bool {
    &&& start < end < text.len()
    &&& no_newline(text, start, end + 1)
    &&& chars_fit(text, max_width, start, end)
    &&& span_width(text, start, end + 1) > max_width
}

/// The words `[start, end)` were placed on one line without a break at
/// whitespace: they fit, or they are a single word.
pub open spec fn words_fit(text: Seq<MeasuredChar>, max_width: int, start: int, end: int) -> bool {
    span_width(text, start, end) <= max_width || no_space(text, start, end)
}

/// The line is broken at the whitespace at `end`: the words before it were
/// placed, and the word behind it, which reaches at least to `over`, does not
/// fit on the same line.
pub open spec fn space_wrap(
    text: Seq<MeasuredChar>,
    max_width: int,
    start: int,
    end: int,
    over: int,
) -> bool {
    &&& start <= end <= over < text.len()
    &&& no_newline(text, start, over + 1)
    &&& is_whitespace(text[end].ch)
    &&& no_space(text, end + 1, over + 1)
    &&& words_fit(text, max_width, start, end)
    &&& span_width(text, start, over + 1) > max_width
}

/// Where the line that starts at `start` ends under the wrap policy, and where
/// the next line starts.
pub open spec fn is_break(
    text: Seq<MeasuredChar>,
    max_width: int,
    wrap: Wrap,
    start: int,
    end: int,
    next: int,
) -> bool {
    match wrap {
        Wrap::NoWrap => hard_break(text, start, end, next),
        Wrap::Character => {
            ||| hard_break(text, start, end, next) && chars_fit(text, max_width, start, end)
            ||| char_wrap(text, max_width, start, end) && next == end
        },
        Wrap::Whitespace => {
            ||| hard_break(text, start, end, next) && words_fit(text, max_width, start, end)
            ||| next == end + 1 && exists|over: int| space_wrap(text, max_width, start, end, over)
        },
    }
}

/// The line is the one that the wrap policy gives from its first character.
pub open spec fn line_ok(text: Seq<MeasuredChar>, max_width: int, wrap: Wrap, info: LineInfo) -> bool {
    &&& info.start_char <= info.end_char <= info.next_char <= text.len()
    &&& is_break(
        text,
        max_width,
        wrap,
        info.start_char as int,
        info.end_char as int,
        info.next_char as int,
    )
    &&& info.start_byte == bytes_upto(text, info.start_char as int)
    &&& info.end_byte == bytes_upto(text, info.next_char as int)
    &&& info.width == span_width(text, info.start_char as int, info.end_char as int)
}

/// Whether another line follows: text is left, or the line ended in a line
/// feed, behind which a line always starts.
pub open spec fn has_more(text: Seq<MeasuredChar>, info: LineInfo) -> bool {
    ||| info.next_char < text.len()
    ||| info.end_char < info.next_char && text[info.end_char as int].ch == '\n'
}

/// `lines` is the text broken under the wrap policy: the first line starts at
/// the first character, each line is the one that the policy gives from where
/// the line before it stopped, and the last line is the first after which
/// nothing follows.
pub open spec fn is_layout(
    text: Seq<MeasuredChar>,
    max_width: int,
    wrap: Wrap,
    lines: Seq<LineInfo>,
) -> bool {
    &&& lines.len() >= 1
    &&& lines[0].start_char == 0
    &&& forall|i: int| 0 <= i < lines.len() ==> line_ok(text, max_width, wrap, #[trigger] lines[i])
    &&& forall|i: int|
        0 <= i < lines.len() ==> (has_more(text, #[trigger] lines[i]) <==> i + 1 < lines.len())
    &&& forall|i: int|
        0 <= i < lines.len() - 1 ==> (#[trigger] lines[i]).next_char == lines[i + 1].start_char
}

fn scan_line(
    text: &MeasuredText,
    start: usize,
    start_byte: usize,
    max_width: u64,
    wrap: Wrap,
) -> (info: LineInfo)
    requires
        text.wf(),
        start <= text@.len(),
        start_byte == bytes_upto(text@, start as int),
    ensures
        line_ok(text@, max_width as int, wrap, info),
        info.start_char == start,
{
    let n: usize = text.chars.len();
    let mut i: usize = start;
    let mut bytes: usize = start_byte;
    let mut width: u64 = 0;
    let mut seen_space: bool = false;
    let mut space_at: usize = start;
    let mut space_byte: usize = start_byte;
    let mut space_width: u64 = 0;
    while i < n
        invariant
            text.wf(),
            n == text@.len(),
            start <= i <= n,
            bytes == bytes_upto(text@, i as int),
            start_byte == bytes_upto(text@, start as int),
            width == span_width(text@, start as int, i as int),
            no_newline(text@, start as int, i as int),
            wrap == Wrap::Character ==> chars_fit(text@, max_width as int, start as int, i as int),
            wrap == Wrap::Whitespace ==> words_fit(text@, max_width as int, start as int, i as int),
            wrap == Wrap::Whitespace && !seen_space ==> no_space(text@, start as int, i as int),
            seen_space ==> {
                &&& wrap == Wrap::Whitespace
                &&& start <= space_at < i
                &&& is_whitespace(text@[space_at as int].ch)
                &&& no_space(text@, space_at + 1, i as int)
                &&& words_fit(text@, max_width as int, start as int, space_at as int)
                &&& space_width == span_width(text@, start as int, space_at as int)
                &&& space_byte == bytes_upto(text@, space_at + 1)
            },
        decreases n - i,
    {
        let c = text.chars[i];
        let len: usize = len_utf8(c.ch);
        proof {
            lemma_width_upto_mono(text@, 0, start as int);
            lemma_width_upto_mono(text@, i + 1, n as int);
            lemma_bytes_upto_mono(text@, i + 1, n as int);
        }
        if c.ch == '\n' {
            return LineInfo {
                start_char: start,
                end_char: i,
                next_char: i + 1,
                start_byte,
                end_byte: bytes + len,
                width,
            };
        }
        let wider: u64 = width + c.advance as u64;
        match wrap {
            Wrap::NoWrap => {},
            Wrap::Character => {
                if i > start && wider > max_width {
                    return LineInfo {
                        start_char: start,
                        end_char: i,
                        next_char: i,
                        start_byte,
                        end_byte: bytes,
                        width,
                    };
                }
            },
            Wrap::Whitespace => {
                if char_is_whitespace(c.ch) {
                    seen_space = true;
                    space_at = i;
                    space_byte = bytes + len;
                    space_width = width;
                }
                if seen_space && wider > max_width {
                    proof {
                        assert(space_wrap(
                            text@,
                            max_width as int,
                            start as int,
                            space_at as int,
                            i as int,
                        ));
                    }
                    return LineInfo {
                        start_char: start,
                        end_char: space_at,
                        next_char: space_at + 1,
                        start_byte,
                        end_byte: space_byte,
                        width: space_width,
                    };
                }
            },
        }
        width = wider;
        bytes = bytes + len;
        i = i + 1;
    }
    LineInfo { start_char: start, end_char: n, next_char: n, start_byte, end_byte: bytes, width }
}

/// Breaks a text into lines no wider than `max_width` where the wrap policy
/// allows a break. A line feed always ends a line. The result holds at least
/// one line, and one line of no characters for an empty text.
pub fn break_lines(text: &MeasuredText, max_width: u64, wrap: Wrap) -> (lines: Vec<LineInfo>)
    requires
        text.wf(),
    ensures
        is_layout(text@, max_width as int, wrap, lines@),
{
    let n: usize = text.chars.len();
    let mut lines: Vec<LineInfo> = Vec::new();
    let mut info: LineInfo = scan_line(text, 0, 0, max_width, wrap);
    lines.push(info);
    while info.next_char < n || (info.end_char < info.next_char && text.chars[info.end_char].ch
        == '\n')
        invariant
            text.wf(),
            n == text@.len(),
            lines@.len() >= 1,
            lines@[lines@.len() - 1] == info,
            lines@[0].start_char == 0,
            forall|i: int|
                0 <= i < lines@.len() ==> line_ok(text@, max_width as int, wrap, #[trigger] lines@[i]),
            forall|i: int| 0 <= i < lines@.len() - 1 ==> has_more(text@, #[trigger] lines@[i]),
            forall|i: int|
                0 <= i < lines@.len() - 1 ==> (#[trigger] lines@[i]).next_char == lines@[i
                    + 1].start_char,
        decreases n - info.start_char,
    {
        proof {
            lemma_break_advances(text@, max_width as int, wrap, info);
        }
        info = scan_line(text, info.next_char, info.end_byte, max_width, wrap);
        lines.push(info);
    }
    lines
}

/// A line after which another follows stops behind its first character.
proof fn lemma_break_advances(text: Seq<MeasuredChar>, max_width: int, wrap: Wrap, info: LineInfo)
    requires
        line_ok(text, max_width, wrap, info),
        has_more(text, info),
    ensures
        info.start_char < info.next_char,
{
}

/// Unless a single character is wider than `max_width`, no line is wider than
/// `max_width`, except one that consists of a single word: a line without
/// whitespace, under the policy that breaks at whitespace only.
pub proof fn lemma_line_width_bounded(
    text: Seq<MeasuredChar>,
    max_width: int,
    wrap: Wrap,
    lines: Seq<LineInfo>,
    i: int,
)
    requires
        is_layout(text, max_width, wrap, lines),
        0 <= i < lines.len(),
        0 <= max_width,
        wrap != Wrap::NoWrap,
        forall|k: int| 0 <= k < text.len() ==> (#[trigger] text[k]).advance <= max_width,
    ensures
        lines[i].width <= max_width || (wrap == Wrap::Whitespace && no_space(
            text,
            lines[i].start_char as int,
            lines[i].end_char as int,
        )),
{
    let info = lines[i];
    assert(line_ok(text, max_width, wrap, info));
    if wrap == Wrap::Character && info.end_char == info.start_char + 1 {
        assert(text[info.start_char as int].advance <= max_width);
        assert(width_upto(text, info.end_char as int) == width_upto(text, info.end_char - 1)
            + text[info.end_char - 1].advance);
    }
}

/// Whatever the widths of the characters, a line wider than `max_width` holds
/// a single character, where lines break between characters, or a single word,
/// where they break at whitespace.
pub proof fn lemma_wide_line_is_forced(
    text: Seq<MeasuredChar>,
    max_width: int,
    wrap: Wrap,
    lines: Seq<LineInfo>,
    i: int,
)
    requires
        is_layout(text, max_width, wrap, lines),
        0 <= i < lines.len(),
        0 <= max_width < lines[i].width,
    ensures
        wrap == Wrap::Character ==> lines[i].spec_char_count() == 1,
        wrap == Wrap::Whitespace ==> no_space(
            text,
            lines[i].start_char as int,
            lines[i].end_char as int,
        ),
{
    let info = lines[i];
    assert(line_ok(text, max_width, wrap, info));
}

/// The byte ranges of the lines follow each other without a gap from the first
/// byte of the text to its last.
pub proof fn lemma_byte_ranges_tile(
    text: Seq<MeasuredChar>,
    max_width: int,
    wrap: Wrap,
    lines: Seq<LineInfo>,
)
    requires
        is_layout(text, max_width, wrap, lines),
    ensures
        lines[0].start_byte == 0,
        lines[lines.len() - 1].end_byte == bytes_upto(text, text.len() as int),
        forall|i: int| 0 <= i < lines.len() - 1 ==> (#[trigger] lines[i]).end_byte == lines[i + 1].start_byte,
        forall|i: int| 0 <= i < lines.len() ==> (#[trigger] lines[i]).start_byte <= lines[i].end_byte,
{
    let last = lines[lines.len() - 1];
    assert(line_ok(text, max_width, wrap, lines[0]));
    assert(line_ok(text, max_width, wrap, last));
    assert(!has_more(text, last));
    assert forall|i: int| 0 <= i < lines.len() - 1 implies (#[trigger] lines[i]).end_byte == lines[i
        + 1].start_byte by {
        assert(line_ok(text, max_width, wrap, lines[i]));
        assert(line_ok(text, max_width, wrap, lines[i + 1]));
    }
    assert forall|i: int| 0 <= i < lines.len() implies (#[trigger] lines[i]).start_byte
        <= lines[i].end_byte by {
        assert(line_ok(text, max_width, wrap, lines[i]));
        lemma_bytes_upto_mono(text, lines[i].start_char as int, lines[i].next_char as int);
    }
}

/// The characters that the first `k` lines cover, one line after the other,
/// each with the line feed or whitespace at which it was broken.
pub open spec fn joined(text: Seq<MeasuredChar>, lines: Seq<LineInfo>, k: int) -> Seq<MeasuredChar>
    decreases k,
{
    if k <= 0 {
        Seq::empty()
    } else {
        joined(text, lines, k - 1) + text.subrange(
            lines[k - 1].start_char as int,
            lines[k - 1].next_char as int,
        )
    }
}

/// The lines, one after the other, give back the text: no character is lost
/// and none occurs twice.
pub proof fn lemma_lines_rebuild_text(
    text: Seq<MeasuredChar>,
    max_width: int,
    wrap: Wrap,
    lines: Seq<LineInfo>,
)
    requires
        is_layout(text, max_width, wrap, lines),
    ensures
        joined(text, lines, lines.len() as int) == text,
{
    let last = lines[lines.len() - 1];
    assert(line_ok(text, max_width, wrap, last));
    assert(!has_more(text, last));
    lemma_joined_prefix(text, max_width, wrap, lines, lines.len() as int);
    assert(text.subrange(0, text.len() as int) =~= text);
}

proof fn lemma_joined_prefix(
    text: Seq<MeasuredChar>,
    max_width: int,
    wrap: Wrap,
    lines: Seq<LineInfo>,
    k: int,
)
    requires
        is_layout(text, max_width, wrap, lines),
        1 <= k <= lines.len(),
    ensures
        joined(text, lines, k) == text.subrange(0, lines[k - 1].next_char as int),
    decreases k,
{
    let info = lines[k - 1];
    assert(line_ok(text, max_width, wrap, info));
    if k == 1 {
        assert(joined(text, lines, 0) =~= Seq::empty());
        assert(joined(text, lines, 1) =~= text.subrange(0, info.next_char as int));
    } else {
        lemma_joined_prefix(text, max_width, wrap, lines, k - 1);
        assert(line_ok(text, max_width, wrap, lines[k - 2]));
        assert(lines[k - 2].next_char == info.start_char);
        assert(joined(text, lines, k) =~= text.subrange(0, info.next_char as int));
    }
}

/// A longer span is at least as wide as a shorter one from the same start.
proof fn lemma_span_mono(text: Seq<MeasuredChar>, start: int, a: int, b: int)
    requires
        a <= b,
    ensures
        span_width(text, start, a) <= span_width(text, start, b),
{
    lemma_width_upto_mono(text, a, b);
}

proof fn lemma_hard_break_unique(
    text: Seq<MeasuredChar>,
    start: int,
    end1: int,
    next1: int,
    end2: int,
    next2: int,
)
    requires
        0 <= start,
        hard_break(text, start, end1, next1),
        hard_break(text, start, end2, next2),
    ensures
        end1 == end2,
        next1 == next2,
{
    if end1 < end2 {
        assert(text[end1].ch == '\n');
    }
    if end2 < end1 {
        assert(text[end2].ch == '\n');
    }
}

proof fn lemma_char_wrap_unique(text: Seq<MeasuredChar>, max_width: int, start: int, end1: int, end2: int)
    requires
        0 <= start,
        char_wrap(text, max_width, start, end1),
        char_wrap(text, max_width, start, end2),
    ensures
        end1 == end2,
{
    if end1 < end2 {
        lemma_span_mono(text, start, end1 + 1, end2);
    }
    if end2 < end1 {
        lemma_span_mono(text, start, end2 + 1, end1);
    }
}

proof fn lemma_char_wrap_excludes_hard_break(
    text: Seq<MeasuredChar>,
    max_width: int,
    start: int,
    end1: int,
    end2: int,
    next2: int,
)
    requires
        0 <= start,
        char_wrap(text, max_width, start, end1),
        hard_break(text, start, end2, next2),
    ensures
        !chars_fit(text, max_width, start, end2),
{
    if end2 <= end1 {
        assert(text[end2].ch == '\n');
    } else {
        lemma_span_mono(text, start, end1 + 1, end2);
    }
}

proof fn lemma_space_wrap_unique(
    text: Seq<MeasuredChar>,
    max_width: int,
    start: int,
    end1: int,
    over1: int,
    end2: int,
    over2: int,
)
    requires
        0 <= start,
        space_wrap(text, max_width, start, end1, over1),
        space_wrap(text, max_width, start, end2, over2),
    ensures
        end1 == end2,
{
    if end1 < end2 {
        assert(is_whitespace(text[end1].ch));
        assert(is_whitespace(text[end2].ch));
        assert(over1 < end2);
        lemma_span_mono(text, start, over1 + 1, end2);
    }
    if end2 < end1 {
        assert(is_whitespace(text[end1].ch));
        assert(is_whitespace(text[end2].ch));
        assert(over2 < end1);
        lemma_span_mono(text, start, over2 + 1, end1);
    }
}

proof fn lemma_space_wrap_excludes_hard_break(
    text: Seq<MeasuredChar>,
    max_width: int,
    start: int,
    end1: int,
    over1: int,
    end2: int,
    next2: int,
)
    requires
        0 <= start,
        space_wrap(text, max_width, start, end1, over1),
        hard_break(text, start, end2, next2),
    ensures
        !words_fit(text, max_width, start, end2),
{
    if end2 <= over1 {
        assert(text[end2].ch == '\n');
    } else {
        lemma_span_mono(text, start, over1 + 1, end2);
        assert(is_whitespace(text[end1].ch));
    }
}

proof fn lemma_break_unique(
    text: Seq<MeasuredChar>,
    max_width: int,
    wrap: Wrap,
    start: int,
    end1: int,
    next1: int,
    end2: int,
    next2: int,
)
    requires
        0 <= start,
        is_break(text, max_width, wrap, start, end1, next1),
        is_break(text, max_width, wrap, start, end2, next2),
    ensures
        end1 == end2,
        next1 == next2,
{
    match wrap {
        Wrap::NoWrap => {
            lemma_hard_break_unique(text, start, end1, next1, end2, next2);
        },
        Wrap::Character => {
            let hard1 = hard_break(text, start, end1, next1) && chars_fit(text, max_width, start, end1);
            let hard2 = hard_break(text, start, end2, next2) && chars_fit(text, max_width, start, end2);
            if hard1 && hard2 {
                lemma_hard_break_unique(text, start, end1, next1, end2, next2);
            } else if hard1 {
                lemma_char_wrap_excludes_hard_break(text, max_width, start, end2, end1, next1);
            } else if hard2 {
                lemma_char_wrap_excludes_hard_break(text, max_width, start, end1, end2, next2);
            } else {
                lemma_char_wrap_unique(text, max_width, start, end1, end2);
            }
        },
        Wrap::Whitespace => {
            let hard1 = hard_break(text, start, end1, next1) && words_fit(text, max_width, start, end1);
            let hard2 = hard_break(text, start, end2, next2) && words_fit(text, max_width, start, end2);
            if hard1 && hard2 {
                lemma_hard_break_unique(text, start, end1, next1, end2, next2);
            } else if hard1 {
                let over2 = choose|over: int| space_wrap(text, max_width, start, end2, over);
                lemma_space_wrap_excludes_hard_break(text, max_width, start, end2, over2, end1, next1);
            } else if hard2 {
                let over1 = choose|over: int| space_wrap(text, max_width, start, end1, over);
                lemma_space_wrap_excludes_hard_break(text, max_width, start, end1, over1, end2, next2);
            } else {
                let over1 = choose|over: int| space_wrap(text, max_width, start, end1, over);
                let over2 = choose|over: int| space_wrap(text, max_width, start, end2, over);
                lemma_space_wrap_unique(text, max_width, start, end1, over1, end2, over2);
            }
        },
    }
}

proof fn lemma_same_line(
    text: Seq<MeasuredChar>,
    max_width: int,
    wrap: Wrap,
    a: Seq<LineInfo>,
    b: Seq<LineInfo>,
    k: int,
)
    requires
        is_layout(text, max_width, wrap, a),
        is_layout(text, max_width, wrap, b),
        0 <= k < a.len(),
        k < b.len(),
    ensures
        a[k] == b[k],
    decreases k,
{
    if k > 0 {
        lemma_same_line(text, max_width, wrap, a, b, k - 1);
        assert(a[k - 1].next_char == a[k].start_char);
        assert(b[k - 1].next_char == b[k].start_char);
    }
    assert(line_ok(text, max_width, wrap, a[k]));
    assert(line_ok(text, max_width, wrap, b[k]));
    lemma_break_unique(
        text,
        max_width,
        wrap,
        a[k].start_char as int,
        a[k].end_char as int,
        a[k].next_char as int,
        b[k].end_char as int,
        b[k].next_char as int,
    );
}

/// Line breaking is a function of the text, the width and the policy: two
/// layouts of one text under one width and one policy are the same.
pub proof fn lemma_layout_unique(
    text: Seq<MeasuredChar>,
    max_width: int,
    wrap: Wrap,
    a: Seq<LineInfo>,
    b: Seq<LineInfo>,
)
    requires
        is_layout(text, max_width, wrap, a),
        is_layout(text, max_width, wrap, b),
    ensures
        a == b,
{
    if a.len() < b.len() {
        lemma_same_line(text, max_width, wrap, a, b, a.len() - 1);
        assert(has_more(text, b[a.len() - 1]));
        assert(!has_more(text, a[a.len() - 1]));
    }
    if b.len() < a.len() {
        lemma_same_line(text, max_width, wrap, a, b, b.len() - 1);
        assert(has_more(text, a[b.len() - 1]));
        assert(!has_more(text, b[b.len() - 1]));
    }
    assert forall|k: int| 0 <= k < a.len() implies a[k] == b[k] by {
        lemma_same_line(text, max_width, wrap, a, b, k);
    }
    assert(a =~= b);
}

/// A range of bytes, from `start` up to but not including `end`.
#[derive(Clone, Copy, Debug, PartialEq, Eq)]
pub struct ByteRange {
    pub start: usize,
    pub end: usize,
}

impl LineInfo {
    /// Number of visible characters in the line.
    pub fn char_count(&self) -> (n: usize)
        requires
            self.start_char <= self.end_char,
        ensures
            n == self.spec_char_count(),
    {
        self.end_char - self.start_char
    }

    /// The bytes that the line covers, with the line feed or whitespace at
    /// which it was broken.
    pub fn byte_range(&self) -> (r: ByteRange)
        ensures
            r.start == self.start_byte,
            r.end == self.end_byte,
    {
        ByteRange { start: self.start_byte, end: self.end_byte }
    }
}

/// Yields each line of a text as its bytes, given the byte range of each line.
pub struct Lines<'a> {
    pub text: &'a [u8],
    pub ranges: Vec<ByteRange>,
    pub pos: usize,
}

impl<'a> Lines<'a> {
    /// Every range that is still to come lies inside the text.
    pub open spec fn wf(&self) -> bool {
        &&& self.pos <= self.ranges@.len()
        &&& forall|i: int|
            self.pos <= i < self.ranges@.len() ==> (#[trigger] self.ranges@[i]).start
                <= self.ranges@[i].end <= self.text@.len()
    }

    /// The lines that are still to come.
    pub open spec fn remaining(&self) -> Seq<Seq<u8>> {
        Seq::new(
            (self.ranges@.len() - self.pos) as nat,
            |i: int|
                self.text@.subrange(
                    self.ranges@[self.pos + i].start as int,
                    self.ranges@[self.pos + i].end as int,
                ),
        )
    }

    /// The next line, or `None` after the last one.
    pub fn next(&mut self) -> (line: Option<&'a [u8]>)
        requires
            old(self).wf(),
        ensures
            final(self).wf(),
            final(self).text == old(self).text,
            final(self).ranges == old(self).ranges,
            old(self).remaining().len() == 0 ==> line is None && *final(self) == *old(self),
            old(self).remaining().len() > 0 ==> {
                &&& line is Some
                &&& line->0@ == old(self).remaining()[0]
                &&& final(self).remaining() == old(self).remaining().skip(1)
            },
    {
        if self.pos >= self.ranges.len() {
            return None;
        }
        let range = self.ranges[self.pos];
        let text: &'a [u8] = self.text;
        let line = vstd::slice::slice_subrange(text, range.start, range.end);
        self.pos = self.pos + 1;
        proof {
            assert(final(self).remaining() =~= old(self).remaining().skip(1));
        }
        Some(line)
    }
}

/// Yields each line of `text` as its bytes, where `ranges` holds the byte
/// range of each line.
pub fn lines<'a>(text: &'a [u8], ranges: Vec<ByteRange>) -> (r: Lines<'a>)
    requires
        forall|i: int|
            0 <= i < ranges@.len() ==> (#[trigger] ranges@[i]).start <= ranges@[i].end
                <= text@.len(),
    ensures
        r.wf(),
        r.text == text,
        r.ranges == ranges,
        r.pos == 0,
{
    Lines { text, ranges, pos: 0 }
}

} // verus!
