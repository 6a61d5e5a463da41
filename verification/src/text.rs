//! Measured text: characters paired with their advance widths.

use vstd::prelude::*;

verus! {

/// One character of a text together with its horizontal advance in layout units.
#[derive(Clone, Copy, Debug, PartialEq, Eq)]
pub struct MeasuredChar {
    pub ch: char,
    pub advance: u32,
}

/// Whether a character has the Unicode `White_Space` property.
pub uninterp spec fn is_whitespace(c: char) -> bool;

/// Calls `char::is_whitespace` of std. The result is the `White_Space` property
/// of the character, which depends on the character alone.
#[verifier::external_body]
pub(crate) fn char_is_whitespace(c: char) -> (b: bool)
    ensures
        b == is_whitespace(c),
{
    c.is_whitespace()
}

/// Number of bytes that the UTF-8 encoding of a character takes.
pub open spec fn utf8_len(c: char) -> int {
    if (c as u32) < 0x80 {
        1
    } else if (c as u32) < 0x800 {
        2
    } else if (c as u32) < 0x10000 {
        3
    } else {
        4
    }
}

/// Number of bytes that the UTF-8 encoding of a character takes.
pub fn len_utf8(c: char) -> (n: usize)
    ensures
        n == utf8_len(c),
{
    let code: u32 = c as u32;
    if code < 0x80 {
        1
    } else if code < 0x800 {
        2
    } else if code < 0x10000 {
        3
    } else {
        4
    }
}

/// Sum of the advances of the first `k` characters.
pub open spec fn width_upto(text: Seq<MeasuredChar>, k: int) -> int
    decreases k,
{
    if k <= 0 {
        0
    } else {
        width_upto(text, k - 1) + text[k - 1].advance as int
    }
}

/// Number of bytes that the first `k` characters take in UTF-8.
pub open spec fn bytes_upto(text: Seq<MeasuredChar>, k: int) -> int
    decreases k,
{
    if k <= 0 {
        0
    } else {
        bytes_upto(text, k - 1) + utf8_len(text[k - 1].ch)
    }
}

/// Measured width of the characters in `[a, b)`.
pub open spec fn span_width(text: Seq<MeasuredChar>, a: int, b: int) -> int {
    width_upto(text, b) - width_upto(text, a)
}

/// No character in `[a, b)` is whitespace.
pub open spec fn no_space(text: Seq<MeasuredChar>, a: int, b: int) -> bool {
    forall|k: int| a <= k < b ==> !is_whitespace(#[trigger] text[k].ch)
}

/// No character in `[a, b)` is a line feed.
pub open spec fn no_newline(text: Seq<MeasuredChar>, a: int, b: int) -> bool {
    forall|k: int| a <= k < b ==> (#[trigger] text[k]).ch != '\n'
}

/// Prefix widths grow with the prefix.
pub proof fn lemma_width_upto_mono(text: Seq<MeasuredChar>, a: int, b: int)
    requires
        a <= b,
    ensures
        0 <= width_upto(text, a) <= width_upto(text, b),
    decreases b - a,
{
    if a < b {
        lemma_width_upto_mono(text, a, b - 1);
    } else {
        lemma_width_upto_nonneg(text, a);
    }
}

proof fn lemma_width_upto_nonneg(text: Seq<MeasuredChar>, k: int)
    ensures
        0 <= width_upto(text, k),
    decreases k,
{
    if k > 0 {
        lemma_width_upto_nonneg(text, k - 1);
    }
}

/// Prefix byte counts grow with the prefix, by at least one byte and at most
/// four bytes for each character.
pub proof fn lemma_bytes_upto_mono(text: Seq<MeasuredChar>, a: int, b: int)
    requires
        0 <= a <= b,
    ensures
        bytes_upto(text, a) + (b - a) <= bytes_upto(text, b),
        bytes_upto(text, b) <= bytes_upto(text, a) + 4 * (b - a),
        a <= bytes_upto(text, a),
    decreases b - a,
{
    if a < b {
        lemma_bytes_upto_mono(text, a, b - 1);
    } else {
        lemma_bytes_upto_least(text, a);
    }
}

proof fn lemma_bytes_upto_least(text: Seq<MeasuredChar>, k: int)
    requires
        0 <= k,
    ensures
        k <= bytes_upto(text, k),
    decreases k,
{
    if k > 0 {
        lemma_bytes_upto_least(text, k - 1);
    }
}

/// A text whose characters have been measured, small enough that its byte
/// length fits in `usize` and its total width in `u64`.
pub struct MeasuredText {
    pub chars: Vec<MeasuredChar>,
}

impl View for MeasuredText {
    type V = Seq<MeasuredChar>;

    open spec fn view(&self) -> Seq<MeasuredChar> {
        self.chars@
    }
}

/// Whether byte offsets into the text fit in `usize` and widths in `u64`.
pub open spec fn measurable(text: Seq<MeasuredChar>) -> bool {
    &&& bytes_upto(text, text.len() as int) <= usize::MAX
    &&& width_upto(text, text.len() as int) <= u64::MAX
}

impl MeasuredText {
    /// The text can be laid out: its offsets and widths can be represented.
    pub open spec fn wf(&self) -> bool {
        measurable(self@)
    }

    /// Wraps measured characters, or returns `None` when the text is too long
    /// or too wide for its offsets and widths to be represented.
    pub fn new(chars: Vec<MeasuredChar>) -> (r: Option<MeasuredText>)
        ensures
            r is Some <==> measurable(chars@),
            r is Some ==> r->0.wf() && r->0@ == chars@,
    {
        let n: usize = chars.len();
        let mut i: usize = 0;
        let mut bytes: usize = 0;
        let mut width: u64 = 0;
        while i < n
            invariant
                n == chars@.len(),
                i <= n,
                bytes == bytes_upto(chars@, i as int),
                width == width_upto(chars@, i as int),
            decreases n - i,
        {
            let c = chars[i];
            let len: usize = len_utf8(c.ch);
            proof {
                lemma_width_upto_mono(chars@, i + 1, n as int);
                lemma_bytes_upto_mono(chars@, i + 1, n as int);
            }
            if len > usize::MAX - bytes {
                return None;
            }
            if c.advance as u64 > u64::MAX - width {
                return None;
            }
            bytes = bytes + len;
            width = width + c.advance as u64;
            i = i + 1;
        }
        Some(MeasuredText { chars })
    }

    /// A copy of the text.
    pub fn duplicate(&self) -> (copy: MeasuredText)
        ensures
            copy@ == self@,
    {
        let mut chars: Vec<MeasuredChar> = Vec::new();
        let mut i: usize = 0;
        while i < self.chars.len()
            invariant
                i <= self@.len(),
                chars@ == self@.take(i as int),
            decreases self@.len() - i,
        {
            chars.push(self.chars[i]);
            proof {
                assert(chars@ =~= self@.take(i + 1));
            }
            i = i + 1;
        }
        proof {
            assert(self@.take(self@.len() as int) =~= self@);
        }
        MeasuredText { chars }
    }

    /// Number of characters.
    pub fn len(&self) -> (n: usize)
        ensures
            n == self@.len(),
    {
        self.chars.len()
    }
}

} // verus!
