//! The text of a buffer as a sequence of characters, its division into
//! lines, and the operations of `ropey::Rope` that the editor relies on.
//!
//! A rope is opaque to Verus. What it holds has a name, `rope_text`,
//! and every operation on ropes that the editor uses is described by what
//! it does to that text. Nothing of these descriptions is proved: they say
//! what `ropey` documents, for a build with its default line breaks.

use ropey::Rope;
use ropey::RopeSlice;
use vstd::prelude::*;

verus! {

/// `ropey::Rope`, a text buffer; Verus sees none of its fields.
#[verifier::external_type_specification]
#[verifier::external_body]
pub struct ExRope(Rope);

/// `ropey::RopeSlice`, a borrowed part of a rope; Verus sees none of its
/// fields.
#[verifier::external_type_specification]
#[verifier::external_body]
pub struct ExRopeSlice<'a>(RopeSlice<'a>);

/// The characters that a rope holds, in order.
pub uninterp spec fn rope_text(rope: Rope) -> Seq<char>;

/// The characters that a slice of a rope shows, in order.
pub uninterp spec fn slice_text(slice: RopeSlice) -> Seq<char>;

/// Whether `c` is one of the characters that can end a line.
pub open spec fn is_break_char(c: char) -> bool {
    c == '\n' || c == '\u{0B}' || c == '\u{0C}' || c == '\r' || c == '\u{85}' || c == '\u{2028}'
        || c == '\u{2029}'
}

/// Whether a line ends with the character at index `i` of `text`: that
/// character is a line break, and it is not the carriage return of a
/// carriage return and line feed pair, which ends its line only with the
/// line feed.
pub open spec fn ends_line(text: Seq<char>, i: int) -> bool {
    &&& 0 <= i < text.len()
    &&& is_break_char(text[i])
    &&& !(text[i] == '\r' && i + 1 < text.len() && text[i + 1] == '\n')
}

/// The number of lines that end at or after index `from`.
pub open spec fn breaks_from(text: Seq<char>, from: int) -> nat
    decreases text.len() - from,
{
    if from < 0 || from >= text.len() {
        0
    } else if ends_line(text, from) {
        1 + breaks_from(text, from + 1)
    } else {
        breaks_from(text, from + 1)
    }
}

/// The number of lines of `text`: one more than the number of line breaks,
/// so that a text that ends with a line break has an empty last line.
pub open spec fn line_count(text: Seq<char>) -> nat {
    breaks_from(text, 0) + 1
}

/// The index at which the `k`-th line that starts at or after `from`
/// begins, where `from` itself begins a line; the length of the text when
/// there is no such line.
pub open spec fn line_start_from(text: Seq<char>, k: nat, from: int) -> int
    decreases text.len() - from,
{
    if from < 0 || from >= text.len() {
        text.len() as int
    } else if k == 0 {
        from
    } else if ends_line(text, from) {
        line_start_from(text, (k - 1) as nat, from + 1)
    } else {
        line_start_from(text, k, from + 1)
    }
}

/// The index of the first character of line `k` (counted from zero), and
/// the length of the text for a `k` behind the last line.
pub open spec fn line_start(text: Seq<char>, k: nat) -> int {
    line_start_from(text, k, 0)
}

/// The number of characters of line `k` (counted from zero), its line
/// break included; zero for a line that the text does not have.
pub open spec fn line_len(text: Seq<char>, k: nat) -> nat {
    (line_start(text, k + 1) - line_start(text, k)) as nat
}

/// `Rope::from_str` makes a rope that holds the characters of `text`.
pub assume_specification[ Rope::from_str ](text: &str) -> (rope: Rope)
    ensures
        rope_text(rope) == text@,
;

/// `Rope::len_chars` is the number of characters in the rope.
pub assume_specification[ Rope::len_chars ](rope: &Rope) -> (n: usize)
    ensures
        n == rope_text(*rope).len(),
;

/// `Rope::len_lines` is the number of lines of the rope: one more than the
/// number of its line breaks.
pub assume_specification[ Rope::len_lines ](rope: &Rope) -> (n: usize)
    ensures
        n == line_count(rope_text(*rope)),
;

/// `Rope::line_to_char` is the index of the first character of a line,
/// counted from zero. It takes the line behind the last one too, and then
/// gives the number of characters in the rope; behind that it panics.
pub assume_specification[ Rope::line_to_char ](rope: &Rope, line_idx: usize) -> (n: usize)
    requires
        line_idx <= line_count(rope_text(*rope)),
    ensures
        n == line_start(rope_text(*rope), line_idx as nat),
;

/// `Rope::line` is the slice of a line, counted from zero, from its first
/// character to its line break, which is part of it. It panics for a line
/// that the rope does not have.
pub assume_specification<'a>[ Rope::line ](rope: &'a Rope, line_idx: usize) -> (line: RopeSlice<
    'a,
>)
    requires
        line_idx < line_count(rope_text(*rope)),
    ensures
        slice_text(line) == rope_text(*rope).subrange(
            line_start(rope_text(*rope), line_idx as nat),
            line_start(rope_text(*rope), (line_idx + 1) as nat),
        ),
;

/// `RopeSlice::len_chars` is the number of characters that the slice shows.
pub assume_specification<'a>[ RopeSlice::<'a>::len_chars ](slice: &RopeSlice<'a>) -> (n: usize)
    ensures
        n == slice_text(*slice).len(),
;

/// `Rope::insert_char` puts `ch` in front of the character at `char_idx`,
/// or behind the last character where `char_idx` is the number of
/// characters. It panics for a greater index.
pub assume_specification[ Rope::insert_char ](rope: &mut Rope, char_idx: usize, ch: char)
    requires
        char_idx <= rope_text(*old(rope)).len(),
    ensures
        rope_text(*final(rope)) == rope_text(*old(rope)).insert(char_idx as int, ch),
;

/// `Rope::char` is the character at `char_idx`. It panics for an index that
/// is not below the number of characters.
pub assume_specification[ Rope::char ](rope: &Rope, char_idx: usize) -> (c: char)
    requires
        char_idx < rope_text(*rope).len(),
    ensures
        c == rope_text(*rope)[char_idx as int],
;

/// `Rope::remove` on the range `start..end`: the characters at the indices
/// from `start` up to, but without, `end` leave the rope, and the others keep
/// their order. It panics where `start` is greater than `end`, or `end`
/// greater than the number of characters.
#[verifier::external_body]
pub(crate) fn rope_remove(rope: &mut Rope, start: usize, end: usize)
    requires
        start <= end <= rope_text(*old(rope)).len(),
    ensures
        rope_text(*final(rope)) == without_range(rope_text(*old(rope)), start as int, end as int),
{
    rope.remove(start..end)
}

/// `Rope::slice` on the range `start..end`: the slice shows the characters
/// at the indices from `start` up to, but without, `end`. It panics where
/// `start` is greater than `end`, or `end` greater than the number of
/// characters.
#[verifier::external_body]
pub(crate) fn rope_slice<'a>(rope: &'a Rope, start: usize, end: usize) -> (slice: RopeSlice<'a>)
    requires
        start <= end <= rope_text(*rope).len(),
    ensures
        slice_text(slice) == rope_text(*rope).subrange(start as int, end as int),
{
    rope.slice(start..end)
}

/// The characters of a rope can be counted in a `usize`, as
/// `Rope::len_chars` counts them, so that every index into its text fits a
/// `usize` too.
pub(crate) fn countable(rope: &Rope)
    ensures
        rope_text(*rope).len() <= usize::MAX,
{
    rope.len_chars();
}

/// `text` without the characters at the indices from `start` up to, but
/// without, `end`.
pub open spec fn without_range(text: Seq<char>, start: int, end: int) -> Seq<char> {
    text.subrange(0, start) + text.subrange(end, text.len() as int)
}

/// How the starts of consecutive lines lie, counted from a line start
/// `from`: they never go back, they stay within the text, a line that is
/// followed by another holds at least its line break, and behind the last
/// line every start is the end of the text.
pub proof fn lemma_line_starts_from(text: Seq<char>, k: nat, from: int)
    requires
        0 <= from <= text.len(),
    ensures
        from <= line_start_from(text, k, from) <= line_start_from(text, k + 1, from) <= text.len(),
        k < breaks_from(text, from) ==> line_start_from(text, k, from) < line_start_from(
            text,
            k + 1,
            from,
        ),
        k > breaks_from(text, from) ==> line_start_from(text, k, from) == text.len(),
        k == 0 && from < text.len() ==> line_start_from(text, k, from) < line_start_from(
            text,
            k + 1,
            from,
        ),
    decreases text.len() - from,
{
    if from < text.len() {
        lemma_line_starts_from(text, k, from + 1);
        lemma_line_starts_from(text, k + 1, from + 1);
        if k > 0 {
            lemma_line_starts_from(text, (k - 1) as nat, from + 1);
        }
    }
}

/// The line structure of a text, for line `k` counted from zero: line
/// starts are ordered and lie within the text, line zero starts at index
/// zero, every line but the last holds at least one character, the first
/// line of a text that is not empty holds at least one, and a line that the
/// text does not have is empty and starts at the end of the text.
pub proof fn lemma_lines(text: Seq<char>, k: nat)
    ensures
        line_count(text) >= 1,
        line_start(text, 0) == 0,
        0 <= line_start(text, k) <= line_start(text, k + 1) <= text.len(),
        line_start(text, k) + line_len(text, k) == line_start(text, k + 1),
        k + 1 < line_count(text) ==> line_len(text, k) >= 1,
        k >= line_count(text) ==> line_start(text, k) == text.len() && line_len(text, k) == 0,
        k + 1 == line_count(text) ==> line_start(text, k + 1) == text.len(),
        text.len() > 0 ==> line_len(text, 0) >= 1,
        text.len() == 0 ==> line_count(text) == 1 && line_len(text, k) == 0,
{
    lemma_line_starts_from(text, k, 0);
    lemma_line_starts_from(text, k + 1, 0);
    lemma_line_starts_from(text, 0, 0);
}

/// Line starts never go back: an earlier line starts no later than a later
/// one.
pub proof fn lemma_line_start_monotone(text: Seq<char>, j: nat, k: nat)
    requires
        j <= k,
    ensures
        line_start(text, j) <= line_start(text, k),
    decreases k - j,
{
    if j < k {
        lemma_line_start_monotone(text, j, (k - 1) as nat);
        lemma_lines(text, (k - 1) as nat);
    }
}

} // verus!
