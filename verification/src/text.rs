//! The mathematical model of a text: a sequence of characters, divided into
//! lines by line breaks.
//!
//! A line break is one of LF, VT, FF, CR, NEL, LS, PS, or the pair CR LF,
//! which counts as a single break. A break belongs to the line that it ends.
//! The start of the text and every position right after a break start a line,
//! so a text that ends in a break has an empty last line.

use vstd::prelude::*;
use vstd::utf8::{encode_scalar, encode_utf8};

verus! {

/// The characters that end a line.
pub open spec fn is_break_char(c: char) -> bool {
    c == '\n' || c == '\u{0B}' || c == '\u{0C}' || c == '\r' || c == '\u{85}' || c == '\u{2028}'
        || c == '\u{2029}'
}

/// A line break ends with the character at `i`: that character is a break
/// character, and it is not the CR of a CR LF pair.
pub open spec fn break_ends_at(s: Seq<char>, i: int) -> bool {
    &&& 0 <= i < s.len()
    &&& is_break_char(s[i])
    &&& !(s[i] == '\r' && i + 1 < s.len() && s[i + 1] == '\n')
}

/// The number of line breaks that end before position `i`.
pub open spec fn breaks_before(s: Seq<char>, i: int) -> nat
    decreases i,
{
    if i <= 0 {
        0
    } else {
        breaks_before(s, i - 1) + if break_ends_at(s, i - 1) {
            1nat
        } else {
            0nat
        }
    }
}

/// The number of lines of a text: one more than its line breaks.
pub open spec fn line_count(s: Seq<char>) -> nat {
    breaks_before(s, s.len() as int) + 1
}

/// The line that holds position `i`.
pub open spec fn line_of(s: Seq<char>, i: int) -> nat {
    breaks_before(s, i)
}

/// The least position at or after `i` before which at least `l` breaks end,
/// or the length of the text if there is none.
pub open spec fn first_with_breaks(s: Seq<char>, l: nat, i: int) -> int
    decreases s.len() - i,
{
    if i >= s.len() {
        s.len() as int
    } else if breaks_before(s, i) >= l {
        i
    } else {
        first_with_breaks(s, l, i + 1)
    }
}

/// The position at which line `l` starts. For `l` at or past the number of
/// lines this is the length of the text.
pub open spec fn line_start(s: Seq<char>, l: nat) -> int {
    first_with_breaks(s, l, 0)
}

/// The length of the line break that ends right before position `e`, or 0 if
/// none ends there.
pub open spec fn break_len_before(s: Seq<char>, e: int) -> int {
    if e >= 1 && break_ends_at(s, e - 1) {
        if s[e - 1] == '\n' && e >= 2 && s[e - 2] == '\r' {
            2
        } else {
            1
        }
    } else {
        0
    }
}

/// The length of line `l`, its line break included.
pub open spec fn line_len(s: Seq<char>, l: nat) -> int {
    line_start(s, l + 1) - line_start(s, l)
}

/// The length of the line break that ends line `l`: 0 for a last line.
pub open spec fn terminator_len(s: Seq<char>, l: nat) -> int {
    if line_len(s, l) == 0 {
        0
    } else {
        break_len_before(s, line_start(s, l + 1))
    }
}

/// The length of line `l` without its line break. This is also the greatest
/// column of the line: the column right after its last character.
pub open spec fn content_len(s: Seq<char>, l: nat) -> int {
    line_len(s, l) - terminator_len(s, l)
}

/// The characters of line `l`, its line break included.
pub open spec fn line_text(s: Seq<char>, l: nat) -> Seq<char> {
    s.subrange(line_start(s, l), line_start(s, l + 1))
}

/// The number of bytes that a character takes in UTF-8.
pub open spec fn char_width(c: char) -> int {
    encode_scalar(c as u32).len() as int
}

/// The byte offset at which the character at `char_idx` starts in the UTF-8
/// encoding of the text.
pub open spec fn byte_of_char(s: Seq<char>, char_idx: int) -> int {
    encode_utf8(s.subrange(0, char_idx)).len() as int
}

/// The length of the UTF-8 encoding of the text.
pub open spec fn byte_len(s: Seq<char>) -> int {
    encode_utf8(s).len() as int
}

/// The index of the character to which the byte at `byte_idx` belongs in the
/// UTF-8 encoding of the text, and the length of the text for an offset at or
/// past the end.
pub open spec fn char_of_byte(s: Seq<char>, byte_idx: int) -> int
    decreases s.len(),
{
    if s.len() == 0 || byte_idx < char_width(s[0]) {
        0
    } else {
        1 + char_of_byte(s.drop_first(), byte_idx - char_width(s[0]))
    }
}

/// Whether a character is white space: one of the characters with the
/// Unicode property `White_Space`. These are the tab and the four characters
/// after it, up to the carriage return; the space; the next-line character;
/// the no-break space; the ogham space mark; the spaces from the en quad to
/// the hair space; the line and the paragraph separator; the narrow no-break
/// space; the medium mathematical space; and the ideographic space.
pub open spec fn is_whitespace(c: char) -> bool {
    let n = c as u32;
    ||| 0x09 <= n <= 0x0d
    ||| n == 0x20
    ||| n == 0x85
    ||| n == 0xa0
    ||| n == 0x1680
    ||| 0x2000 <= n <= 0x200a
    ||| n == 0x2028
    ||| n == 0x2029
    ||| n == 0x202f
    ||| n == 0x205f
    ||| n == 0x3000
}

/// `char::is_whitespace`: whether the character has the Unicode property
/// `White_Space`. The contract lists the characters that have it.
#[verifier::external_body]
pub(crate) fn char_is_whitespace(c: char) -> (b: bool)
    ensures
        b == is_whitespace(c),
{
    c.is_whitespace()
}

/// The first position from `i` up to `end` whose character is not white
/// space, or `end` if there is none.
pub open spec fn first_non_blank(s: Seq<char>, i: int, end: int) -> int
    decreases end - i,
{
    if i >= end {
        end
    } else if !is_whitespace(s[i]) {
        i
    } else {
        first_non_blank(s, i + 1, end)
    }
}

/// The text with `t` put in at position `at`.
pub open spec fn insert_at(s: Seq<char>, at: int, t: Seq<char>) -> Seq<char> {
    s.subrange(0, at) + t + s.subrange(at, s.len() as int)
}

/// The text without the characters from `start` up to `end`.
pub open spec fn remove_range(s: Seq<char>, start: int, end: int) -> Seq<char> {
    s.subrange(0, start) + s.subrange(end, s.len() as int)
}

/// Fewer breaks end before an earlier position.
pub proof fn lemma_breaks_monotonic(s: Seq<char>, i: int, j: int)
    requires
        i <= j,
    ensures
        breaks_before(s, i) <= breaks_before(s, j),
    decreases j - i,
{
    if i < j {
        lemma_breaks_monotonic(s, i, j - 1);
    }
}

proof fn lemma_first_with_breaks(s: Seq<char>, l: nat, i: int)
    requires
        0 <= i <= s.len(),
        forall|k: int| 0 <= k < i ==> breaks_before(s, k) < l,
    ensures
        i <= first_with_breaks(s, l, i) <= s.len(),
        forall|k: int| 0 <= k < first_with_breaks(s, l, i) ==> breaks_before(s, k) < l,
        first_with_breaks(s, l, i) < s.len() ==> breaks_before(s, first_with_breaks(s, l, i)) >= l,
    decreases s.len() - i,
{
    if i < s.len() && breaks_before(s, i) < l {
        lemma_first_with_breaks(s, l, i + 1);
    }
}

/// A line starts inside the text or at its end.
pub proof fn lemma_line_start_bounds(s: Seq<char>, l: nat)
    ensures
        0 <= line_start(s, l) <= s.len(),
{
    lemma_first_with_breaks(s, l, 0);
}

/// Line `l` starts at or before position `i` exactly when at least `l`
/// breaks end before `i`.
pub proof fn lemma_line_start_le(s: Seq<char>, l: nat, i: int)
    requires
        0 <= i <= s.len(),
        l < line_count(s),
    ensures
        line_start(s, l) <= i <==> breaks_before(s, i) >= l,
{
    lemma_first_with_breaks(s, l, 0);
    let r = line_start(s, l);
    if r <= i {
        lemma_breaks_monotonic(s, r, i);
    }
}

/// Exactly `l` breaks end before the start of line `l`, and the start of a
/// line other than the first comes right after a break.
pub proof fn lemma_line_start_line(s: Seq<char>, l: nat)
    requires
        l < line_count(s),
    ensures
        line_of(s, line_start(s, l)) == l,
        l > 0 ==> break_ends_at(s, line_start(s, l) - 1),
        l == 0 ==> line_start(s, l) == 0,
{
    lemma_line_start_bounds(s, l);
    let r = line_start(s, l);
    lemma_line_start_le(s, l, r);
    if r > 0 {
        lemma_line_start_le(s, l, r - 1);
    }
}

/// A position lies at or after the start of its line.
pub proof fn lemma_line_of_bounds(s: Seq<char>, i: int)
    requires
        0 <= i <= s.len(),
    ensures
        line_of(s, i) < line_count(s),
        line_start(s, line_of(s, i)) <= i,
{
    lemma_breaks_monotonic(s, i, s.len() as int);
    lemma_line_start_le(s, line_of(s, i), i);
}

/// Later lines start later.
pub proof fn lemma_line_start_monotonic(s: Seq<char>, l1: nat, l2: nat)
    requires
        l1 <= l2,
    ensures
        line_start(s, l1) <= line_start(s, l2),
{
    lemma_line_start_bounds(s, l1);
    lemma_line_start_bounds(s, l2);
    if l2 < line_count(s) {
        lemma_line_start_line(s, l2);
        lemma_line_start_le(s, l1, line_start(s, l2));
    } else {
        lemma_first_with_breaks(s, l2, 0);
        let r = line_start(s, l2);
        if r < s.len() {
            lemma_breaks_monotonic(s, r, s.len() as int);
        }
    }
}

/// The lines past the last one start at the end of the text.
pub proof fn lemma_line_start_past_last(s: Seq<char>, l: nat)
    requires
        l >= line_count(s),
    ensures
        line_start(s, l) == s.len(),
{
    lemma_first_with_breaks(s, l, 0);
    let r = line_start(s, l);
    if r < s.len() {
        lemma_breaks_monotonic(s, r, s.len() as int);
    }
}

/// Every position from the start of line `l` up to the start of the next
/// line lies in line `l`.
pub proof fn lemma_line_of_inside(s: Seq<char>, l: nat, i: int)
    requires
        l < line_count(s),
        line_start(s, l) <= i <= s.len(),
        i < line_start(s, l + 1) || l + 1 == line_count(s),
    ensures
        line_of(s, i) == l,
{
    lemma_line_start_bounds(s, l);
    lemma_line_start_le(s, l, i);
    if l + 1 < line_count(s) {
        lemma_line_start_le(s, l + 1, i);
    } else {
        lemma_breaks_monotonic(s, i, s.len() as int);
    }
}

/// A line that is not the last one is not empty and ends with a break.
pub proof fn lemma_line_ends_with_break(s: Seq<char>, l: nat)
    requires
        l + 1 < line_count(s),
    ensures
        line_start(s, l) < line_start(s, l + 1),
        break_ends_at(s, line_start(s, l + 1) - 1),
{
    lemma_line_start_line(s, l);
    lemma_line_start_line(s, l + 1);
    lemma_line_start_monotonic(s, l, l + 1);
}

/// The content of a line and its line break make up the line.
pub proof fn lemma_content_len_bounds(s: Seq<char>, l: nat)
    requires
        l < line_count(s),
    ensures
        0 <= terminator_len(s, l) <= 2,
        0 <= content_len(s, l) <= line_len(s, l),
        line_start(s, l) + content_len(s, l) <= s.len(),
        l + 1 == line_count(s) ==> terminator_len(s, l) == 0,
        l + 1 < line_count(s) ==> terminator_len(s, l) >= 1,
{
    lemma_line_start_monotonic(s, l, l + 1);
    lemma_line_start_bounds(s, l);
    lemma_line_start_bounds(s, l + 1);
    lemma_line_start_line(s, l);
    let b = line_start(s, l);
    let e = line_start(s, l + 1);
    if l + 1 < line_count(s) {
        lemma_line_ends_with_break(s, l);
        if e - 1 == b && e >= 2 && s[e - 2] == '\r' && s[e - 1] == '\n' {
            // The CR of a pair ends no break, so no line starts between the two.
            assert(break_ends_at(s, b - 1));
            assert(false);
        }
    } else {
        lemma_line_start_past_last(s, l + 1);
        if b < e {
            lemma_line_of_inside(s, l, e - 1);
            lemma_line_of_inside(s, l, e);
        }
    }
}

/// Every position of a line up to the end of its content lies in that line.
pub proof fn lemma_line_of_content(s: Seq<char>, l: nat, i: int)
    requires
        l < line_count(s),
        line_start(s, l) <= i <= line_start(s, l) + content_len(s, l),
    ensures
        0 <= i <= s.len(),
        line_of(s, i) == l,
{
    lemma_content_len_bounds(s, l);
    lemma_line_start_bounds(s, l);
    lemma_line_of_inside(s, l, i);
}

/// A byte belongs to a character of the text, or lies at its end.
pub proof fn lemma_char_of_byte_bounds(s: Seq<char>, byte_idx: int)
    ensures
        0 <= char_of_byte(s, byte_idx) <= s.len(),
    decreases s.len(),
{
    if s.len() > 0 && byte_idx >= char_width(s[0]) {
        lemma_char_of_byte_bounds(s.drop_first(), byte_idx - char_width(s[0]));
    }
}

/// The encoding of two texts in a row is the encoding of the first and then
/// that of the second.
pub proof fn lemma_encode_concat(a: Seq<char>, b: Seq<char>)
    ensures
        encode_utf8(a + b) == encode_utf8(a) + encode_utf8(b),
    decreases a.len(),
{
    if a.len() == 0 {
        assert(a + b =~= b);
        assert(encode_utf8(a) + encode_utf8(b) =~= encode_utf8(b));
    } else {
        lemma_encode_concat(a.drop_first(), b);
        assert((a + b).drop_first() =~= a.drop_first() + b);
        assert(encode_utf8(a + b) =~= encode_utf8(a) + encode_utf8(b));
    }
}

/// Later characters start at later bytes, and all of them before the end of
/// the encoding.
pub proof fn lemma_byte_of_char_monotonic(s: Seq<char>, i: int, j: int)
    requires
        0 <= i <= j <= s.len(),
    ensures
        0 <= byte_of_char(s, i) <= byte_of_char(s, j) <= byte_len(s),
{
    lemma_encode_concat(s.subrange(0, i), s.subrange(i, j));
    assert(s.subrange(0, i) + s.subrange(i, j) =~= s.subrange(0, j));
    lemma_encode_concat(s.subrange(0, j), s.subrange(j, s.len() as int));
    assert(s.subrange(0, j) + s.subrange(j, s.len() as int) =~= s);
}

/// Taking out what was put in gives the text back.
pub proof fn lemma_remove_inserted(s: Seq<char>, at: int, t: Seq<char>)
    requires
        0 <= at <= s.len(),
    ensures
        insert_at(s, at, t).len() == s.len() + t.len(),
        insert_at(s, at, t).subrange(at, at + t.len()) == t,
        remove_range(insert_at(s, at, t), at, at + t.len()) == s,
{
    let u = insert_at(s, at, t);
    assert(u.subrange(at, at + t.len()) =~= t);
    assert(remove_range(u, at, at + t.len()) =~= s);
}

/// Putting back what was taken out gives the text back.
pub proof fn lemma_insert_removed(s: Seq<char>, start: int, end: int)
    requires
        0 <= start <= end <= s.len(),
    ensures
        remove_range(s, start, end).len() == s.len() - (end - start),
        insert_at(remove_range(s, start, end), start, s.subrange(start, end)) == s,
{
    let u = remove_range(s, start, end);
    assert(insert_at(u, start, s.subrange(start, end)) =~= s);
}

} // verus!
