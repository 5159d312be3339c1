//! The rope that stores a buffer's text, and what this library assumes of it.
//!
//! Verus does not look inside a `ropey::Rope`. The characters that a rope
//! holds are named by `rope_text`, and each function here makes one call into
//! ropey and states its effect on that sequence. None of these contracts is
//! proved: they restate ropey's documentation over the model of `text`.

use crate::text::{
    byte_len, byte_of_char, char_of_byte, insert_at, line_count, line_len, line_of, line_start,
    line_text, remove_range,
};
use ropey::Rope;
use vstd::prelude::*;
use vstd::utf8::encode_utf8;

verus! {

#[verifier::external_type_specification]
#[verifier::external_body]
pub struct ExRope(ropey::Rope);

/// The characters that a rope holds, in order.
pub uninterp spec fn rope_text(rope: Rope) -> Seq<char>;

/// `Rope::from_str`: the new rope holds the characters of `s`.
#[verifier::external_body]
pub(crate) fn rope_from_str(s: &str) -> (rope: Rope)
    ensures
        rope_text(rope) == s@,
{
    Rope::from_str(s)
}

/// `Rope::len_chars`: the number of characters.
#[verifier::external_body]
pub(crate) fn rope_len_chars(rope: &Rope) -> (n: usize)
    ensures
        n == rope_text(*rope).len(),
{
    rope.len_chars()
}

/// `Rope::len_lines`: the number of lines, one more than the line breaks.
#[verifier::external_body]
pub(crate) fn rope_len_lines(rope: &Rope) -> (n: usize)
    ensures
        n == line_count(rope_text(*rope)),
{
    rope.len_lines()
}

/// `Rope::len_bytes`: the length of the text in UTF-8.
#[verifier::external_body]
pub(crate) fn rope_len_bytes(rope: &Rope) -> (n: usize)
    ensures
        n == byte_len(rope_text(*rope)),
{
    rope.len_bytes()
}

/// `Rope::char_to_line`: the number of line breaks that end before the
/// character. Ropey panics for an index past the length.
#[verifier::external_body]
pub(crate) fn rope_char_to_line(rope: &Rope, char_idx: usize) -> (line: usize)
    requires
        char_idx <= rope_text(*rope).len(),
    ensures
        line == line_of(rope_text(*rope), char_idx as int),
{
    rope.char_to_line(char_idx)
}

/// `Rope::line_to_char`: the index of the first character of the line, and
/// the length of the text for the line after the last. Ropey panics for a
/// line past that one.
#[verifier::external_body]
pub(crate) fn rope_line_to_char(rope: &Rope, line_idx: usize) -> (char_idx: usize)
    requires
        line_idx <= line_count(rope_text(*rope)),
    ensures
        char_idx == line_start(rope_text(*rope), line_idx as nat),
{
    rope.line_to_char(line_idx)
}

/// `Rope::byte_to_char`: the index of the character that the byte belongs
/// to, and the length of the text for the offset after the last byte. Ropey
/// panics for an offset past that one.
#[verifier::external_body]
pub(crate) fn rope_byte_to_char(rope: &Rope, byte_idx: usize) -> (char_idx: usize)
    requires
        byte_idx <= byte_len(rope_text(*rope)),
    ensures
        char_idx == char_of_byte(rope_text(*rope), byte_idx as int),
{
    rope.byte_to_char(byte_idx)
}

/// `Rope::line_to_byte`: the byte offset of the start of the line, and the
/// length in bytes for the line after the last. Ropey panics for a line past
/// that one.
#[verifier::external_body]
pub(crate) fn rope_line_to_byte(rope: &Rope, line_idx: usize) -> (byte_idx: usize)
    requires
        line_idx <= line_count(rope_text(*rope)),
    ensures
        byte_idx == byte_of_char(
            rope_text(*rope),
            line_start(rope_text(*rope), line_idx as nat),
        ),
{
    rope.line_to_byte(line_idx)
}

/// `Rope::char`: the character at the index. Ropey panics for an index at or
/// past the length.
#[verifier::external_body]
pub(crate) fn rope_char(rope: &Rope, char_idx: usize) -> (c: char)
    requires
        char_idx < rope_text(*rope).len(),
    ensures
        c == rope_text(*rope)[char_idx as int],
{
    rope.char(char_idx)
}

/// `Rope::line` and `RopeSlice::len_chars`: the number of characters of the
/// line, its line break included. Ropey panics for a line at or past the
/// number of lines.
#[verifier::external_body]
pub(crate) fn rope_line_len(rope: &Rope, line_idx: usize) -> (n: usize)
    requires
        line_idx < line_count(rope_text(*rope)),
    ensures
        n == line_len(rope_text(*rope), line_idx as nat),
{
    rope.line(line_idx).len_chars()
}

/// `Rope::insert`: the text gets `s` at the index. Ropey panics for an index
/// past the length.
#[verifier::external_body]
pub(crate) fn rope_insert(rope: &mut Rope, char_idx: usize, s: &str)
    requires
        char_idx <= rope_text(*old(rope)).len(),
    ensures
        rope_text(*final(rope)) == insert_at(rope_text(*old(rope)), char_idx as int, s@),
{
    rope.insert(char_idx, s)
}

/// `Rope::remove`: the text loses the characters of the range. Ropey panics
/// where the range ends before it starts or past the length.
#[verifier::external_body]
pub(crate) fn rope_remove(rope: &mut Rope, start: usize, end: usize)
    requires
        start <= end <= rope_text(*old(rope)).len(),
    ensures
        rope_text(*final(rope)) == remove_range(rope_text(*old(rope)), start as int, end as int),
{
    rope.remove(start..end)
}

/// `Rope::slice` and the slice's conversion to a `String`: the characters of
/// the range. Ropey panics where the range ends before it starts or past the
/// length.
#[verifier::external_body]
pub(crate) fn rope_slice_string(rope: &Rope, start: usize, end: usize) -> (s: String)
    requires
        start <= end <= rope_text(*rope).len(),
    ensures
        s@ == rope_text(*rope).subrange(start as int, end as int),
{
    String::from(rope.slice(start..end))
}

/// `Rope::slice` and `RopeSlice::lines`: the lines of the range, each as a
/// string with its line break. The range is divided into lines by itself, so
/// it has at least one line, and one more than it has line breaks. Ropey
/// panics where the range ends before it starts or past the length.
#[verifier::external_body]
pub(crate) fn rope_slice_lines(rope: &Rope, start: usize, end: usize) -> (lines: Vec<String>)
    requires
        start <= end <= rope_text(*rope).len(),
    ensures
        lines@.len() == line_count(rope_text(*rope).subrange(start as int, end as int)),
        forall|k: int|
            0 <= k < lines@.len() ==> (#[trigger] lines@[k])@ == line_text(
                rope_text(*rope).subrange(start as int, end as int),
                k as nat,
            ),
{
    rope.slice(start..end).lines().map(String::from).collect()
}

/// `Rope::bytes`: the bytes of the text in UTF-8, collected.
#[verifier::external_body]
pub(crate) fn rope_bytes(rope: &Rope) -> (bytes: Vec<u8>)
    ensures
        bytes@ == encode_utf8(rope_text(*rope)),
{
    rope.bytes().collect()
}

} // verus!
