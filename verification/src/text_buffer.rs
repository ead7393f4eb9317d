//! Editing a text by character positions, as the text widget asks for it.

use vstd::prelude::*;

verus! {

/// A position no further than the end of a text of `len` characters.
pub open spec fn clamped(position: int, len: int) -> int {
    if position < len {
        position
    } else {
        len
    }
}

/// `text` with `inserted` put in before the character at `position`, at
/// the end if there is no such character.
pub open spec fn with_insertion(text: Seq<char>, inserted: Seq<char>, position: int) -> Seq<char> {
    let at = clamped(position, text.len() as int);
    text.take(at) + inserted + text.skip(at)
}

/// `text` without the characters from `start` up to `end`; positions
/// beyond the end count as the end.
pub open spec fn with_deletion(text: Seq<char>, start: int, end: int) -> Seq<char> {
    text.take(clamped(start, text.len() as int)) + text.skip(clamped(end, text.len() as int))
}

/// `egui::TextBuffer::insert_text` of `String`: puts `text` in at a
/// character position, at the end if the position lies beyond it, and
/// returns the number of characters put in.
#[verifier::external_body]
pub(crate) fn insert_into(buffer: &mut String, text: &str, char_index: usize) -> (count: usize)
    ensures
        final(buffer)@ == with_insertion(old(buffer)@, text@, char_index as int),
        count == text@.len(),
{
    egui::TextBuffer::insert_text(buffer, text, char_index)
}

/// `egui::TextBuffer::delete_char_range` of `String`: takes out the
/// characters of a range of positions. It panics on a range that ends
/// before it starts.
#[verifier::external_body]
pub(crate) fn delete_from(buffer: &mut String, start: usize, end: usize)
    requires
        start <= end,
    ensures
        final(buffer)@ == with_deletion(old(buffer)@, start as int, end as int),
{
    egui::TextBuffer::delete_char_range(buffer, start..end)
}

} // verus!
