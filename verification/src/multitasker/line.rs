//! The buffer of a command line: a `heapless` string of thirty bytes.

use vstd::prelude::*;
use vstd::utf8::encode_utf8;

verus! {

/// A string of fixed capacity, from `heapless`.
#[verifier::external_type_specification]
#[verifier::external_body]
pub struct ExHeaplessString<const N: usize>(heapless::String<N>);

/// Bytes that a command line can hold.
pub const LINE_CAPACITY: usize = 30;

/// The characters that a line holds.
pub uninterp spec fn line_text(line: heapless::String<30>) -> Seq<char>;

/// A text that fits in a line.
pub open spec fn fits(text: Seq<char>) -> bool {
    encode_utf8(text).len() <= LINE_CAPACITY
}

/// Calls `heapless::String::new`: an empty line.
#[verifier::external_body]
pub(crate) fn line_new() -> (r: heapless::String<30>)
    ensures
        line_text(r) == Seq::<char>::empty(),
{
    heapless::String::new()
}

/// Calls `heapless::String::push`: appends a character if its encoding still
/// fits, and leaves the line as it is otherwise.
#[verifier::external_body]
pub(crate) fn line_push(line: &mut heapless::String<30>, c: char) -> (r: Result<(), ()>)
    ensures
        r is Ok <==> fits(line_text(*old(line)).push(c)),
        line_text(*final(line)) == if fits(line_text(*old(line)).push(c)) {
            line_text(*old(line)).push(c)
        } else {
            line_text(*old(line))
        },
{
    line.push(c)
}

/// Calls `heapless::String::clear`: empties the line.
#[verifier::external_body]
pub(crate) fn line_clear(line: &mut heapless::String<30>)
    ensures
        line_text(*final(line)) == Seq::<char>::empty(),
{
    line.clear()
}

/// Calls `heapless::String::as_str`: the whole line.
#[verifier::external_body]
pub(crate) fn line_str(line: &heapless::String<30>) -> (r: &str)
    ensures
        r@ == line_text(*line),
{
    line.as_str()
}

/// Calls `heapless::String::clone`: a line with the same characters.
#[verifier::external_body]
pub(crate) fn line_clone(line: &heapless::String<30>) -> (r: heapless::String<30>)
    ensures
        line_text(r) == line_text(*line),
{
    line.clone()
}

/// The text before and the text after the first `delimiter`, if there is one.
pub open spec fn split_first(text: Seq<char>, delimiter: char) -> Option<(Seq<char>, Seq<char>)> {
    match text.index_of_first(delimiter) {
        Some(i) => Some((text.take(i), text.skip(i + 1))),
        None => None,
    }
}

/// Calls `str::split_once`: splits at the first occurrence of the delimiter,
/// which stands in neither part.
#[verifier::external_body]
pub(crate) fn split_once(s: &str, delimiter: char) -> (r: Option<(&str, &str)>)
    ensures
        match r {
            Some((before, after)) => split_first(s@, delimiter) == Some((before@, after@)),
            None => split_first(s@, delimiter) is None,
        },
{
    s.split_once(delimiter)
}

} // verus!
