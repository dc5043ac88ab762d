//! Text helpers shared by the other modules: comparison of string slices,
//! the test for a blank text, and slicing of a source buffer by byte
//! offsets.
use vstd::prelude::*;
use vstd::string::{StrSliceExecFns, StringSliceAdditionalSpecFns};
use vstd::utf8::is_char_boundary;

verus! {

/// Decides whether two string slices hold the same text, by comparing
/// their bytes.
pub fn same_text(a: &str, b: &str) -> (equal: bool)
    ensures
        equal == (a@ == b@),
{
    let left = a.as_bytes();
    let right = b.as_bytes();
    proof {
        vstd::utf8::encode_utf8_decode_utf8(a@);
        vstd::utf8::encode_utf8_decode_utf8(b@);
    }
    if left.len() != right.len() {
        return false;
    }
    let mut i: usize = 0;
    while i < left.len()
        invariant
            i <= left.len(),
            left.len() == right.len(),
            left@ == a.spec_bytes(),
            right@ == b.spec_bytes(),
            forall|j: int| 0 <= j < i ==> left@[j] == right@[j],
        decreases left.len() - i,
    {
        if left[i] != right[i] {
            return false;
        }
        i += 1;
    }
    assert(left@ =~= right@);
    true
}

/// A character that is white space: one with the Unicode property
/// `White_Space`.
pub open spec fn white_space(c: char) -> bool {
    let code = c as u32;
    ||| 0x09 <= code <= 0x0D
    ||| code == 0x20
    ||| code == 0x85
    ||| code == 0xA0
    ||| code == 0x1680
    ||| 0x2000 <= code <= 0x200A
    ||| code == 0x2028
    ||| code == 0x2029
    ||| code == 0x202F
    ||| code == 0x205F
    ||| code == 0x3000
}

/// A text that holds nothing but white space; the empty text is blank.
pub open spec fn blank(text: Seq<char>) -> bool {
    forall|i: int| 0 <= i < text.len() ==> white_space(#[trigger] text[i])
}

/// Decides whether a character is white space.
pub fn is_white_space(c: char) -> (white: bool)
    ensures
        white == white_space(c),
{
    let code = c as u32;
    (0x09 <= code && code <= 0x0D) || code == 0x20 || code == 0x85 || code == 0xA0 || code
        == 0x1680 || (0x2000 <= code && code <= 0x200A) || code == 0x2028 || code == 0x2029
        || code == 0x202F || code == 0x205F || code == 0x3000
}

/// Decides whether a text is blank: whether nothing is left of it once the
/// white space at its ends is taken away.
pub fn is_blank(text: &str) -> (b: bool)
    ensures
        b == blank(text@),
{
    let length = text.unicode_len();
    let mut i: usize = 0;
    while i < length
        invariant
            i <= length,
            length == text@.len(),
            forall|j: int| 0 <= j < i ==> white_space(#[trigger] text@[j]),
        decreases length - i,
    {
        if !is_white_space(text.get_char(i)) {
            return false;
        }
        i += 1;
    }
    true
}

/// Whether `item` is one of the strings of `list`.
pub fn contains_text(list: &Vec<String>, item: &str) -> (found: bool)
    ensures
        found == list.deep_view().contains(item@),
{
    let mut i: usize = 0;
    while i < list.len()
        invariant
            i <= list.len(),
            forall|j: int| 0 <= j < i ==> list.deep_view()[j] != item@,
        decreases list.len() - i,
    {
        if same_text(list[i].as_str(), item) {
            assert(list.deep_view()[i as int] == item@);
            return true;
        }
        i += 1;
    }
    false
}

/// The bytes `[start, end)` of `bytes` can be cut out as text of their own:
/// the range lies inside the buffer and both ends fall between characters.
pub open spec fn sliceable(bytes: Seq<u8>, start: int, end: int) -> bool {
    &&& 0 <= start <= end <= bytes.len()
    &&& is_char_boundary(bytes, start)
    &&& is_char_boundary(bytes, end)
}

/// Behind a character boundary, the boundaries of the rest of a text are
/// the boundaries of the text.
pub proof fn boundary_of_rest(bytes: Seq<u8>, start: int, end: int)
    requires
        vstd::utf8::valid_utf8(bytes),
        0 <= start <= end <= bytes.len(),
        is_char_boundary(bytes, start),
    ensures
        is_char_boundary(bytes.subrange(start, bytes.len() as int), end - start)
            == is_char_boundary(bytes, end),
    decreases bytes.len(),
{
    let rest = bytes.subrange(start, bytes.len() as int);
    vstd::utf8::valid_utf8_split(bytes, start);
    if start == 0 {
        assert(rest =~= bytes);
    } else if end == start {
    } else {
        let width = vstd::utf8::length_of_first_scalar(bytes);
        let tail = vstd::utf8::pop_first_scalar(bytes);
        assert(0 < width <= bytes.len() && start >= width) by {
            reveal_with_fuel(vstd::utf8::is_char_boundary, 2);
        }
        assert(tail.len() == bytes.len() - width);
        assert(is_char_boundary(bytes, start) == is_char_boundary(tail, start - width));
        assert(is_char_boundary(bytes, end) == is_char_boundary(tail, end - width));
        boundary_of_rest(tail, start - width, end - width);
        assert(tail.subrange(start - width, tail.len() as int) =~= rest);
    }
}

/// The text that the bytes `[start_byte, end_byte)` of `source` spell, or
/// `None` where that range is no text of its own.
pub fn slice_source(source: &str, start_byte: usize, end_byte: usize) -> (text: Option<String>)
    ensures
        text is Some <==> sliceable(source.spec_bytes(), start_byte as int, end_byte as int),
        text matches Some(t) ==> t@ == slice_text(source@, start_byte as int, end_byte as int),
{
    let length: usize = source.as_bytes().len();
    if start_byte > end_byte || end_byte > length {
        return None;
    }
    if !source.is_char_boundary(start_byte) {
        return None;
    }
    proof {
        vstd::utf8::encode_utf8_valid_utf8(source@);
        boundary_of_rest(source.spec_bytes(), start_byte as int, end_byte as int);
    }
    let (_, rest) = source.split_at(start_byte);
    let width: usize = end_byte - start_byte;
    if !rest.is_char_boundary(width) {
        return None;
    }
    let (piece, _) = rest.split_at(width);
    proof {
        let bytes = source.spec_bytes();
        assert(piece.spec_bytes() =~= bytes.subrange(start_byte as int, end_byte as int));
        vstd::utf8::encode_utf8_decode_utf8(piece@);
    }
    Some(piece.to_owned())
}

/// The characters spelled by the bytes `[start, end)` of the UTF-8 encoding
/// of `source`.
pub open spec fn slice_text(source: Seq<char>, start: int, end: int) -> Seq<char> {
    vstd::utf8::decode_utf8(vstd::utf8::encode_utf8(source).subrange(start, end))
}

} // verus!
