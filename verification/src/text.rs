//! Text buffers: building a greeting piece by piece, consuming
//! concatenation, conversion between borrowed and owned text, character-wise
//! equality, and slicing by byte range with an explicit error on a range that
//! does not respect character boundaries.

use vstd::prelude::*;
use vstd::string::StringExecFns;
use vstd::string::StringSliceAdditionalSpecFns;
use vstd::utf8::*;

verus! {

/// The one way taking a view of a text buffer can fail: the byte range does
/// not begin and end on character boundaries of the buffer.
#[derive(Clone, Copy, Debug, PartialEq, Eq, Structural)]
pub enum TextError {
    InvalidSliceBoundary,
}

/// True when the half-open byte range `[from, to)` can be viewed as a slice
/// of `s`: it is ordered, and both ends fall on character boundaries.
pub open spec fn valid_slice_range(s: Seq<u8>, from: int, to: int) -> bool {
    from <= to && is_char_boundary(s, from) && is_char_boundary(s, to)
}

/// Relies on `String::push`: appends the one character at the end of the
/// buffer.
#[verifier::external_body]
pub(crate) fn push_char(s: &mut String, c: char)
    ensures
        final(s)@ == old(s)@.push(c),
{
    s.push(c)
}

/// Builds `"Hello world!"` the way the demo does: append a word, then a
/// single space character, then the second word.
pub fn greeting() -> (r: String)
    ensures
        r@ == "Hello world!"@,
{
    let mut s = String::new();
    s.append("Hello");
    push_char(&mut s, ' ');
    s.append("world!");
    proof {
        reveal_strlit("Hello");
        reveal_strlit("world!");
        reveal_strlit("Hello world!");
        assert(s@ =~= "Hello world!"@);
    }
    s
}

/// Concatenation that consumes its left operand: after the call the caller
/// no longer owns `left` and cannot reuse it.
pub fn concat_text(left: String, right: &str) -> (r: String)
    ensures
        r@ == left@ + right@,
{
    left.concat(right)
}

/// An owned copy of borrowed text; the copy holds the same characters.
pub fn to_owned_text(s: &str) -> (r: String)
    ensures
        r@ == s@,
{
    String::from_str(s)
}

/// A line made of a fixed label followed by the given text.
pub fn labeled_line(label: &str, text: &str) -> (r: String)
    ensures
        r@ == label@ + text@,
{
    let s = String::from_str(label);
    s.concat(text)
}

/// The view of `s` over the half-open byte range `[from, to)`. The original
/// text is only borrowed: it stays unchanged and usable beside the slice.
/// A range that does not respect character boundaries is rejected.
pub fn slice_bytes<'a>(s: &'a str, from: usize, to: usize) -> (r: Result<&'a str, TextError>)
    ensures
        match r {
            Ok(t) => {
                &&& valid_slice_range(s.spec_bytes(), from as int, to as int)
                &&& t.spec_bytes() == s.spec_bytes().subrange(from as int, to as int)
                &&& t@ == decode_utf8(s.spec_bytes().subrange(from as int, to as int))
            },
            Err(e) => {
                &&& e == TextError::InvalidSliceBoundary
                &&& !valid_slice_range(s.spec_bytes(), from as int, to as int)
            },
        },
{
    proof {
        broadcast use encode_utf8_valid_utf8;

        assert(valid_utf8(s.spec_bytes()));
    }
    if from <= to && s.is_char_boundary(from) && s.is_char_boundary(to) {
        let (prefix, _rest) = s.split_at(to);
        proof {
            broadcast use valid_utf8_split;
            broadcast use is_char_boundary_start_end_of_seq;

            let bytes = s.spec_bytes();
            assert(valid_utf8(prefix.spec_bytes()));
            if from < to {
                is_char_boundary_iff_not_is_continuation_byte(bytes, from as int);
                is_char_boundary_iff_not_is_continuation_byte(
                    prefix.spec_bytes(),
                    from as int,
                );
            }
            assert(is_char_boundary(prefix.spec_bytes(), from as int));
        }
        let (_head, mid) = prefix.split_at(from);
        proof {
            broadcast use encode_utf8_decode_utf8;

            assert(mid.spec_bytes() =~= s.spec_bytes().subrange(from as int, to as int));
            assert(decode_utf8(encode_utf8(mid@)) == mid@);
        }
        Ok(mid)
    } else {
        Err(TextError::InvalidSliceBoundary)
    }
}

/// Character-wise equality of two pieces of text.
pub fn str_eq(a: &str, b: &str) -> (r: bool)
    ensures
        r == (a@ == b@),
{
    let n = a.unicode_len();
    if n != b.unicode_len() {
        return false;
    }
    let mut i: usize = 0;
    while i < n
        invariant
            i <= n,
            n == a@.len(),
            n == b@.len(),
            forall|j: int| 0 <= j < i ==> a@[j] == b@[j],
        decreases n - i,
    {
        if a.get_char(i) != b.get_char(i) {
            return false;
        }
        i = i + 1;
    }
    proof {
        assert(a@ =~= b@);
    }
    true
}

} // verus!
