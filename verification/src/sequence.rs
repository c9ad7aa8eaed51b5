//! Growable integer sequences: the two sequences the demo builds, element
//! read-out in insertion order, and rendering as `[a, b, c]`.

use vstd::prelude::*;
use vstd::string::StringExecFns;
use crate::decimal::{dec_int, push_dec_i32};

verus! {

/// The items of a sequence rendered in order, separated by `", "`.
pub open spec fn fmt_items(s: Seq<i32>) -> Seq<char>
    decreases s.len(),
{
    if s.len() == 0 {
        Seq::empty()
    } else if s.len() == 1 {
        dec_int(s[0] as int)
    } else {
        fmt_items(s.drop_last()) + seq![',', ' '] + dec_int(s.last() as int)
    }
}

/// A whole sequence rendered between brackets: `[a, b, c]`.
pub open spec fn fmt_sequence(s: Seq<i32>) -> Seq<char> {
    seq!['['] + fmt_items(s) + seq![']']
}

/// Starts from an empty sequence and appends 5, 6, 7 and 8 in order.
pub fn build_sequence() -> (v: Vec<i32>)
    ensures
        v@ == seq![5i32, 6i32, 7i32, 8i32],
{
    let mut v: Vec<i32> = Vec::new();
    v.push(5);
    v.push(6);
    v.push(7);
    v.push(8);
    proof {
        assert(v@ =~= seq![5i32, 6i32, 7i32, 8i32]);
    }
    v
}

/// The sequence built directly from the literal list `[1, 2, 3, 4, 5]`.
pub fn literal_sequence() -> (v: Vec<i32>)
    ensures
        v@ == seq![1i32, 2i32, 3i32, 4i32, 5i32],
{
    let mut v: Vec<i32> = Vec::new();
    v.push(1);
    v.push(2);
    v.push(3);
    v.push(4);
    v.push(5);
    proof {
        assert(v@ =~= seq![1i32, 2i32, 3i32, 4i32, 5i32]);
    }
    v
}

/// Visits every element once, front to back, and hands them out in exactly
/// the order they sit in the sequence.
pub fn elements(v: &Vec<i32>) -> (r: Vec<i32>)
    ensures
        r@ == v@,
{
    let mut r: Vec<i32> = Vec::new();
    let mut i: usize = 0;
    while i < v.len()
        invariant
            i <= v.len(),
            r@ == v@.take(i as int),
        decreases v.len() - i,
    {
        r.push(v[i]);
        proof {
            assert(r@ =~= v@.take(i + 1 as int));
        }
        i = i + 1;
    }
    proof {
        assert(v@.take(v@.len() as int) =~= v@);
    }
    r
}

/// Renders the sequence as the demo prints it: the items in order, comma
/// separated, between brackets.
pub fn format_sequence(v: &Vec<i32>) -> (r: String)
    ensures
        r@ == fmt_sequence(v@),
{
    let mut s = String::new();
    crate::text::push_char(&mut s, '[');
    let mut i: usize = 0;
    while i < v.len()
        invariant
            i <= v.len(),
            s@ == seq!['['] + fmt_items(v@.take(i as int)),
        decreases v.len() - i,
    {
        proof {
            reveal_strlit(", ");
        }
        if i > 0 {
            s.append(", ");
        }
        push_dec_i32(&mut s, v[i]);
        proof {
            let pre = v@.take(i as int);
            let post = v@.take(i + 1 as int);
            assert(post.drop_last() =~= pre);
            assert(post.last() == v@[i as int]);
            if i == 0 {
                assert(pre =~= Seq::<i32>::empty());
                assert(s@ =~= seq!['['] + fmt_items(post));
            } else {
                assert(", "@ =~= seq![',', ' ']);
                assert(s@ =~= seq!['['] + fmt_items(post));
            }
        }
        i = i + 1;
    }
    crate::text::push_char(&mut s, ']');
    proof {
        assert(v@.take(v@.len() as int) =~= v@);
        assert(s@ =~= fmt_sequence(v@));
    }
    s
}

} // verus!
