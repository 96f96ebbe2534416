//! Entry names and their extensions.
//!
//! A name is one component of a path, as a directory listing yields it. Its
//! mathematical model is the sequence of its characters.

use vstd::prelude::*;
use vstd::string::StringSliceAdditionalSpecFns;
use vstd::utf8::encode_utf8_decode_utf8;

verus! {

/// The extension of an entry name: what follows its last `.`. A name without
/// a `.` has none, and neither has a name whose only `.` is its first
/// character.
pub open spec fn extension(name: Seq<char>) -> Option<Seq<char>> {
    match name.index_of_last('.') {
        Some(dot) => if dot > 0 {
            Some(name.skip(dot + 1))
        } else {
            None
        },
        None => None,
    }
}

/// `dot` is the position of the last `.` among the first `upto` characters
/// of `name`, or `None` where there is no `.` among them.
spec fn is_last_dot_before(name: Seq<char>, upto: int, dot: Option<usize>) -> bool {
    match dot {
        Some(d) => d < upto && name[d as int] == '.' && forall|j: int|
            d < j < upto ==> name[j] != '.',
        None => forall|j: int| 0 <= j < upto ==> name[j] != '.',
    }
}

/// Tells whether two strings hold the same characters.
pub fn str_equal(left: &str, right: &str) -> (same: bool)
    ensures
        same == (left@ == right@),
{
    let a = left.as_bytes();
    let b = right.as_bytes();
    if a.len() != b.len() {
        return false;
    }
    let mut i: usize = 0;
    while i < a.len()
        invariant
            a@ == left.spec_bytes(),
            b@ == right.spec_bytes(),
            a@.len() == b@.len(),
            i <= a@.len(),
            forall|j: int| 0 <= j < i ==> a@[j] == b@[j],
        decreases a@.len() - i,
    {
        if a[i] != b[i] {
            return false;
        }
        i = i + 1;
    }
    proof {
        assert(a@ =~= b@);
        encode_utf8_decode_utf8(left@);
        encode_utf8_decode_utf8(right@);
    }
    true
}

/// Extracts the extension of `name`.
pub fn extension_of(name: &str) -> (found: Option<&str>)
    ensures
        match found {
            Some(e) => extension(name@) == Some(e@),
            None => extension(name@) is None,
        },
{
    let len: usize = name.unicode_len();
    let mut dot: Option<usize> = None;
    let mut seen: usize = 0;
    for c in it: name.chars()
        invariant
            len == name@.len(),
            it.seq() == name@,
            seen == it.index(),
            seen <= len,
            is_last_dot_before(name@, seen as int, dot),
    {
        if c == '.' {
            dot = Some(seen);
        }
        seen = seen + 1;
    }
    proof {
        name@.index_of_last_ensures('.');
    }
    match dot {
        Some(d) => {
            if d > 0 {
                Some(name.substring_char(d + 1, len))
            } else {
                None
            }
        },
        None => None,
    }
}

/// Tells whether `name` has exactly the extension `wanted`.
pub fn has_extension(name: &str, wanted: &str) -> (yes: bool)
    ensures
        yes == (extension(name@) == Some(wanted@)),
{
    match extension_of(name) {
        Some(e) => str_equal(e, wanted),
        None => false,
    }
}

} // verus!
