//! Paths as text, with `/` between their parts.

use vstd::prelude::*;
use crate::text::{chars_of, string_of};

verus! {

/// The path of `name` below `base`: the two with one `/` between them,
/// which is left out where `base` is empty or ends in one already. `name`
/// is taken to be relative.
pub open spec fn joined(base: Seq<char>, name: Seq<char>) -> Seq<char> {
    if base.len() == 0 {
        name
    } else if base.last() == '/' {
        base + name
    } else {
        base + seq!['/'] + name
    }
}

/// The path of `name` below `base`.
pub fn join_path(base: &str, name: &str) -> (path: String)
    ensures
        path@ == joined(base@, name@),
{
    let mut chars = chars_of(base);
    let tail = chars_of(name);
    if chars.len() > 0 && chars[chars.len() - 1] != '/' {
        chars.push('/');
    }
    let ghost head = chars@;
    let mut i: usize = 0;
    while i < tail.len()
        invariant
            i <= tail.len(),
            chars@ == head + tail@.take(i as int),
        decreases tail.len() - i,
    {
        chars.push(tail[i]);
        i += 1;
        assert(tail@.take(i as int) =~= tail@.take(i - 1).push(tail@[i - 1]));
    }
    assert(tail@.take(tail.len() as int) =~= tail@);
    assert(chars@ =~= joined(base@, name@));
    string_of(&chars)
}

/// `name` followed by `ending`.
pub fn with_ending(name: &str, ending: &str) -> (file: String)
    ensures
        file@ == name@ + ending@,
{
    let mut chars = chars_of(name);
    let tail = chars_of(ending);
    let ghost head = chars@;
    let mut i: usize = 0;
    while i < tail.len()
        invariant
            i <= tail.len(),
            chars@ == head + tail@.take(i as int),
        decreases tail.len() - i,
    {
        chars.push(tail[i]);
        i += 1;
        assert(tail@.take(i as int) =~= tail@.take(i - 1).push(tail@[i - 1]));
    }
    assert(tail@.take(tail.len() as int) =~= tail@);
    string_of(&chars)
}

} // verus!
