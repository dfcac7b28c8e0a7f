//! The themes of a directory, from the names of its files.
//!
//! A file holds a theme if its name ends in `.toml` after at least one
//! other character; what stands before that ending is the theme's name.
//! The names are listed in the order of their characters.

use vstd::prelude::*;
use crate::text::{chars_of, string_of};

verus! {

/// Where the last dot of `name` stands, or -1 if it has none.
pub open spec fn last_dot(name: Seq<char>) -> int
    decreases name.len(),
{
    if name.len() == 0 {
        -1
    } else if name.last() == '.' {
        name.len() - 1
    } else {
        last_dot(name.drop_last())
    }
}

/// `name` is the name of a theme file: its last dot is not its first
/// character, and `toml` follows it.
pub open spec fn is_theme_file(name: Seq<char>) -> bool {
    last_dot(name) >= 1 && name.skip(last_dot(name) + 1) =~= "toml"@
}

/// The name of the theme that the file `name` holds: what stands before
/// its last dot.
pub open spec fn theme_stem(name: Seq<char>) -> Seq<char> {
    name.take(last_dot(name))
}

/// The names of the themes among `files`, in the order of the files.
pub open spec fn theme_stems(files: Seq<Seq<char>>) -> Seq<Seq<char>>
    decreases files.len(),
{
    if files.len() == 0 {
        Seq::empty()
    } else if is_theme_file(files.last()) {
        theme_stems(files.drop_last()).push(theme_stem(files.last()))
    } else {
        theme_stems(files.drop_last())
    }
}

/// `a` comes before `b`, or is `b`, in the order of their characters: at
/// the first place where they differ `a` has the lesser character, or `a`
/// ends there.
pub open spec fn lex_le(a: Seq<char>, b: Seq<char>) -> bool
    decreases a.len(),
{
    if a.len() == 0 {
        true
    } else if b.len() == 0 {
        false
    } else if a[0] != b[0] {
        a[0] < b[0]
    } else {
        lex_le(a.drop_first(), b.drop_first())
    }
}

/// Each of `names` comes before all that follow it, or is equal to them.
pub open spec fn is_sorted(names: Seq<Seq<char>>) -> bool {
    forall|i: int, j: int| 0 <= i < j < names.len() ==> lex_le(names[i], names[j])
}

/// The texts of a sequence of strings.
pub open spec fn texts(strings: Seq<String>) -> Seq<Seq<char>> {
    Seq::new(strings.len(), |i: int| strings[i]@)
}

/// The texts of a sequence of character vectors.
pub open spec fn rows(vectors: Seq<Vec<char>>) -> Seq<Seq<char>> {
    Seq::new(vectors.len(), |i: int| vectors[i]@)
}

/// Of two texts one comes before the other, or they are equal.
pub proof fn law_order_is_total(a: Seq<char>, b: Seq<char>)
    ensures
        lex_le(a, b) || lex_le(b, a),
    decreases a.len(),
{
    if a.len() > 0 && b.len() > 0 && a[0] == b[0] {
        law_order_is_total(a.drop_first(), b.drop_first());
    }
}

/// What comes before a text comes before all that the text comes before.
pub proof fn law_order_is_transitive(a: Seq<char>, b: Seq<char>, c: Seq<char>)
    requires
        lex_le(a, b),
        lex_le(b, c),
    ensures
        lex_le(a, c),
    decreases a.len(),
{
    if a.len() > 0 && b.len() > 0 && c.len() > 0 {
        if a[0] == b[0] && b[0] == c[0] {
            law_order_is_transitive(a.drop_first(), b.drop_first(), c.drop_first());
        }
    }
}

/// Two texts that come before each other are equal.
pub proof fn law_order_is_antisymmetric(a: Seq<char>, b: Seq<char>)
    requires
        lex_le(a, b),
        lex_le(b, a),
    ensures
        a == b,
    decreases a.len(),
{
    if a.len() > 0 && b.len() > 0 {
        law_order_is_antisymmetric(a.drop_first(), b.drop_first());
        assert(a =~= seq![a[0]] + a.drop_first());
        assert(b =~= seq![b[0]] + b.drop_first());
    } else {
        assert(a =~= b);
    }
}

/// Putting an item into a sequence adds it to what the sequence holds.
proof fn lemma_insert_to_multiset(s: Seq<Seq<char>>, at: int, item: Seq<char>)
    requires
        0 <= at <= s.len(),
    ensures
        s.insert(at, item).to_multiset() == s.to_multiset().insert(item),
{
    broadcast use vstd::seq_lib::group_to_multiset_ensures;

    let longer = s.insert(at, item);
    assert(longer.remove(at) =~= s);
    assert(longer[at] == item);
    assert(longer.remove(at).to_multiset() =~= longer.to_multiset().remove(item));
    assert(longer.contains(item));
    assert(longer.to_multiset().count(item) > 0);
    assert(longer.to_multiset() =~= s.to_multiset().insert(item));
}

/// Tells whether `a` comes before `b` or is `b`.
pub fn comes_before(a: &Vec<char>, b: &Vec<char>) -> (yes: bool)
    ensures
        yes == lex_le(a@, b@),
{
    let mut k: usize = 0;
    assert(a@.skip(0) =~= a@);
    assert(b@.skip(0) =~= b@);
    while k < a.len()
        invariant
            k <= a.len(),
            k <= b.len(),
            lex_le(a@, b@) == lex_le(a@.skip(k as int), b@.skip(k as int)),
        decreases a.len() - k,
    {
        let ghost rest_a = a@.skip(k as int);
        let ghost rest_b = b@.skip(k as int);
        if k >= b.len() {
            assert(rest_b.len() == 0);
            return false;
        }
        assert(rest_a[0] == a@[k as int] && rest_b[0] == b@[k as int]);
        if a[k] != b[k] {
            return a[k] < b[k];
        }
        assert(rest_a.drop_first() =~= a@.skip(k + 1));
        assert(rest_b.drop_first() =~= b@.skip(k + 1));
        k += 1;
    }
    assert(a@.skip(k as int).len() == 0);
    true
}

/// Where the last dot of `name` stands.
fn find_last_dot(name: &Vec<char>) -> (at: Option<usize>)
    ensures
        match at {
            Some(i) => i == last_dot(name@) && i < name@.len(),
            None => last_dot(name@) == -1,
        },
{
    let mut end: usize = name.len();
    assert(name@.take(end as int) =~= name@);
    while end > 0
        invariant
            end <= name.len(),
            last_dot(name@) == last_dot(name@.take(end as int)),
        decreases end,
    {
        let ghost front = name@.take(end as int);
        assert(front.last() == name@[end - 1]);
        if name[end - 1] == '.' {
            return Some(end - 1);
        }
        assert(front.drop_last() =~= name@.take(end - 1));
        end -= 1;
    }
    None
}

/// The name of the theme that the file `name` holds, if it holds one.
pub fn stem_of(name: &Vec<char>) -> (stem: Option<Vec<char>>)
    ensures
        stem is Some == is_theme_file(name@),
        stem matches Some(found) ==> found@ == theme_stem(name@),
{
    let dot = match find_last_dot(name) {
        Some(dot) => dot,
        None => {
            return None;
        },
    };
    let ghost ending = name@.skip(dot + 1);
    proof {
        reveal_strlit("toml");
    }
    if dot < 1 || name.len() - dot != 5 {
        assert("toml"@.len() == 4);
        assert(ending.len() == name.len() - dot - 1);
        return None;
    }
    if name[dot + 1] != 't' || name[dot + 2] != 'o' || name[dot + 3] != 'm' || name[dot + 4]
        != 'l' {
        assert(ending[0] == name@[dot + 1] && ending[1] == name@[dot + 2] && ending[2] == name@[dot
            + 3] && ending[3] == name@[dot + 4]);
        return None;
    }
    assert(ending =~= "toml"@);
    let mut stem: Vec<char> = Vec::new();
    let mut i: usize = 0;
    while i < dot
        invariant
            i <= dot < name.len(),
            stem@ == name@.take(i as int),
        decreases dot - i,
    {
        stem.push(name[i]);
        i += 1;
        assert(name@.take(i as int) =~= name@.take(i - 1).push(name@[i - 1]));
    }
    Some(stem)
}

/// Puts `item` into a sorted list, at its place.
fn insert_sorted(sorted: &mut Vec<Vec<char>>, item: Vec<char>)
    requires
        is_sorted(rows(old(sorted)@)),
    ensures
        is_sorted(rows(final(sorted)@)),
        rows(final(sorted)@).to_multiset() == rows(old(sorted)@).to_multiset().insert(item@),
{
    let ghost before = rows(sorted@);
    let mut at: usize = 0;
    while at < sorted.len() && comes_before(&sorted[at], &item)
        invariant
            at <= sorted.len(),
            before == rows(sorted@),
            forall|k: int| 0 <= k < at ==> lex_le(#[trigger] before[k], item@),
        decreases sorted.len() - at,
    {
        at += 1;
    }
    proof {
        if at < sorted.len() {
            law_order_is_total(before[at as int], item@);
        }
        lemma_insert_to_multiset(before, at as int, item@);
    }
    sorted.insert(at, item);
    proof {
        let after = rows(sorted@);
        assert(after =~= before.insert(at as int, item@));
        assert forall|i: int, j: int| 0 <= i < j < after.len() implies lex_le(
            after[i],
            after[j],
        ) by {
            if j == at {
                assert(after[i] == before[i]);
            } else if i == at {
                assert(after[j] == before[j - 1]);
                if j - 1 > at {
                    assert(lex_le(before[at as int], before[j - 1]));
                    law_order_is_transitive(item@, before[at as int], before[j - 1]);
                }
            } else {
                let from_i = if i < at {
                    i
                } else {
                    i - 1
                };
                let from_j = if j < at {
                    j
                } else {
                    j - 1
                };
                assert(after[i] == before[from_i] && after[j] == before[from_j]);
                assert(lex_le(before[from_i], before[from_j]));
            }
        }
    }
}

/// The names of the themes among the files named `files`, sorted.
pub fn theme_names(files: &Vec<String>) -> (names: Vec<String>)
    ensures
        is_sorted(texts(names@)),
        texts(names@).to_multiset() == theme_stems(texts(files@)).to_multiset(),
{
    let ghost all = texts(files@);
    let mut sorted: Vec<Vec<char>> = Vec::new();
    let mut i: usize = 0;
    assert(all.take(0) =~= Seq::<Seq<char>>::empty());
    assert(rows(sorted@) =~= Seq::<Seq<char>>::empty());
    while i < files.len()
        invariant
            i <= files.len(),
            all == texts(files@),
            is_sorted(rows(sorted@)),
            rows(sorted@).to_multiset() == theme_stems(all.take(i as int)).to_multiset(),
        decreases files.len() - i,
    {
        let name = chars_of(files[i].as_str());
        proof {
            broadcast use vstd::seq_lib::group_to_multiset_ensures;

            let upto = all.take(i + 1);
            assert(upto.drop_last() =~= all.take(i as int));
            assert(upto.last() == name@);
        }
        match stem_of(&name) {
            Some(stem) => {
                insert_sorted(&mut sorted, stem);
            },
            None => {},
        }
        i += 1;
    }
    assert(all.take(files.len() as int) =~= all);
    let mut names: Vec<String> = Vec::new();
    let mut k: usize = 0;
    while k < sorted.len()
        invariant
            k <= sorted.len(),
            names@.len() == k,
            forall|j: int| 0 <= j < k ==> (#[trigger] names@[j])@ == sorted@[j]@,
        decreases sorted.len() - k,
    {
        names.push(string_of(&sorted[k]));
        k += 1;
    }
    assert(texts(names@) =~= rows(sorted@));
    names
}

} // verus!
