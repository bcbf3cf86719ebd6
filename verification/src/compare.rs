//! Texts compared: letter case set aside, and in lexicographic order.
use vstd::prelude::*;
use crate::text::{characters, slice};

verus! {

/// A character with an upper-case ASCII letter replaced by its lower-case form.
pub open spec fn lower_ascii(c: char) -> char {
    if 0x41 <= c as u32 <= 0x5a {
        ((c as u32 + 0x20) as u32) as char
    } else {
        c
    }
}

/// Whether two texts are the same but for the case of ASCII letters.
pub open spec fn same_letters(left: Seq<char>, right: Seq<char>) -> bool {
    left.len() == right.len() && forall|i: int|
        0 <= i < left.len() ==> lower_ascii(#[trigger] left[i]) == lower_ascii(right[i])
}

fn to_lower_ascii(c: char) -> (r: char)
    ensures
        r == lower_ascii(c),
{
    let code: u32 = c as u32;
    if 0x41 <= code && code <= 0x5a {
        (code as u8 + 0x20u8) as char
    } else {
        c
    }
}

/// Whether two texts are the same but for the case of ASCII letters.
pub fn eq_ignore_ascii_case(left: &str, right: &str) -> (r: bool)
    ensures
        r == same_letters(left@, right@),
{
    let l = characters(left);
    let r = characters(right);
    if l.len() != r.len() {
        return false;
    }
    for i in 0..l.len()
        invariant
            l@ == left@,
            r@ == right@,
            l.len() == r.len(),
            forall|j: int| 0 <= j < i ==> lower_ascii(#[trigger] l@[j]) == lower_ascii(r@[j]),
    {
        if to_lower_ascii(l[i]) != to_lower_ascii(r[i]) {
            assert(lower_ascii(left@[i as int]) != lower_ascii(right@[i as int]));
            return false;
        }
    }
    true
}

/// Whether a text stands before another in lexicographic order of their characters.
pub open spec fn precedes(left: Seq<char>, right: Seq<char>) -> bool
    decreases left.len(),
{
    if right.len() == 0 {
        false
    } else if left.len() == 0 {
        true
    } else if left[0] != right[0] {
        left[0] < right[0]
    } else {
        precedes(left.skip(1), right.skip(1))
    }
}

/// Whether a text stands before another in lexicographic order of their characters.
pub fn text_precedes(left: &str, right: &str) -> (r: bool)
    ensures
        r == precedes(left@, right@),
{
    let l = characters(left);
    let r = characters(right);
    let mut i: usize = 0;
    assert(l@.skip(0) =~= l@);
    assert(r@.skip(0) =~= r@);
    while i < l.len() && i < r.len()
        invariant
            l@ == left@,
            r@ == right@,
            i <= l.len(),
            i <= r.len(),
            precedes(l@, r@) == precedes(l@.skip(i as int), r@.skip(i as int)),
        decreases l.len() - i,
    {
        if l[i] != r[i] {
            return l[i] < r[i];
        }
        assert(l@.skip(i as int).skip(1) =~= l@.skip(i + 1));
        assert(r@.skip(i as int).skip(1) =~= r@.skip(i + 1));
        i = i + 1;
    }
    i < r.len()
}

/// No text stands before itself.
pub proof fn lemma_precedes_irreflexive(text: Seq<char>)
    ensures
        !precedes(text, text),
    decreases text.len(),
{
    if text.len() > 0 {
        lemma_precedes_irreflexive(text.skip(1));
    }
}

/// Of two different texts exactly one stands before the other.
pub proof fn lemma_precedes_total(left: Seq<char>, right: Seq<char>)
    ensures
        left != right ==> (precedes(left, right) <==> !precedes(right, left)),
    decreases left.len(),
{
    if left.len() == 0 && right.len() == 0 {
        assert(left =~= right);
    } else if left.len() > 0 && right.len() > 0 && left[0] == right[0] {
        lemma_precedes_total(left.skip(1), right.skip(1));
        if left.skip(1) == right.skip(1) {
            assert(left =~= seq![left[0]] + left.skip(1));
            assert(right =~= seq![right[0]] + right.skip(1));
        }
    }
}

/// Of three texts, where one stands before the second and that before the third, the first
/// stands before the third.
pub proof fn lemma_precedes_transitive(a: Seq<char>, b: Seq<char>, c: Seq<char>)
    requires
        precedes(a, b),
        precedes(b, c),
    ensures
        precedes(a, c),
    decreases a.len(),
{
    if a.len() > 0 && a[0] == b[0] && b[0] == c[0] {
        lemma_precedes_transitive(a.skip(1), b.skip(1), c.skip(1));
    }
}

/// The first `count` characters of a text, or all of it where it has fewer.
pub open spec fn head(text: Seq<char>, count: nat) -> Seq<char> {
    if text.len() <= count {
        text
    } else {
        text.take(count as int)
    }
}

/// The first `count` characters of a text, or all of it where it has fewer.
pub fn take_characters(text: &str, count: usize) -> (r: String)
    ensures
        r@ == head(text@, count as nat),
{
    let t = characters(text);
    let end: usize = if t.len() <= count {
        t.len()
    } else {
        count
    };
    assert(t@.subrange(0, end as int) =~= head(text@, count as nat));
    slice(&t, 0, end)
}

} // verus!
