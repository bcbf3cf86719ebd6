//! Texts within a number of bytes.
use vstd::prelude::*;
use vstd::utf8::{encode_scalar, encode_utf8};
use crate::format::cat2;
use crate::text::{characters, copy};

verus! {

/// The greatest size of a file or diff in bytes.
pub const MAX_FILE_BYTES: usize = 2_097_152;

/// How many bytes the UTF-8 encoding of a text takes.
pub open spec fn byte_size(text: Seq<char>) -> nat {
    encode_utf8(text).len()
}

/// The longest front of a text whose encoding takes no more than a number of bytes.
pub open spec fn front_within(text: Seq<char>, limit: nat) -> Seq<char>
    decreases text.len(),
{
    if text.len() == 0 || encode_scalar(text[0] as u32).len() > limit {
        Seq::empty()
    } else {
        seq![text[0]] + front_within(
            text.skip(1),
            (limit - encode_scalar(text[0] as u32).len()) as nat,
        )
    }
}

fn character_size(c: char) -> (r: usize)
    ensures
        r == encode_scalar(c as u32).len(),
        1 <= r <= 4,
{
    let code = c as u32;
    if code <= 0x7f {
        1
    } else if code <= 0x7ff {
        2
    } else if code <= 0xffff {
        3
    } else {
        4
    }
}

/// How many bytes the UTF-8 encoding of a text takes.
pub fn size_of_text(text: &str) -> (r: usize)
    ensures
        r == byte_size(text@),
{
    text.as_bytes().len()
}

/// The longest front of a text whose encoding takes no more than a number of bytes.
pub fn truncate(text: &str, limit: usize) -> (r: String)
    ensures
        r@ == front_within(text@, limit as nat),
{
    let letters = characters(text);
    let mut out = String::new();
    let mut left: usize = limit;
    let mut i: usize = 0;
    assert(letters@.skip(0) =~= letters@);
    assert(out@ =~= Seq::empty());
    assert(out@ + front_within(letters@, limit as nat) =~= front_within(letters@, limit as nat));
    while i < letters.len()
        invariant
            i <= letters@.len(),
            letters@ == text@,
            front_within(letters@, limit as nat) == out@ + front_within(
                letters@.skip(i as int),
                left as nat,
            ),
        ensures
            front_within(letters@, limit as nat) == out@,
        decreases letters@.len() - i,
    {
        let ghost rest = letters@.skip(i as int);
        let size = character_size(letters[i]);
        assert(rest[0] == letters@[i as int]);
        assert(rest.skip(1) =~= letters@.skip(i + 1));
        if size > left {
            assert(out@ + Seq::<char>::empty() =~= out@);
            break;
        }
        let ghost before = out@;
        out.push(letters[i]);
        left = left - size;
        assert(before + (seq![rest[0]] + front_within(rest.skip(1), left as nat)) =~= out@
            + front_within(rest.skip(1), left as nat));
        i = i + 1;
        if i == letters.len() {
            assert(letters@.skip(i as int) =~= Seq::empty());
            assert(out@ + Seq::<char>::empty() =~= out@);
        }
    }
    out
}

/// The text of a diff, cut off where it is too large.
pub open spec fn shown_diff(text: Seq<char>) -> Seq<char> {
    if byte_size(text) > MAX_FILE_BYTES {
        front_within(text, MAX_FILE_BYTES as nat) + "\n\n[Diff truncated at 2 MiB]"@
    } else {
        text
    }
}

/// The text of a diff, cut off where it is too large, and whether it was.
pub fn show_diff(text: &str) -> (r: (String, bool))
    ensures
        r.0@ == shown_diff(text@),
        r.1 == (byte_size(text@) > MAX_FILE_BYTES),
{
    if size_of_text(text) > MAX_FILE_BYTES {
        (
            cat2(truncate(text, MAX_FILE_BYTES).as_str(), "\n\n[Diff truncated at 2 MiB]"),
            true,
        )
    } else {
        (copy(text), false)
    }
}

/// The front of a text is within the limit, is the beginning of the text, and could not take
/// one more character.
pub proof fn lemma_front_is_longest(text: Seq<char>, limit: nat)
    ensures
        byte_size(front_within(text, limit)) <= limit,
        front_within(text, limit).is_prefix_of(text),
        front_within(text, limit).len() < text.len() ==> byte_size(
            text.take(front_within(text, limit).len() as int + 1),
        ) > limit,
    decreases text.len(),
{
    let front = front_within(text, limit);
    if text.len() == 0 {
        assert(encode_utf8(front).len() == 0);
        assert(text.take(front.len() as int) =~= front);
    } else {
        let size = encode_scalar(text[0] as u32).len();
        if size > limit {
            assert(encode_utf8(front).len() == 0);
            assert(text.take(0) =~= front);
            let next = text.take(1);
            assert(next.drop_first() =~= Seq::empty());
            assert(encode_utf8(next).len() == size) by {
                assert(encode_utf8(next.drop_first()).len() == 0);
            }
        } else {
            let rest = text.skip(1);
            let inner = front_within(rest, (limit - size) as nat);
            lemma_front_is_longest(rest, (limit - size) as nat);
            assert(front.drop_first() =~= inner);
            assert(front[0] == text[0]);
            assert(text.take(front.len() as int) =~= front) by {
                assert(rest.take(inner.len() as int) =~= inner);
            }
            if front.len() < text.len() {
                let next = text.take(front.len() as int + 1);
                assert(next.drop_first() =~= rest.take(inner.len() as int + 1));
                assert(next[0] == text[0]);
            }
        }
    }
}

} // verus!
