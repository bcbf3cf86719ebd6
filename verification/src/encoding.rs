//! What the encoding of paths in URLs keeps.
use vstd::prelude::*;
use vstd::utf8::{
    encode_scalar, encode_utf8, encode_utf8_decode_utf8, encode_utf8_valid_utf8,
    has_width_1_encoding, is_ascii_chars, is_ascii_chars_encode_utf8,
};
use crate::split::{join, lemma_split_not_empty, split_on};
use crate::web::{
    decoded_text, encoded_path, hex_digit, hex_value, path_byte, percent_decoded, segment_encoded,
};

verus! {

/// A byte of a path in a Git file URL: a slash stays.
pub open spec fn kept_byte(byte: u8) -> Seq<char> {
    if byte == 0x2f {
        seq!['/']
    } else {
        path_byte(byte)
    }
}

/// The bytes of a path, each as it stands in a Git file URL.
pub open spec fn bytes_encoded(bytes: Seq<u8>) -> Seq<char>
    decreases bytes.len(),
{
    if bytes.len() == 0 {
        Seq::empty()
    } else {
        bytes_encoded(bytes.drop_last()) + kept_byte(bytes.last())
    }
}

proof fn lemma_encode_push(text: Seq<char>, c: char)
    ensures
        encode_utf8(text.push(c)) == encode_utf8(text) + encode_scalar(c as u32),
    decreases text.len(),
{
    let longer = text.push(c);
    if text.len() == 0 {
        assert(longer.drop_first() =~= text);
        assert(encode_utf8(text) =~= Seq::empty());
        assert(encode_utf8(longer) =~= encode_utf8(text) + encode_scalar(c as u32));
    } else {
        lemma_encode_push(text.drop_first(), c);
        assert(longer.drop_first() =~= text.drop_first().push(c));
        assert(encode_utf8(longer) =~= encode_utf8(text) + encode_scalar(c as u32));
    }
}

proof fn lemma_scalar_has_no_slash(c: char)
    requires
        c != '/',
    ensures
        forall|i: int|
            0 <= i < encode_scalar(c as u32).len() ==> #[trigger] encode_scalar(c as u32)[i] != 0x2f,
{
    let s = c as u32;
    assert(s != 0x2f);
    if has_width_1_encoding(s) {
        assert((s & 0x7f) as u8 != 0x2f) by (bit_vector)
            requires
                s <= 0x7f,
                s != 0x2f,
        ;
    }
    assert(0xC0 | ((s >> 6) & 0x1F) as u8 != 0x2f) by (bit_vector);
    assert(0xE0 | ((s >> 12) & 0x0F) as u8 != 0x2f) by (bit_vector);
    assert(0xF0 | ((s >> 18) & 0x7) as u8 != 0x2f) by (bit_vector);
    assert(0x80 | (s & 0x3F) as u8 != 0x2f) by (bit_vector);
    assert(0x80 | ((s >> 6) & 0x3F) as u8 != 0x2f) by (bit_vector);
    assert(0x80 | ((s >> 12) & 0x3F) as u8 != 0x2f) by (bit_vector);
}

proof fn lemma_bytes_concat(first: Seq<u8>, second: Seq<u8>)
    ensures
        bytes_encoded(first + second) == bytes_encoded(first) + bytes_encoded(second),
        segment_encoded(first + second) == segment_encoded(first) + segment_encoded(second),
    decreases second.len(),
{
    if second.len() == 0 {
        assert(first + second =~= first);
        assert(bytes_encoded(first) + bytes_encoded(second) =~= bytes_encoded(first));
        assert(segment_encoded(first) + segment_encoded(second) =~= segment_encoded(first));
    } else {
        lemma_bytes_concat(first, second.drop_last());
        assert((first + second).drop_last() =~= first + second.drop_last());
        assert(bytes_encoded(first + second) =~= bytes_encoded(first) + bytes_encoded(second));
        assert(segment_encoded(first + second) =~= segment_encoded(first) + segment_encoded(second));
    }
}

proof fn lemma_segment_by_bytes(bytes: Seq<u8>)
    requires
        forall|i: int| 0 <= i < bytes.len() ==> #[trigger] bytes[i] != 0x2f,
    ensures
        segment_encoded(bytes) == bytes_encoded(bytes),
    decreases bytes.len(),
{
    if bytes.len() > 0 {
        assert forall|i: int| 0 <= i < bytes.len() - 1 implies #[trigger] bytes.drop_last()[i]
            != 0x2f by {
            assert(bytes.drop_last()[i] == bytes[i]);
        }
        lemma_segment_by_bytes(bytes.drop_last());
        assert(bytes.last() == bytes[bytes.len() - 1]);
    }
}

/// The encodings of segments.
spec fn encode_each(segments: Seq<Seq<char>>) -> Seq<Seq<char>> {
    segments.map_values(|segment: Seq<char>| segment_encoded(encode_utf8(segment)))
}

proof fn lemma_join_last(parts: Seq<Seq<char>>, last: Seq<char>, more: Seq<char>)
    ensures
        join(parts.push(last + more), "/"@) == join(parts.push(last), "/"@) + more,
{
    assert(parts.push(last + more).drop_last() =~= parts);
    assert(parts.push(last).drop_last() =~= parts);
    assert(join(parts.push(last + more), "/"@) =~= join(parts.push(last), "/"@) + more);
}

proof fn lemma_path_by_bytes(path: Seq<char>)
    ensures
        encoded_path(path) == bytes_encoded(encode_utf8(path)),
    decreases path.len(),
{
    let parts = split_on(path, '/');
    assert(encoded_path(path) == join(encode_each(parts), "/"@));
    if path.len() == 0 {
        assert(encode_each(parts)[0] =~= Seq::empty());
    } else {
        let front = path.drop_last();
        let c = path.last();
        let before = split_on(front, '/');
        lemma_split_not_empty(front, '/');
        lemma_path_by_bytes(front);
        lemma_encode_push(front, c);
        assert(front.push(c) =~= path);
        lemma_bytes_concat(encode_utf8(front), encode_scalar(c as u32));
        if c == '/' {
            let each = encode_each(before);
            assert(encode_each(parts) =~= each.push(Seq::empty())) by {
                assert(segment_encoded(encode_utf8(Seq::<char>::empty())) =~= Seq::empty());
            }
            assert(each.push(Seq::empty()).drop_last() =~= each);
            let scalar = encode_scalar(c as u32);
            assert(scalar =~= seq![0x2fu8]) by {
                assert((0x2fu32 & 0x7f) as u8 == 0x2f) by (bit_vector);
            }
            lemma_single_byte(0x2f);
            reveal_strlit("/");
            assert(bytes_encoded(scalar) =~= "/"@);
            assert(encoded_path(path) =~= encoded_path(front) + "/"@);
        } else {
            let rest = before.drop_last();
            let last = before.last();
            let scalar = encode_scalar(c as u32);
            lemma_encode_push(last, c);
            lemma_bytes_concat(encode_utf8(last), scalar);
            lemma_scalar_has_no_slash(c);
            lemma_segment_by_bytes(scalar);
            let own = segment_encoded(encode_utf8(last));
            let more = segment_encoded(scalar);
            assert(encode_each(parts) =~= encode_each(rest).push(own + more));
            assert(encode_each(before) =~= encode_each(rest).push(own));
            lemma_join_last(encode_each(rest), own, more);
        }
    }
}

proof fn lemma_single_byte(byte: u8)
    ensures
        bytes_encoded(seq![byte]) == kept_byte(byte),
{
    let none = seq![byte].drop_last();
    assert(bytes_encoded(none) =~= Seq::empty());
    assert(bytes_encoded(seq![byte]) =~= kept_byte(byte));
}

proof fn lemma_bytes_first(bytes: Seq<u8>)
    requires
        bytes.len() > 0,
    ensures
        bytes_encoded(bytes) == kept_byte(bytes[0]) + bytes_encoded(bytes.skip(1)),
{
    let first = seq![bytes[0]];
    lemma_single_byte(bytes[0]);
    assert(first + bytes.skip(1) =~= bytes);
    lemma_bytes_concat(first, bytes.skip(1));
}

proof fn lemma_kept_byte_is_ascii(byte: u8)
    ensures
        is_ascii_chars(kept_byte(byte)),
        kept_byte(byte).len() == 1 ==> kept_byte(byte)[0] as u8 == byte && byte != 0x25,
        kept_byte(byte).len() != 1 ==> {
            &&& kept_byte(byte).len() == 3
            &&& kept_byte(byte)[0] == '%'
            &&& hex_value(kept_byte(byte)[1] as u8) == Some((byte / 16) as u8)
            &&& hex_value(kept_byte(byte)[2] as u8) == Some((byte % 16) as u8)
        },
{
    let high = (byte / 16) as u8;
    let low = (byte % 16) as u8;
    lemma_hex_digit(high);
    lemma_hex_digit(low);
}

proof fn lemma_hex_digit(value: u8)
    requires
        value < 16,
    ensures
        hex_digit(value) as u32 <= 0x7f,
        hex_value(hex_digit(value) as u8) == Some(value),
{
}

proof fn lemma_ascii_skip(text: Seq<char>, count: int)
    requires
        is_ascii_chars(text),
        0 <= count <= text.len(),
    ensures
        is_ascii_chars(text.skip(count)),
        encode_utf8(text).len() == text.len(),
        encode_utf8(text).skip(count) == encode_utf8(text.skip(count)),
{
    let rest = text.skip(count);
    assert forall|i: int| 0 <= i < rest.len() implies '\0' <= #[trigger] rest[i] <= '\u{7f}' by {
        assert(rest[i] == text[i + count]);
    }
    is_ascii_chars_encode_utf8(text);
    is_ascii_chars_encode_utf8(rest);
    assert forall|i: int| 0 <= i < rest.len() implies encode_utf8(text).skip(count)[i]
        == #[trigger] encode_utf8(rest)[i] by {
        assert(rest[i] as u8 == encode_utf8(rest)[i]);
        assert(text[i + count] as u8 == encode_utf8(text)[i + count]);
    }
    assert(encode_utf8(text).skip(count) =~= encode_utf8(rest));
}

proof fn lemma_bytes_are_ascii(bytes: Seq<u8>)
    ensures
        is_ascii_chars(bytes_encoded(bytes)),
    decreases bytes.len(),
{
    if bytes.len() > 0 {
        lemma_bytes_are_ascii(bytes.drop_last());
        lemma_kept_byte_is_ascii(bytes.last());
    }
}

proof fn lemma_bytes_decoded(bytes: Seq<u8>)
    ensures
        percent_decoded(encode_utf8(bytes_encoded(bytes))) == bytes,
    decreases bytes.len(),
{
    let text = bytes_encoded(bytes);
    lemma_bytes_are_ascii(bytes);
    is_ascii_chars_encode_utf8(text);
    if bytes.len() == 0 {
        assert(encode_utf8(text) =~= Seq::empty());
    } else {
        let rest = bytes.skip(1);
        lemma_bytes_first(bytes);
        lemma_bytes_decoded(rest);
        lemma_kept_byte_is_ascii(bytes[0]);
        let kept = kept_byte(bytes[0]);
        let written = encode_utf8(text);
        lemma_ascii_skip(text, kept.len() as int);
        assert(text.skip(kept.len() as int) =~= bytes_encoded(rest));
        assert(text[0] == kept[0]);
        if kept.len() == 1 {
            assert(written[0] == text[0] as u8);
        } else {
            assert(text[1] == kept[1] && text[2] == kept[2]);
            assert(written[0] == text[0] as u8 && written[1] == text[1] as u8 && written[2]
                == text[2] as u8);
            assert(bytes[0] == (bytes[0] / 16) * 16 + bytes[0] % 16);
        }
        assert(seq![bytes[0]] + rest =~= bytes);
        assert(percent_decoded(written) =~= bytes);
    }
}

/// Decoding the path of a Git file URL gives the path back.
pub proof fn lemma_path_is_decoded(path: Seq<char>)
    ensures
        decoded_text(encoded_path(path)) == Ok::<Seq<char>, Seq<char>>(path),
{
    lemma_path_by_bytes(path);
    lemma_bytes_decoded(encode_utf8(path));
    encode_utf8_valid_utf8(path);
    encode_utf8_decode_utf8(path);
}

/// Whether a character stands in the path of a Git file URL as it is.
pub open spec fn is_plain(c: char) -> bool {
    c == '/' || c == '-' || c == '.' || c == '_' || c == '~' || c == '+' || '0' <= c <= '9' || 'A'
        <= c <= 'Z' || 'a' <= c <= 'z'
}

/// A path of letters, digits and `-._~+/` stands in a Git file URL as it is, and no path has
/// anything there but these and percent signs.
pub proof fn lemma_plain_path_is_kept(path: Seq<char>)
    ensures
        (forall|i: int| 0 <= i < path.len() ==> is_plain(#[trigger] path[i])) ==> encoded_path(path)
            == path,
        forall|i: int|
            0 <= i < encoded_path(path).len() ==> is_plain(#[trigger] encoded_path(path)[i])
                || encoded_path(path)[i] == '%',
{
    lemma_path_by_bytes(path);
    lemma_only_plain(encode_utf8(path));
    if forall|i: int| 0 <= i < path.len() ==> is_plain(#[trigger] path[i]) {
        lemma_plain_bytes(path);
    }
}

proof fn lemma_only_plain(bytes: Seq<u8>)
    ensures
        forall|i: int|
            0 <= i < bytes_encoded(bytes).len() ==> is_plain(#[trigger] bytes_encoded(bytes)[i])
                || bytes_encoded(bytes)[i] == '%',
    decreases bytes.len(),
{
    if bytes.len() > 0 {
        lemma_only_plain(bytes.drop_last());
        let front = bytes_encoded(bytes.drop_last());
        let byte = bytes.last();
        let kept = kept_byte(byte);
        let text = bytes_encoded(bytes);
        assert forall|i: int| 0 <= i < kept.len() implies is_plain(#[trigger] kept[i]) || kept[i]
            == '%' by {}
        assert forall|i: int| 0 <= i < text.len() implies is_plain(#[trigger] text[i]) || text[i]
            == '%' by {
            if i < front.len() {
                assert(text[i] == front[i]);
            } else {
                assert(text[i] == kept[i - front.len()]);
            }
        }
    }
}

proof fn lemma_plain_bytes(path: Seq<char>)
    requires
        forall|i: int| 0 <= i < path.len() ==> is_plain(#[trigger] path[i]),
    ensures
        bytes_encoded(encode_utf8(path)) == path,
    decreases path.len(),
{
    if path.len() > 0 {
        let front = path.drop_last();
        let c = path.last();
        assert(c == path[path.len() - 1]);
        assert forall|i: int| 0 <= i < front.len() implies is_plain(#[trigger] front[i]) by {
            assert(front[i] == path[i]);
        }
        lemma_plain_bytes(front);
        lemma_encode_push(front, c);
        assert(front.push(c) =~= path);
        let s = c as u32;
        assert((s & 0x7f) as u8 == s) by (bit_vector)
            requires
                s <= 0x7f,
        ;
        let byte = c as u8;
        assert(encode_scalar(s) =~= seq![byte]);
        assert(encode_utf8(path).drop_last() =~= encode_utf8(front));
        assert(encode_utf8(path).last() == byte);
        assert(kept_byte(byte) =~= seq![c]);
        assert(bytes_encoded(encode_utf8(path)) =~= path);
    }
}

/// A path that does not begin with a slash does not begin with one in a Git file URL either.
pub proof fn lemma_first_is_kept(path: Seq<char>)
    requires
        path.len() > 0,
        path[0] != '/',
    ensures
        encoded_path(path).len() > 0,
        encoded_path(path)[0] != '/',
{
    let bytes = encode_utf8(path);
    let scalar = encode_scalar(path[0] as u32);
    lemma_path_by_bytes(path);
    lemma_scalar_has_no_slash(path[0]);
    assert(bytes[0] == scalar[0]);
    lemma_bytes_first(bytes);
    assert(bytes_encoded(bytes)[0] == kept_byte(bytes[0])[0]);
}

} // verus!
