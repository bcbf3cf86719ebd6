//! What the quoting of paths in the headers of a diff keeps.
use vstd::prelude::*;
use vstd::utf8::{
    encode_utf8, encode_utf8_decode_utf8, encode_utf8_valid_utf8, is_ascii_chars_encode_utf8,
};
use crate::diff::{
    before, between_quotes, escaped_byte, header_path, is_octal, octal_run, octal_value, unescaped,
    unquoted, without_version,
};
use crate::text::{is_space, trimmed};

verus! {

/// Whether bytes of a quoted path stand for a byte: as it is, as a letter behind a backslash, or
/// as three octal digits.
pub open spec fn spells(part: Seq<u8>, byte: u8) -> bool {
    ||| part == seq![byte] && byte != 0x5c
    ||| part.len() == 2 && part[0] == 0x5c && escaped_byte(part[1]) == Some(byte)
    ||| {
        &&& part.len() == 4 && part[0] == 0x5c
        &&& is_octal(part[1]) && is_octal(part[2]) && is_octal(part[3])
        &&& byte == (part[1] - 0x30) * 64 + (part[2] - 0x30) * 8 + (part[3] - 0x30)
    }
}

/// Whether each part stands for the byte at its place.
pub open spec fn spell_all(parts: Seq<Seq<u8>>, bytes: Seq<u8>) -> bool {
    &&& parts.len() == bytes.len()
    &&& forall|i: int| 0 <= i < bytes.len() ==> spells(#[trigger] parts[i], bytes[i])
}

proof fn lemma_three_digits(bytes: Seq<u8>)
    requires
        bytes.len() >= 3,
        is_octal(bytes[0]) && is_octal(bytes[1]) && is_octal(bytes[2]),
    ensures
        octal_run(bytes, 3) == 3,
        octal_value(bytes.take(3)) == (bytes[0] - 0x30) * 64 + (bytes[1] - 0x30) * 8 + (bytes[2]
            - 0x30),
{
    reveal_with_fuel(octal_run, 4);
    reveal_with_fuel(octal_value, 4);
    assert(bytes.skip(1)[0] == bytes[1]);
    assert(bytes.skip(1).skip(1)[0] == bytes[2]);
    let digits = bytes.take(3);
    assert(digits.last() == bytes[2]);
    assert(digits.drop_last().last() == bytes[1]);
    assert(digits.drop_last().drop_last().last() == bytes[0]);
    assert(digits.drop_last().drop_last().drop_last().len() == 0);
}

proof fn lemma_part_first(part: Seq<u8>, byte: u8, rest: Seq<u8>)
    requires
        spells(part, byte),
    ensures
        unescaped(part + rest) == before(seq![byte], unescaped(rest)),
{
    let all = part + rest;
    assert(all.skip(part.len() as int) =~= rest);
    if part.len() == 4 {
        let digits = all.skip(1);
        assert(digits[0] == part[1] && digits[1] == part[2] && digits[2] == part[3]);
        lemma_three_digits(digits);
        assert(all.subrange(1, 4) =~= digits.take(3));
    } else if part.len() == 2 {
        assert(all[0] == part[0] && all[1] == part[1]);
    }
}

proof fn lemma_parts(parts: Seq<Seq<u8>>, bytes: Seq<u8>)
    requires
        spell_all(parts, bytes),
    ensures
        unescaped(parts.flatten()) == Some(bytes),
    decreases bytes.len(),
{
    if bytes.len() == 0 {
        assert(bytes =~= Seq::empty());
    } else {
        let others = parts.drop_first();
        let rest = bytes.drop_first();
        assert forall|i: int| 0 <= i < rest.len() implies spells(#[trigger] others[i], rest[i]) by {
            assert(others[i] == parts[i + 1]);
        }
        lemma_parts(others, rest);
        assert(spells(parts[0], bytes[0]));
        lemma_part_first(parts[0], bytes[0], others.flatten());
        assert(seq![bytes[0]] + rest =~= bytes);
    }
}

/// A quoted path gives back the path that it was written for, whichever of its bytes were escaped
/// and by which of the escapes.
pub proof fn lemma_quoted_path_is_decoded(
    written: Seq<char>,
    parts: Seq<Seq<u8>>,
    path: Seq<char>,
)
    requires
        encode_utf8(written) == parts.flatten(),
        spell_all(parts, encode_utf8(path)),
    ensures
        unquoted(written) == Some(path),
{
    lemma_parts(parts, encode_utf8(path));
    encode_utf8_valid_utf8(path);
    encode_utf8_decode_utf8(path);
}

/// The letter that stands for a byte behind a backslash.
pub open spec fn escape_letter(byte: u8) -> Option<u8> {
    if byte == 0x07 {
        Some(0x61)
    } else if byte == 0x08 {
        Some(0x62)
    } else if byte == 0x09 {
        Some(0x74)
    } else if byte == 0x0a {
        Some(0x6e)
    } else if byte == 0x0b {
        Some(0x76)
    } else if byte == 0x0c {
        Some(0x66)
    } else if byte == 0x0d {
        Some(0x72)
    } else if byte == 0x5c || byte == 0x22 {
        Some(byte)
    } else {
        None
    }
}

/// A byte of a path as Git quotes it: by its letter where it has one, by three octal digits where
/// it is not printable ASCII, and otherwise as it is.
pub open spec fn quoted_byte(byte: u8) -> Seq<u8> {
    match escape_letter(byte) {
        Some(letter) => seq![0x5cu8, letter],
        None => if byte < 0x20 || byte >= 0x7f {
            seq![
                0x5cu8,
                (0x30 + byte / 64) as u8,
                (0x30 + (byte / 8) % 8) as u8,
                (0x30 + byte % 8) as u8,
            ]
        } else {
            seq![byte]
        },
    }
}

/// The bytes of a path, each as Git quotes it.
pub open spec fn quoted_parts(path: Seq<char>) -> Seq<Seq<u8>> {
    encode_utf8(path).map_values(|byte: u8| quoted_byte(byte))
}

/// A path as Git quotes it, without the quotation marks.
pub open spec fn quoted(path: Seq<char>) -> Seq<char> {
    quoted_parts(path).flatten().map_values(|byte: u8| byte as char)
}

proof fn lemma_quoted_byte(byte: u8)
    ensures
        spells(quoted_byte(byte), byte),
        forall|i: int| 0 <= i < quoted_byte(byte).len() ==> #[trigger] quoted_byte(byte)[i] < 0x80,
{
    let part = quoted_byte(byte);
    if escape_letter(byte) is None && (byte < 0x20 || byte >= 0x7f) {
        let high = byte / 64;
        let middle = (byte / 8) % 8;
        let low = byte % 8;
        assert(high <= 3 && middle <= 7 && low <= 7);
        assert(byte / 64 == (byte / 8) / 8);
        assert(byte == high * 64 + middle * 8 + low);
    }
}

proof fn lemma_small_parts(parts: Seq<Seq<u8>>)
    requires
        forall|i: int, j: int|
            0 <= i < parts.len() && 0 <= j < parts[i].len() ==> #[trigger] parts[i][j] < 0x80,
    ensures
        forall|k: int| 0 <= k < parts.flatten().len() ==> #[trigger] parts.flatten()[k] < 0x80,
    decreases parts.len(),
{
    if parts.len() > 0 {
        let others = parts.drop_first();
        assert forall|i: int, j: int|
            0 <= i < others.len() && 0 <= j < others[i].len() implies #[trigger] others[i][j]
            < 0x80 by {
            assert(others[i][j] == parts[i + 1][j]);
        }
        lemma_small_parts(others);
        let all = parts.flatten();
        assert forall|k: int| 0 <= k < all.len() implies #[trigger] all[k] < 0x80 by {
            if k < parts[0].len() {
                assert(all[k] == parts[0][k]);
            } else {
                assert(all[k] == others.flatten()[k - parts[0].len()]);
            }
        }
    }
}

/// Decoding a path that Git has quoted gives the path back.
pub proof fn lemma_git_quoting_is_undone(path: Seq<char>)
    ensures
        unquoted(quoted(path)) == Some(path),
{
    let bytes = encode_utf8(path);
    let parts = quoted_parts(path);
    assert forall|i: int| 0 <= i < bytes.len() implies spells(#[trigger] parts[i], bytes[i]) by {
        lemma_quoted_byte(bytes[i]);
    }
    assert forall|i: int, j: int| 0 <= i < parts.len() && 0 <= j < parts[i].len() implies
        #[trigger] parts[i][j] < 0x80 by {
        lemma_quoted_byte(bytes[i]);
    }
    lemma_small_parts(parts);
    let text = quoted(path);
    let all = parts.flatten();
    assert forall|i: int| 0 <= i < text.len() implies '\0' <= #[trigger] text[i] <= '\u{7f}' by {
        assert(text[i] == all[i] as char);
        assert(all[i] < 0x80);
    }
    is_ascii_chars_encode_utf8(text);
    assert forall|i: int| 0 <= i < all.len() implies encode_utf8(text)[i] == all[i] by {
        assert(text[i] as u8 == encode_utf8(text)[i]);
        assert(text[i] == all[i] as char);
        assert(all[i] < 0x80);
    }
    assert(encode_utf8(text) =~= all);
    lemma_quoted_path_is_decoded(text, parts, path);
}

/// The header of a file gives back the path that it was written for, behind the mark of either
/// version: quoted as Git quotes it, and as it is where it does not end with white space.
pub proof fn lemma_header_path_is_read_back(path: Seq<char>, modified: bool)
    ensures
        ({
            let marked = (if modified {
                "b/"@
            } else {
                "a/"@
            }) + path;
            &&& header_path("\""@ + quoted(marked) + "\""@) == Some(path)
            &&& (path.len() == 0 || !is_space(path.last())) ==> header_path(marked) == Some(path)
        }),
{
    reveal_strlit("a/");
    reveal_strlit("b/");
    reveal_strlit("\"");
    let marked = (if modified {
        "b/"@
    } else {
        "a/"@
    }) + path;
    assert(marked.skip(2) =~= path);
    assert(marked[0] == (if modified {
        'b'
    } else {
        'a'
    }));
    assert(modified ==> !"a/"@.is_prefix_of(marked)) by {
        assert("a/"@[0] == 'a');
    }
    assert("b/"@.is_prefix_of(marked) || "a/"@.is_prefix_of(marked));
    assert(without_version(marked) == path);
    lemma_git_quoting_is_undone(marked);
    let raw = "\""@ + quoted(marked) + "\""@;
    assert(raw[0] == '"' && raw.last() == '"');
    assert(trimmed(raw) == raw);
    assert("\""@.is_prefix_of(raw));
    assert(raw.skip(1) =~= quoted(marked) + "\""@);
    assert("\""@.is_suffix_of(raw.skip(1)));
    assert(raw.skip(1).take(raw.skip(1).len() - 1) =~= quoted(marked));
    assert(between_quotes(raw) == Some(quoted(marked)));
    if path.len() == 0 || !is_space(path.last()) {
        assert(!is_space(marked.last()));
        assert(trimmed(marked) == marked);
        assert(!"\""@.is_prefix_of(marked)) by {
            assert("\""@[0] == '"');
        }
    }
}

} // verus!
