//! Text as sequences of characters: searching, splitting, trimming, joining and numbers.
use vstd::prelude::*;
use vstd::string::StringExecFns;

verus! {

/// The sequences of characters that a sequence of strings holds.
pub open spec fn views(parts: Seq<String>) -> Seq<Seq<char>> {
    parts.map_values(|part: String| part@)
}

/// The characters that an optional string holds.
pub open spec fn opt_view(text: Option<String>) -> Option<Seq<char>> {
    match text {
        Some(text) => Some(text@),
        None => None,
    }
}

/// The characters that an optional borrowed text holds.
pub open spec fn opt_str_view(text: Option<&str>) -> Option<Seq<char>> {
    match text {
        Some(text) => Some(text@),
        None => None,
    }
}

/// `std::string::String::push` appends one character to the end of the string.
pub assume_specification[ String::push ](text: &mut String, character: char)
    ensures
        final(text)@ == old(text)@.push(character),
;

/// The message of the fault that `std::string::String::from_utf8` finds in bytes that are no
/// UTF-8.
pub uninterp spec fn utf8_fault(bytes: Seq<u8>) -> Seq<char>;

/// The text whose UTF-8 encoding is `bytes`, or the message of the fault in them.
///
/// Calls `std::string::String::from_utf8`, which succeeds exactly on valid UTF-8 and then
/// holds the characters that the bytes encode. The message of a fault depends on the bytes alone.
#[verifier::external_body]
pub(crate) fn text_from_utf8(bytes: Vec<u8>) -> (r: Result<String, String>)
    ensures
        r is Ok <==> vstd::utf8::valid_utf8(bytes@),
        r matches Ok(text) ==> text@ == vstd::utf8::decode_utf8(bytes@),
        r matches Err(fault) ==> fault@ == utf8_fault(bytes@),
{
    String::from_utf8(bytes).map_err(|fault| fault.to_string())
}

/// The text that `std::string::String::from_utf8_lossy` reads in bytes.
pub uninterp spec fn lossy_text(bytes: Seq<u8>) -> Seq<char>;

/// The text of bytes of which some may be no UTF-8.
///
/// Calls `std::string::String::from_utf8_lossy`. The outcome depends on the bytes alone, and is
/// the text that they encode where they are valid UTF-8.
#[verifier::external_body]
pub(crate) fn text_from_utf8_lossy(bytes: &Vec<u8>) -> (r: String)
    ensures
        r@ == lossy_text(bytes@),
        vstd::utf8::valid_utf8(bytes@) ==> r@ == vstd::utf8::decode_utf8(bytes@),
{
    String::from_utf8_lossy(bytes).into_owned()
}

/// The characters of a text, in order.
pub fn characters(text: &str) -> (r: Vec<char>)
    ensures
        r@ == text@,
{
    let mut out: Vec<char> = Vec::new();
    for c in it: text.chars()
        invariant
            out@ == it.seq().take(it.index()),
            it.seq() == text@,
    {
        out.push(c);
    }
    out
}

/// The text made of the characters from index `from` up to index `to`.
pub fn slice(characters: &Vec<char>, from: usize, to: usize) -> (r: String)
    requires
        from <= to <= characters@.len(),
    ensures
        r@ == characters@.subrange(from as int, to as int),
{
    let mut out = String::new();
    for i in from..to
        invariant
            from <= i <= to <= characters@.len(),
            out@ == characters@.subrange(from as int, i as int),
    {
        out.push(characters[i]);
        assert(characters@.subrange(from as int, i + 1) == characters@.subrange(
            from as int,
            i as int,
        ).push(characters@[i as int]));
    }
    out
}

/// A copy of the text that a string holds.
pub fn copy(text: &str) -> (r: String)
    ensures
        r@ == text@,
{
    text.to_owned()
}

/// A copy of an optional string.
pub fn copy_option(text: &Option<String>) -> (r: Option<String>)
    ensures
        opt_view(r) == opt_view(*text),
{
    match text {
        Some(text) => Some(copy(text.as_str())),
        None => None,
    }
}

/// A borrowed view of an optional string.
pub fn borrow_option(text: &Option<String>) -> (r: Option<&str>)
    ensures
        opt_str_view(r) == opt_view(*text),
{
    match text {
        Some(text) => Some(text.as_str()),
        None => None,
    }
}

/// Whether two texts hold the same characters.
pub fn same(left: &str, right: &str) -> (r: bool)
    ensures
        r == (left@ == right@),
{
    let mut l = left.chars();
    let mut r = right.chars();
    let ghost mut done: int = 0;
    assert(left@.skip(0) == left@);
    assert(right@.skip(0) == right@);
    loop
        invariant
            0 <= done <= left@.len(),
            done <= right@.len(),
            vstd::std_specs::iter::IteratorSpec::remaining(&l) == left@.skip(done),
            vstd::std_specs::iter::IteratorSpec::remaining(&r) == right@.skip(done),
            left@.take(done) == right@.take(done),
            vstd::std_specs::iter::IteratorSpec::obeys_prophetic_iter_laws(&l),
            vstd::std_specs::iter::IteratorSpec::obeys_prophetic_iter_laws(&r),
        decreases left@.len() - done,
    {
        match (l.next(), r.next()) {
            (None, None) => {
                assert(left@ == left@.take(done));
                assert(right@ == right@.take(done));
                return true;
            },
            (Some(a), Some(b)) => {
                assert(a == left@[done]);
                assert(b == right@[done]);
                if a != b {
                    return false;
                }
                proof {
                    assert(left@.skip(done).drop_first() == left@.skip(done + 1));
                    assert(right@.skip(done).drop_first() == right@.skip(done + 1));
                    assert(left@.take(done + 1) == left@.take(done).push(a));
                    assert(right@.take(done + 1) == right@.take(done).push(a));
                    done = done + 1;
                }
            },
            _ => {
                return false;
            },
        }
    }
}

/// Whether `text` begins with `prefix`.
pub fn starts_with(text: &str, prefix: &str) -> (r: bool)
    ensures
        r == prefix@.is_prefix_of(text@),
{
    let mut t = text.chars();
    let mut p = prefix.chars();
    let ghost mut done: int = 0;
    assert(text@.skip(0) == text@);
    assert(prefix@.skip(0) == prefix@);
    loop
        invariant
            0 <= done <= text@.len(),
            done <= prefix@.len(),
            vstd::std_specs::iter::IteratorSpec::remaining(&t) == text@.skip(done),
            vstd::std_specs::iter::IteratorSpec::remaining(&p) == prefix@.skip(done),
            text@.take(done) == prefix@.take(done),
            vstd::std_specs::iter::IteratorSpec::obeys_prophetic_iter_laws(&t),
            vstd::std_specs::iter::IteratorSpec::obeys_prophetic_iter_laws(&p),
        decreases text@.len() - done,
    {
        match p.next() {
            None => {
                assert(prefix@ == prefix@.take(done));
                assert(prefix@ == text@.subrange(0, done));
                return true;
            },
            Some(b) => {
                assert(b == prefix@[done]);
                match t.next() {
                    None => {
                        return false;
                    },
                    Some(a) => {
                        assert(a == text@[done]);
                        if a != b {
                            assert(text@.subrange(0, prefix@.len() as int)[done] == a || text@.len()
                                < prefix@.len());
                            return false;
                        }
                        proof {
                            assert(text@.skip(done).drop_first() == text@.skip(done + 1));
                            assert(prefix@.skip(done).drop_first() == prefix@.skip(done + 1));
                            assert(text@.take(done + 1) == text@.take(done).push(a));
                            assert(prefix@.take(done + 1) == prefix@.take(done).push(a));
                            done = done + 1;
                        }
                    },
                }
            },
        }
    }
}

/// The first character of a text.
pub fn first_character(text: &str) -> (r: Option<char>)
    ensures
        r == (if text@.len() > 0 {
            Some(text@[0])
        } else {
            None
        }),
{
    let mut t = text.chars();
    t.next()
}

/// Whether `text` ends with `suffix`.
pub fn ends_with(text: &str, suffix: &str) -> (r: bool)
    ensures
        r == suffix@.is_suffix_of(text@),
{
    let t = characters(text);
    let s = characters(suffix);
    if s.len() > t.len() {
        return false;
    }
    let start: usize = t.len() - s.len();
    for i in 0..s.len()
        invariant
            s@ == suffix@,
            t@ == text@,
            start == t.len() - s.len(),
            forall|j: int| 0 <= j < i ==> t@[start + j] == s@[j],
    {
        if t[start + i] != s[i] {
            assert(t@.subrange(start as int, t@.len() as int)[i as int] == t@[start + i]);
            return false;
        }
    }
    assert(s@ == t@.subrange(start as int, t@.len() as int));
    true
}

/// What follows `prefix` in `text`, where `text` begins with it.
pub open spec fn without_prefix(text: Seq<char>, prefix: Seq<char>) -> Option<Seq<char>> {
    if prefix.is_prefix_of(text) {
        Some(text.skip(prefix.len() as int))
    } else {
        None
    }
}

/// What precedes `suffix` in `text`, where `text` ends with it.
pub open spec fn without_suffix(text: Seq<char>, suffix: Seq<char>) -> Option<Seq<char>> {
    if suffix.is_suffix_of(text) {
        Some(text.take(text.len() - suffix.len()))
    } else {
        None
    }
}

/// What follows `prefix` in `text`, where `text` begins with it.
pub fn strip_prefix(text: &str, prefix: &str) -> (r: Option<String>)
    ensures
        opt_view(r) == without_prefix(text@, prefix@),
{
    if starts_with(text, prefix) {
        let t = characters(text);
        let p = characters(prefix);
        Some(slice(&t, p.len(), t.len()))
    } else {
        None
    }
}

/// What precedes `suffix` in `text`, where `text` ends with it.
pub fn strip_suffix(text: &str, suffix: &str) -> (r: Option<String>)
    ensures
        opt_view(r) == without_suffix(text@, suffix@),
{
    if ends_with(text, suffix) {
        let t = characters(text);
        let s = characters(suffix);
        Some(slice(&t, 0, t.len() - s.len()))
    } else {
        None
    }
}

/// Whether `pattern` stands in `text` at index `at`.
pub open spec fn occurs_at(text: Seq<char>, pattern: Seq<char>, at: int) -> bool {
    0 <= at && at + pattern.len() <= text.len() && text.subrange(at, at + pattern.len()) == pattern
}

/// The first index, from `from` on, at which `pattern` stands in `text`.
pub open spec fn first_index(text: Seq<char>, pattern: Seq<char>, from: int) -> Option<int>
    decreases text.len() - from + 1,
{
    if from + pattern.len() > text.len() {
        None
    } else if occurs_at(text, pattern, from) {
        Some(from)
    } else {
        first_index(text, pattern, from + 1)
    }
}

/// The last index, up to `from`, at which `pattern` stands in `text`.
pub open spec fn last_index(text: Seq<char>, pattern: Seq<char>, from: int) -> Option<int>
    decreases from + 1,
{
    if from < 0 {
        None
    } else if occurs_at(text, pattern, from) {
        Some(from)
    } else {
        last_index(text, pattern, from - 1)
    }
}

/// Whether `pattern` stands anywhere in `text`.
pub open spec fn contains_text(text: Seq<char>, pattern: Seq<char>) -> bool {
    exists|at: int| occurs_at(text, pattern, at)
}

/// What precedes and what follows the first `pattern` in `text`.
pub open spec fn split_first(text: Seq<char>, pattern: Seq<char>) -> Option<(Seq<char>, Seq<char>)> {
    match first_index(text, pattern, 0) {
        Some(at) => Some((text.take(at), text.skip(at + pattern.len()))),
        None => None,
    }
}

/// What precedes and what follows the last `pattern` in `text`.
pub open spec fn split_last(text: Seq<char>, pattern: Seq<char>) -> Option<(Seq<char>, Seq<char>)> {
    match last_index(text, pattern, text.len() - pattern.len()) {
        Some(at) => Some((text.take(at), text.skip(at + pattern.len()))),
        None => None,
    }
}

/// The pair of texts that a pair of strings holds.
pub open spec fn pair_view(pair: (String, String)) -> (Seq<char>, Seq<char>) {
    (pair.0@, pair.1@)
}

/// The pair of texts that an optional pair of strings holds.
pub open spec fn opt_pair_view(pair: Option<(String, String)>) -> Option<(Seq<char>, Seq<char>)> {
    match pair {
        Some(pair) => Some(pair_view(pair)),
        None => None,
    }
}

proof fn lemma_first_index(text: Seq<char>, pattern: Seq<char>, from: int)
    requires
        0 <= from,
    ensures
        first_index(text, pattern, from) matches Some(at) ==> from <= at && occurs_at(text, pattern, at),
        first_index(text, pattern, from) is None ==> forall|at: int|
            from <= at ==> !occurs_at(text, pattern, at),
    decreases text.len() - from + 1,
{
    if from + pattern.len() <= text.len() && !occurs_at(text, pattern, from) {
        lemma_first_index(text, pattern, from + 1);
    }
}

fn matches_at(text: &Vec<char>, pattern: &Vec<char>, at: usize) -> (r: bool)
    requires
        at + pattern.len() <= text.len(),
    ensures
        r == occurs_at(text@, pattern@, at as int),
{
    for i in 0..pattern.len()
        invariant
            at + pattern.len() <= text.len(),
            forall|j: int| 0 <= j < i ==> text@[at + j] == pattern@[j],
    {
        if text[at + i] != pattern[i] {
            assert(text@.subrange(at as int, at + pattern@.len())[i as int] == text@[at + i]);
            return false;
        }
    }
    assert(text@.subrange(at as int, at + pattern@.len()) == pattern@);
    true
}

fn find_from(text: &Vec<char>, pattern: &Vec<char>) -> (r: Option<usize>)
    ensures
        r matches Some(at) ==> first_index(text@, pattern@, 0) == Some(at as int) && at
            + pattern.len() <= text.len(),
        r is None ==> first_index(text@, pattern@, 0) is None,
{
    if pattern.len() > text.len() {
        return None;
    }
    let last: usize = text.len() - pattern.len();
    let mut at: usize = 0;
    loop
        invariant
            last == text@.len() - pattern@.len(),
            at <= last,
            first_index(text@, pattern@, 0) == first_index(text@, pattern@, at as int),
        decreases last - at,
    {
        if matches_at(text, pattern, at) {
            return Some(at);
        }
        if at == last {
            assert(first_index(text@, pattern@, at + 1) is None);
            return None;
        }
        at = at + 1;
    }
}

fn find_back(text: &Vec<char>, pattern: &Vec<char>) -> (r: Option<usize>)
    ensures
        r matches Some(at) ==> last_index(text@, pattern@, text@.len() - pattern@.len()) == Some(
            at as int,
        ) && at + pattern.len() <= text.len(),
        r is None ==> last_index(text@, pattern@, text@.len() - pattern@.len()) is None,
{
    if pattern.len() > text.len() {
        return None;
    }
    let mut at: usize = text.len() - pattern.len();
    loop
        invariant
            at + pattern.len() <= text.len(),
            last_index(text@, pattern@, text@.len() - pattern@.len()) == last_index(
                text@,
                pattern@,
                at as int,
            ),
        decreases at,
    {
        if matches_at(text, pattern, at) {
            return Some(at);
        }
        if at == 0 {
            assert(last_index(text@, pattern@, -1) is None);
            return None;
        }
        at = at - 1;
    }
}

/// Whether `pattern` stands anywhere in `text`.
pub fn contains(text: &str, pattern: &str) -> (r: bool)
    ensures
        r == contains_text(text@, pattern@),
{
    let t = characters(text);
    let p = characters(pattern);
    let found = find_from(&t, &p);
    proof {
        lemma_first_index(t@, p@, 0);
    }
    found.is_some()
}

/// What precedes and what follows the first `pattern` in `text`.
pub fn split_once(text: &str, pattern: &str) -> (r: Option<(String, String)>)
    ensures
        opt_pair_view(r) == split_first(text@, pattern@),
{
    let t = characters(text);
    let p = characters(pattern);
    match find_from(&t, &p) {
        Some(at) => Some((slice(&t, 0, at), slice(&t, at + p.len(), t.len()))),
        None => None,
    }
}

/// What precedes and what follows the last `pattern` in `text`.
pub fn rsplit_once(text: &str, pattern: &str) -> (r: Option<(String, String)>)
    ensures
        opt_pair_view(r) == split_last(text@, pattern@),
{
    let t = characters(text);
    let p = characters(pattern);
    match find_back(&t, &p) {
        Some(at) => Some((slice(&t, 0, at), slice(&t, at + p.len(), t.len()))),
        None => None,
    }
}

/// Whether a character has the Unicode property White_Space.
pub open spec fn is_space(c: char) -> bool {
    ||| 0x09 <= c as u32 <= 0x0d
    ||| c as u32 == 0x20
    ||| c as u32 == 0x85
    ||| c as u32 == 0xa0
    ||| c as u32 == 0x1680
    ||| 0x2000 <= c as u32 <= 0x200a
    ||| c as u32 == 0x2028
    ||| c as u32 == 0x2029
    ||| c as u32 == 0x202f
    ||| c as u32 == 0x205f
    ||| c as u32 == 0x3000
}

/// Whether a character has the Unicode property White_Space.
pub fn is_whitespace(c: char) -> (r: bool)
    ensures
        r == is_space(c),
{
    let code: u32 = c as u32;
    (0x09 <= code && code <= 0x0d) || code == 0x20 || code == 0x85 || code == 0xa0 || code == 0x1680
        || (0x2000 <= code && code <= 0x200a) || code == 0x2028 || code == 0x2029 || code == 0x202f
        || code == 0x205f || code == 0x3000
}

/// The text without the white space that it begins with.
pub open spec fn trim_start(text: Seq<char>) -> Seq<char>
    decreases text.len(),
{
    if text.len() > 0 && is_space(text[0]) {
        trim_start(text.skip(1))
    } else {
        text
    }
}

/// The text without the white space that it ends with.
pub open spec fn trim_end(text: Seq<char>) -> Seq<char>
    decreases text.len(),
{
    if text.len() > 0 && is_space(text.last()) {
        trim_end(text.drop_last())
    } else {
        text
    }
}

/// The text without the white space on either side.
pub open spec fn trimmed(text: Seq<char>) -> Seq<char> {
    trim_end(trim_start(text))
}

/// Whether nothing is left of the text without its white space.
pub open spec fn is_blank(text: Seq<char>) -> bool {
    trimmed(text).len() == 0
}

fn text_start(t: &Vec<char>) -> (from: usize)
    ensures
        from <= t.len(),
        trim_start(t@) == t@.skip(from as int),
{
    let mut from: usize = 0;
    assert(t@.skip(0) == t@);
    while from < t.len() && is_whitespace(t[from])
        invariant
            from <= t.len(),
            trim_start(t@) == trim_start(t@.skip(from as int)),
        decreases t.len() - from,
    {
        assert(t@.skip(from as int).skip(1) == t@.skip(from + 1));
        from = from + 1;
    }
    from
}

fn text_end(t: &Vec<char>, from: usize) -> (to: usize)
    requires
        from <= t.len(),
    ensures
        from <= to <= t.len(),
        trim_end(t@.skip(from as int)) == t@.subrange(from as int, to as int),
{
    let mut to: usize = t.len();
    assert(t@.skip(from as int) == t@.subrange(from as int, to as int));
    while to > from && is_whitespace(t[to - 1])
        invariant
            from <= to <= t.len(),
            trim_end(t@.skip(from as int)) == trim_end(t@.subrange(from as int, to as int)),
        decreases to,
    {
        assert(t@.subrange(from as int, to as int).drop_last() == t@.subrange(from as int, to - 1));
        to = to - 1;
    }
    to
}

/// The text without the white space on either side.
pub fn trim(text: &str) -> (r: String)
    ensures
        r@ == trimmed(text@),
{
    let t = characters(text);
    let from = text_start(&t);
    let to = text_end(&t, from);
    slice(&t, from, to)
}

/// Whether nothing is left of the text without its white space.
pub fn blank(text: &str) -> (r: bool)
    ensures
        r == is_blank(text@),
{
    trim(text).as_str().is_empty()
}

/// The text without the characters `c` that it begins with.
pub open spec fn trim_start_of(text: Seq<char>, c: char) -> Seq<char>
    decreases text.len(),
{
    if text.len() > 0 && text[0] == c {
        trim_start_of(text.skip(1), c)
    } else {
        text
    }
}

/// The text without the characters `c` that it ends with.
pub open spec fn trim_end_of(text: Seq<char>, c: char) -> Seq<char>
    decreases text.len(),
{
    if text.len() > 0 && text.last() == c {
        trim_end_of(text.drop_last(), c)
    } else {
        text
    }
}

/// The text without the characters `c` that it begins with.
pub fn trim_start_matches(text: &str, c: char) -> (r: String)
    ensures
        r@ == trim_start_of(text@, c),
{
    let t = characters(text);
    let mut from: usize = 0;
    assert(t@.skip(0) == t@);
    while from < t.len() && t[from] == c
        invariant
            from <= t@.len(),
            trim_start_of(t@, c) == trim_start_of(t@.skip(from as int), c),
        decreases t@.len() - from,
    {
        assert(t@.skip(from as int).skip(1) == t@.skip(from + 1));
        from = from + 1;
    }
    slice(&t, from, t.len())
}

/// The text without the characters `c` that it ends with.
pub fn trim_end_matches(text: &str, c: char) -> (r: String)
    ensures
        r@ == trim_end_of(text@, c),
{
    let t = characters(text);
    let mut to: usize = t.len();
    assert(t@.take(to as int) == t@);
    while to > 0 && t[to - 1] == c
        invariant
            to <= t@.len(),
            trim_end_of(t@, c) == trim_end_of(t@.take(to as int), c),
        decreases to,
    {
        assert(t@.take(to as int).drop_last() == t@.take(to - 1));
        to = to - 1;
    }
    assert(t@.subrange(0, to as int) == t@.take(to as int));
    slice(&t, 0, to)
}

/// A text is split at its last pattern into what it was put together from, where the pattern
/// stands between slashes and no slash follows it.
pub proof fn lemma_split_at_slashes(front: Seq<char>, pattern: Seq<char>, rest: Seq<char>)
    requires
        pattern.len() >= 2,
        pattern[0] == '/',
        pattern.last() == '/',
        forall|i: int| 0 < i < pattern.len() - 1 ==> pattern[i] != '/',
        !rest.contains('/'),
    ensures
        split_last(front + pattern + rest, pattern) == Some((front, rest)),
{
    let text = front + pattern + rest;
    assert(text.subrange(front.len() as int, (front.len() + pattern.len()) as int) =~= pattern);
    assert(occurs_at(text, pattern, front.len() as int));
    assert forall|at: int| front.len() < at implies !occurs_at(text, pattern, at) by {
        if occurs_at(text, pattern, at) {
            let found = text.subrange(at, at + pattern.len());
            let end = at + pattern.len() - 1;
            assert(found[pattern.len() - 1] == text[end]);
            assert(text[end] == rest[end - front.len() - pattern.len()]);
        }
    }
    lemma_last_index(text, pattern, front.len() as int, text.len() - pattern.len());
    assert(text.take(front.len() as int) =~= front);
    assert(text.skip((front.len() + pattern.len()) as int) =~= rest);
}

/// The first index of a pattern is one before which it does not stand.
pub proof fn lemma_first_found(text: Seq<char>, pattern: Seq<char>, at: int, from: int)
    requires
        0 <= from <= at,
        occurs_at(text, pattern, at),
        forall|earlier: int| from <= earlier < at ==> !occurs_at(text, pattern, earlier),
    ensures
        first_index(text, pattern, from) == Some(at),
    decreases at - from,
{
    if from < at {
        lemma_first_found(text, pattern, at, from + 1);
    }
}

/// The last index of a pattern is one behind which it does not stand.
pub proof fn lemma_last_index(text: Seq<char>, pattern: Seq<char>, at: int, from: int)
    requires
        at <= from,
        0 <= at,
        occurs_at(text, pattern, at),
        forall|later: int| at < later ==> !occurs_at(text, pattern, later),
    ensures
        last_index(text, pattern, from) == Some(at),
    decreases from,
{
    if from > at {
        lemma_last_index(text, pattern, at, from - 1);
    }
}

/// A text is not split at a pattern that it does not contain.
pub proof fn lemma_not_split(text: Seq<char>, pattern: Seq<char>, from: int)
    requires
        !contains_text(text, pattern),
    ensures
        last_index(text, pattern, from) is None,
    decreases from + 1,
{
    if from >= 0 {
        lemma_not_split(text, pattern, from - 1);
    }
}

} // verus!
