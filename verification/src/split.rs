//! Texts taken apart at separators and put together again.
use vstd::prelude::*;
use vstd::string::StringExecFns;
use crate::text::{characters, same, slice, views};

verus! {

/// The pieces of a text between the occurrences of a separator.
pub open spec fn split_on(text: Seq<char>, separator: char) -> Seq<Seq<char>>
    decreases text.len(),
{
    if text.len() == 0 {
        seq![Seq::empty()]
    } else {
        let before = split_on(text.drop_last(), separator);
        if text.last() == separator {
            before.push(Seq::empty())
        } else {
            before.drop_last().push(before.last().push(text.last()))
        }
    }
}

/// The pieces of a text between its white space characters.
pub open spec fn split_at_spaces(text: Seq<char>) -> Seq<Seq<char>>
    decreases text.len(),
{
    if text.len() == 0 {
        seq![Seq::empty()]
    } else {
        let before = split_at_spaces(text.drop_last());
        if crate::text::is_space(text.last()) {
            before.push(Seq::empty())
        } else {
            before.drop_last().push(before.last().push(text.last()))
        }
    }
}

/// The words of a text: what stands between runs of white space.
pub open spec fn words(text: Seq<char>) -> Seq<Seq<char>> {
    split_at_spaces(text).filter(|word: Seq<char>| word.len() > 0)
}

/// The parts one after the other, with the separator between each two of them.
pub open spec fn join(parts: Seq<Seq<char>>, separator: Seq<char>) -> Seq<char>
    decreases parts.len(),
{
    if parts.len() == 0 {
        Seq::empty()
    } else if parts.len() == 1 {
        parts[0]
    } else {
        join(parts.drop_last(), separator) + separator + parts.last()
    }
}

/// The text with each run of white space replaced by one space, and none on either side.
pub open spec fn compacted(text: Seq<char>) -> Seq<char> {
    join(words(text), " "@)
}

/// A line without the carriage return that it ends with.
pub open spec fn without_return(line: Seq<char>) -> Seq<char> {
    if line.len() > 0 && line.last() == '\r' {
        line.drop_last()
    } else {
        line
    }
}

/// The lines of a text. A line ends with a line feed, or a carriage return and a line feed,
/// neither of which belongs to it. What follows the last line feed is a line unless it is empty.
pub open spec fn lines_of(text: Seq<char>) -> Seq<Seq<char>> {
    let parts = split_on(text, '\n');
    let ended = parts.drop_last().map_values(|line: Seq<char>| without_return(line));
    if parts.last().len() == 0 {
        ended
    } else {
        ended.push(parts.last())
    }
}

/// What follows the last separator in a text, or all of it where there is none.
pub open spec fn last_piece(text: Seq<char>, separator: char) -> Seq<char> {
    split_on(text, separator).last()
}

/// Appends a part to a list of parts.
pub fn push_part(parts: &mut Vec<String>, part: String)
    ensures
        views(final(parts)@) == views(old(parts)@).push(part@),
{
    parts.push(part);
    assert(views(parts@) =~= views(old(parts)@).push(part@));
}

/// Whether a list holds a text.
pub fn holds_text(texts: &Vec<String>, text: &str) -> (r: bool)
    ensures
        r == views(texts@).contains(text@),
{
    for i in 0..texts.len()
        invariant
            forall|j: int| 0 <= j < i ==> views(texts@)[j] != text@,
    {
        if same(texts[i].as_str(), text) {
            assert(views(texts@)[i as int] == text@);
            return true;
        }
    }
    false
}

/// The pieces of a text between the occurrences of a separator.
pub fn split(text: &str, separator: char) -> (r: Vec<String>)
    ensures
        views(r@) == split_on(text@, separator),
{
    let t = characters(text);
    let mut parts: Vec<String> = Vec::new();
    let mut current = String::new();
    assert(views(parts@) =~= Seq::empty());
    assert(t@.take(0) =~= Seq::empty());
    assert(split_on(t@.take(0), separator) =~= views(parts@).push(current@));
    for i in 0..t.len()
        invariant
            t@ == text@,
            split_on(t@.take(i as int), separator) == views(parts@).push(current@),
    {
        proof {
            assert(t@.take(i + 1).drop_last() =~= t@.take(i as int));
            let before = split_on(t@.take(i as int), separator);
            assert(before.drop_last() =~= views(parts@));
            assert(before.last() == current@);
        }
        if t[i] == separator {
            push_part(&mut parts, current);
            current = String::new();
        } else {
            current.push(t[i]);
        }
    }
    assert(t@.take(t@.len() as int) =~= t@);
    push_part(&mut parts, current);
    parts
}

/// What follows the last separator in a text, or all of it where there is none.
pub fn after_last(text: &str, separator: char) -> (r: String)
    ensures
        r@ == last_piece(text@, separator),
{
    let t = characters(text);
    let mut current = String::new();
    assert(t@.take(0) =~= Seq::empty());
    for i in 0..t.len()
        invariant
            t@ == text@,
            split_on(t@.take(i as int), separator).last() == current@,
            split_on(t@.take(i as int), separator).len() > 0,
    {
        assert(t@.take(i + 1).drop_last() =~= t@.take(i as int));
        if t[i] == separator {
            current = String::new();
        } else {
            current.push(t[i]);
        }
    }
    assert(t@.take(t@.len() as int) =~= t@);
    current
}

/// The lines of a text.
pub fn lines(text: &str) -> (r: Vec<String>)
    ensures
        views(r@) == lines_of(text@),
{
    let t = characters(text);
    let mut parts: Vec<String> = Vec::new();
    let mut current: Vec<char> = Vec::new();
    let ghost mut raw: Seq<Seq<char>> = Seq::empty();
    assert(t@.take(0) =~= Seq::empty());
    assert(split_on(t@.take(0), '\n') =~= raw.push(current@));
    assert(views(parts@) =~= raw.map_values(|line: Seq<char>| without_return(line)));
    for i in 0..t.len()
        invariant
            t@ == text@,
            split_on(t@.take(i as int), '\n') == raw.push(current@),
            views(parts@) == raw.map_values(|line: Seq<char>| without_return(line)),
    {
        proof {
            assert(t@.take(i + 1).drop_last() =~= t@.take(i as int));
            let before = split_on(t@.take(i as int), '\n');
            assert(before.drop_last() =~= raw);
            assert(before.last() == current@);
        }
        if t[i] == '\n' {
            let end: usize = if current.len() > 0 && current[current.len() - 1] == '\r' {
                current.len() - 1
            } else {
                current.len()
            };
            let line = slice(&current, 0, end);
            assert(line@ =~= without_return(current@));
            push_part(&mut parts, line);
            proof {
                assert(raw.push(current@).map_values(|line: Seq<char>| without_return(line))
                    =~= raw.map_values(|line: Seq<char>| without_return(line)).push(line@));
                raw = raw.push(current@);
            }
            current = Vec::new();
        } else {
            current.push(t[i]);
        }
    }
    assert(t@.take(t@.len() as int) =~= t@);
    assert(split_on(t@, '\n').drop_last() =~= raw);
    if current.len() > 0 {
        let line = slice(&current, 0, current.len());
        assert(line@ =~= current@);
        push_part(&mut parts, line);
    }
    parts
}

/// The parts one after the other, with the separator between each two of them.
pub fn join_parts(parts: &Vec<String>, separator: &str) -> (r: String)
    ensures
        r@ == join(views(parts@), separator@),
{
    let mut out = String::new();
    let ghost all = views(parts@);
    for i in 0..parts.len()
        invariant
            all == views(parts@),
            out@ == join(all.take(i as int), separator@),
    {
        assert(all.take(i + 1).drop_last() =~= all.take(i as int));
        assert(all.take(i + 1).last() == parts@[i as int]@);
        if i > 0 {
            out.append(separator);
            out.append(parts[i].as_str());
        } else {
            assert(all.take(1)[0] == parts@[0]@);
            assert(out@ =~= Seq::empty());
            out.append(parts[i].as_str());
            assert(out@ =~= parts@[0]@);
        }
    }
    assert(all.take(parts@.len() as int) =~= all);
    out
}

/// The text with each run of white space replaced by one space, and none on either side.
pub fn compact(value: &str) -> (r: String)
    ensures
        r@ == compacted(value@),
{
    let t = characters(value);
    let mut parts: Vec<String> = Vec::new();
    let mut current = String::new();
    let ghost full = |word: Seq<char>| word.len() > 0;
    let ghost mut raw: Seq<Seq<char>> = Seq::empty();
    assert(t@.take(0) =~= Seq::empty());
    assert(split_at_spaces(t@.take(0)) =~= raw.push(current@));
    assert(raw.filter(full) =~= Seq::empty()) by {
        reveal(Seq::filter);
    }
    assert(views(parts@) =~= raw.filter(full));
    for i in 0..t.len()
        invariant
            t@ == value@,
            full == (|word: Seq<char>| word.len() > 0),
            split_at_spaces(t@.take(i as int)) == raw.push(current@),
            views(parts@) == raw.filter(full),
    {
        proof {
            assert(t@.take(i + 1).drop_last() =~= t@.take(i as int));
            let before = split_at_spaces(t@.take(i as int));
            assert(before.drop_last() =~= raw);
            assert(before.last() == current@);
        }
        if crate::text::is_whitespace(t[i]) {
            proof {
                reveal(Seq::filter);
                assert(raw.push(current@).drop_last() =~= raw);
                raw = raw.push(current@);
            }
            if !current.as_str().is_empty() {
                push_part(&mut parts, current);
            }
            current = String::new();
        } else {
            current.push(t[i]);
        }
    }
    assert(t@.take(t@.len() as int) =~= t@);
    proof {
        reveal(Seq::filter);
        assert(raw.push(current@).drop_last() =~= raw);
    }
    if !current.as_str().is_empty() {
        push_part(&mut parts, current);
    }
    join_parts(&parts, " ")
}

/// A text has at least one piece between separators.
pub proof fn lemma_split_not_empty(text: Seq<char>, separator: char)
    ensures
        split_on(text, separator).len() > 0,
    decreases text.len(),
{
    if text.len() > 0 {
        lemma_split_not_empty(text.drop_last(), separator);
    }
}

} // verus!
