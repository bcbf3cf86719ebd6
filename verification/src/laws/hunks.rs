//! Which line of a file a line of a diff shows, counted from the header of its hunk.
use vstd::prelude::*;
use crate::diff::{
    begins_file, begins_hunk, diff_line_location, exhausts, file_line_location, first_selected,
    header_index, header_path, hunk_start, lemma_header, lemma_last_file, lemma_located,
    lemma_next_file, lemma_selected, location_from, next_file, numbers_at, row_at, segment_location,
    selection, DiffLineKind, DiffSide, LocationView, QueryView,
};
use crate::number::{decimal, is_digit, lemma_decimal_digits, lemma_decimal_unsigned};
use crate::split::lines_of;
use crate::text::{lemma_first_found, occurs_at, split_first};

verus! {

/// A range of lines in the header of a hunk: where it begins, and how many lines it has where
/// that is said.
pub open spec fn range_text(start: nat, count: Option<nat>) -> Seq<char> {
    match count {
        Some(count) => decimal(start) + ","@ + decimal(count),
        None => decimal(start),
    }
}

/// Whether a line is the header of a hunk that begins with a line of the original and a line of
/// the modified file: `@@ -a,b +c,d @@`, and anything behind it.
pub open spec fn heads_hunk(line: Seq<char>, original: nat, modified: nat) -> bool {
    exists|removed: Option<nat>, added: Option<nat>, tail: Seq<char>|
        line == #[trigger] header_text(original, removed, modified, added, tail)
}

/// The header of a hunk.
pub open spec fn header_text(
    original: nat,
    removed: Option<nat>,
    modified: nat,
    added: Option<nat>,
    tail: Seq<char>,
) -> Seq<char> {
    "@@ -"@ + range_text(original, removed) + " +"@ + range_text(modified, added) + " @@"@ + tail
}

/// The character that begins the lines of a diff that only one side has.
pub open spec fn mark(side: DiffSide) -> char {
    match side {
        DiffSide::Original => '-',
        DiffSide::Modified => '+',
    }
}

/// Whether a line of a hunk shows a line on a side.
pub open spec fn is_on(line: Seq<char>, side: DiffSide) -> bool {
    line.len() > 0 && (line[0] == ' ' || line[0] == mark(side))
}

/// How many lines from an index up to another show a line on a side.
pub open spec fn count_on(lines: Seq<Seq<char>>, side: DiffSide, from: int, to: int) -> nat
    decreases to - from,
{
    if to <= from {
        0
    } else {
        count_on(lines, side, from, to - 1) + if is_on(lines[to - 1], side) {
            1nat
        } else {
            0
        }
    }
}

proof fn lemma_range_has_no_blank(start: nat, count: Option<nat>)
    ensures
        !range_text(start, count).contains(' '),
        range_text(start, count).len() > 0,
        start <= u64::MAX ==> crate::diff::range_start(range_text(start, count)) == Some(start),
{
    reveal_strlit(",");
    lemma_decimal_digits(start);
    lemma_decimal_unsigned(start);
    let text = range_text(start, count);
    let digits = decimal(start);
    assert forall|i: int| 0 <= i < digits.len() implies digits[i] != ' ' && digits[i] != ',' by {
        assert(is_digit(digits[i]));
    }
    match count {
        Some(count) => {
            lemma_decimal_digits(count);
            let more = decimal(count);
            assert forall|i: int| 0 <= i < text.len() implies text[i] != ' ' by {
                if i < digits.len() {
                    assert(text[i] == digits[i]);
                } else if i > digits.len() {
                    assert(text[i] == more[i - digits.len() - 1]);
                    assert(is_digit(more[i - digits.len() - 1]));
                }
            }
            assert(text.subrange(digits.len() as int, digits.len() as int + 1) =~= ","@);
            assert forall|at: int| 0 <= at < digits.len() implies !occurs_at(text, ","@, at) by {
                if occurs_at(text, ","@, at) {
                    assert(text.subrange(at, at + 1)[0] == text[at]);
                    assert(text[at] == digits[at]);
                }
            }
            lemma_first_found(text, ","@, digits.len() as int, 0);
            assert(text.take(digits.len() as int) =~= digits);
        },
        None => {
            lemma_never(text, ',', 0);
            assert(","@ =~= seq![',']);
        },
    }
}

proof fn lemma_never(text: Seq<char>, c: char, from: int)
    requires
        0 <= from,
        forall|i: int| 0 <= i < text.len() ==> text[i] != c,
    ensures
        crate::text::first_index(text, seq![c], from) is None,
    decreases text.len() - from + 1,
{
    if from + 1 <= text.len() {
        if occurs_at(text, seq![c], from) {
            assert(text.subrange(from, from + 1)[0] == text[from]);
        }
        lemma_never(text, c, from + 1);
    }
}

proof fn lemma_split_at_blank(front: Seq<char>, rest: Seq<char>)
    requires
        !front.contains(' '),
    ensures
        split_first(front + " "@ + rest, " "@) == Some((front, rest)),
{
    reveal_strlit(" ");
    let text = front + " "@ + rest;
    assert(text.subrange(front.len() as int, front.len() as int + 1) =~= " "@);
    assert forall|at: int| 0 <= at < front.len() implies !occurs_at(text, " "@, at) by {
        if occurs_at(text, " "@, at) {
            assert(text.subrange(at, at + 1)[0] == text[at]);
            assert(text[at] == front[at]);
        }
    }
    lemma_first_found(text, " "@, front.len() as int, 0);
    assert(text.take(front.len() as int) =~= front);
    assert(text.skip(front.len() as int + 1) =~= rest);
}

/// The header of a hunk says where the hunk begins in either file.
pub proof fn lemma_header_is_read(
    original: nat,
    removed: Option<nat>,
    modified: nat,
    added: Option<nat>,
    tail: Seq<char>,
)
    requires
        original <= u64::MAX,
        modified <= u64::MAX,
    ensures
        begins_hunk(header_text(original, removed, modified, added, tail)),
        hunk_start(header_text(original, removed, modified, added, tail)) == Some(
            (original, modified),
        ),
{
    reveal_strlit("@@ -");
    reveal_strlit("@@ ");
    reveal_strlit(" +");
    reveal_strlit(" ");
    reveal_strlit("+");
    reveal_strlit(" @@");
    let line = header_text(original, removed, modified, added, tail);
    let first = range_text(original, removed);
    let second = range_text(modified, added);
    lemma_range_has_no_blank(original, removed);
    lemma_range_has_no_blank(modified, added);
    assert("@@ -"@.is_prefix_of(line));
    assert("@@ "@.is_prefix_of(line)) by {
        assert(line.take(3) =~= "@@ "@);
    }
    let ranges = line.skip(4);
    let last = "@@"@ + tail;
    reveal_strlit("@@");
    let rest = "+"@ + second + " "@ + last;
    assert(ranges =~= first + " "@ + rest);
    lemma_split_at_blank(first, rest);
    assert("+"@.is_prefix_of(rest));
    assert(rest.skip(1) =~= second + " "@ + last);
    lemma_split_at_blank(second, last);
}

proof fn lemma_numbered(lines: Seq<Seq<char>>, first: int, head: int, at: int, original: nat, modified: nat)
    requires
        first <= head < at,
        begins_hunk(lines[head]),
        hunk_start(lines[head]) == Some((original, modified)),
        forall|i: int| head < i < at ==> !begins_hunk(#[trigger] lines[i]),
    ensures
        numbers_at(lines, first, at) == Some(
            (
                original + count_on(lines, DiffSide::Original, head + 1, at),
                modified + count_on(lines, DiffSide::Modified, head + 1, at),
            ),
        ),
    decreases at - head,
{
    if at > head + 1 {
        lemma_numbered(lines, first, head, at - 1, original, modified);
        assert(!begins_hunk(lines[at - 1]));
    }
}

/// Whether all hunks from an index up to another can be numbered: their lines stay within 64
/// bits.
pub open spec fn are_numbered(lines: Seq<Seq<char>>, from: int, to: int) -> bool {
    forall|i: int|
        from <= i < to && "@@ "@.is_prefix_of(#[trigger] lines[i]) ==> (hunk_start(lines[i]) matches Some(
            start,
        ) ==> start.0 + lines.len() < u64::MAX && start.1 + lines.len() < u64::MAX)
}

proof fn lemma_not_exhausted(lines: Seq<Seq<char>>, first: int, at: int, end: int)
    requires
        0 <= first <= at <= end <= lines.len(),
        are_numbered(lines, first, end),
    ensures
        numbers_at(lines, first, at) matches Some(numbers) ==> numbers.0 + (lines.len() - at)
            < u64::MAX && numbers.1 + (lines.len() - at) < u64::MAX,
    decreases at - first,
{
    if at > first {
        lemma_not_exhausted(lines, first, at - 1, end);
        if begins_hunk(lines[at - 1]) {
        }
    }
}

proof fn lemma_header_found(lines: Seq<Seq<char>>, from: int, header: int, end: int)
    requires
        0 <= from <= header < end,
        header + 1 < lines.len(),
        "--- "@.is_prefix_of(lines[header]),
        "+++ "@.is_prefix_of(lines[header + 1]),
        forall|i: int|
            from <= i < header ==> !("--- "@.is_prefix_of(#[trigger] lines[i])
                && "+++ "@.is_prefix_of(lines[i + 1])),
    ensures
        header_index(lines, from, end) == Some(header),
    decreases header - from,
{
    if from < header {
        lemma_header_found(lines, from + 1, header, end);
    }
}

proof fn lemma_first_hit(lines: Seq<Seq<char>>, first: int, at: int, hit: int, end: int, query: QueryView)
    requires
        at <= hit < end,
        selection(query, row_at(lines, first, hit), hit) is Some,
        forall|i: int| at <= i <= hit ==> !exhausts(#[trigger] row_at(lines, first, i)),
    ensures
        first_selected(lines, first, at, end, query) matches Some(found) && at <= found <= hit,
    decreases hit - at,
{
    assert(!exhausts(row_at(lines, first, at)));
    if at < hit && selection(query, row_at(lines, first, at), at) is None {
        lemma_first_hit(lines, first, at + 1, hit, end, query);
    }
}

#[verifier::rlimit(80)]
proof fn lemma_found_from(lines: Seq<Seq<char>>, from: int, start: int, query: QueryView)
    requires
        0 <= from <= start < lines.len(),
        begins_file(lines[start]),
        segment_location(lines, start + 1, next_file(lines, start + 1), query) is Some,
    ensures
        location_from(lines, from, query) matches Some(location) && location.diff_line
            <= segment_location(lines, start + 1, next_file(lines, start + 1), query)->0.diff_line,
    decreases start - from,
{
    if from < start {
        if !begins_file(lines[from]) {
            lemma_found_from(lines, from + 1, start, query);
        } else {
            let end = next_file(lines, from + 1);
            lemma_next_file(lines, from + 1);
            assert(end <= start) by {
                if end > start {
                    assert(!begins_file(lines[start]));
                }
            }
            match segment_location(lines, from + 1, end, query) {
                Some(location) => {
                    lemma_header(lines, from + 1, end);
                    let header = header_index(lines, from + 1, end)->0;
                    lemma_selected(lines, header + 2, header + 2, end, query);
                    let own = next_file(lines, start + 1);
                    lemma_header(lines, start + 1, own);
                    let later = header_index(lines, start + 1, own)->0;
                    lemma_selected(lines, later + 2, later + 2, own, query);
                },
                None => {
                    lemma_found_from(lines, end, start, query);
                },
            }
        }
    }
}

/// Whether lines are those of one file of a diff up to an index: the diff of the file begins at
/// `start`, its header names its two versions at `header`, and a hunk of it begins at `head`, with
/// no other header between that and the index.
pub open spec fn in_hunk(
    lines: Seq<Seq<char>>,
    start: int,
    header: int,
    head: int,
    at: int,
    original: Seq<char>,
    modified: Seq<char>,
) -> bool {
    &&& 0 <= start < header
    &&& header + 1 < head < at < lines.len()
    &&& "diff --git "@.is_prefix_of(lines[start])
    &&& forall|i: int| start < i <= at ==> !"diff --git "@.is_prefix_of(#[trigger] lines[i])
    &&& "--- "@.is_prefix_of(lines[header]) && "+++ "@.is_prefix_of(lines[header + 1])
    &&& forall|i: int|
        start < i < header ==> !("--- "@.is_prefix_of(#[trigger] lines[i])
            && "+++ "@.is_prefix_of(lines[i + 1]))
    &&& header_path(lines[header].skip(4)) == Some(original)
    &&& header_path(lines[header + 1].skip(4)) == Some(modified)
    &&& forall|i: int| head < i <= at ==> !"@@ "@.is_prefix_of(#[trigger] lines[i])
}

/// A line of a hunk, whichever hunk of its file it is in, shows the line of the file that the
/// nearest header above it names, plus the lines of that side between the two. A removed line is
/// shown on the original side and every other on the modified one, under the modified path unless
/// the file was removed.
#[verifier::rlimit(80)]
pub proof fn lemma_line_counts_from_its_header(
    diff: Seq<char>,
    start: int,
    header: int,
    head: int,
    at: int,
    original: Seq<char>,
    modified: Seq<char>,
    a: nat,
    c: nat,
)
    requires
        in_hunk(lines_of(diff), start, header, head, at, original, modified),
        heads_hunk(lines_of(diff)[head], a, c),
        a <= u64::MAX && c <= u64::MAX,
        are_numbered(lines_of(diff), header + 2, at),
        is_on(lines_of(diff)[at], DiffSide::Original) || is_on(
            lines_of(diff)[at],
            DiffSide::Modified,
        ),
    ensures
        ({
            let lines = lines_of(diff);
            let first = lines[at][0];
            let removed = first == '-';
            diff_line_location(diff, (at + 1) as nat) == Some(
                LocationView {
                    path: if modified == "/dev/null"@ {
                        original
                    } else {
                        modified
                    },
                    side: if removed {
                        DiffSide::Original
                    } else {
                        DiffSide::Modified
                    },
                    file_line: if removed {
                        a + count_on(lines, DiffSide::Original, head + 1, at)
                    } else {
                        c + count_on(lines, DiffSide::Modified, head + 1, at)
                    },
                    diff_line: (at + 1) as nat,
                    kind: if removed {
                        DiffLineKind::Removed
                    } else if first == '+' {
                        DiffLineKind::Added
                    } else {
                        DiffLineKind::Context
                    },
                },
            )
        }),
{
    let lines = lines_of(diff);
    lemma_hunk_row(lines, start, header, head, at, original, modified, a, c);
    let end = next_file(lines, start + 1);
    lemma_located(lines, header + 2, header + 2, at, end);
    lemma_last_file(lines, start, at);
}

#[verifier::rlimit(80)]
proof fn lemma_hunk_row(
    lines: Seq<Seq<char>>,
    start: int,
    header: int,
    head: int,
    at: int,
    original: Seq<char>,
    modified: Seq<char>,
    a: nat,
    c: nat,
)
    requires
        in_hunk(lines, start, header, head, at, original, modified),
        heads_hunk(lines[head], a, c),
        a <= u64::MAX && c <= u64::MAX,
        are_numbered(lines, header + 2, at),
        is_on(lines[at], DiffSide::Original) || is_on(lines[at], DiffSide::Modified),
    ensures
        at < next_file(lines, start + 1),
        header_index(lines, start + 1, next_file(lines, start + 1)) == Some(header),
        forall|i: int|
            header + 2 <= i <= at ==> !exhausts(#[trigger] row_at(lines, header + 2, i)),
        row_at(lines, header + 2, at) matches Some(row) && {
            &&& row.kind == (if lines[at][0] == '-' {
                DiffLineKind::Removed
            } else if lines[at][0] == '+' {
                DiffLineKind::Added
            } else {
                DiffLineKind::Context
            })
            &&& row.original == (if is_on(lines[at], DiffSide::Original) {
                Some(a + count_on(lines, DiffSide::Original, head + 1, at))
            } else {
                None
            })
            &&& row.modified == (if is_on(lines[at], DiffSide::Modified) {
                Some(c + count_on(lines, DiffSide::Modified, head + 1, at))
            } else {
                None
            })
        },
{
    let (removed, added, tail) = choose|removed: Option<nat>, added: Option<nat>, tail: Seq<char>|
        lines[head] == #[trigger] header_text(a, removed, c, added, tail);
    lemma_header_is_read(a, removed, c, added, tail);
    let end = next_file(lines, start + 1);
    lemma_next_file(lines, start + 1);
    assert(at < end) by {
        if end <= at {
            assert(begins_file(lines[end]));
        }
    }
    lemma_header_found(lines, start + 1, header, end);
    lemma_numbered(lines, header + 2, head, at, a, c);
    assert forall|i: int| header + 2 <= i <= at implies !exhausts(
        #[trigger] row_at(lines, header + 2, i),
    ) by {
        lemma_not_exhausted(lines, header + 2, i, at);
    }
    assert(!begins_hunk(lines[at]));
}

/// A line of a file that a hunk shows is found by either path of the file, on either side that has
/// it, and no further down than where the hunk shows it.
pub proof fn lemma_shown_line_is_found(
    diff: Seq<char>,
    start: int,
    header: int,
    head: int,
    at: int,
    original: Seq<char>,
    modified: Seq<char>,
    a: nat,
    c: nat,
    side: DiffSide,
    path: Seq<char>,
)
    requires
        in_hunk(lines_of(diff), start, header, head, at, original, modified),
        heads_hunk(lines_of(diff)[head], a, c),
        a <= u64::MAX && c <= u64::MAX,
        (if side == DiffSide::Original {
            a
        } else {
            c
        }) > 0,
        are_numbered(lines_of(diff), header + 2, at),
        is_on(lines_of(diff)[at], side),
        path == original || path == modified,
        (if side == DiffSide::Original {
            original
        } else {
            modified
        }) != "/dev/null"@,
    ensures
        ({
            let line = (if side == DiffSide::Original {
                a
            } else {
                c
            }) + count_on(lines_of(diff), side, head + 1, at);
            file_line_location(diff, path, side, line) matches Some(location) && {
                &&& location.side == side
                &&& location.file_line == line
                &&& location.diff_line <= at + 1
            }
        }),
{
    let lines = lines_of(diff);
    let line = (if side == DiffSide::Original {
        a
    } else {
        c
    }) + count_on(lines, side, head + 1, at);
    let query = QueryView::File { path, side, line };
    lemma_hunk_row(lines, start, header, head, at, original, modified, a, c);
    lemma_first_hit(lines, header + 2, header + 2, at, next_file(lines, start + 1), query);
    lemma_found_from(lines, 0, start, query);
    crate::diff::lemma_mapped_line_answers(diff, path, side, line);
}

/// Whether the header of a file in a diff, before an index, names a path.
pub open spec fn names_path(lines: Seq<Seq<char>>, path: Seq<char>, before: int) -> bool {
    exists|i: int|
        {
            &&& 0 <= i && i + 1 < lines.len() && i < before
            &&& "--- "@.is_prefix_of(#[trigger] lines[i]) && "+++ "@.is_prefix_of(lines[i + 1])
            &&& header_path(lines[i].skip(4)) == Some(path) || header_path(lines[i + 1].skip(4)) == Some(
                path,
            )
        }
}

/// Whether the header of a file in a diff, before an index, names a path, and the file is there on a
/// side.
pub open spec fn names_path_on(
    lines: Seq<Seq<char>>,
    path: Seq<char>,
    side: DiffSide,
    before: int,
) -> bool {
    exists|i: int|
        {
            &&& 0 <= i && i + 1 < lines.len() && i < before
            &&& "--- "@.is_prefix_of(#[trigger] lines[i]) && "+++ "@.is_prefix_of(lines[i + 1])
            &&& header_path(lines[i].skip(4)) == Some(path) || header_path(lines[i + 1].skip(4)) == Some(
                path,
            )
            &&& side == DiffSide::Original ==> header_path(lines[i].skip(4)) != Some("/dev/null"@)
            &&& side == DiffSide::Modified ==> header_path(lines[i + 1].skip(4)) != Some(
                "/dev/null"@,
            )
        }
}

/// A line is found only in a file that the header above it names by the path that was asked for,
/// only on a side on which the file is there, and only where the hunk shows a line on that side.
pub proof fn lemma_found_line_is_shown(
    diff: Seq<char>,
    path: Seq<char>,
    side: DiffSide,
    line: nat,
)
    ensures
        file_line_location(diff, path, side, line) matches Some(location) ==> {
            &&& 0 < location.diff_line <= lines_of(diff).len()
            &&& is_on(lines_of(diff)[location.diff_line - 1], side)
            &&& names_path_on(lines_of(diff), path, side, location.diff_line as int)
            &&& names_path(lines_of(diff), location.path, location.diff_line as int)
        },
{
    lemma_found_is_shown(lines_of(diff), 0, path, side, line);
}

#[verifier::rlimit(80)]
proof fn lemma_found_is_shown(
    lines: Seq<Seq<char>>,
    from: int,
    path: Seq<char>,
    side: DiffSide,
    line: nat,
)
    requires
        0 <= from,
    ensures
        location_from(lines, from, QueryView::File { path, side, line }) matches Some(location) ==> {
            &&& 0 < location.diff_line <= lines.len()
            &&& is_on(lines[location.diff_line - 1], side)
            &&& names_path_on(lines, path, side, location.diff_line as int)
            &&& names_path(lines, location.path, location.diff_line as int)
        },
    decreases lines.len() - from,
{
    let query = QueryView::File { path, side, line };
    if from < lines.len() {
        if !begins_file(lines[from]) {
            lemma_found_is_shown(lines, from + 1, path, side, line);
        } else {
            let end = next_file(lines, from + 1);
            lemma_next_file(lines, from + 1);
            lemma_header(lines, from + 1, end);
            lemma_header_marks(lines, from + 1, end);
            match segment_location(lines, from + 1, end, query) {
                Some(location) => {
                    let header = header_index(lines, from + 1, end)->0;
                    lemma_selected(lines, header + 2, header + 2, end, query);
                    assert("--- "@.is_prefix_of(lines[header]));
                },
                None => {
                    lemma_found_is_shown(lines, end, path, side, line);
                },
            }
        }
    }
}

proof fn lemma_header_marks(lines: Seq<Seq<char>>, from: int, end: int)
    ensures
        header_index(lines, from, end) matches Some(at) ==> "--- "@.is_prefix_of(lines[at])
            && "+++ "@.is_prefix_of(lines[at + 1]),
    decreases end - from,
{
    if from < end {
        lemma_header_marks(lines, from + 1, end);
    }
}

} // verus!
