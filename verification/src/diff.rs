//! Lines of a unified diff and the file lines that they show.
use vstd::prelude::*;
use crate::number::{parse_u64, unsigned_within};
use crate::split::{lines, lines_of};
use crate::text::{
    characters, copy, first_character, opt_view, same, slice, split_first, split_once, starts_with,
    strip_prefix, strip_suffix, text_from_utf8, trim, trimmed, views, without_prefix,
    without_suffix,
};

verus! {

/// One of the two versions of a file that a diff compares.
#[derive(Copy, Clone, Debug, Eq, PartialEq, Structural)]
pub enum DiffSide {
    Original,
    Modified,
}

/// What a line of a hunk shows.
#[derive(Copy, Clone, Debug, Eq, PartialEq, Structural)]
pub enum DiffLineKind {
    Context,
    Added,
    Removed,
}

/// A line of a file and the line of the diff that shows it. The lines of a diff count from one.
#[derive(Clone, Debug, Eq, PartialEq)]
pub struct DiffLocation {
    pub path: String,
    pub side: DiffSide,
    pub file_line: u64,
    pub diff_line: usize,
    pub kind: DiffLineKind,
}

/// What a location in a diff holds.
#[verifier::ext_equal]
pub struct LocationView {
    pub path: Seq<char>,
    pub side: DiffSide,
    pub file_line: nat,
    pub diff_line: nat,
    pub kind: DiffLineKind,
}

impl View for DiffLocation {
    type V = LocationView;

    open spec fn view(&self) -> LocationView {
        LocationView {
            path: self.path@,
            side: self.side,
            file_line: self.file_line as nat,
            diff_line: self.diff_line as nat,
            kind: self.kind,
        }
    }
}

/// What an optional location holds.
pub open spec fn opt_location_view(location: Option<DiffLocation>) -> Option<LocationView> {
    match location {
        Some(location) => Some(location@),
        None => None,
    }
}

impl LocationView {
    /// Whether a comment can stand at this location: original lines take one only where they
    /// are removed.
    pub open spec fn is_commentable(self) -> bool {
        self.side == DiffSide::Modified || self.kind == DiffLineKind::Removed
    }
}

impl DiffLocation {
    /// Whether a comment can stand at this location: original lines take one only where they
    /// are removed.
    pub fn is_commentable(&self) -> (r: bool)
        ensures
            r == self@.is_commentable(),
    {
        self.side == DiffSide::Modified || self.kind == DiffLineKind::Removed
    }

    /// A copy of the location.
    pub fn copy(&self) -> (r: DiffLocation)
        ensures
            r@ == self@,
    {
        DiffLocation {
            path: copy(self.path.as_str()),
            side: self.side,
            file_line: self.file_line,
            diff_line: self.diff_line,
            kind: self.kind,
        }
    }
}

/// The line that is looked for: a line of a file, or a line of the diff.
pub enum LineQuery {
    File { path: String, side: DiffSide, line: u64 },
    Diff { number: usize },
}

/// What a query holds.
pub enum QueryView {
    File { path: Seq<char>, side: DiffSide, line: nat },
    Diff { number: nat },
}

impl View for LineQuery {
    type V = QueryView;

    open spec fn view(&self) -> QueryView {
        match *self {
            LineQuery::File { path, side, line } => QueryView::File {
                path: path@,
                side,
                line: line as nat,
            },
            LineQuery::Diff { number } => QueryView::Diff { number: number as nat },
        }
    }
}

/// A line of a hunk: what it shows, and its number in each version that has it.
pub struct Row {
    pub kind: DiffLineKind,
    pub original: Option<nat>,
    pub modified: Option<nat>,
}

/// The byte that a letter behind a backslash stands for.
pub open spec fn escaped_byte(letter: u8) -> Option<u8> {
    if letter == 0x61 {
        Some(0x07)
    } else if letter == 0x62 {
        Some(0x08)
    } else if letter == 0x74 {
        Some(0x09)
    } else if letter == 0x6e {
        Some(0x0a)
    } else if letter == 0x76 {
        Some(0x0b)
    } else if letter == 0x66 {
        Some(0x0c)
    } else if letter == 0x72 {
        Some(0x0d)
    } else if letter == 0x5c {
        Some(0x5c)
    } else if letter == 0x22 {
        Some(0x22)
    } else {
        None
    }
}

/// Whether a byte is an octal digit.
pub open spec fn is_octal(byte: u8) -> bool {
    0x30 <= byte <= 0x37
}

/// How many of the bytes, up to `limit`, are octal digits before the first that is not.
pub open spec fn octal_run(bytes: Seq<u8>, limit: nat) -> nat
    decreases limit,
{
    if limit == 0 || bytes.len() == 0 || !is_octal(bytes[0]) {
        0
    } else {
        1 + octal_run(bytes.skip(1), (limit - 1) as nat)
    }
}

/// No more octal digits are taken than there are bytes.
pub proof fn lemma_octal_run(bytes: Seq<u8>, limit: nat)
    ensures
        octal_run(bytes, limit) <= bytes.len(),
    decreases limit,
{
    if limit > 0 && bytes.len() > 0 && is_octal(bytes[0]) {
        lemma_octal_run(bytes.skip(1), (limit - 1) as nat);
    }
}

/// The number that octal digits stand for.
pub open spec fn octal_value(digits: Seq<u8>) -> nat
    decreases digits.len(),
{
    if digits.len() == 0 {
        0
    } else {
        octal_value(digits.drop_last()) * 8 + (digits.last() - 0x30) as nat
    }
}

/// The bytes of a quoted path with each escape replaced by the byte that it stands for: a letter
/// behind a backslash, or one to three octal digits.
pub open spec fn unescaped(bytes: Seq<u8>) -> Option<Seq<u8>>
    decreases bytes.len(),
{
    if bytes.len() == 0 {
        Some(Seq::empty())
    } else if bytes[0] != 0x5c {
        before(seq![bytes[0]], unescaped(bytes.skip(1)))
    } else if bytes.len() == 1 {
        None
    } else if is_octal(bytes[1]) {
        proof {
            lemma_octal_run(bytes.skip(1), 3);
        }
        let count = octal_run(bytes.skip(1), 3);
        let value = octal_value(bytes.subrange(1, 1 + count as int));
        if value > 0xff {
            None
        } else {
            before(seq![value as u8], unescaped(bytes.skip(1 + count as int)))
        }
    } else {
        match escaped_byte(bytes[1]) {
            Some(byte) => before(seq![byte], unescaped(bytes.skip(2))),
            None => None,
        }
    }
}

/// The bytes one after the other, where there are any behind the first.
pub open spec fn before(first: Seq<u8>, rest: Option<Seq<u8>>) -> Option<Seq<u8>> {
    match rest {
        Some(rest) => Some(first + rest),
        None => None,
    }
}

/// The path that a quoted path stands for, where its escapes are known and give UTF-8.
pub open spec fn unquoted(path: Seq<char>) -> Option<Seq<char>> {
    match unescaped(vstd::utf8::encode_utf8(path)) {
        Some(bytes) => if vstd::utf8::valid_utf8(bytes) {
            Some(vstd::utf8::decode_utf8(bytes))
        } else {
            None
        },
        None => None,
    }
}

/// What stands between the quotation marks of a text that is enclosed in them.
pub open spec fn between_quotes(text: Seq<char>) -> Option<Seq<char>> {
    match without_prefix(text, "\""@) {
        Some(rest) => without_suffix(rest, "\""@),
        None => None,
    }
}

/// A path without the `a/` or `b/` that marks its version.
pub open spec fn without_version(path: Seq<char>) -> Seq<char> {
    match without_prefix(path, "a/"@) {
        Some(rest) => rest,
        None => match without_prefix(path, "b/"@) {
            Some(rest) => rest,
            None => path,
        },
    }
}

/// The path that the header of a file names.
pub open spec fn header_path(raw: Seq<char>) -> Option<Seq<char>> {
    match between_quotes(trimmed(raw)) {
        Some(quoted) => match unquoted(quoted) {
            Some(path) => Some(without_version(path)),
            None => None,
        },
        None => Some(without_version(trimmed(raw))),
    }
}

/// The number that a range of lines begins with: what stands before its comma.
pub open spec fn range_start(range: Seq<char>) -> Option<nat> {
    unsigned_within(
        match split_first(range, ","@) {
            Some((start, _)) => start,
            None => range,
        },
        u64::MAX as nat,
    )
}

/// The numbers of the first line of a hunk in the original and in the modified file.
pub open spec fn hunk_start(line: Seq<char>) -> Option<(nat, nat)> {
    match without_prefix(line, "@@ -"@) {
        Some(ranges) => match split_first(ranges, " "@) {
            Some((original, rest)) => match without_prefix(rest, "+"@) {
                Some(rest) => match split_first(rest, " "@) {
                    Some((modified, _)) => match (range_start(original), range_start(modified)) {
                        (Some(original), Some(modified)) => Some((original, modified)),
                        _ => None,
                    },
                    None => None,
                },
                None => None,
            },
            None => None,
        },
        None => None,
    }
}

/// Whether a line begins the diff of a file.
pub open spec fn begins_file(line: Seq<char>) -> bool {
    "diff --git "@.is_prefix_of(line)
}

/// Whether a line begins a hunk, or is meant to.
pub open spec fn begins_hunk(line: Seq<char>) -> bool {
    "@@ "@.is_prefix_of(line)
}

/// What a line within a hunk shows, by its first character.
pub open spec fn row_kind(line: Seq<char>) -> Option<DiffLineKind> {
    if line.len() == 0 {
        None
    } else if line[0] == '+' {
        Some(DiffLineKind::Added)
    } else if line[0] == '-' {
        Some(DiffLineKind::Removed)
    } else if line[0] == ' ' {
        Some(DiffLineKind::Context)
    } else {
        None
    }
}

/// The numbers of the next original and modified line behind a line, where that is in a hunk.
pub open spec fn after_line(line: Seq<char>, numbers: Option<(nat, nat)>) -> Option<(nat, nat)> {
    if begins_hunk(line) {
        hunk_start(line)
    } else {
        match (numbers, row_kind(line)) {
            (Some((original, modified)), Some(DiffLineKind::Added)) => Some((original, modified + 1)),
            (Some((original, modified)), Some(DiffLineKind::Removed)) => Some((original + 1, modified)),
            (Some((original, modified)), Some(DiffLineKind::Context)) => Some(
                (original + 1, modified + 1),
            ),
            _ => numbers,
        }
    }
}

/// The numbers of the next original and modified line at index `at` of a diff, where the hunks
/// of a file begin at index `first`.
pub open spec fn numbers_at(diff: Seq<Seq<char>>, first: int, at: int) -> Option<(nat, nat)>
    decreases at - first,
{
    if at <= first {
        None
    } else {
        after_line(diff[at - 1], numbers_at(diff, first, at - 1))
    }
}

/// The line of a hunk at index `at` of a diff, where there is one.
pub open spec fn row_at(diff: Seq<Seq<char>>, first: int, at: int) -> Option<Row> {
    if begins_hunk(diff[at]) {
        None
    } else {
        match (numbers_at(diff, first, at), row_kind(diff[at])) {
            (Some((original, modified)), Some(kind)) => Some(
                Row {
                    kind,
                    original: if kind == DiffLineKind::Added {
                        None
                    } else {
                        Some(original)
                    },
                    modified: if kind == DiffLineKind::Removed {
                        None
                    } else {
                        Some(modified)
                    },
                },
            ),
            _ => None,
        }
    }
}

/// Whether the lines behind a row cannot be numbered.
pub open spec fn exhausts(row: Option<Row>) -> bool {
    match row {
        Some(row) => row.original == Some(u64::MAX as nat) || row.modified == Some(u64::MAX as nat),
        None => false,
    }
}

/// The side of a row that a location shows for a line of the diff.
pub open spec fn shown_side(kind: DiffLineKind) -> DiffSide {
    if kind == DiffLineKind::Removed {
        DiffSide::Original
    } else {
        DiffSide::Modified
    }
}

/// The number of a row on a side.
pub open spec fn number_on(row: Row, side: DiffSide) -> Option<nat> {
    match side {
        DiffSide::Original => row.original,
        DiffSide::Modified => row.modified,
    }
}

/// The side and the line number that a query selects of a row at index `at`.
pub open spec fn selection(query: QueryView, row: Option<Row>, at: int) -> Option<(DiffSide, nat)> {
    match (query, row) {
        (QueryView::File { path, side, line }, Some(row)) => if number_on(row, side) == Some(line) {
            Some((side, line))
        } else {
            None
        },
        (QueryView::Diff { number }, Some(row)) => if at + 1 == number {
            match number_on(row, shown_side(row.kind)) {
                Some(line) => Some((shown_side(row.kind), line)),
                None => None,
            }
        } else {
            None
        },
        _ => None,
    }
}

/// The first index from `at` up to `end` whose row a query selects, where the lines up to it can
/// be numbered.
pub open spec fn first_selected(
    diff: Seq<Seq<char>>,
    first: int,
    at: int,
    end: int,
    query: QueryView,
) -> Option<int>
    decreases end - at,
{
    if at >= end {
        None
    } else if exhausts(row_at(diff, first, at)) {
        None
    } else if selection(query, row_at(diff, first, at), at) is Some {
        Some(at)
    } else {
        first_selected(diff, first, at + 1, end, query)
    }
}

/// Whether a query can be answered by a file with these paths.
pub open spec fn accepts(query: QueryView, original: Seq<char>, modified: Seq<char>) -> bool {
    match query {
        QueryView::File { path, side, line } => {
            &&& path == original || path == modified
            &&& !(side == DiffSide::Original && original == "/dev/null"@)
            &&& !(side == DiffSide::Modified && modified == "/dev/null"@)
        },
        QueryView::Diff { number } => true,
    }
}

/// The first index from `start` up to `end` at which the header of a file names its two versions.
pub open spec fn header_index(diff: Seq<Seq<char>>, start: int, end: int) -> Option<int>
    decreases end - start,
{
    if start >= end {
        None
    } else if "--- "@.is_prefix_of(diff[start]) && start + 1 < diff.len() && "+++ "@.is_prefix_of(
        diff[start + 1],
    ) {
        Some(start)
    } else {
        header_index(diff, start + 1, end)
    }
}

/// The path that a location shows: the modified one, unless the file was removed.
pub open spec fn shown_path(original: Seq<char>, modified: Seq<char>) -> Seq<char> {
    if modified == "/dev/null"@ {
        original
    } else {
        modified
    }
}

/// The location that answers a query within the lines of one file.
pub open spec fn segment_location(
    diff: Seq<Seq<char>>,
    start: int,
    end: int,
    query: QueryView,
) -> Option<LocationView> {
    match header_index(diff, start, end) {
        Some(header) => match (header_path(diff[header].skip(4)), header_path(diff[header + 1].skip(4))) {
            (Some(original), Some(modified)) => if accepts(query, original, modified) {
                match first_selected(diff, header + 2, header + 2, end, query) {
                    Some(at) => {
                        let row = row_at(diff, header + 2, at);
                        let selected = selection(query, row, at)->0;
                        Some(
                            LocationView {
                                path: shown_path(original, modified),
                                side: selected.0,
                                file_line: selected.1,
                                diff_line: (at + 1) as nat,
                                kind: row->0.kind,
                            },
                        )
                    },
                    None => None,
                }
            } else {
                None
            },
            _ => None,
        },
        None => None,
    }
}

/// The first index from `from` at which the diff of a file begins, or the end of the diff.
pub open spec fn next_file(diff: Seq<Seq<char>>, from: int) -> int
    decreases diff.len() - from,
{
    if from >= diff.len() {
        diff.len() as int
    } else if begins_file(diff[from]) {
        from
    } else {
        next_file(diff, from + 1)
    }
}

/// The last index up to `from` at which the diff of a file begins.
pub open spec fn last_file(diff: Seq<Seq<char>>, from: int) -> Option<int>
    decreases from + 1,
{
    if from < 0 {
        None
    } else if from < diff.len() && begins_file(diff[from]) {
        Some(from)
    } else {
        last_file(diff, from - 1)
    }
}

/// The location that answers a query in the first file, from index `from` on, that has one.
pub open spec fn location_from(
    diff: Seq<Seq<char>>,
    from: int,
    query: QueryView,
) -> Option<LocationView>
    decreases diff.len() - from,
{
    if from < 0 || from >= diff.len() {
        None
    } else if !begins_file(diff[from]) {
        location_from(diff, from + 1, query)
    } else {
        proof {
            lemma_next_file(diff, from + 1);
        }
        let end = next_file(diff, from + 1);
        match segment_location(diff, from + 1, end, query) {
            Some(location) => Some(location),
            None => location_from(diff, end, query),
        }
    }
}

/// The location that shows a line of a file, by its path in either version.
pub open spec fn file_line_location(
    diff: Seq<char>,
    path: Seq<char>,
    side: DiffSide,
    line: nat,
) -> Option<LocationView> {
    if line == 0 {
        None
    } else {
        location_from(lines_of(diff), 0, QueryView::File { path, side, line })
    }
}

/// The location that a line of a diff shows.
pub open spec fn diff_line_location(diff: Seq<char>, line: nat) -> Option<LocationView> {
    let all = lines_of(diff);
    if line == 0 {
        None
    } else {
        match last_file(all, line - 1) {
            Some(start) => segment_location(
                all,
                start + 1,
                next_file(all, start + 1),
                QueryView::Diff { number: line },
            ),
            None => None,
        }
    }
}

/// The diff of the next file begins behind `from`, and no other begins before it.
pub proof fn lemma_next_file(diff: Seq<Seq<char>>, from: int)
    requires
        0 <= from,
    ensures
        from <= diff.len() ==> from <= next_file(diff, from) <= diff.len(),
        next_file(diff, from) < diff.len() ==> begins_file(diff[next_file(diff, from)]),
        forall|i: int| from <= i < next_file(diff, from) ==> !begins_file(#[trigger] diff[i]),
    decreases diff.len() - from,
{
    if from < diff.len() && !begins_file(diff[from]) {
        lemma_next_file(diff, from + 1);
    }
}

/// The path that a quoted path stands for, where its escapes are known and give UTF-8.
pub fn decode_quoted_path(path: &str) -> (r: Option<String>)
    ensures
        opt_view(r) == unquoted(path@),
{
    let bytes = path.as_bytes();
    let ghost all = bytes@;
    let mut decoded: Vec<u8> = Vec::new();
    let mut index: usize = 0;
    assert(all.skip(0) =~= all);
    proof {
        lemma_before_empty(unescaped(all));
    }
    while index < bytes.len()
        invariant
            all == bytes@,
            all == vstd::utf8::encode_utf8(path@),
            index <= bytes.len(),
            unescaped(all) == before(decoded@, unescaped(all.skip(index as int))),
        decreases bytes.len() - index,
    {
        let ghost rest = all.skip(index as int);
        let ghost kept = decoded@;
        if bytes[index] != 0x5c {
            decoded.push(bytes[index]);
            index = index + 1;
            proof {
                assert(rest.skip(1) =~= all.skip(index as int));
                lemma_before_push(kept, rest[0], unescaped(all.skip(index as int)));
            }
        } else {
            if index + 1 == bytes.len() {
                return None;
            }
            let letter = bytes[index + 1];
            assert(rest[1] == letter);
            if 0x30 <= letter && letter <= 0x37 {
                let (value, count) = octal_number(bytes, index + 1);
                assert(rest.skip(1) =~= all.skip(index + 1));
                assert(rest.subrange(1, 1 + count) =~= all.subrange(index + 1, index + 1 + count));
                if value > 0xff {
                    return None;
                }
                decoded.push(value as u8);
                index = index + 1 + count;
                proof {
                    assert(rest.skip(1 + count as int) =~= all.skip(index as int));
                    lemma_before_push(kept, value as u8, unescaped(all.skip(index as int)));
                }
            } else {
                match escape(letter) {
                    Some(byte) => {
                        decoded.push(byte);
                        index = index + 2;
                        proof {
                            assert(rest.skip(2) =~= all.skip(index as int));
                            lemma_before_push(kept, byte, unescaped(all.skip(index as int)));
                        }
                    },
                    None => {
                        return None;
                    },
                }
            }
        }
    }
    assert(all.skip(index as int) =~= Seq::empty());
    assert(decoded@ + Seq::<u8>::empty() =~= decoded@);
    match text_from_utf8(decoded) {
        Ok(path) => Some(path),
        Err(_) => None,
    }
}

proof fn lemma_before_empty(rest: Option<Seq<u8>>)
    ensures
        before(Seq::empty(), rest) == rest,
{
    if rest is Some {
        assert(Seq::<u8>::empty() + rest->0 =~= rest->0);
    }
}

proof fn lemma_before_push(kept: Seq<u8>, byte: u8, rest: Option<Seq<u8>>)
    ensures
        before(kept, before(seq![byte], rest)) == before(kept.push(byte), rest),
{
    if rest is Some {
        assert(kept + (seq![byte] + rest->0) =~= kept.push(byte) + rest->0);
    }
}

fn escape(letter: u8) -> (r: Option<u8>)
    ensures
        r == escaped_byte(letter),
{
    if letter == 0x61 {
        Some(0x07)
    } else if letter == 0x62 {
        Some(0x08)
    } else if letter == 0x74 {
        Some(0x09)
    } else if letter == 0x6e {
        Some(0x0a)
    } else if letter == 0x76 {
        Some(0x0b)
    } else if letter == 0x66 {
        Some(0x0c)
    } else if letter == 0x72 {
        Some(0x0d)
    } else if letter == 0x5c {
        Some(0x5c)
    } else if letter == 0x22 {
        Some(0x22)
    } else {
        None
    }
}

fn octal_number(bytes: &[u8], from: usize) -> (r: (u16, usize))
    requires
        from < bytes.len(),
        is_octal(bytes@[from as int]),
    ensures
        r.1 == octal_run(bytes@.skip(from as int), 3),
        1 <= r.1 <= 3,
        from + r.1 <= bytes.len(),
        r.0 == octal_value(bytes@.subrange(from as int, from + r.1)),
{
    let mut value: u16 = 0;
    let mut count: usize = 0;
    assert(bytes@.subrange(from as int, from as int) =~= Seq::empty());
    while count < 3 && from + count < bytes.len() && 0x30 <= bytes[from + count] && bytes[from
        + count] <= 0x37
        invariant
            from < bytes.len(),
            is_octal(bytes@[from as int]),
            count <= 3,
            from + count <= bytes.len(),
            octal_run(bytes@.skip(from as int), 3) == count + octal_run(
                bytes@.skip(from + count),
                (3 - count) as nat,
            ),
            value == octal_value(bytes@.subrange(from as int, from + count)),
            count == 0 ==> value == 0,
            count == 1 ==> value < 8,
            count == 2 ==> value < 64,
            count == 3 ==> value < 512,
        decreases 3 - count,
    {
        assert(bytes@.skip(from + count).skip(1) =~= bytes@.skip(from + count + 1));
        assert(bytes@.subrange(from as int, from + count + 1).drop_last() =~= bytes@.subrange(
            from as int,
            from + count,
        ));
        value = value * 8 + (bytes[from + count] - 0x30) as u16;
        count = count + 1;
    }
    (value, count)
}

/// The path that the header of a file names.
pub fn normalise_path(raw: &str) -> (r: Option<String>)
    ensures
        opt_view(r) == header_path(raw@),
{
    let raw = trim(raw);
    let quoted = match strip_prefix(raw.as_str(), "\"") {
        Some(rest) => strip_suffix(rest.as_str(), "\""),
        None => None,
    };
    let path = match quoted {
        Some(quoted) => match decode_quoted_path(quoted.as_str()) {
            Some(path) => path,
            None => {
                return None;
            },
        },
        None => raw,
    };
    match strip_prefix(path.as_str(), "a/") {
        Some(rest) => Some(rest),
        None => match strip_prefix(path.as_str(), "b/") {
            Some(rest) => Some(rest),
            None => Some(path),
        },
    }
}

/// The number that a range of lines begins with.
pub fn parse_range_start(range: &str) -> (r: Option<u64>)
    ensures
        r matches Some(start) ==> range_start(range@) == Some(start as nat),
        r is None ==> range_start(range@) is None,
{
    match split_once(range, ",") {
        Some((start, _)) => parse_u64(start.as_str()),
        None => parse_u64(range),
    }
}

/// The numbers of the first line of a hunk in the original and in the modified file.
pub fn parse_hunk_header(line: &str) -> (r: Option<(u64, u64)>)
    ensures
        r matches Some((original, modified)) ==> hunk_start(line@) == Some(
            (original as nat, modified as nat),
        ),
        r is None ==> hunk_start(line@) is None,
{
    let ranges = match strip_prefix(line, "@@ -") {
        Some(ranges) => ranges,
        None => {
            return None;
        },
    };
    let (original, rest) = match split_once(ranges.as_str(), " ") {
        Some(parts) => parts,
        None => {
            return None;
        },
    };
    let rest = match strip_prefix(rest.as_str(), "+") {
        Some(rest) => rest,
        None => {
            return None;
        },
    };
    let (modified, _) = match split_once(rest.as_str(), " ") {
        Some(parts) => parts,
        None => {
            return None;
        },
    };
    match (parse_range_start(original.as_str()), parse_range_start(modified.as_str())) {
        (Some(original), Some(modified)) => Some((original, modified)),
        _ => None,
    }
}

fn line_kind(line: &str) -> (r: Option<DiffLineKind>)
    ensures
        r == row_kind(line@),
{
    match first_character(line) {
        Some('+') => Some(DiffLineKind::Added),
        Some('-') => Some(DiffLineKind::Removed),
        Some(' ') => Some(DiffLineKind::Context),
        _ => None,
    }
}

impl LineQuery {
    fn accepts(&self, original: &str, modified: &str) -> (r: bool)
        ensures
            r == accepts(self@, original@, modified@),
    {
        match self {
            LineQuery::File { path, side, line } => (same(path.as_str(), original) || same(
                path.as_str(),
                modified,
            )) && !(*side == DiffSide::Original && same(original, "/dev/null")) && !(*side
                == DiffSide::Modified && same(modified, "/dev/null")),
            LineQuery::Diff { number } => true,
        }
    }

    fn select(
        &self,
        diff_line: usize,
        kind: DiffLineKind,
        original: Option<u64>,
        modified: Option<u64>,
        Ghost(row): Ghost<Row>,
    ) -> (r: Option<(DiffSide, u64)>)
        requires
            row.kind == kind,
            original matches Some(number) ==> row.original == Some(number as nat),
            original is None ==> row.original is None,
            modified matches Some(number) ==> row.modified == Some(number as nat),
            modified is None ==> row.modified is None,
        ensures
            r matches Some((side, number)) ==> selection(self@, Some(row), diff_line - 1) == Some(
                (side, number as nat),
            ),
            r is None ==> selection(self@, Some(row), diff_line - 1) is None,
    {
        match self {
            LineQuery::File { path, side, line } => {
                let current = match side {
                    DiffSide::Original => original,
                    DiffSide::Modified => modified,
                };
                match current {
                    Some(number) => if number == *line {
                        Some((*side, number))
                    } else {
                        None
                    },
                    None => None,
                }
            },
            LineQuery::Diff { number } => {
                if diff_line != *number {
                    None
                } else if kind == DiffLineKind::Removed {
                    match original {
                        Some(line) => Some((DiffSide::Original, line)),
                        None => None,
                    }
                } else {
                    match modified {
                        Some(line) => Some((DiffSide::Modified, line)),
                        None => None,
                    }
                }
            },
        }
    }
}

/// The first index from `start` up to `end` at which the header of a file names its versions.
fn find_header(lines: &Vec<String>, start: usize, end: usize) -> (r: Option<usize>)
    requires
        start <= end <= lines.len(),
    ensures
        r matches Some(at) ==> header_index(views(lines@), start as int, end as int) == Some(
            at as int,
        ) && start <= at && at < end && at + 1 < lines.len(),
        r is None ==> header_index(views(lines@), start as int, end as int) is None,
{
    let mut at: usize = start;
    while at < end
        invariant
            start <= at <= end <= lines.len(),
            header_index(views(lines@), start as int, end as int) == header_index(
                views(lines@),
                at as int,
                end as int,
            ),
        decreases end - at,
    {
        if starts_with(lines[at].as_str(), "--- ") && at + 1 < lines.len() && starts_with(
            lines[at + 1].as_str(),
            "+++ ",
        ) {
            return Some(at);
        }
        at = at + 1;
    }
    None
}

fn header_text(line: &str) -> (r: String)
    requires
        line@.len() >= 4,
    ensures
        r@ == line@.skip(4),
{
    let t = characters(line);
    slice(&t, 4, t.len())
}

/// The location that answers a query within the lines of one file.
#[verifier::loop_isolation(false)]
pub fn find_in_file_segment(
    lines: &Vec<String>,
    start: usize,
    end: usize,
    query: &LineQuery,
) -> (r: Option<DiffLocation>)
    requires
        start <= end <= lines.len(),
    ensures
        opt_location_view(r) == segment_location(views(lines@), start as int, end as int, query@),
{
    let ghost all = views(lines@);
    let header = match find_header(lines, start, end) {
        Some(header) => header,
        None => {
            return None;
        },
    };
    proof {
        lemma_header(all, start as int, end as int);
        assert(all[header as int] == lines@[header as int]@);
        assert(all[header + 1] == lines@[header + 1]@);
    }
    let original_path = match normalise_path(header_text(lines[header].as_str()).as_str()) {
        Some(path) => path,
        None => {
            return None;
        },
    };
    let modified_path = match normalise_path(header_text(lines[header + 1].as_str()).as_str()) {
        Some(path) => path,
        None => {
            return None;
        },
    };
    if !query.accepts(original_path.as_str(), modified_path.as_str()) {
        return None;
    }
    let display_path = if same(modified_path.as_str(), "/dev/null") {
        original_path
    } else {
        modified_path
    };
    let first: usize = header + 2;
    let mut numbers: Option<(u64, u64)> = None;
    let mut index: usize = first;
    while index < end
        invariant
            all == views(lines@),
            end <= lines.len(),
            first <= index,
            first_selected(all, first as int, first as int, end as int, query@) == first_selected(
                all,
                first as int,
                index as int,
                end as int,
                query@,
            ),
            numbers matches Some((original, modified)) ==> numbers_at(
                all,
                first as int,
                index as int,
            ) == Some((original as nat, modified as nat)),
            numbers is None ==> numbers_at(all, first as int, index as int) is None,
        decreases end - index,
    {
        let line = lines[index].as_str();
        assert(all[index as int] == line@);
        assert(numbers_at(all, first as int, index + 1) == after_line(
            line@,
            numbers_at(all, first as int, index as int),
        ));
        if starts_with(line, "@@ ") {
            numbers = parse_hunk_header(line);
            index = index + 1;
            continue ;
        }
        let (original_line, modified_line, kind) = match (numbers, line_kind(line)) {
            (Some((original, modified)), Some(kind)) => (original, modified, kind),
            _ => {
                index = index + 1;
                continue ;
            },
        };
        let current_original = if kind == DiffLineKind::Added {
            None
        } else {
            Some(original_line)
        };
        let current_modified = if kind == DiffLineKind::Removed {
            None
        } else {
            Some(modified_line)
        };
        if (kind != DiffLineKind::Added && original_line == u64::MAX) || (kind
            != DiffLineKind::Removed && modified_line == u64::MAX) {
            return None;
        }
        let diff_line: usize = index + 1;
        let ghost row = row_at(all, first as int, index as int)->0;
        match query.select(diff_line, kind, current_original, current_modified, Ghost(row)) {
            Some((side, file_line)) => {
                return Some(
                    DiffLocation { path: display_path, side, file_line, diff_line, kind },
                );
            },
            None => {},
        }
        numbers = match kind {
            DiffLineKind::Added => Some((original_line, modified_line + 1)),
            DiffLineKind::Removed => Some((original_line + 1, modified_line)),
            DiffLineKind::Context => Some((original_line + 1, modified_line + 1)),
        };
        index = index + 1;
    }
    None
}

pub(crate) proof fn lemma_header(diff: Seq<Seq<char>>, start: int, end: int)
    ensures
        header_index(diff, start, end) matches Some(at) ==> start <= at && at < end && at + 1
            < diff.len() && diff[at].len() >= 4 && diff[at + 1].len() >= 4,
    decreases end - start,
{
    reveal_strlit("--- ");
    reveal_strlit("+++ ");
    if start < end {
        lemma_header(diff, start + 1, end);
    }
}

/// The location that shows a line of a file, within the lines of one file of the diff.
pub fn map_file_segment(
    lines: &Vec<String>,
    start: usize,
    end: usize,
    requested_path: &str,
    side: DiffSide,
    file_line: u64,
) -> (r: Option<DiffLocation>)
    requires
        start <= end <= lines.len(),
    ensures
        opt_location_view(r) == segment_location(
            views(lines@),
            start as int,
            end as int,
            QueryView::File { path: requested_path@, side, line: file_line as nat },
        ),
{
    let query = LineQuery::File { path: copy(requested_path), side, line: file_line };
    find_in_file_segment(lines, start, end, &query)
}

fn find_next_file(lines: &Vec<String>, from: usize) -> (r: usize)
    requires
        from <= lines.len(),
    ensures
        from <= r <= lines.len(),
        r == next_file(views(lines@), from as int),
{
    let mut at: usize = from;
    while at < lines.len() && !starts_with(lines[at].as_str(), "diff --git ")
        invariant
            from <= at <= lines.len(),
            next_file(views(lines@), from as int) == next_file(views(lines@), at as int),
        decreases lines.len() - at,
    {
        assert(views(lines@)[at as int] == lines@[at as int]@);
        at = at + 1;
    }
    assert(at < lines.len() ==> views(lines@)[at as int] == lines@[at as int]@);
    at
}

/// The location that shows a line of a file, by its path in either version. The first file of
/// the diff that shows the line gives the location; there is none for line zero.
pub fn map_file_line(
    diff: &str,
    requested_path: &str,
    side: DiffSide,
    file_line: u64,
) -> (r: Option<DiffLocation>)
    ensures
        opt_location_view(r) == file_line_location(
            diff@,
            requested_path@,
            side,
            file_line as nat,
        ),
{
    if file_line == 0 {
        return None;
    }
    let lines = lines(diff);
    let ghost all = views(lines@);
    let ghost query = QueryView::File { path: requested_path@, side, line: file_line as nat };
    let mut index: usize = 0;
    while index < lines.len()
        invariant
            index <= lines.len(),
            all == views(lines@),
            all == lines_of(diff@),
            query == (QueryView::File { path: requested_path@, side, line: file_line as nat }),
            file_line_location(diff@, requested_path@, side, file_line as nat) == location_from(
                all,
                index as int,
                query,
            ),
        decreases lines.len() - index,
    {
        assert(all[index as int] == lines@[index as int]@);
        if !starts_with(lines[index].as_str(), "diff --git ") {
            index = index + 1;
            continue ;
        }
        let file_end = find_next_file(&lines, index + 1);
        match map_file_segment(&lines, index + 1, file_end, requested_path, side, file_line) {
            Some(location) => {
                return Some(location);
            },
            None => {},
        }
        index = file_end;
    }
    None
}

/// The location that a line of a diff shows: its original line where it is removed, else its
/// modified line.
pub fn locate_diff_line(diff: &str, diff_line: usize) -> (r: Option<DiffLocation>)
    ensures
        opt_location_view(r) == diff_line_location(diff@, diff_line as nat),
{
    if diff_line == 0 {
        return None;
    }
    let lines = lines(diff);
    let ghost all = views(lines@);
    let mut at: usize = if diff_line <= lines.len() {
        diff_line
    } else {
        lines.len()
    };
    proof {
        lemma_last_file_within(all, diff_line - 1);
    }
    while at > 0
        invariant
            at <= lines.len(),
            all == views(lines@),
            all == lines_of(diff@),
            diff_line > 0,
            last_file(all, diff_line - 1) == last_file(all, at - 1),
        decreases at,
    {
        assert(all[at - 1] == lines@[at - 1]@);
        if starts_with(lines[at - 1].as_str(), "diff --git ") {
            let file_end = find_next_file(&lines, at);
            return find_in_file_segment(
                &lines,
                at,
                file_end,
                &LineQuery::Diff { number: diff_line },
            );
        }
        at = at - 1;
    }
    None
}

proof fn lemma_last_file_within(diff: Seq<Seq<char>>, from: int)
    ensures
        from >= diff.len() ==> last_file(diff, from) == last_file(diff, diff.len() - 1),
    decreases from + 1,
{
    if from > diff.len() - 1 && from >= 0 {
        lemma_last_file_within(diff, from - 1);
    }
}

pub(crate) proof fn lemma_selected(
    diff: Seq<Seq<char>>,
    first: int,
    at: int,
    end: int,
    query: QueryView,
)
    ensures
        first_selected(diff, first, at, end, query) matches Some(hit) ==> {
            &&& at <= hit < end
            &&& selection(query, row_at(diff, first, hit), hit) is Some
            &&& forall|i: int| at <= i <= hit ==> !exhausts(#[trigger] row_at(diff, first, i))
        },
    decreases end - at,
{
    if at < end && !exhausts(row_at(diff, first, at)) && selection(
        query,
        row_at(diff, first, at),
        at,
    ) is None {
        lemma_selected(diff, first, at + 1, end, query);
    }
}

pub(crate) proof fn lemma_located(diff: Seq<Seq<char>>, first: int, at: int, hit: int, end: int)
    requires
        0 <= at <= hit < end,
        row_at(diff, first, hit) is Some,
        forall|i: int| at <= i <= hit ==> !exhausts(#[trigger] row_at(diff, first, i)),
    ensures
        first_selected(diff, first, at, end, QueryView::Diff { number: (hit + 1) as nat }) == Some(
            hit,
        ),
    decreases hit - at,
{
    if at < hit {
        lemma_located(diff, first, at + 1, hit, end);
        assert(!exhausts(row_at(diff, first, at)));
    } else {
        assert(!exhausts(row_at(diff, first, hit)));
    }
}

pub(crate) proof fn lemma_last_file(diff: Seq<Seq<char>>, start: int, at: int)
    requires
        0 <= start <= at < diff.len(),
        begins_file(diff[start]),
        forall|i: int| start < i <= at ==> !begins_file(#[trigger] diff[i]),
    ensures
        last_file(diff, at) == Some(start),
    decreases at - start,
{
    if at > start {
        lemma_last_file(diff, start, at - 1);
    }
}

/// Whether a location shows the line of the diff that another one names: the same path, kind and
/// line of the diff, on the side that the kind is shown on. Where a comment can stand at the
/// other location, the two are one.
pub open spec fn shows(shown: LocationView, location: LocationView) -> bool {
    &&& shown.path == location.path
    &&& shown.kind == location.kind
    &&& shown.diff_line == location.diff_line
    &&& shown.side == shown_side(location.kind)
    &&& location.is_commentable() ==> shown == location
}

proof fn lemma_mapped_from(diff: Seq<Seq<char>>, from: int, query: QueryView)
    requires
        query is File,
        0 <= from,
    ensures
        location_from(diff, from, query) matches Some(location) ==> {
            &&& location.diff_line > 0
            &&& last_file(diff, location.diff_line - 1) matches Some(start)
            &&& segment_location(
                diff,
                start + 1,
                next_file(diff, start + 1),
                QueryView::Diff { number: location.diff_line },
            ) matches Some(shown)
            &&& shows(shown, location)
        },
    decreases diff.len() - from,
{
    if from < diff.len() {
        if !begins_file(diff[from]) {
            lemma_mapped_from(diff, from + 1, query);
        } else {
            let end = next_file(diff, from + 1);
            lemma_next_file(diff, from + 1);
            match segment_location(diff, from + 1, end, query) {
                Some(location) => {
                    lemma_header(diff, from + 1, end);
                    let header = header_index(diff, from + 1, end)->0;
                    lemma_selected(diff, header + 2, header + 2, end, query);
                    let hit = first_selected(diff, header + 2, header + 2, end, query)->0;
                    lemma_located(diff, header + 2, header + 2, hit, end);
                    lemma_last_file(diff, from, hit);
                },
                None => {
                    lemma_mapped_from(diff, end, query);
                },
            }
        }
    }
}

/// The line of the diff that a file line is mapped to shows that file line: looking it up gives
/// back the same path, kind and line of the diff, and, where a comment can stand at the location
/// that the file line is mapped to, the same location.
pub proof fn lemma_mapped_line_is_located(
    diff: Seq<char>,
    path: Seq<char>,
    side: DiffSide,
    line: nat,
)
    ensures
        file_line_location(diff, path, side, line) matches Some(location) ==> (diff_line_location(
            diff,
            location.diff_line,
        ) matches Some(shown) && shows(shown, location)),
{
    lemma_mapped_from(lines_of(diff), 0, QueryView::File { path, side, line });
}

/// A location answers the query that it was found for: a mapped location shows the requested
/// line number on the requested side.
pub proof fn lemma_mapped_line_answers(
    diff: Seq<char>,
    path: Seq<char>,
    side: DiffSide,
    line: nat,
)
    ensures
        file_line_location(diff, path, side, line) matches Some(location) ==> location.side == side
            && location.file_line == line && line > 0,
{
    lemma_answers_from(lines_of(diff), 0, QueryView::File { path, side, line });
}

proof fn lemma_answers_from(diff: Seq<Seq<char>>, from: int, query: QueryView)
    requires
        query is File,
        0 <= from,
    ensures
        location_from(diff, from, query) matches Some(location) ==> location.side == query->side
            && location.file_line == query->line,
    decreases diff.len() - from,
{
    if from < diff.len() {
        if !begins_file(diff[from]) {
            lemma_answers_from(diff, from + 1, query);
        } else {
            let end = next_file(diff, from + 1);
            lemma_next_file(diff, from + 1);
            lemma_header(diff, from + 1, end);
            let header = header_index(diff, from + 1, end)->0;
            lemma_selected(diff, header + 2, header + 2, end, query);
            if segment_location(diff, from + 1, end, query) is None {
                lemma_answers_from(diff, end, query);
            }
        }
    }
}

} // verus!
