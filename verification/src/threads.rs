//! Inline comments grouped into threads.
use vstd::prelude::*;
use crate::comments::{inline_comment, keep_by, normalise_inline_comment, passes_filters, wanted_by};
use crate::diff::{
    diff_line_location, locate_diff_line, opt_location_view, DiffLocation, DiffSide, LocationView,
};
use crate::error::{invalid, Error, ErrorView};
use crate::fields::{text_field, value_or};
use crate::format::cat3;
use crate::items::arrange;
use crate::json::{
    items_view, no_items, no_members, number_or_null, number_view, push_item, push_member,
    text_or_null, Json, JsonView,
};
use crate::number::{decimal, decimal_size, decimal_text, parse_usize, unsigned_within};
use crate::order::{
    arranged, keys_view, lemma_order_is_permutation, lemma_order_is_sorted_and_stable, order_of,
    sort_order, Key, KeyView,
};
use crate::people::{People, PeopleView};
use crate::report::{line_kind_name, name_of_line_kind, name_of_side, side_name};
use crate::text::{copy, opt_str_view};

verus! {

/// The state of the threads on a snapshot of a diff.
pub open spec fn state_name(current: bool, stale: bool) -> Seq<char> {
    if stale {
        "outdated"@
    } else if current {
        "open"@
    } else {
        "superseded"@
    }
}

/// The state of the threads on a snapshot of a diff: outdated where it is stale, and otherwise
/// open on the current snapshot and superseded on any other.
pub fn thread_state(current: bool, stale: bool) -> (r: &'static str)
    ensures
        r@ == state_name(current, stale),
{
    if stale {
        "outdated"
    } else if current {
        "open"
    } else {
        "superseded"
    }
}

/// A location as JSON.
pub open spec fn location_object(location: LocationView) -> JsonView {
    JsonView::Object(
        Seq::empty().push(("path"@, JsonView::Text(location.path))).push(
            ("side"@, JsonView::Text(side_name(location.side))),
        ).push(("file_line"@, number_view(location.file_line as u64))).push(
            ("diff_line"@, number_view(location.diff_line as u64)),
        ).push(("kind"@, JsonView::Text(line_kind_name(location.kind)))),
    )
}

/// A location as JSON.
pub fn location_json(location: &DiffLocation) -> (r: Json)
    ensures
        r@ == location_object(location@),
{
    let mut members = no_members();
    push_member(&mut members, "path", Json::of_text(location.path.as_str()));
    push_member(&mut members, "side", Json::of_text(name_of_side(location.side)));
    push_member(&mut members, "file_line", Json::of_number(location.file_line));
    push_member(&mut members, "diff_line", Json::of_number(location.diff_line as u64));
    push_member(&mut members, "kind", Json::of_text(name_of_line_kind(location.kind)));
    Json::Object(members)
}

/// The line of the diff that a comment stands on.
pub open spec fn comment_line(comment: JsonView) -> Option<nat> {
    match comment.text("line_number"@) {
        Some(line) => unsigned_within(line, usize::MAX as nat),
        None => None,
    }
}

/// What comments are ordered by: the line of the diff, and then the date.
pub open spec fn comment_key(comment: JsonView) -> KeyView {
    KeyView { rank: value_or(comment_line(comment), 0) as u64, text: comment.text("date"@), number: 0 }
}

/// The comments by line and date.
pub open spec fn ordered_comments(comments: Seq<JsonView>) -> Seq<JsonView> {
    arranged(comments, order_of(comments.map_values(|comment: JsonView| comment_key(comment))))
}

/// How many of the first comments stand on a line.
pub open spec fn run_length(comments: Seq<JsonView>, line: Option<nat>) -> nat
    decreases comments.len(),
{
    if comments.len() == 0 || comment_line(comments[0]) != line {
        0
    } else {
        1 + run_length(comments.skip(1), line)
    }
}

/// A snapshot of a diff and the comments on it that are wanted.
#[verifier::ext_equal]
pub struct ThreadContext {
    pub id: u64,
    pub current: bool,
    pub stale: bool,
    pub diff: Option<Seq<char>>,
    pub people: PeopleView,
    pub since: Option<(i64, u32)>,
    pub reviewer: Option<Seq<char>>,
}

/// The comments of a thread, numbered in their order, that pass the filters.
pub open spec fn thread_comments(group: Seq<JsonView>, context: ThreadContext) -> Seq<JsonView> {
    group.map(
        |index: int, comment: JsonView| inline_comment(comment, index as nat, context.people),
    ).filter(wanted_by("author"@, context.since, context.reviewer))
}

/// Where a line of the diff of a snapshot stands.
pub open spec fn thread_location(line: nat, context: ThreadContext) -> Option<LocationView> {
    match context.diff {
        Some(diff) => diff_line_location(diff, line),
        None => None,
    }
}

/// The line of the file on a side of a diff, where a location is on that side.
pub open spec fn line_on(location: Option<LocationView>, side: DiffSide) -> Option<u64> {
    match location {
        Some(location) => if location.side == side {
            Some(location.file_line as u64)
        } else {
            None
        },
        None => None,
    }
}

/// A thread: its snapshot, its place, its state and its comments.
pub open spec fn thread_object(line: nat, comments: Seq<JsonView>, context: ThreadContext) -> JsonView {
    let location = thread_location(line, context);
    let file = match location {
        Some(location) => Some(location.path),
        None => None,
    };
    JsonView::Object(
        Seq::empty().push(
            ("thread_id"@, JsonView::Text(decimal(context.id as nat) + ":"@ + decimal(line))),
        ).push(("preview_diff_id"@, number_view(context.id))).push(
            ("current"@, JsonView::Bool(context.current)),
        ).push(("stale"@, JsonView::Bool(context.stale))).push(
            ("state"@, JsonView::Text(state_name(context.current, context.stale))),
        ).push(("diff_line"@, number_view(line as u64))).push(("file"@, text_or_null(file))).push(
            ("source_line"@, number_or_null(line_on(location, DiffSide::Original))),
        ).push(("target_line"@, number_or_null(line_on(location, DiffSide::Modified)))).push(
            (
                "location"@,
                match location {
                    Some(location) => location_object(location),
                    None => JsonView::Null,
                },
            ),
        ).push(("comments"@, JsonView::Array(comments))),
    )
}

/// The threads of comments that stand in the order of their lines. A thread none of whose
/// comments is wanted is left out.
pub open spec fn threads_from(comments: Seq<JsonView>, context: ThreadContext) -> Seq<JsonView>
    decreases comments.len(),
{
    if comments.len() == 0 {
        Seq::empty()
    } else {
        let line = comment_line(comments[0]);
        let count = 1 + run_length(comments.skip(1), line);
        let kept = thread_comments(comments.take(count as int), context);
        proof {
            lemma_run_fits(comments.skip(1), line);
        }
        let rest = threads_from(comments.skip(count as int), context);
        if kept.len() == 0 {
            rest
        } else {
            seq![thread_object(value_or(line, 0), kept, context)] + rest
        }
    }
}

/// The threads on a snapshot of a diff, or the error where a comment names no line.
pub open spec fn diff_threads(comments: Seq<JsonView>, context: ThreadContext) -> Result<
    Seq<JsonView>,
    ErrorView,
> {
    if exists|i: int| 0 <= i < comments.len() && comment_line(#[trigger] comments[i]) is None {
        Err(invalid("Launchpad returned an inline comment without a diff line"@))
    } else {
        Ok(threads_from(ordered_comments(comments), context))
    }
}

fn line_of(comment: &Json) -> (r: Option<usize>)
    ensures
        (r matches Some(line) ==> comment_line(comment@) == Some(line as nat)),
        r is None ==> comment_line(comment@) is None,
{
    match text_field(comment, "line_number") {
        Some(line) => parse_usize(line),
        None => None,
    }
}

/// A snapshot of a diff, the text of the diff, and which comments on it are wanted.
pub struct Snapshot<'value> {
    pub id: u64,
    pub current: bool,
    pub stale: bool,
    pub diff: Option<&'value str>,
    pub people: &'value People,
    pub since: Option<(i64, u32)>,
    pub reviewer: Option<&'value str>,
}

impl<'value> View for Snapshot<'value> {
    type V = ThreadContext;

    open spec fn view(&self) -> ThreadContext {
        ThreadContext {
            id: self.id,
            current: self.current,
            stale: self.stale,
            diff: opt_str_view(self.diff),
            people: self.people@,
            since: self.since,
            reviewer: opt_str_view(self.reviewer),
        }
    }
}

fn line_on_side(location: &Option<DiffLocation>, side: DiffSide) -> (r: Option<u64>)
    ensures
        r == line_on(opt_location_view(*location), side),
{
    match location {
        Some(location) => if location.side == side {
            Some(location.file_line)
        } else {
            None
        },
        None => None,
    }
}

fn build_thread(line: usize, comments: Vec<Json>, snapshot: &Snapshot) -> (r: Json)
    ensures
        r@ == thread_object(line as nat, items_view(comments@), snapshot@),
{
    let location = match snapshot.diff {
        Some(diff) => locate_diff_line(diff, line),
        None => None,
    };
    let mut members = no_members();
    push_member(
        &mut members,
        "thread_id",
        Json::Text(cat3(decimal_text(snapshot.id).as_str(), ":", decimal_size(line).as_str())),
    );
    push_member(&mut members, "preview_diff_id", Json::of_number(snapshot.id));
    push_member(&mut members, "current", Json::Bool(snapshot.current));
    push_member(&mut members, "stale", Json::Bool(snapshot.stale));
    push_member(
        &mut members,
        "state",
        Json::of_text(thread_state(snapshot.current, snapshot.stale)),
    );
    push_member(&mut members, "diff_line", Json::of_number(line as u64));
    let file = match &location {
        Some(location) => Json::of_text(location.path.as_str()),
        None => Json::Null,
    };
    push_member(&mut members, "file", file);
    push_member(
        &mut members,
        "source_line",
        Json::of_number_option(line_on_side(&location, DiffSide::Original)),
    );
    push_member(
        &mut members,
        "target_line",
        Json::of_number_option(line_on_side(&location, DiffSide::Modified)),
    );
    let place = match &location {
        Some(location) => location_json(location),
        None => Json::Null,
    };
    push_member(&mut members, "location", place);
    push_member(&mut members, "comments", Json::Array(comments));
    Json::Object(members)
}

fn number_comments(comments: &Vec<Json>, from: usize, to: usize, people: &People) -> (r: Vec<Json>)
    requires
        from <= to <= comments@.len(),
    ensures
        items_view(r@) == items_view(comments@).subrange(from as int, to as int).map(
            |index: int, comment: JsonView| inline_comment(comment, index as nat, people@),
        ),
{
    let ghost group = items_view(comments@).subrange(from as int, to as int);
    let ghost all = group.map(
        |index: int, comment: JsonView| inline_comment(comment, index as nat, people@),
    );
    let mut out = no_items();
    assert(all.take(0) =~= Seq::empty());
    let mut i: usize = 0;
    while i < to - from
        invariant
            from <= to <= comments@.len(),
            i <= to - from,
            group == items_view(comments@).subrange(from as int, to as int),
            all == group.map(
                |index: int, comment: JsonView| inline_comment(comment, index as nat, people@),
            ),
            items_view(out@) == all.take(i as int),
        decreases to - from - i,
    {
        push_item(&mut out, normalise_inline_comment(&comments[from + i], i, people));
        assert(group[i as int] == comments@[from + i]@);
        assert(all.take(i + 1) =~= all.take(i as int).push(all[i as int]));
        i = i + 1;
    }
    assert(all.take(all.len() as int) =~= all);
    out
}

/// The comments at the front that stand on a line are no more than all of them.
pub proof fn lemma_run_fits(comments: Seq<JsonView>, line: Option<nat>)
    ensures
        run_length(comments, line) <= comments.len(),
    decreases comments.len(),
{
    if comments.len() > 0 && comment_line(comments[0]) == line {
        lemma_run_fits(comments.skip(1), line);
    }
}

fn end_of_run(comments: &Vec<Json>, from: usize, line: usize) -> (r: usize)
    requires
        from <= comments@.len(),
        forall|i: int| 0 <= i < comments@.len() ==> comment_line((#[trigger] comments@[i])@) is Some,
    ensures
        from <= r <= comments@.len(),
        r - from == run_length(items_view(comments@).skip(from as int), Some(line as nat)),
{
    let ghost all = items_view(comments@);
    let mut at = from;
    while at < comments.len()
        invariant
            from <= at <= comments@.len(),
            all == items_view(comments@),
            forall|i: int|
                0 <= i < comments@.len() ==> comment_line((#[trigger] comments@[i])@) is Some,
            run_length(all.skip(from as int), Some(line as nat)) == at - from + run_length(
                all.skip(at as int),
                Some(line as nat),
            ),
        ensures
            from <= at <= comments@.len(),
            run_length(all.skip(from as int), Some(line as nat)) == at - from,
        decreases comments@.len() - at,
    {
        assert(all.skip(at as int)[0] == comments@[at as int]@);
        assert(all.skip(at as int).skip(1) =~= all.skip(at + 1));
        let here = match line_of(&comments[at]) {
            Some(here) => here == line,
            None => false,
        };
        if !here {
            break;
        }
        at = at + 1;
    }
    at
}

fn group_threads(comments: &Vec<Json>, snapshot: &Snapshot) -> (r: Vec<Json>)
    requires
        forall|i: int| 0 <= i < comments@.len() ==> comment_line((#[trigger] comments@[i])@) is Some,
    ensures
        items_view(r@) == threads_from(items_view(comments@), snapshot@),
{
    let ghost all = items_view(comments@);
    let ghost context = snapshot@;
    let mut threads = no_items();
    let mut at: usize = 0;
    assert(all.skip(0) =~= all);
    assert(Seq::<JsonView>::empty() + threads_from(all, context) =~= threads_from(all, context));
    while at < comments.len()
        invariant
            at <= comments@.len(),
            all == items_view(comments@),
            context == snapshot@,
            forall|i: int|
                0 <= i < comments@.len() ==> comment_line((#[trigger] comments@[i])@) is Some,
            threads_from(all, context) == items_view(threads@) + threads_from(
                all.skip(at as int),
                context,
            ),
        decreases comments@.len() - at,
    {
        let ghost rest = all.skip(at as int);
        assert(rest[0] == comments@[at as int]@);
        assert(rest.skip(1) =~= all.skip(at + 1));
        let line = match line_of(&comments[at]) {
            Some(line) => line,
            None => 0,
        };
        let end = end_of_run(comments, at + 1, line);
        let numbered = number_comments(comments, at, end, snapshot.people);
        assert(rest.take(end - at) =~= all.subrange(at as int, end as int));
        let kept = keep_by(&numbered, "author", snapshot.since, snapshot.reviewer);
        assert(items_view(kept@) == thread_comments(rest.take(end - at), context));
        assert(rest.skip(end - at) =~= all.skip(end as int));
        let ghost before = items_view(threads@);
        assert(items_view(kept@).len() == kept@.len());
        if kept.len() > 0 {
            let ghost thread = thread_object(line as nat, items_view(kept@), context);
            push_item(&mut threads, build_thread(line, kept, snapshot));
            assert(before + (seq![thread] + threads_from(all.skip(end as int), context))
                =~= items_view(threads@) + threads_from(all.skip(end as int), context));
        }
        at = end;
    }
    assert(all.skip(at as int) =~= Seq::empty());
    assert(items_view(threads@) + Seq::<JsonView>::empty() =~= items_view(threads@));
    threads
}

/// The threads on a snapshot of a diff, or the error where a comment names no line.
pub fn threads_of_diff(comments: &Vec<Json>, snapshot: &Snapshot) -> (r: Result<Vec<Json>, Error>)
    ensures
        (r matches Ok(threads) ==> diff_threads(items_view(comments@), snapshot@) == Ok::<
            Seq<JsonView>,
            ErrorView,
        >(items_view(threads@))),
        r matches Err(error) ==> diff_threads(items_view(comments@), snapshot@) == Err::<
            Seq<JsonView>,
            ErrorView,
        >(error@),
{
    let ghost all = items_view(comments@);
    let mut keys: Vec<Key> = Vec::new();
    for i in 0..comments.len()
        invariant
            all == items_view(comments@),
            keys@.len() == i,
            forall|j: int| 0 <= j < i ==> (#[trigger] keys@[j])@ == comment_key(all[j]),
            forall|j: int| 0 <= j < i ==> comment_line(#[trigger] all[j]) is Some,
    {
        let rank: u64 = match line_of(&comments[i]) {
            Some(line) => line as u64,
            None => {
                assert(comment_line(all[i as int]) is None);
                return Err(
                    Error::invalid("Launchpad returned an inline comment without a diff line"),
                );
            },
        };
        let text = match text_field(&comments[i], "date") {
            Some(date) => Some(copy(date)),
            None => None,
        };
        keys.push(Key { rank, text, number: 0 });
    }
    let ghost views = all.map_values(|comment: JsonView| comment_key(comment));
    assert(keys_view(keys@) =~= views);
    let order = sort_order(&keys);
    let sorted = arrange(comments, &order);
    proof {
        assert(items_view(sorted@) == ordered_comments(all));
        assert forall|i: int| 0 <= i < sorted@.len() implies comment_line((#[trigger] sorted@[i])@) is Some by {
            assert(sorted@[i]@ == items_view(sorted@)[i]);
            assert(items_view(sorted@)[i] == all[order@[i] as int]);
        }
    }
    Ok(group_threads(&sorted, snapshot))
}

/// Whether a value is a thread on a line of a snapshot: one with comments, all of which pass the
/// filters.
pub open spec fn is_thread(thread: JsonView, line: nat, context: ThreadContext) -> bool {
    exists|comments: Seq<JsonView>|
        {
            &&& thread == #[trigger] thread_object(line, comments, context)
            &&& comments.len() > 0
            &&& forall|i: int|
                0 <= i < comments.len() ==> passes_filters(
                    #[trigger] comments[i],
                    "author"@,
                    context.since,
                    context.reviewer,
                )
        }
}

/// Whether threads stand on lines, each on its own, in ascending order.
pub open spec fn stand_on(threads: Seq<JsonView>, lines: Seq<nat>, context: ThreadContext) -> bool {
    &&& lines.len() == threads.len()
    &&& forall|i: int| 0 <= i < threads.len() ==> is_thread(#[trigger] threads[i], lines[i], context)
    &&& forall|i: int| 0 <= i < lines.len() ==> #[trigger] lines[i] <= usize::MAX
    &&& forall|i: int, j: int|
        0 <= i < j < lines.len() ==> #[trigger] lines[i] < #[trigger] lines[j]
}

/// Whether comments all name a line, and stand in the order of their lines.
pub open spec fn by_line(comments: Seq<JsonView>) -> bool {
    &&& forall|i: int| 0 <= i < comments.len() ==> comment_line(#[trigger] comments[i]) is Some
    &&& forall|i: int, j: int|
        0 <= i < j < comments.len() ==> comment_line(#[trigger] comments[i])->0 <= comment_line(
            #[trigger] comments[j],
        )->0
}

pub(crate) proof fn lemma_run_ends(comments: Seq<JsonView>, line: Option<nat>)
    ensures
        run_length(comments, line) <= comments.len(),
        run_length(comments, line) < comments.len() ==> comment_line(
            comments[run_length(comments, line) as int],
        ) != line,
    decreases comments.len(),
{
    if comments.len() > 0 && comment_line(comments[0]) == line {
        lemma_run_ends(comments.skip(1), line);
    }
}

proof fn lemma_grouped(comments: Seq<JsonView>, context: ThreadContext) -> (lines: Seq<nat>)
    requires
        by_line(comments),
    ensures
        stand_on(threads_from(comments, context), lines, context),
        forall|i: int|
            0 <= i < lines.len() ==> comments.len() > 0 && comment_line(comments[0])->0
                <= #[trigger] lines[i],
    decreases comments.len(),
{
    if comments.len() == 0 {
        Seq::empty()
    } else {
        let line = comment_line(comments[0]);
        let rest = comments.skip(1);
        let count = 1 + run_length(rest, line);
        lemma_run_ends(rest, line);
        let kept = thread_comments(comments.take(count as int), context);
        let later = comments.skip(count as int);
        assert(by_line(later)) by {
            assert forall|i: int| 0 <= i < later.len() implies comment_line(
                #[trigger] later[i],
            ) is Some by {
                assert(later[i] == comments[i + count]);
            }
            assert forall|i: int, j: int| 0 <= i < j < later.len() implies comment_line(
                #[trigger] later[i],
            )->0 <= comment_line(#[trigger] later[j])->0 by {
                assert(later[i] == comments[i + count]);
                assert(later[j] == comments[j + count]);
            }
        }
        let behind = lemma_grouped(later, context);
        if later.len() > 0 {
            assert(later[0] == comments[count as int]);
            assert(comments[count as int] == rest[count - 1]);
            assert(comment_line(comments[0])->0 <= comment_line(comments[count as int])->0);
            assert(line->0 < comment_line(later[0])->0);
        }
        if kept.len() == 0 {
            behind
        } else {
            let lines = seq![line->0] + behind;
            let threads = threads_from(comments, context);
            let first = thread_object(line->0, kept, context);
            assert(threads == seq![first] + threads_from(later, context));
            assert(is_thread(first, line->0, context)) by {
                assert forall|i: int| 0 <= i < kept.len() implies passes_filters(
                    #[trigger] kept[i],
                    "author"@,
                    context.since,
                    context.reviewer,
                ) by {
                    let group = comments.take(count as int).map(
                        |index: int, comment: JsonView|
                            inline_comment(comment, index as nat, context.people),
                    );
                    let test = wanted_by("author"@, context.since, context.reviewer);
                    group.lemma_filter_pred(test, i);
                    assert(test(kept[i]));
                }
            }
            assert forall|i: int| 0 <= i < threads.len() implies is_thread(
                #[trigger] threads[i],
                lines[i],
                context,
            ) by {
                if i > 0 {
                    assert(threads[i] == threads_from(later, context)[i - 1]);
                    assert(lines[i] == behind[i - 1]);
                }
            }
            assert forall|i: int| 0 <= i < lines.len() implies #[trigger] lines[i] <= usize::MAX by {
                if i > 0 {
                    assert(lines[i] == behind[i - 1]);
                }
            }
            assert forall|i: int, j: int| 0 <= i < j < lines.len() implies #[trigger] lines[i]
                < #[trigger] lines[j] by {
                assert(lines[j] == behind[j - 1]);
                if i > 0 {
                    assert(lines[i] == behind[i - 1]);
                }
            }
            assert forall|i: int| 0 <= i < lines.len() implies comment_line(comments[0])->0
                <= #[trigger] lines[i] by {
                if i > 0 {
                    assert(lines[i] == behind[i - 1]);
                }
            }
            lines
        }
    }
}

/// The threads of a snapshot stand in the ascending order of their lines, one thread to a
/// line. Each has comments, and all its comments pass the filters.
pub proof fn lemma_threads_ascend(comments: Seq<JsonView>, context: ThreadContext)
    requires
        diff_threads(comments, context) is Ok,
    ensures
        exists|lines: Seq<nat>| stand_on(diff_threads(comments, context)->Ok_0, lines, context),
{
    let keys = comments.map_values(|comment: JsonView| comment_key(comment));
    let ordered = ordered_comments(comments);
    lemma_order_is_permutation(keys);
    assert forall|i: int| 0 <= i < ordered.len() implies comment_line(#[trigger] ordered[i]) is Some
        && comment_line(ordered[i])->0 <= u64::MAX && comment_key(ordered[i]) == keys[order_of(
        keys,
    )[i]] by {
        assert(ordered[i] == comments[order_of(keys)[i]]);
        assert(comment_line(comments[order_of(keys)[i]]) is Some);
        assert(comment_line(ordered[i])->0 <= usize::MAX);
    }
    assert forall|i: int, j: int| 0 <= i < j < ordered.len() implies comment_line(
        #[trigger] ordered[i],
    )->0 <= comment_line(#[trigger] ordered[j])->0 by {
        lemma_order_is_sorted_and_stable(keys, i, j);
    }
    let lines = lemma_grouped(ordered, context);
    assert(stand_on(diff_threads(comments, context)->Ok_0, lines, context));
}

/// A thread says which state it is in.
pub proof fn lemma_thread_says_state(line: nat, comments: Seq<JsonView>, context: ThreadContext)
    ensures
        thread_object(line, comments, context).text("state"@) == Some(
            state_name(context.current, context.stale),
        ),
{
    reveal_strlit("thread_id");
    reveal_strlit("preview_diff_id");
    reveal_strlit("current");
    reveal_strlit("stale");
    reveal_strlit("state");
    let members = thread_object(line, comments, context)->Object_0;
    assert("thread_id"@.len() == 9 && "preview_diff_id"@.len() == 15 && "current"@.len() == 7);
    assert("stale"@[3] == 'l' && "state"@[3] == 't');
    assert(members.skip(1)[0] == members[1]);
    assert(members.skip(1).skip(1)[0] == members[2]);
    assert(members.skip(1).skip(1).skip(1)[0] == members[3]);
    assert(members.skip(1).skip(1).skip(1).skip(1)[0] == members[4]);
    reveal_with_fuel(crate::json::member_in, 6);
}

/// A thread says which snapshot and which line of its diff it stands on.
pub proof fn lemma_thread_says_place(line: nat, comments: Seq<JsonView>, context: ThreadContext)
    ensures
        thread_object(line, comments, context).unsigned("preview_diff_id"@) == Some(context.id),
        thread_object(line, comments, context).unsigned("diff_line"@) == Some(line as u64),
{
    reveal_strlit("thread_id");
    reveal_strlit("preview_diff_id");
    reveal_strlit("current");
    reveal_strlit("stale");
    reveal_strlit("state");
    reveal_strlit("diff_line");
    let members = thread_object(line, comments, context)->Object_0;
    assert("thread_id"@.len() == 9 && "preview_diff_id"@.len() == 15 && "current"@.len() == 7);
    assert("stale"@.len() == 5 && "state"@.len() == 5);
    assert("thread_id"@[0] == 't' && "diff_line"@[0] == 'd');
    let second = members.skip(1);
    assert(second[0] == members[1]);
    let third = second.skip(1);
    assert(third[0] == members[2]);
    let fourth = third.skip(1);
    assert(fourth[0] == members[3]);
    let fifth = fourth.skip(1);
    assert(fifth[0] == members[4]);
    assert(fifth.skip(1)[0] == members[5]);
    reveal_with_fuel(crate::json::member_in, 7);
}

} // verus!
