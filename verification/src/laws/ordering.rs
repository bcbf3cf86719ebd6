//! In which order lists are shown, and which of several dates counts.
use vstd::prelude::*;
use crate::compare::{
    lemma_precedes_irreflexive, lemma_precedes_total, lemma_precedes_transitive, precedes,
};
use crate::conversation::{diff_summaries, diff_summary};
use crate::discussion::DiffView;
use crate::json::JsonView;
use crate::laws::showing::{lemma_join_shows, shows};
use crate::order::{
    arranged, lemma_order_is_permutation, lemma_order_is_sorted_and_stable, order_of, KeyView,
};
use crate::render::{comment_block, distinct_scalars, joined_scalars, with_comments};
use crate::report::{
    bug_search_document, bug_search_line, draft_block, draft_key, found_proposal_line,
    inline_comment_block, inline_comments_document, later, preview_diff_key, preview_diff_line,
    preview_diffs_document, proposal_search_document, proposal_updated_at, review_drafts_document,
};
use crate::split::join;
use crate::text::trimmed;

verus! {

/// Whether a list is an arrangement of another by a permutation of its places.
pub open spec fn rearranges<T>(sorted: Seq<T>, items: Seq<T>, order: Seq<int>) -> bool {
    &&& sorted.len() == items.len() && order.len() == items.len()
    &&& order.no_duplicates()
    &&& forall|i: int|
        0 <= i < order.len() ==> 0 <= #[trigger] order[i] < items.len() && sorted[i] == items[order[i]]
}

proof fn lemma_rearranged<T>(items: Seq<T>, keys: Seq<KeyView>)
    requires
        items.len() == keys.len(),
    ensures
        rearranges(arranged(items, order_of(keys)), items, order_of(keys)),
{
    lemma_order_is_permutation(keys);
}

/// The history of snapshots is shown in the order of their numbers, one line each.
pub proof fn lemma_history_ascends(
    preview_diffs: Seq<JsonView>,
    current_id: u64,
    proposal_id: Seq<char>,
)
    requires
        preview_diffs.len() > 0,
    ensures
        exists|sorted: Seq<JsonView>, order: Seq<int>|
            {
                &&& #[trigger] rearranges(sorted, preview_diffs, order)
                &&& forall|i: int, j: int|
                    0 <= i < j < sorted.len() ==> ((#[trigger] sorted[i]).unsigned("id"@) matches Some(
                        first,
                    ) ==> ((#[trigger] sorted[j]).unsigned("id"@) matches Some(second) ==> first
                        <= second))
                &&& preview_diffs_document(preview_diffs, current_id, proposal_id) == join(
                    seq!["# Preview diff history for merge proposal "@ + proposal_id]
                        + sorted.map_values(
                        |preview_diff: JsonView| preview_diff_line(preview_diff, current_id),
                    ),
                    "\n"@,
                )
            },
{
    let keys = preview_diffs.map_values(
        |preview_diff: JsonView| preview_diff_key(preview_diff),
    );
    let order = order_of(keys);
    let sorted = arranged(preview_diffs, order);
    lemma_rearranged(preview_diffs, keys);
    assert forall|i: int, j: int| 0 <= i < j < sorted.len() implies ((#[trigger] sorted[i]).unsigned(
        "id"@,
    ) matches Some(first) ==> ((#[trigger] sorted[j]).unsigned("id"@) matches Some(second) ==> first
        <= second)) by {
        lemma_order_is_sorted_and_stable(keys, i, j);
        assert(sorted[i] == preview_diffs[order[i]] && sorted[j] == preview_diffs[order[j]]);
        assert(keys[order[i]] == preview_diff_key(sorted[i]));
        assert(keys[order[j]] == preview_diff_key(sorted[j]));
    }
    assert(rearranges(sorted, preview_diffs, order));
}

/// The drafts of a review are shown in the order of their lines.
pub proof fn lemma_drafts_ascend(
    drafts: Seq<(Seq<char>, JsonView)>,
    snapshot: u64,
    id: Seq<char>,
)
    requires
        drafts.len() > 0,
    ensures
        exists|sorted: Seq<(Seq<char>, JsonView)>, order: Seq<int>|
            {
                &&& #[trigger] rearranges(sorted, drafts, order)
                &&& forall|i: int, j: int, first: usize, second: usize|
                    0 <= i < j < sorted.len() && (#[trigger] sorted[i]).0
                        == #[trigger] crate::number::decimal(first as nat) && (#[trigger] sorted[j]).0
                        == #[trigger] crate::number::decimal(second as nat) ==> first <= second
                &&& review_drafts_document(JsonView::Object(drafts), snapshot, id) == join(
                    seq![
                        "# Review drafts for merge proposal "@ + id + ", preview diff "@
                            + crate::number::decimal(snapshot as nat),
                    ] + sorted.map_values(|draft: (Seq<char>, JsonView)| draft_block(draft)),
                    "\n\n"@,
                )
            },
{
    let keys = drafts.map_values(|draft: (Seq<char>, JsonView)| draft_key(draft));
    let order = order_of(keys);
    let sorted = arranged(drafts, order);
    lemma_rearranged(drafts, keys);
    assert forall|i: int, j: int, first: usize, second: usize|
        0 <= i < j < sorted.len() && (#[trigger] sorted[i]).0 == #[trigger] crate::number::decimal(
            first as nat,
        ) && (#[trigger] sorted[j]).0 == #[trigger] crate::number::decimal(second as nat) implies first
        <= second by {
        lemma_order_is_sorted_and_stable(keys, i, j);
        assert(sorted[i] == drafts[order[i]] && sorted[j] == drafts[order[j]]);
        assert(keys[order[i]] == draft_key(sorted[i]));
        assert(keys[order[j]] == draft_key(sorted[j]));
        crate::number::lemma_decimal_unsigned(first as nat);
        crate::number::lemma_decimal_unsigned(second as nat);
    }
    assert(rearranges(sorted, drafts, order));
}

/// The snapshots of a discussion are reported in the order of their numbers.
pub proof fn lemma_snapshots_ascend(diffs: Seq<DiffView>)
    ensures
        exists|sorted: Seq<DiffView>, order: Seq<int>|
            {
                &&& #[trigger] rearranges(sorted, diffs, order)
                &&& forall|i: int, j: int|
                    0 <= i < j < sorted.len() ==> (#[trigger] sorted[i]).id
                        <= (#[trigger] sorted[j]).id
                &&& diff_summaries(diffs) =~= sorted.map_values(|diff: DiffView| diff_summary(diff))
            },
{
    let keys = diffs.map_values(
        |diff: DiffView| KeyView { rank: diff.id, text: None, number: 0 },
    );
    let order = order_of(keys);
    let sorted = arranged(diffs, order);
    lemma_rearranged(diffs, keys);
    assert forall|i: int, j: int| 0 <= i < j < sorted.len() implies (#[trigger] sorted[i]).id
        <= (#[trigger] sorted[j]).id by {
        lemma_order_is_sorted_and_stable(keys, i, j);
        assert(sorted[i] == diffs[order[i]] && sorted[j] == diffs[order[j]]);
        assert(keys[order[i]].rank == sorted[i].id);
        assert(keys[order[j]].rank == sorted[j].id);
    }
    let each = diffs.map_values(|diff: DiffView| diff_summary(diff));
    assert(arranged(each, order) =~= sorted.map_values(|diff: DiffView| diff_summary(diff)));
    assert(rearranges(sorted, diffs, order));
}

/// Published inline comments are shown one after the other, in the order in which they are given.
pub proof fn lemma_inline_comments_stay_in_order(
    comments: Seq<JsonView>,
    comment: JsonView,
    snapshot: u64,
    id: Seq<char>,
)
    requires
        comments.len() > 0,
    ensures
        inline_comments_document(comments.push(comment), snapshot, id) == inline_comments_document(
            comments,
            snapshot,
            id,
        ) + "\n\n"@ + inline_comment_block(comment),
{
    let heading = seq![
        "# Published inline comments for merge proposal "@ + id + ", preview diff "@
            + crate::number::decimal(snapshot as nat),
    ];
    let f = |comment: JsonView| inline_comment_block(comment);
    let before = heading + comments.map_values(f);
    let after = heading + comments.push(comment).map_values(f);
    assert(after =~= before.push(inline_comment_block(comment)));
    assert(after.drop_last() =~= before);
}

/// The lines of bugs behind some other lines.
pub open spec fn bugs_behind(head: Seq<Seq<char>>, found: Seq<JsonView>) -> Seq<char> {
    join(head + found.map_values(|task: JsonView| bug_search_line(task)), "\n\n"@)
}

/// The lines of merge proposals behind some other lines.
pub open spec fn proposals_behind(head: Seq<Seq<char>>, found: Seq<JsonView>) -> Seq<char> {
    join(head + found.map_values(|proposal: JsonView| found_proposal_line(proposal)), "\n\n"@)
}

/// The results of a search are shown in the order in which they were found, behind the lines on the
/// search itself.
pub proof fn lemma_results_stay_in_order(
    target: Seq<char>,
    query: Option<Seq<char>>,
    found: Seq<JsonView>,
    limit: Option<usize>,
    truncated: bool,
)
    ensures
        exists|head: Seq<Seq<char>>|
            {
                &&& head.len() <= 4
                &&& bug_search_document(target, query, found) == #[trigger] bugs_behind(head, found)
            },
        exists|head: Seq<Seq<char>>|
            {
                &&& head.len() <= 4
                &&& proposal_search_document(found, limit, truncated)
                    == #[trigger] proposals_behind(head, found)
            },
{
    let one = seq!["# Launchpad bug search for "@ + target];
    let one = crate::lines::with_bullet(one, "Target"@, Some(target));
    let one = crate::lines::with_bullet(one, "Query"@, query);
    let one = crate::lines::with_bullet(
        one,
        "Results"@,
        Some(crate::number::decimal(found.len())),
    );
    assert(bug_search_document(target, query, found) == bugs_behind(one, found));
    let two = seq!["# Launchpad merge proposal search"@];
    let two = crate::lines::with_bullet(
        two,
        "Results"@,
        Some(crate::number::decimal(found.len())),
    );
    let two = match limit {
        Some(limit) => crate::lines::with_bullet(
            two,
            "Limit"@,
            Some(crate::number::decimal(limit as nat)),
        ),
        None => two,
    };
    let two = if truncated {
        crate::lines::with_bullet(two, "More results available"@, Some("yes"@))
    } else {
        two
    };
    assert(proposal_search_document(found, limit, truncated) == proposals_behind(two, found));
}

/// The comments of a resource are shown in the order in which they are given, in one section behind
/// everything else.
pub proof fn lemma_comments_stay_in_order(
    lines: Seq<Seq<char>>,
    level: nat,
    comments: Seq<JsonView>,
    limit: nat,
)
    requires
        comments.len() > 0,
        !crate::text::is_blank(
            join(comments.map_values(|comment: JsonView| comment_block(comment)), "\n\n"@),
        ),
    ensures
        with_comments(lines, level, comments, true, limit) == lines.push(
            crate::format::repeated('#', level) + " "@ + ("Comments (up to "@ + crate::number::decimal(
                limit,
            ) + ")"@) + "\n\n"@ + trimmed(
                join(comments.map_values(|comment: JsonView| comment_block(comment)), "\n\n"@),
            ),
        ),
{
}

proof fn lemma_later(first: Option<Seq<char>>, second: Option<Seq<char>>, other: Seq<char>)
    ensures
        first is Some || second is Some ==> later(first, second) is Some,
        later(first, second) == first || later(first, second) == second,
        first == Some(other) || second == Some(other) ==> !precedes(later(first, second)->0, other),
        first matches Some(own) ==> !precedes(own, other) ==> !precedes(
            later(first, second)->0,
            other,
        ),
{
    lemma_precedes_irreflexive(other);
    if let (Some(a), Some(b)) = (first, second) {
        lemma_precedes_total(a, b);
        lemma_precedes_irreflexive(a);
        if precedes(b, other) && !precedes(a, other) && !precedes(b, a) {
            lemma_precedes_total(a, other);
            if a != other && a != b {
                lemma_precedes_transitive(a, b, other);
            }
        }
    }
}

/// A merge proposal was last updated on the latest of its dates: of its update, its merge, its
/// review, the requests for them, and its creation.
pub proof fn lemma_latest_date_counts(proposal: JsonView, date: Seq<char>)
    requires
        proposal.text("date_last_updated"@) == Some(date) || proposal.text("date_merged"@) == Some(date)
            || proposal.text("date_reviewed"@) == Some(date) || proposal.text("date_merge_requested"@)
            == Some(date) || proposal.text("date_review_requested"@) == Some(date) || proposal.text(
            "date_created"@,
        ) == Some(date),
    ensures
        proposal_updated_at(proposal) matches Some(updated) && !precedes(updated, date),
        ({
            let updated = proposal_updated_at(proposal);
            updated == proposal.text("date_last_updated"@) || updated == proposal.text("date_merged"@)
                || updated == proposal.text("date_reviewed"@) || updated == proposal.text(
                "date_merge_requested"@,
            ) || updated == proposal.text("date_review_requested"@) || updated == proposal.text(
                "date_created"@,
            )
        }),
{
    let one = later(proposal.text("date_last_updated"@), proposal.text("date_merged"@));
    lemma_later(proposal.text("date_last_updated"@), proposal.text("date_merged"@), date);
    let two = later(one, proposal.text("date_reviewed"@));
    lemma_later(one, proposal.text("date_reviewed"@), date);
    let three = later(two, proposal.text("date_merge_requested"@));
    lemma_later(two, proposal.text("date_merge_requested"@), date);
    let four = later(three, proposal.text("date_review_requested"@));
    lemma_later(three, proposal.text("date_review_requested"@), date);
    lemma_later(four, proposal.text("date_created"@), date);
}

/// The statuses and importances of the tasks of a bug are shown together, each once.
pub proof fn lemma_distinct_values(tasks: Seq<JsonView>, name: Seq<char>, i: int)
    requires
        0 <= i < tasks.len(),
    ensures
        distinct_scalars(tasks, name).no_duplicates(),
        tasks[i].text(name) matches Some(value) ==> value.len() > 0 ==> {
            &&& distinct_scalars(tasks, name).contains(value)
            &&& joined_scalars(tasks, name) matches Some(joined) && shows(joined, value)
        },
{
    lemma_each_once(tasks, name, i);
    if let Some(value) = tasks[i].text(name) {
        if value.len() > 0 {
            let values = distinct_scalars(tasks, name);
            let k = choose|k: int| 0 <= k < values.len() && values[k] == value;
            lemma_join_shows(values, ", "@, k);
        }
    }
}

proof fn lemma_each_once(tasks: Seq<JsonView>, name: Seq<char>, i: int)
    ensures
        distinct_scalars(tasks, name).no_duplicates(),
        0 <= i < tasks.len() ==> (tasks[i].text(name) matches Some(value) ==> value.len() > 0
            ==> distinct_scalars(tasks, name).contains(value)),
    decreases tasks.len(),
{
    if tasks.len() > 0 {
        let front = tasks.drop_last();
        lemma_each_once(front, name, i);
        let before = distinct_scalars(front, name);
        let after = distinct_scalars(tasks, name);
        assert(tasks.last() == tasks[tasks.len() - 1]);
        assert forall|x: Seq<char>| before.contains(x) implies after.contains(x) by {
            let k = choose|k: int| 0 <= k < before.len() && before[k] == x;
            assert(after[k] == x);
        }
        if 0 <= i < front.len() {
            assert(front[i] == tasks[i]);
        }
        if after.len() > before.len() {
            assert(after == before.push(after.last()));
            assert(after[before.len() as int] == after.last());
            assert forall|p: int, q: int|
                0 <= p < after.len() && 0 <= q < after.len() && p != q implies after[p] != after[q] by {
                if p < before.len() && q < before.len() {
                    assert(before[p] != before[q]);
                } else if p < before.len() {
                    assert(before.contains(before[p]));
                } else {
                    assert(before.contains(before[q]));
                }
            }
        }
    }
}

} // verus!
