//! What the summary of a review says of its votes.
use vstd::prelude::*;
use crate::compare::precedes;
use crate::fields::reviewer_member;
use crate::items::lemma_put_member_found;
use crate::json::{member_in, JsonView};
use crate::laws::terms::{lemma_arranged_is_same, lemma_member_at, lemma_reviewer_member};
use crate::order::{lemma_order_is_permutation, lemma_order_is_sorted_and_stable, order_of};
use crate::summary::{
    current_vote, member_values, ordered_votes, pending_count, review_summary, tally_of, text_count,
    vote_key, vote_transition, voter,
};

verus! {

/// Whether someone cast a vote: its author has that user name, or it has none and they are
/// unknown.
pub open spec fn cast_by(vote: JsonView, name: Seq<char>) -> bool {
    match vote.get("author"@) {
        Some(author) => match author.text("username"@) {
            Some(own) => own == name,
            None => name == "unknown"@,
        },
        None => name == "unknown"@,
    }
}

/// Whether someone casts no vote with a verdict from an index up to another.
pub open spec fn silent(votes: Seq<JsonView>, name: Seq<char>, from: int, to: int) -> bool {
    forall|k: int|
        from <= k < to && cast_by(#[trigger] votes[k], name) ==> votes[k].text("vote"@) is None
}

/// Whether a value is the change of a vote: it names who changed it, the verdict before and the
/// verdict after, and when.
pub open spec fn says_change(
    transition: JsonView,
    name: Seq<char>,
    from: Seq<char>,
    to: Seq<char>,
    at: Option<Seq<char>>,
) -> bool {
    &&& transition.text(reviewer_member()) == Some(name)
    &&& transition.text("from"@) == Some(from)
    &&& transition.text("to"@) == Some(to)
    &&& transition.text("at"@) == at
}

/// Whether a value is the vote that someone stands by: it names them, the verdict, and when.
pub open spec fn says_vote(
    value: JsonView,
    name: Seq<char>,
    verdict: Seq<char>,
    at: Option<Seq<char>>,
) -> bool {
    &&& value.text(reviewer_member()) == Some(name)
    &&& value.text("vote"@) == Some(verdict)
    &&& value.text("at"@) == at
}

proof fn lemma_transition_members(
    name: Seq<char>,
    from: Seq<char>,
    to: Seq<char>,
    at: Option<Seq<char>>,
)
    ensures
        says_change(vote_transition(name, JsonView::Text(from), to, at), name, from, to, at),
        says_vote(current_vote(name, from, at), name, from, at),
{
    lemma_reviewer_member();
    reveal_strlit("from");
    reveal_strlit("to");
    reveal_strlit("at");
    reveal_strlit("vote");
    assert("from"@.len() == 4 && "to"@.len() == 2 && "at"@.len() == 2 && "vote"@.len() == 4);
    assert("from"@[0] == 'f');
    assert("vote"@[0] == 'v');
    assert("to"@[0] == 't');
    assert("at"@[0] == 'a');
    let change = vote_transition(name, JsonView::Text(from), to, at)->Object_0;
    lemma_member_at(change, 0);
    lemma_member_at(change, 1);
    lemma_member_at(change, 2);
    lemma_member_at(change, 3);
    let vote = current_vote(name, from, at)->Object_0;
    lemma_member_at(vote, 0);
    lemma_member_at(vote, 1);
    lemma_member_at(vote, 2);
}

proof fn lemma_no_vote(votes: Seq<JsonView>, name: Seq<char>)
    requires
        silent(votes, name, 0, votes.len() as int),
    ensures
        member_in(tally_of(votes).previous, name) is None,
        member_in(tally_of(votes).current, name) is None,
    decreases votes.len(),
{
    if votes.len() > 0 {
        let front = votes.drop_last();
        assert(silent(front, name, 0, front.len() as int)) by {
            assert forall|k: int| 0 <= k < front.len() && cast_by(#[trigger] front[k], name) implies front[k].text(
                "vote"@,
            ) is None by {
                assert(front[k] == votes[k]);
            }
        }
        lemma_no_vote(front, name);
        let last = votes.last();
        if let Some(verdict) = last.text("vote"@) {
            assert(!cast_by(votes[votes.len() - 1], name));
            let own = voter(last);
            lemma_put_member_found(tally_of(front).previous, own, JsonView::Text(verdict), name);
            lemma_put_member_found(
                tally_of(front).current,
                own,
                current_vote(own, verdict, last.text("created_at"@)),
                name,
            );
        }
    }
}

proof fn lemma_last_vote(votes: Seq<JsonView>, i: int, name: Seq<char>, verdict: Seq<char>)
    requires
        0 <= i < votes.len(),
        cast_by(votes[i], name),
        votes[i].text("vote"@) == Some(verdict),
        silent(votes, name, i + 1, votes.len() as int),
    ensures
        member_in(tally_of(votes).previous, name) == Some(JsonView::Text(verdict)),
        member_in(tally_of(votes).current, name) == Some(
            current_vote(name, verdict, votes[i].text("created_at"@)),
        ),
    decreases votes.len(),
{
    let front = votes.drop_last();
    let last = votes.last();
    if i < votes.len() - 1 {
        assert(front[i] == votes[i]);
        assert(silent(front, name, i + 1, front.len() as int)) by {
            assert forall|k: int|
                i + 1 <= k < front.len() && cast_by(#[trigger] front[k], name) implies front[k].text(
                "vote"@,
            ) is None by {
                assert(front[k] == votes[k]);
            }
        }
        lemma_last_vote(front, i, name, verdict);
        assert(cast_by(votes[votes.len() - 1], name) ==> votes[votes.len() - 1].text("vote"@) is None);
    }
    if let Some(own) = last.text("vote"@) {
        let who = voter(last);
        lemma_put_member_found(tally_of(front).previous, who, JsonView::Text(own), name);
        lemma_put_member_found(
            tally_of(front).current,
            who,
            current_vote(who, own, last.text("created_at"@)),
            name,
        );
    }
}

/// Someone whose vote changes the verdict of the vote that they cast before it makes one
/// transition more, which names them, the verdict before, the verdict after, and when. A vote with
/// the same verdict as before makes none.
pub proof fn lemma_changed_vote_makes_transition(
    votes: Seq<JsonView>,
    i: int,
    name: Seq<char>,
    from: Seq<char>,
    to: Seq<char>,
)
    requires
        0 <= i < votes.len() - 1,
        cast_by(votes[i], name),
        votes[i].text("vote"@) == Some(from),
        cast_by(votes.last(), name),
        votes.last().text("vote"@) == Some(to),
        silent(votes, name, i + 1, votes.len() - 1),
    ensures
        ({
            let before = tally_of(votes.drop_last()).transitions;
            let after = tally_of(votes).transitions;
            &&& from == to ==> after == before
            &&& from != to ==> {
                &&& after.len() == before.len() + 1
                &&& after.drop_last() == before
                &&& says_change(after.last(), name, from, to, votes.last().text("created_at"@))
                &&& after.last().text("from"@) != after.last().text("to"@)
            }
        }),
{
    let front = votes.drop_last();
    assert(front[i] == votes[i]);
    assert(silent(front, name, i + 1, front.len() as int)) by {
        assert forall|k: int|
            i + 1 <= k < front.len() && cast_by(#[trigger] front[k], name) implies front[k].text(
            "vote"@,
        ) is None by {
            assert(front[k] == votes[k]);
        }
    }
    lemma_last_vote(front, i, name, from);
    lemma_transition_members(name, from, to, votes.last().text("created_at"@));
    if from != to {
        assert(tally_of(votes).transitions.drop_last() =~= tally_of(front).transitions);
    }
}

/// Someone who has not voted before makes no transition, nor does a vote without a verdict, and
/// without votes there is none.
pub proof fn lemma_first_vote_makes_no_transition(votes: Seq<JsonView>, name: Seq<char>)
    ensures
        tally_of(Seq::empty()).transitions.len() == 0,
        votes.len() > 0 && cast_by(votes.last(), name) && silent(votes, name, 0, votes.len() - 1)
            ==> tally_of(votes).transitions == tally_of(votes.drop_last()).transitions,
        votes.len() > 0 && votes.last().text("vote"@) is None ==> tally_of(votes) == tally_of(
            votes.drop_last(),
        ),
{
    if votes.len() > 0 && cast_by(votes.last(), name) && silent(votes, name, 0, votes.len() - 1) {
        let front = votes.drop_last();
        assert(silent(front, name, 0, front.len() as int)) by {
            assert forall|k: int| 0 <= k < front.len() && cast_by(#[trigger] front[k], name) implies front[k].text(
                "vote"@,
            ) is None by {
                assert(front[k] == votes[k]);
            }
        }
        lemma_no_vote(front, name);
    }
}

/// Everyone who voted stands by the last vote that they cast with a verdict, and no one else
/// stands by any.
pub proof fn lemma_everyone_stands_by_last_vote(
    votes: Seq<JsonView>,
    i: int,
    name: Seq<char>,
    verdict: Seq<char>,
)
    ensures
        0 <= i < votes.len() && cast_by(votes[i], name) && votes[i].text("vote"@) == Some(verdict)
            && silent(votes, name, i + 1, votes.len() as int) ==> (member_in(
            tally_of(votes).current,
            name,
        ) matches Some(value) && says_vote(value, name, verdict, votes[i].text("created_at"@))),
        silent(votes, name, 0, votes.len() as int) ==> member_in(tally_of(votes).current, name) is None,
{
    if 0 <= i < votes.len() && cast_by(votes[i], name) && votes[i].text("vote"@) == Some(verdict)
        && silent(votes, name, i + 1, votes.len() as int) {
        lemma_last_vote(votes, i, name, verdict);
        lemma_transition_members(name, verdict, verdict, votes[i].text("created_at"@));
    }
    if silent(votes, name, 0, votes.len() as int) {
        lemma_no_vote(votes, name);
    }
}

/// Votes are taken by the date on which they were cast, and none is lost or taken twice. Votes of
/// one date stay in their order.
pub proof fn lemma_votes_taken_by_date(votes: Seq<JsonView>, i: int, j: int)
    requires
        0 <= i < j < votes.len(),
    ensures
        ordered_votes(votes).to_multiset() =~= votes.to_multiset(),
        ordered_votes(votes).len() == votes.len(),
        ordered_votes(votes)[i].text("created_at"@) matches Some(earlier) ==> (ordered_votes(
            votes,
        )[j].text("created_at"@) matches Some(later) && !precedes(later, earlier)),
        (forall|k: int|
            0 <= k < votes.len() ==> (#[trigger] votes[k]).text("created_at"@) == votes[0].text(
                "created_at"@,
            )) ==> ordered_votes(votes) =~= votes,
{
    let keys = votes.map_values(|vote: JsonView| vote_key(vote));
    lemma_arranged_is_same(votes, keys);
    lemma_order_is_permutation(keys);
    lemma_order_is_sorted_and_stable(keys, i, j);
    let order = order_of(keys);
    assert(ordered_votes(votes)[i] == votes[order[i]]);
    assert(ordered_votes(votes)[j] == votes[order[j]]);
    assert(keys[order[i]] == vote_key(votes[order[i]]));
    assert(keys[order[j]] == vote_key(votes[order[j]]));
    if forall|k: int|
        0 <= k < votes.len() ==> (#[trigger] votes[k]).text("created_at"@) == votes[0].text(
            "created_at"@,
        ) {
        assert forall|p: int, q: int| 0 <= p < q < order.len() implies order[p] < order[q] by {
            lemma_order_is_sorted_and_stable(keys, p, q);
            assert(keys[order[p]] == vote_key(votes[order[p]]));
            assert(keys[order[q]] == vote_key(votes[order[q]]));
            assert(keys[order[p]] == keys[order[q]]);
        }
        lemma_ascending(order, votes.len() as int);
        assert(ordered_votes(votes) =~= votes);
    }
}

proof fn lemma_ascending(order: Seq<int>, count: int)
    requires
        order.len() == count,
        forall|p: int| 0 <= p < order.len() ==> 0 <= #[trigger] order[p] < count,
        forall|p: int, q: int| 0 <= p < q < order.len() ==> order[p] < order[q],
    ensures
        forall|p: int| 0 <= p < order.len() ==> #[trigger] order[p] == p,
{
    assert forall|p: int| 0 <= p < order.len() implies #[trigger] order[p] == p by {
        lemma_at_least(order, p);
        lemma_at_most(order, count, p);
    }
}

proof fn lemma_at_least(order: Seq<int>, p: int)
    requires
        0 <= p < order.len(),
        forall|p: int| 0 <= p < order.len() ==> 0 <= #[trigger] order[p],
        forall|p: int, q: int| 0 <= p < q < order.len() ==> order[p] < order[q],
    ensures
        p <= order[p],
    decreases p,
{
    if p > 0 {
        lemma_at_least(order, p - 1);
        assert(order[p - 1] < order[p]);
    }
}

proof fn lemma_at_most(order: Seq<int>, count: int, p: int)
    requires
        0 <= p < order.len(),
        order.len() == count,
        forall|p: int| 0 <= p < order.len() ==> #[trigger] order[p] < count,
        forall|p: int, q: int| 0 <= p < q < order.len() ==> order[p] < order[q],
    ensures
        order[p] <= p,
    decreases order.len() - p,
{
    if p < order.len() - 1 {
        lemma_at_most(order, count, p + 1);
        assert(order[p] < order[p + 1]);
    }
}

/// The summary of a review says by name how many comments, threads, requests and votes there are,
/// and has the votes that stand and their changes, taken by date.
#[verifier::rlimit(80)]
pub proof fn lemma_summary_says(
    general_comments: Seq<JsonView>,
    votes: Seq<JsonView>,
    requests: Seq<JsonView>,
    threads: Seq<JsonView>,
)
    ensures
        ({
            let summary = review_summary(general_comments, votes, requests, threads);
            let tally = tally_of(ordered_votes(votes));
            &&& summary.unsigned("general_comment_count"@) == Some(general_comments.len() as u64)
            &&& summary.unsigned("inline_thread_count"@) == Some(threads.len() as u64)
            &&& summary.unsigned("current_open_inline_thread_count"@) == Some(
                text_count(threads, "state"@, "open"@) as u64,
            )
            &&& summary.unsigned("outdated_inline_thread_count"@) == Some(
                text_count(threads, "state"@, "outdated"@) as u64,
            )
            &&& summary.unsigned("superseded_inline_thread_count"@) == Some(
                text_count(threads, "state"@, "superseded"@) as u64,
            )
            &&& summary.get("resolved_inline_thread_count"@) == Some(JsonView::Null)
            &&& summary.unsigned("review_request_count"@) == Some(requests.len() as u64)
            &&& summary.unsigned("pending_review_request_count"@) == Some(
                pending_count(requests) as u64,
            )
            &&& summary.unsigned("review_vote_count"@) == Some(votes.len() as u64)
            &&& summary.get("review_vote_counts"@) == Some(JsonView::Object(tally.counts))
            &&& summary.get("current_review_votes"@) == Some(
                JsonView::Array(member_values(tally.current)),
            )
            &&& summary.get("review_vote_transitions"@) == Some(JsonView::Array(tally.transitions))
        }),
{
    reveal_strlit("general_comment_count");
    reveal_strlit("inline_thread_count");
    reveal_strlit("current_open_inline_thread_count");
    reveal_strlit("outdated_inline_thread_count");
    reveal_strlit("superseded_inline_thread_count");
    reveal_strlit("resolved_inline_thread_count");
    reveal_strlit("resolution_tracking");
    reveal_strlit("review_request_count");
    reveal_strlit("pending_review_request_count");
    reveal_strlit("review_vote_count");
    reveal_strlit("review_vote_counts");
    reveal_strlit("current_review_votes");
    reveal_strlit("review_vote_transitions");
    assert("general_comment_count"@.len() == 21 && "inline_thread_count"@.len() == 19
        && "current_open_inline_thread_count"@.len() == 32
        && "outdated_inline_thread_count"@.len() == 28
        && "superseded_inline_thread_count"@.len() == 30
        && "resolved_inline_thread_count"@.len() == 28 && "resolution_tracking"@.len() == 19
        && "review_request_count"@.len() == 20 && "pending_review_request_count"@.len() == 28
        && "review_vote_count"@.len() == 17 && "review_vote_counts"@.len() == 18
        && "current_review_votes"@.len() == 20 && "review_vote_transitions"@.len() == 23);
    assert("inline_thread_count"@[0] == 'i');
    assert("resolution_tracking"@[0] == 'r');
    assert("outdated_inline_thread_count"@[0] == 'o');
    assert("resolved_inline_thread_count"@[0] == 'r');
    assert("pending_review_request_count"@[0] == 'p');
    assert("review_request_count"@[0] == 'r');
    assert("current_review_votes"@[0] == 'c');
    let members = review_summary(general_comments, votes, requests, threads)->Object_0;
    lemma_member_at(members, 0);
    lemma_member_at(members, 1);
    lemma_member_at(members, 2);
    lemma_member_at(members, 3);
    lemma_member_at(members, 4);
    lemma_member_at(members, 5);
    lemma_member_at(members, 6);
    lemma_member_at(members, 7);
    lemma_member_at(members, 8);
    lemma_member_at(members, 9);
    lemma_member_at(members, 10);
    lemma_member_at(members, 11);
    lemma_member_at(members, 12);
}

/// A count by state, or of pending requests, counts exactly the values that are so.
pub proof fn lemma_counts_count(values: Seq<JsonView>, name: Seq<char>, text: Seq<char>)
    ensures
        text_count(values, name, text) == values.filter(
            |value: JsonView| value.text(name) == Some(text),
        ).len(),
        pending_count(values) == values.filter(
            |value: JsonView| value.flag("pending"@) == Some(true),
        ).len(),
    decreases values.len(),
{
    reveal(Seq::filter);
    if values.len() > 0 {
        lemma_counts_count(values.drop_last(), name, text);
    }
}

} // verus!
