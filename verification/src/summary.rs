//! The summary of a review: counts, votes and how they changed.
use vstd::prelude::*;
use crate::comments::{activity_of, lemma_votes_have_verdicts};
use crate::compare::{lemma_precedes_irreflexive, lemma_precedes_transitive, precedes};
use crate::fields::{name_of_reviewer_member, reviewer_member, text_field, value_or};
use crate::items::{
    are_ordered, arrange, lemma_put_member_found, lemma_put_member_ordered, put_member, with_member,
};
use crate::json::{
    items_view, member_in, members_view, no_items, no_members, number_view, push_item, push_member,
    text_or_null, Json, JsonView,
};
use crate::order::{
    arranged, key_precedes, keys_view, lemma_order_is_permutation, order_of, placed, sort_order,
    Key, KeyView,
};
use crate::people::{find_member, PeopleView};
use crate::text::{copy, opt_str_view, same};

verus! {

/// What votes are ordered by: the date.
pub open spec fn vote_key(vote: JsonView) -> KeyView {
    KeyView { rank: 0, text: vote.text("created_at"@), number: 0 }
}

/// The votes by date.
pub open spec fn ordered_votes(votes: Seq<JsonView>) -> Seq<JsonView> {
    arranged(votes, order_of(votes.map_values(|vote: JsonView| vote_key(vote))))
}

/// Who cast a vote.
pub open spec fn voter(vote: JsonView) -> Seq<char> {
    match vote.get("author"@) {
        Some(author) => value_or(author.text("username"@), "unknown"@),
        None => "unknown"@,
    }
}

/// How many votes have a verdict.
pub open spec fn verdict_count(votes: Seq<JsonView>, verdict: Seq<char>) -> nat
    decreases votes.len(),
{
    if votes.len() == 0 {
        0
    } else {
        verdict_count(votes.drop_last(), verdict) + if votes.last().text("vote"@) == Some(verdict) {
            1nat
        } else {
            0
        }
    }
}

/// What votes come to, in the order in which they were cast.
#[verifier::ext_equal]
pub struct Tally {
    pub counts: Seq<(Seq<char>, JsonView)>,
    pub previous: Seq<(Seq<char>, JsonView)>,
    pub current: Seq<(Seq<char>, JsonView)>,
    pub transitions: Seq<JsonView>,
}

/// The vote that someone stands by.
pub open spec fn current_vote(reviewer: Seq<char>, verdict: Seq<char>, at: Option<Seq<char>>) -> JsonView {
    JsonView::Object(
        Seq::empty().push((reviewer_member(), JsonView::Text(reviewer))).push(
            ("vote"@, JsonView::Text(verdict)),
        ).push(("at"@, text_or_null(at))),
    )
}

/// A change of someone's vote.
pub open spec fn vote_transition(
    reviewer: Seq<char>,
    from: JsonView,
    to: Seq<char>,
    at: Option<Seq<char>>,
) -> JsonView {
    JsonView::Object(
        Seq::empty().push((reviewer_member(), JsonView::Text(reviewer))).push(("from"@, from)).push(
            ("to"@, JsonView::Text(to)),
        ).push(("at"@, text_or_null(at))),
    )
}

/// What votes come to, in the order in which they were cast.
pub open spec fn tally_of(votes: Seq<JsonView>) -> Tally
    decreases votes.len(),
{
    if votes.len() == 0 {
        Tally {
            counts: Seq::empty(),
            previous: Seq::empty(),
            current: Seq::empty(),
            transitions: Seq::empty(),
        }
    } else {
        let front = tally_of(votes.drop_last());
        let vote = votes.last();
        let reviewer = voter(vote);
        let at = vote.text("created_at"@);
        match vote.text("vote"@) {
            None => front,
            Some(verdict) => Tally {
                counts: with_member(
                    front.counts,
                    verdict,
                    number_view(verdict_count(votes, verdict) as u64),
                ),
                previous: with_member(front.previous, reviewer, JsonView::Text(verdict)),
                current: with_member(front.current, reviewer, current_vote(reviewer, verdict, at)),
                transitions: match member_in(front.previous, reviewer) {
                    Some(previous) => if previous != JsonView::Text(verdict) {
                        front.transitions.push(vote_transition(reviewer, previous, verdict, at))
                    } else {
                        front.transitions
                    },
                    None => front.transitions,
                },
            },
        }
    }
}

/// How many values of a list have a text in a member.
pub open spec fn text_count(values: Seq<JsonView>, name: Seq<char>, text: Seq<char>) -> nat
    decreases values.len(),
{
    if values.len() == 0 {
        0
    } else {
        text_count(values.drop_last(), name, text) + if values.last().text(name) == Some(text) {
            1nat
        } else {
            0
        }
    }
}

/// How many review requests are pending.
pub open spec fn pending_count(requests: Seq<JsonView>) -> nat
    decreases requests.len(),
{
    if requests.len() == 0 {
        0
    } else {
        pending_count(requests.drop_last()) + if requests.last().flag("pending"@) == Some(true) {
            1nat
        } else {
            0
        }
    }
}

/// The values of members.
pub open spec fn member_values(members: Seq<(Seq<char>, JsonView)>) -> Seq<JsonView> {
    members.map_values(|member: (Seq<char>, JsonView)| member.1)
}

/// The summary of a review.
pub open spec fn review_summary(
    general_comments: Seq<JsonView>,
    review_votes: Seq<JsonView>,
    review_requests: Seq<JsonView>,
    inline_threads: Seq<JsonView>,
) -> JsonView {
    let tally = tally_of(ordered_votes(review_votes));
    let with_state = |state: Seq<char>|
        number_view(text_count(inline_threads, "state"@, state) as u64);
    JsonView::Object(
        Seq::empty().push(
            ("general_comment_count"@, number_view(general_comments.len() as u64)),
        ).push(("inline_thread_count"@, number_view(inline_threads.len() as u64))).push(
            ("current_open_inline_thread_count"@, with_state("open"@)),
        ).push(("outdated_inline_thread_count"@, with_state("outdated"@))).push(
            ("superseded_inline_thread_count"@, with_state("superseded"@)),
        ).push(("resolved_inline_thread_count"@, JsonView::Null)).push(
            (
                "resolution_tracking"@,
                JsonView::Text("Launchpad does not expose resolved inline-thread state"@),
            ),
        ).push(("review_request_count"@, number_view(review_requests.len() as u64))).push(
            (
                "pending_review_request_count"@,
                number_view(pending_count(review_requests) as u64),
            ),
        ).push(("review_vote_count"@, number_view(review_votes.len() as u64))).push(
            ("review_vote_counts"@, JsonView::Object(tally.counts)),
        ).push(("current_review_votes"@, JsonView::Array(member_values(tally.current)))).push(
            ("review_vote_transitions"@, JsonView::Array(tally.transitions)),
        ),
    )
}

fn find_voter(vote: &Json) -> (r: String)
    ensures
        r@ == voter(vote@),
{
    match vote.get("author") {
        Some(author) => match text_field(author, "username") {
            Some(name) => copy(name),
            None => copy("unknown"),
        },
        None => copy("unknown"),
    }
}

fn has_text(value: &Json, name: &str, text: &str) -> (r: bool)
    ensures
        r == (value@.text(name@) == Some(text@)),
{
    match text_field(value, name) {
        Some(found) => same(found, text),
        None => false,
    }
}

fn count_verdict(votes: &Vec<Json>, until: usize, verdict: &str) -> (r: usize)
    requires
        until <= votes@.len(),
    ensures
        r == verdict_count(items_view(votes@).take(until as int), verdict@),
{
    let ghost all = items_view(votes@);
    let mut count: usize = 0;
    assert(all.take(0) =~= Seq::empty());
    for i in 0..until
        invariant
            until <= votes@.len(),
            all == items_view(votes@),
            count <= i,
            count == verdict_count(all.take(i as int), verdict@),
    {
        assert(all.take(i + 1).drop_last() =~= all.take(i as int));
        assert(all.take(i + 1).last() == votes@[i as int]@);
        if has_text(&votes[i], "vote", verdict) {
            count = count + 1;
        }
    }
    count
}

fn count_text(values: &Vec<Json>, name: &str, text: &str) -> (r: usize)
    ensures
        r == text_count(items_view(values@), name@, text@),
{
    let ghost all = items_view(values@);
    let mut count: usize = 0;
    assert(all.take(0) =~= Seq::empty());
    for i in 0..values.len()
        invariant
            all == items_view(values@),
            count <= i,
            count == text_count(all.take(i as int), name@, text@),
    {
        assert(all.take(i + 1).drop_last() =~= all.take(i as int));
        assert(all.take(i + 1).last() == values@[i as int]@);
        if has_text(&values[i], name, text) {
            count = count + 1;
        }
    }
    assert(all.take(all.len() as int) =~= all);
    count
}

fn count_pending(requests: &Vec<Json>) -> (r: usize)
    ensures
        r == pending_count(items_view(requests@)),
{
    let ghost all = items_view(requests@);
    let mut count: usize = 0;
    assert(all.take(0) =~= Seq::empty());
    for i in 0..requests.len()
        invariant
            all == items_view(requests@),
            count <= i,
            count == pending_count(all.take(i as int)),
    {
        assert(all.take(i + 1).drop_last() =~= all.take(i as int));
        assert(all.take(i + 1).last() == requests@[i as int]@);
        let pending = match requests[i].flag("pending") {
            Some(pending) => pending,
            None => false,
        };
        if pending {
            count = count + 1;
        }
    }
    assert(all.take(all.len() as int) =~= all);
    count
}

struct Votes {
    counts: Vec<(String, Json)>,
    previous: Vec<(String, Json)>,
    current: Vec<(String, Json)>,
    transitions: Vec<Json>,
}

impl View for Votes {
    type V = Tally;

    closed spec fn view(&self) -> Tally {
        Tally {
            counts: members_view(self.counts@),
            previous: members_view(self.previous@),
            current: members_view(self.current@),
            transitions: items_view(self.transitions@),
        }
    }
}

fn build_current_vote(reviewer: &str, verdict: &str, at: Option<&str>) -> (r: Json)
    ensures
        r@ == current_vote(reviewer@, verdict@, opt_str_view(at)),
{
    let mut members = no_members();
    push_member(&mut members, name_of_reviewer_member().as_str(), Json::of_text(reviewer));
    push_member(&mut members, "vote", Json::of_text(verdict));
    push_member(&mut members, "at", Json::of_option(at));
    Json::Object(members)
}

fn build_transition(reviewer: &str, from: &Json, to: &str, at: Option<&str>) -> (r: Json)
    ensures
        r@ == vote_transition(reviewer@, from@, to@, opt_str_view(at)),
{
    let mut members = no_members();
    push_member(&mut members, name_of_reviewer_member().as_str(), Json::of_text(reviewer));
    push_member(&mut members, "from", from.copy());
    push_member(&mut members, "to", Json::of_text(to));
    push_member(&mut members, "at", Json::of_option(at));
    Json::Object(members)
}

fn is_text(value: &Json, text: &str) -> (r: bool)
    ensures
        r == (value@ == JsonView::Text(text@)),
{
    match value {
        Json::Text(found) => same(found.as_str(), text),
        _ => false,
    }
}

fn tally_votes(votes: &Vec<Json>) -> (r: Votes)
    ensures
        r@ == tally_of(items_view(votes@)),
{
    let ghost all = items_view(votes@);
    let mut tally = Votes {
        counts: no_members(),
        previous: no_members(),
        current: no_members(),
        transitions: no_items(),
    };
    assert(all.take(0) =~= Seq::empty());
    for i in 0..votes.len()
        invariant
            all == items_view(votes@),
            tally@ == tally_of(all.take(i as int)),
    {
        assert(all.take(i + 1).drop_last() =~= all.take(i as int));
        assert(all.take(i + 1).last() == votes@[i as int]@);
        let vote = &votes[i];
        if let Some(verdict) = text_field(vote, "vote") {
            let reviewer = find_voter(vote);
            let at = text_field(vote, "created_at");
            let count = count_verdict(votes, i + 1, verdict);
            tally.counts = put_member(&tally.counts, verdict, Json::of_number(count as u64));
            let transition = match find_member(&tally.previous, reviewer.as_str()) {
                Some(previous) => if !is_text(previous, verdict) {
                    Some(build_transition(reviewer.as_str(), previous, verdict, at))
                } else {
                    None
                },
                None => None,
            };
            if let Some(transition) = transition {
                push_item(&mut tally.transitions, transition);
            }
            tally.previous = put_member(
                &tally.previous,
                reviewer.as_str(),
                Json::of_text(verdict),
            );
            tally.current = put_member(
                &tally.current,
                reviewer.as_str(),
                build_current_vote(reviewer.as_str(), verdict, at),
            );
        }
    }
    assert(all.take(all.len() as int) =~= all);
    tally
}

fn order_votes(votes: &Vec<Json>) -> (r: Vec<Json>)
    ensures
        items_view(r@) == ordered_votes(items_view(votes@)),
{
    let ghost all = items_view(votes@);
    let mut keys: Vec<Key> = Vec::new();
    for i in 0..votes.len()
        invariant
            all == items_view(votes@),
            keys@.len() == i,
            forall|j: int| 0 <= j < i ==> (#[trigger] keys@[j])@ == vote_key(all[j]),
    {
        let text = match text_field(&votes[i], "created_at") {
            Some(at) => Some(copy(at)),
            None => None,
        };
        keys.push(Key { rank: 0, text, number: 0 });
    }
    assert(keys_view(keys@) =~= all.map_values(|vote: JsonView| vote_key(vote)));
    let order = sort_order(&keys);
    arrange(votes, &order)
}

fn values_of(members: &Vec<(String, Json)>) -> (r: Vec<Json>)
    ensures
        items_view(r@) == member_values(members_view(members@)),
{
    let ghost all = member_values(members_view(members@));
    let mut out = no_items();
    assert(all.take(0) =~= Seq::empty());
    for i in 0..members.len()
        invariant
            all == member_values(members_view(members@)),
            items_view(out@) == all.take(i as int),
    {
        push_item(&mut out, members[i].1.copy());
        assert(all.take(i + 1) =~= all.take(i as int).push(members@[i as int].1@));
    }
    assert(all.take(all.len() as int) =~= all);
    out
}

/// The summary of a review: how many comments, threads, requests and votes there are, the vote
/// that each person stands by, and how votes changed.
pub fn build_review_summary(
    general_comments: &Vec<Json>,
    review_votes: &Vec<Json>,
    review_requests: &Vec<Json>,
    inline_threads: &Vec<Json>,
) -> (r: Json)
    ensures
        r@ == review_summary(
            items_view(general_comments@),
            items_view(review_votes@),
            items_view(review_requests@),
            items_view(inline_threads@),
        ),
{
    let tally = tally_votes(&order_votes(review_votes));
    let mut members = no_members();
    push_member(
        &mut members,
        "general_comment_count",
        Json::of_number(general_comments.len() as u64),
    );
    push_member(&mut members, "inline_thread_count", Json::of_number(inline_threads.len() as u64));
    push_member(
        &mut members,
        "current_open_inline_thread_count",
        Json::of_number(count_text(inline_threads, "state", "open") as u64),
    );
    push_member(
        &mut members,
        "outdated_inline_thread_count",
        Json::of_number(count_text(inline_threads, "state", "outdated") as u64),
    );
    push_member(
        &mut members,
        "superseded_inline_thread_count",
        Json::of_number(count_text(inline_threads, "state", "superseded") as u64),
    );
    push_member(&mut members, "resolved_inline_thread_count", Json::Null);
    push_member(
        &mut members,
        "resolution_tracking",
        Json::of_text("Launchpad does not expose resolved inline-thread state"),
    );
    push_member(&mut members, "review_request_count", Json::of_number(review_requests.len() as u64));
    push_member(
        &mut members,
        "pending_review_request_count",
        Json::of_number(count_pending(review_requests) as u64),
    );
    push_member(&mut members, "review_vote_count", Json::of_number(review_votes.len() as u64));
    let current = values_of(&tally.current);
    push_member(&mut members, "review_vote_counts", Json::Object(tally.counts));
    push_member(&mut members, "current_review_votes", Json::Array(current));
    push_member(&mut members, "review_vote_transitions", Json::Array(tally.transitions));
    Json::Object(members)
}

/// Whoever cast the last vote with a verdict stands by it.
pub proof fn lemma_last_vote_stands(votes: Seq<JsonView>, verdict: Seq<char>)
    requires
        votes.len() > 0,
        votes.last().text("vote"@) == Some(verdict),
    ensures
        member_in(tally_of(votes).current, voter(votes.last())) == Some(
            current_vote(voter(votes.last()), verdict, votes.last().text("created_at"@)),
        ),
        member_in(tally_of(votes).counts, verdict) == Some(
            number_view(verdict_count(votes, verdict) as u64),
        ),
{
    let front = tally_of(votes.drop_last());
    let reviewer = voter(votes.last());
    crate::items::lemma_put_member_found(
        front.current,
        reviewer,
        current_vote(reviewer, verdict, votes.last().text("created_at"@)),
        reviewer,
    );
    crate::items::lemma_put_member_found(
        front.counts,
        verdict,
        number_view(verdict_count(votes, verdict) as u64),
        verdict,
    );
}

/// Someone who votes the same as before makes no transition, and one who changes the vote
/// makes exactly one.
pub proof fn lemma_transition_on_change(votes: Seq<JsonView>, verdict: Seq<char>)
    requires
        votes.len() > 0,
        votes.last().text("vote"@) == Some(verdict),
    ensures
        ({
            let before = tally_of(votes.drop_last());
            let after = tally_of(votes);
            let previous = member_in(before.previous, voter(votes.last()));
            &&& previous is None || previous == Some(JsonView::Text(verdict)) ==> after.transitions
                == before.transitions
            &&& previous is Some && previous != Some(JsonView::Text(verdict)) ==> after.transitions.len()
                == before.transitions.len() + 1
            &&& member_in(after.previous, voter(votes.last())) == Some(JsonView::Text(verdict))
        }),
{
    crate::items::lemma_put_member_found(
        tally_of(votes.drop_last()).previous,
        voter(votes.last()),
        JsonView::Text(verdict),
        voter(votes.last()),
    );
}

/// Every inline thread of a known state is counted under exactly that state.
pub proof fn lemma_state_counts_add_up(threads: Seq<JsonView>)
    requires
        forall|i: int|
            0 <= i < threads.len() ==> {
                let state = (#[trigger] threads[i]).text("state"@);
                state == Some("open"@) || state == Some("outdated"@) || state == Some("superseded"@)
            },
    ensures
        text_count(threads, "state"@, "open"@) + text_count(threads, "state"@, "outdated"@)
            + text_count(threads, "state"@, "superseded"@) == threads.len(),
    decreases threads.len(),
{
    reveal_strlit("open");
    reveal_strlit("outdated");
    reveal_strlit("superseded");
    assert("open"@.len() == 4 && "outdated"@.len() == 8 && "superseded"@.len() == 10);
    if threads.len() > 0 {
        let front = threads.drop_last();
        assert forall|i: int| 0 <= i < front.len() implies {
            let state = (#[trigger] front[i]).text("state"@);
            state == Some("open"@) || state == Some("outdated"@) || state == Some("superseded"@)
        } by {
            assert(front[i] == threads[i]);
        }
        lemma_state_counts_add_up(front);
        let last = threads[threads.len() - 1];
        assert(last == threads.last());
    }
}

/// How many votes have a verdict.
pub open spec fn cast_count(votes: Seq<JsonView>) -> nat
    decreases votes.len(),
{
    if votes.len() == 0 {
        0
    } else {
        cast_count(votes.drop_last()) + if votes.last().text("vote"@) is Some {
            1nat
        } else {
            0
        }
    }
}

/// The numbers of members together.
pub open spec fn sum_of(members: Seq<(Seq<char>, JsonView)>) -> nat
    decreases members.len(),
{
    if members.len() == 0 {
        0
    } else {
        value_or(members[0].1.as_u64(), 0) as nat + sum_of(members.skip(1))
    }
}

proof fn lemma_absent_in_front(members: Seq<(Seq<char>, JsonView)>, name: Seq<char>)
    requires
        are_ordered(members),
        members.len() > 0,
        precedes(name, members[0].0),
    ensures
        member_in(members, name) is None,
{
    assert forall|i: int| 0 <= i < members.len() implies (#[trigger] members[i]).0 != name by {
        lemma_precedes_irreflexive(name);
        if i > 0 {
            assert(precedes(members[0].0, members[i].0));
            lemma_precedes_transitive(name, members[0].0, members[i].0);
        }
    }
    lemma_not_a_member(members, name);
}

proof fn lemma_not_a_member(members: Seq<(Seq<char>, JsonView)>, name: Seq<char>)
    requires
        forall|i: int| 0 <= i < members.len() ==> (#[trigger] members[i]).0 != name,
    ensures
        member_in(members, name) is None,
    decreases members.len(),
{
    if members.len() > 0 {
        let rest = members.skip(1);
        assert forall|i: int| 0 <= i < rest.len() implies (#[trigger] rest[i]).0 != name by {
            assert(rest[i] == members[i + 1]);
        }
        lemma_not_a_member(rest, name);
    }
}

proof fn lemma_sum_with_member(members: Seq<(Seq<char>, JsonView)>, name: Seq<char>, value: u64)
    requires
        are_ordered(members),
    ensures
        sum_of(with_member(members, name, number_view(value))) + (match member_in(members, name) {
            Some(before) => value_or(before.as_u64(), 0) as nat,
            None => 0,
        }) == sum_of(members) + value,
    decreases members.len(),
{
    let result = with_member(members, name, number_view(value));
    if members.len() == 0 {
        assert(result.skip(1) =~= members);
    } else if members[0].0 == name {
        assert(result.skip(1) =~= members.skip(1));
    } else if precedes(name, members[0].0) {
        assert(result.skip(1) =~= members);
        lemma_absent_in_front(members, name);
    } else {
        let rest = members.skip(1);
        assert forall|i: int, j: int| 0 <= i < j < rest.len() implies precedes(
            (#[trigger] rest[i]).0,
            (#[trigger] rest[j]).0,
        ) by {
            assert(precedes(members[i + 1].0, members[j + 1].0));
        }
        lemma_sum_with_member(rest, name, value);
        assert(result.skip(1) =~= with_member(rest, name, number_view(value)));
        assert(result[0] == members[0]);
    }
}

proof fn lemma_verdicts_fit(votes: Seq<JsonView>, verdict: Seq<char>)
    ensures
        verdict_count(votes, verdict) <= votes.len(),
    decreases votes.len(),
{
    if votes.len() > 0 {
        lemma_verdicts_fit(votes.drop_last(), verdict);
    }
}

proof fn lemma_tally_counts(votes: Seq<JsonView>, verdict: Seq<char>)
    ensures
        are_ordered(tally_of(votes).counts),
        member_in(tally_of(votes).counts, verdict) == (if verdict_count(votes, verdict) > 0 {
            Some(number_view(verdict_count(votes, verdict) as u64))
        } else {
            None
        }),
    decreases votes.len(),
{
    if votes.len() > 0 {
        let front = votes.drop_last();
        lemma_tally_counts(front, verdict);
        if let Some(cast) = votes.last().text("vote"@) {
            let count = number_view(verdict_count(votes, cast) as u64);
            lemma_put_member_ordered(tally_of(front).counts, cast, count);
            lemma_put_member_found(tally_of(front).counts, cast, count, verdict);
        }
    }
}

proof fn lemma_tally_sum(votes: Seq<JsonView>)
    requires
        votes.len() <= u64::MAX,
    ensures
        sum_of(tally_of(votes).counts) == cast_count(votes),
    decreases votes.len(),
{
    if votes.len() > 0 {
        let front = votes.drop_last();
        lemma_tally_sum(front);
        if let Some(cast) = votes.last().text("vote"@) {
            lemma_tally_counts(front, cast);
            lemma_verdicts_fit(front, cast);
            lemma_verdicts_fit(votes, cast);
            lemma_sum_with_member(
                tally_of(front).counts,
                cast,
                verdict_count(votes, cast) as u64,
            );
        }
    }
}

proof fn lemma_cast_placed(votes: Seq<JsonView>, order: Seq<int>, keys: Seq<KeyView>, index: int)
    ensures
        cast_count(arranged(votes, placed(order, keys, index))) == cast_count(
            arranged(votes, order),
        ) + (if votes[index].text("vote"@) is Some {
            1nat
        } else {
            0
        }),
    decreases order.len(),
{
    let longer = arranged(votes, placed(order, keys, index));
    let shorter = arranged(votes, order);
    if order.len() > 0 && key_precedes(keys[index], keys[order.last()]) {
        lemma_cast_placed(votes, order.drop_last(), keys, index);
        assert(longer.drop_last() =~= arranged(votes, placed(order.drop_last(), keys, index)));
        assert(shorter.drop_last() =~= arranged(votes, order.drop_last()));
    } else {
        assert(longer.drop_last() =~= shorter);
    }
}

proof fn lemma_cast_ordered(votes: Seq<JsonView>)
    ensures
        cast_count(ordered_votes(votes)) == cast_count(votes),
        ordered_votes(votes).len() == votes.len(),
    decreases votes.len(),
{
    let keys = votes.map_values(|vote: JsonView| vote_key(vote));
    lemma_order_is_permutation(keys);
    if votes.len() > 0 {
        let front = votes.drop_last();
        let before = front.map_values(|vote: JsonView| vote_key(vote));
        lemma_cast_ordered(front);
        assert(keys.drop_last() =~= before);
        lemma_order_is_permutation(before);
        lemma_cast_placed(votes, order_of(before), keys, votes.len() - 1);
        assert(arranged(votes, order_of(before)) =~= arranged(front, order_of(before)));
    }
}

proof fn lemma_all_cast(votes: Seq<JsonView>)
    requires
        forall|i: int| 0 <= i < votes.len() ==> (#[trigger] votes[i]).text("vote"@) is Some,
    ensures
        cast_count(votes) == votes.len(),
    decreases votes.len(),
{
    if votes.len() > 0 {
        let front = votes.drop_last();
        assert forall|i: int| 0 <= i < front.len() implies (#[trigger] front[i]).text(
            "vote"@,
        ) is Some by {
            assert(front[i] == votes[i]);
        }
        assert(votes.last() == votes[votes.len() - 1]);
        lemma_all_cast(front);
    }
}

/// The counts of a review by verdict add up to the votes that have one. Where all votes do,
/// they add up to the number of votes. Each count is that of its verdict.
pub proof fn lemma_vote_counts_add_up(votes: Seq<JsonView>, verdict: Seq<char>)
    requires
        votes.len() <= u64::MAX,
    ensures
        ({
            let tally = tally_of(ordered_votes(votes));
            &&& sum_of(tally.counts) == cast_count(votes)
            &&& (forall|i: int| 0 <= i < votes.len() ==> (#[trigger] votes[i]).text("vote"@) is Some)
                ==> sum_of(tally.counts) == votes.len()
            &&& member_in(tally.counts, verdict) == (if verdict_count(
                ordered_votes(votes),
                verdict,
            ) > 0 {
                Some(number_view(verdict_count(ordered_votes(votes), verdict) as u64))
            } else {
                None
            })
        }),
{
    lemma_cast_ordered(votes);
    lemma_tally_sum(ordered_votes(votes));
    lemma_tally_counts(ordered_votes(votes), verdict);
    if forall|i: int| 0 <= i < votes.len() ==> (#[trigger] votes[i]).text("vote"@) is Some {
        lemma_all_cast(votes);
    }
}

/// The counts by verdict of a discussion add up to the number of its votes.
pub proof fn lemma_discussion_votes_add_up(
    comments: Seq<JsonView>,
    requests: Seq<JsonView>,
    people: PeopleView,
    since: Option<(i64, u32)>,
    reviewer: Option<Seq<char>>,
)
    requires
        comments.len() <= u64::MAX,
    ensures
        ({
            let votes = activity_of(comments, requests, people, since, reviewer).votes;
            sum_of(tally_of(ordered_votes(votes)).counts) == votes.len()
        }),
{
    lemma_votes_have_verdicts(comments, requests, people, since, reviewer);
    let votes = activity_of(comments, requests, people, since, reviewer).votes;
    lemma_vote_counts_add_up(votes, Seq::empty());
}

} // verus!
