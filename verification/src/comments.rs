//! General comments, review votes and review requests, and the filters of a discussion.
use vstd::prelude::*;
use crate::compare::{eq_ignore_ascii_case, same_letters};
use crate::fields::{either, name_of_reviewer_member, reviewer_member, text_field};
use crate::items::keep;
use crate::json::{
    flag_or_null, items_view, no_items, no_members, number_view, push_item, push_member,
    text_or_null, value_or_null, Json, JsonView,
};
use crate::people::{identity_of, identity_view, normalise_identity, People, PeopleView};
use crate::text::{blank, is_blank, opt_str_view, trim_start_matches, trim_start_of};
use crate::web::{is_not_before, not_before, parse_rfc3339, rfc3339_instant};

verus! {

/// A text, where it is not blank.
pub open spec fn unless_blank(text: Option<Seq<char>>) -> Option<Seq<char>> {
    match text {
        Some(text) => if is_blank(text) {
            None
        } else {
            Some(text)
        },
        None => None,
    }
}

/// A general comment of a merge proposal.
pub open spec fn general_comment(comment: JsonView, people: PeopleView) -> JsonView {
    let author = either(
        identity_of(comment, "author"@, people),
        identity_of(comment, "owner"@, people),
    );
    let body = unless_blank(either(comment.text("message_body"@), comment.text("content"@)));
    JsonView::Object(
        Seq::empty().push(("id"@, value_or_null(comment.get("id"@)))).push(
            ("author"@, value_or_null(author)),
        ).push(("created_at"@, text_or_null(comment.text("date_created"@)))).push(
            ("vote"@, text_or_null(comment.text("vote"@))),
        ).push(("title"@, text_or_null(comment.text("title"@)))).push(
            ("body"@, text_or_null(body)),
        ).push(("url"@, text_or_null(comment.text("web_link"@)))),
    )
}

/// An inline comment, by its place in its thread.
pub open spec fn inline_comment(comment: JsonView, index: nat, people: PeopleView) -> JsonView {
    JsonView::Object(
        Seq::empty().push(("sequence"@, number_view((index + 1) as u64))).push(
            ("author"@, value_or_null(identity_of(comment, "person"@, people))),
        ).push(("created_at"@, text_or_null(comment.text("date"@)))).push(
            ("body"@, text_or_null(unless_blank(comment.text("text"@)))),
        ),
    )
}

/// A request for a review.
pub open spec fn review_assignment(vote: JsonView, people: PeopleView) -> JsonView {
    JsonView::Object(
        Seq::empty().push(
            (reviewer_member(), value_or_null(identity_of(vote, reviewer_member(), people))),
        ).push(("registrant"@, value_or_null(identity_of(vote, "registrant"@, people)))).push(
            ("created_at"@, text_or_null(vote.text("date_created"@))),
        ).push(("review_type"@, text_or_null(vote.text("review_type"@)))).push(
            ("pending"@, flag_or_null(vote.flag("is_pending"@))),
        ).push(("comment_url"@, text_or_null(vote.text("comment_link"@)))).push(
            ("url"@, text_or_null(vote.text("web_link"@))),
        ),
    )
}

fn json_or_null(value: Option<Json>) -> (r: Json)
    ensures
        r@ == value_or_null(identity_view(value)),
{
    match value {
        Some(value) => value,
        None => Json::Null,
    }
}

fn written<'value>(text: Option<&'value str>) -> (r: Option<&'value str>)
    ensures
        opt_str_view(r) == unless_blank(opt_str_view(text)),
{
    match text {
        Some(text) => if blank(text) {
            None
        } else {
            Some(text)
        },
        None => None,
    }
}

/// A general comment of a merge proposal.
pub fn normalise_general_comment(comment: &Json, people: &People) -> (r: Json)
    ensures
        r@ == general_comment(comment@, people@),
{
    let mut members = no_members();
    let id = match comment.get("id") {
        Some(id) => id.copy(),
        None => Json::Null,
    };
    push_member(&mut members, "id", id);
    let author = match normalise_identity(comment, "author", people) {
        Some(author) => author,
        None => json_or_null(normalise_identity(comment, "owner", people)),
    };
    push_member(&mut members, "author", author);
    push_member(&mut members, "created_at", Json::of_option(text_field(comment, "date_created")));
    push_member(&mut members, "vote", Json::of_option(text_field(comment, "vote")));
    push_member(&mut members, "title", Json::of_option(text_field(comment, "title")));
    let body = match text_field(comment, "message_body") {
        Some(body) => Some(body),
        None => text_field(comment, "content"),
    };
    push_member(&mut members, "body", Json::of_option(written(body)));
    push_member(&mut members, "url", Json::of_option(text_field(comment, "web_link")));
    Json::Object(members)
}

/// An inline comment, by its place in its thread.
pub fn normalise_inline_comment(comment: &Json, index: usize, people: &People) -> (r: Json)
    requires
        index < usize::MAX,
    ensures
        r@ == inline_comment(comment@, index as nat, people@),
{
    let mut members = no_members();
    push_member(&mut members, "sequence", Json::of_number((index + 1) as u64));
    push_member(
        &mut members,
        "author",
        json_or_null(normalise_identity(comment, "person", people)),
    );
    push_member(&mut members, "created_at", Json::of_option(text_field(comment, "date")));
    push_member(&mut members, "body", Json::of_option(written(text_field(comment, "text"))));
    Json::Object(members)
}

/// A request for a review.
pub fn normalise_review_assignment(vote: &Json, people: &People) -> (r: Json)
    ensures
        r@ == review_assignment(vote@, people@),
{
    let mut members = no_members();
    push_member(
        &mut members,
        name_of_reviewer_member().as_str(),
        json_or_null(normalise_identity(vote, name_of_reviewer_member().as_str(), people)),
    );
    push_member(
        &mut members,
        "registrant",
        json_or_null(normalise_identity(vote, "registrant", people)),
    );
    push_member(&mut members, "created_at", Json::of_option(text_field(vote, "date_created")));
    push_member(&mut members, "review_type", Json::of_option(text_field(vote, "review_type")));
    push_member(&mut members, "pending", Json::of_flag_option(vote.flag("is_pending")));
    push_member(&mut members, "comment_url", Json::of_option(text_field(vote, "comment_link")));
    push_member(&mut members, "url", Json::of_option(text_field(vote, "web_link")));
    Json::Object(members)
}

/// Whether something that was created at an instant is wanted. What has no readable date is.
pub open spec fn is_recent(created: Option<(i64, u32)>, since: Option<(i64, u32)>) -> bool {
    match (created, since) {
        (Some(created), Some(since)) => not_before(created, since),
        _ => true,
    }
}

/// When a value was created, where that is readable.
pub open spec fn created_at(value: JsonView) -> Option<(i64, u32)> {
    match value.text("created_at"@) {
        Some(created) => rfc3339_instant(created),
        None => None,
    }
}

/// Whether the person in a member is the one that a filter names, by either name.
pub open spec fn is_by(value: JsonView, identity_field: Seq<char>, reviewer: Option<Seq<char>>) -> bool {
    match reviewer {
        Some(reviewer) => {
            let name = trim_start_of(reviewer, '~');
            match value.get(identity_field) {
                Some(identity) => {
                    ||| identity.text("username"@) is Some && same_letters(
                        identity.text("username"@)->0,
                        name,
                    )
                    ||| identity.text("display_name"@) is Some && same_letters(
                        identity.text("display_name"@)->0,
                        name,
                    )
                },
                None => false,
            }
        },
        None => true,
    }
}

/// Whether a comment or review passes the filters of a discussion.
pub open spec fn passes_filters(
    value: JsonView,
    identity_field: Seq<char>,
    since: Option<(i64, u32)>,
    reviewer: Option<Seq<char>>,
) -> bool {
    is_recent(created_at(value), since) && is_by(value, identity_field, reviewer)
}

/// Whether something that was created at an instant is wanted.
pub fn recent(created: Option<(i64, u32)>, since: Option<(i64, u32)>) -> (r: bool)
    ensures
        r == is_recent(created, since),
{
    match (created, since) {
        (Some(created), Some(since)) => is_not_before(created, since),
        _ => true,
    }
}

/// Whether the person in a member is the one that a filter names, by either name.
pub fn matches_reviewer(value: &Json, identity_field: &str, reviewer: Option<&str>) -> (r: bool)
    ensures
        r == is_by(value@, identity_field@, opt_str_view(reviewer)),
{
    let reviewer = match reviewer {
        Some(reviewer) => trim_start_matches(reviewer, '~'),
        None => return true,
    };
    match value.get(identity_field) {
        Some(identity) => {
            if let Some(name) = text_field(identity, "username") {
                if eq_ignore_ascii_case(name, reviewer.as_str()) {
                    return true;
                }
            }
            match text_field(identity, "display_name") {
                Some(name) => eq_ignore_ascii_case(name, reviewer.as_str()),
                None => false,
            }
        },
        None => false,
    }
}

/// Whether a comment or review passes the filters of a discussion.
pub fn matches_discussion_filters(
    value: &Json,
    identity_field: &str,
    since: Option<(i64, u32)>,
    reviewer: Option<&str>,
) -> (r: bool)
    ensures
        r == passes_filters(value@, identity_field@, since, opt_str_view(reviewer)),
{
    let created = match text_field(value, "created_at") {
        Some(created) => parse_rfc3339(created),
        None => None,
    };
    recent(created, since) && matches_reviewer(value, identity_field, reviewer)
}

/// What a discussion says beside its inline threads.
pub struct GeneralActivity {
    pub comments: Vec<Json>,
    pub votes: Vec<Json>,
    pub requests: Vec<Json>,
}

/// What general activity holds.
#[verifier::ext_equal]
pub struct ActivityView {
    pub comments: Seq<JsonView>,
    pub votes: Seq<JsonView>,
    pub requests: Seq<JsonView>,
}

impl View for GeneralActivity {
    type V = ActivityView;

    open spec fn view(&self) -> ActivityView {
        ActivityView {
            comments: items_view(self.comments@),
            votes: items_view(self.votes@),
            requests: items_view(self.requests@),
        }
    }
}

/// Whether a member is there and not null.
pub open spec fn has_value(value: JsonView, name: Seq<char>) -> bool {
    match value.get(name) {
        Some(member) => member != JsonView::Null,
        None => false,
    }
}

fn is_present(value: &Json, name: &str) -> (r: bool)
    ensures
        r == has_value(value@, name@),
{
    match value.get(name) {
        Some(member) => match member {
            Json::Null => false,
            _ => true,
        },
        None => false,
    }
}

/// The test that a comment has a member and passes the filters of a discussion.
pub open spec fn wanted_comment(
    name: Seq<char>,
    since: Option<(i64, u32)>,
    reviewer: Option<Seq<char>>,
) -> spec_fn(JsonView) -> bool {
    |comment: JsonView|
        has_value(comment, name) && passes_filters(comment, "author"@, since, reviewer)
}

/// The test that a value passes the filters of a discussion by the person in a member.
pub open spec fn wanted_by(
    field: Seq<char>,
    since: Option<(i64, u32)>,
    reviewer: Option<Seq<char>>,
) -> spec_fn(JsonView) -> bool {
    |value: JsonView| passes_filters(value, field, since, reviewer)
}

/// The general comments, votes and review requests that pass the filters of a discussion. A
/// comment with a vote is listed under the votes, and, where it has a body, under the comments.
pub open spec fn activity_of(
    comments: Seq<JsonView>,
    requests: Seq<JsonView>,
    people: PeopleView,
    since: Option<(i64, u32)>,
    reviewer: Option<Seq<char>>,
) -> ActivityView {
    let normalised = comments.map_values(|comment: JsonView| general_comment(comment, people));
    ActivityView {
        comments: normalised.filter(wanted_comment("body"@, since, reviewer)),
        votes: normalised.filter(wanted_comment("vote"@, since, reviewer)),
        requests: requests.map_values(
            |request: JsonView| review_assignment(request, people),
        ).filter(wanted_by(reviewer_member(), since, reviewer)),
    }
}

/// The comments that have a member and pass the filters of a discussion.
fn keep_comments(
    comments: &Vec<Json>,
    name: &str,
    since: Option<(i64, u32)>,
    reviewer: Option<&str>,
) -> (r: Vec<Json>)
    ensures
        items_view(r@) == items_view(comments@).filter(
            wanted_comment(name@, since, opt_str_view(reviewer)),
        ),
{
    let test = |comment: &Json| -> (passed: bool)
        ensures
            passed == (has_value(comment@, name@) && passes_filters(
                comment@,
                "author"@,
                since,
                opt_str_view(reviewer),
            )),
        {
            is_present(comment, name) && matches_discussion_filters(
                comment,
                "author",
                since,
                reviewer,
            )
        };
    keep(comments, test, Ghost(wanted_comment(name@, since, opt_str_view(reviewer))))
}

/// The values that pass the filters of a discussion by the person in a member.
pub(crate) fn keep_by(
    values: &Vec<Json>,
    field: &str,
    since: Option<(i64, u32)>,
    reviewer: Option<&str>,
) -> (r: Vec<Json>)
    ensures
        items_view(r@) == items_view(values@).filter(
            wanted_by(field@, since, opt_str_view(reviewer)),
        ),
{
    let test = |value: &Json| -> (passed: bool)
        ensures
            passed == passes_filters(value@, field@, since, opt_str_view(reviewer)),
        {
            matches_discussion_filters(value, field, since, reviewer)
        };
    keep(values, test, Ghost(wanted_by(field@, since, opt_str_view(reviewer))))
}

/// The general comments, votes and review requests that pass the filters of a discussion.
pub fn general_activity(
    comments: &Vec<Json>,
    requests: &Vec<Json>,
    people: &People,
    since: Option<(i64, u32)>,
    reviewer: Option<&str>,
) -> (r: GeneralActivity)
    ensures
        r@ == activity_of(
            items_view(comments@),
            items_view(requests@),
            people@,
            since,
            opt_str_view(reviewer),
        ),
{
    let mut normalised = no_items();
    let ghost all = items_view(comments@).map_values(
        |comment: JsonView| general_comment(comment, people@),
    );
    assert(all.take(0) =~= Seq::empty());
    for i in 0..comments.len()
        invariant
            all == items_view(comments@).map_values(
                |comment: JsonView| general_comment(comment, people@),
            ),
            items_view(normalised@) == all.take(i as int),
    {
        push_item(&mut normalised, normalise_general_comment(&comments[i], people));
        assert(all.take(i + 1) =~= all.take(i as int).push(
            general_comment(comments@[i as int]@, people@),
        ));
    }
    assert(all.take(all.len() as int) =~= all);
    let mut assignments = no_items();
    let ghost asked = items_view(requests@).map_values(
        |request: JsonView| review_assignment(request, people@),
    );
    assert(asked.take(0) =~= Seq::empty());
    for i in 0..requests.len()
        invariant
            asked == items_view(requests@).map_values(
                |request: JsonView| review_assignment(request, people@),
            ),
            items_view(assignments@) == asked.take(i as int),
    {
        push_item(&mut assignments, normalise_review_assignment(&requests[i], people));
        assert(asked.take(i + 1) =~= asked.take(i as int).push(
            review_assignment(requests@[i as int]@, people@),
        ));
    }
    assert(asked.take(asked.len() as int) =~= asked);
    GeneralActivity {
        comments: keep_comments(&normalised, "body", since, reviewer),
        votes: keep_comments(&normalised, "vote", since, reviewer),
        requests: keep_by(&assignments, name_of_reviewer_member().as_str(), since, reviewer),
    }
}

/// Every comment that a discussion reports passes its filters and has a body, and every vote
/// passes them and has a verdict.
pub proof fn lemma_activity_passes_filters(
    comments: Seq<JsonView>,
    requests: Seq<JsonView>,
    people: PeopleView,
    since: Option<(i64, u32)>,
    reviewer: Option<Seq<char>>,
    i: int,
)
    ensures
        ({
            let activity = activity_of(comments, requests, people, since, reviewer);
            &&& 0 <= i < activity.comments.len() ==> has_value(activity.comments[i], "body"@)
                && passes_filters(activity.comments[i], "author"@, since, reviewer)
            &&& 0 <= i < activity.votes.len() ==> has_value(activity.votes[i], "vote"@)
                && passes_filters(activity.votes[i], "author"@, since, reviewer)
            &&& 0 <= i < activity.requests.len() ==> passes_filters(
                activity.requests[i],
                reviewer_member(),
                since,
                reviewer,
            )
        }),
{
    let normalised = comments.map_values(|comment: JsonView| general_comment(comment, people));
    let asked = requests.map_values(|request: JsonView| review_assignment(request, people));
    let activity = activity_of(comments, requests, people, since, reviewer);
    if 0 <= i < activity.comments.len() {
        normalised.lemma_filter_pred(wanted_comment("body"@, since, reviewer), i);
        assert(wanted_comment("body"@, since, reviewer)(activity.comments[i]));
    }
    if 0 <= i < activity.votes.len() {
        normalised.lemma_filter_pred(wanted_comment("vote"@, since, reviewer), i);
        assert(wanted_comment("vote"@, since, reviewer)(activity.votes[i]));
    }
    if 0 <= i < activity.requests.len() {
        asked.lemma_filter_pred(wanted_by(reviewer_member(), since, reviewer), i);
        assert(wanted_by(reviewer_member(), since, reviewer)(activity.requests[i]));
    }
}

proof fn lemma_comment_vote(comment: JsonView, people: PeopleView)
    ensures
        general_comment(comment, people).get("vote"@) == Some(text_or_null(comment.text("vote"@))),
{
    reveal_strlit("id");
    reveal_strlit("author");
    reveal_strlit("created_at");
    reveal_strlit("vote");
    let members = general_comment(comment, people)->Object_0;
    assert("id"@.len() == 2 && "author"@.len() == 6 && "created_at"@.len() == 10);
    assert("vote"@.len() == 4);
    assert(members.skip(1)[0] == members[1]);
    assert(members.skip(1).skip(1)[0] == members[2]);
    assert(members.skip(1).skip(1).skip(1)[0] == members[3]);
    reveal_with_fuel(crate::json::member_in, 5);
}

/// Every vote of a discussion has a verdict.
pub proof fn lemma_votes_have_verdicts(
    comments: Seq<JsonView>,
    requests: Seq<JsonView>,
    people: PeopleView,
    since: Option<(i64, u32)>,
    reviewer: Option<Seq<char>>,
)
    ensures
        ({
            let votes = activity_of(comments, requests, people, since, reviewer).votes;
            &&& votes.len() <= comments.len()
            &&& forall|i: int| 0 <= i < votes.len() ==> (#[trigger] votes[i]).text("vote"@) is Some
        }),
{
    let normalised = comments.map_values(|comment: JsonView| general_comment(comment, people));
    let test = wanted_comment("vote"@, since, reviewer);
    let votes = normalised.filter(test);
    normalised.lemma_filter_len(test);
    assert forall|i: int| 0 <= i < votes.len() implies (#[trigger] votes[i]).text("vote"@) is Some by {
        normalised.lemma_filter_pred(test, i);
        normalised.lemma_filter_contains_rev(test, votes[i]);
        let index = choose|index: int|
            0 <= index < normalised.len() && normalised[index] == votes[i];
        lemma_comment_vote(comments[index], people);
        assert(test(votes[i]));
    }
}

} // verus!
