//! What a discussion says of its comments, votes, requests and threads, and which of them it has.
use vstd::prelude::*;
use crate::comments::{
    activity_of, created_at, general_comment, inline_comment, passes_filters, review_assignment,
    wanted_by, wanted_comment,
};
use crate::compare::{precedes, same_letters};
use crate::conversation::{
    discussion_details, formatted_at, ordered_threads, threads_together, thread_key, GatheredView,
};
use crate::diff::{diff_line_location, DiffLineKind, DiffSide, LocationView};
use crate::discussion::{diffs_at, filters_of, general_at, DiffView, FiltersView};
use crate::fields::reviewer_member;
use crate::json::{text_or_null, JsonView};
use crate::laws::finding::lemma_kept;
use crate::laws::terms::{
    lemma_arranged_is_same, lemma_link_name, lemma_member_at, lemma_reviewer_member, sends,
};
use crate::number::decimal;
use crate::order::{lemma_order_is_permutation, lemma_order_is_sorted_and_stable, order_of};
use crate::people::{identity_object, identity_of, link_of, linked_name, PeopleView};
use crate::request::{DiscussionComments, DiscussionFormat, Request};
use crate::response::ResultView;
use crate::steps::{get_all, ActionView, PlaceView, Reply};
use crate::text::{is_blank, trim_start_of, trimmed};
use crate::threads::{
    by_line, comment_key, comment_line, diff_threads, lemma_run_ends, location_object,
    ordered_comments, run_length, thread_comments, thread_object, threads_from, ThreadContext,
};
use crate::web::rfc3339_instant;

verus! {

/// The text that a comment is shown with: its body, or else its content, where that is not blank.
pub open spec fn body_of(comment: JsonView) -> Option<Seq<char>> {
    let text = match comment.text("message_body"@) {
        Some(text) => Some(text),
        None => comment.text("content"@),
    };
    if text matches Some(text) && !is_blank(text) {
        text
    } else {
        None
    }
}

/// A general comment says by name what the comment says: its number, when it was made, its vote,
/// its title, its body and its page, and who made it.
pub proof fn lemma_general_comment_says(comment: JsonView, people: PeopleView)
    ensures
        ({
            let said = general_comment(comment, people);
            &&& comment.get("id"@) matches Some(id) ==> said.get("id"@) == Some(id)
            &&& said.text("created_at"@) == comment.text("date_created"@)
            &&& said.text("vote"@) == comment.text("vote"@)
            &&& said.text("title"@) == comment.text("title"@)
            &&& said.text("url"@) == comment.text("web_link"@)
            &&& said.text("body"@) == body_of(comment)
            &&& said.get("body"@) == Some(text_or_null(body_of(comment)))
            &&& said.get("vote"@) == Some(text_or_null(comment.text("vote"@)))
            &&& identity_of(comment, "author"@, people) matches Some(author) ==> said.get("author"@)
                == Some(author)
            &&& identity_of(comment, "author"@, people) is None ==> (identity_of(
                comment,
                "owner"@,
                people,
            ) matches Some(owner) ==> said.get("author"@) == Some(owner))
        }),
{
    reveal_strlit("id");
    reveal_strlit("author");
    reveal_strlit("created_at");
    reveal_strlit("vote");
    reveal_strlit("title");
    reveal_strlit("body");
    reveal_strlit("url");
    assert("id"@.len() == 2 && "author"@.len() == 6 && "created_at"@.len() == 10
        && "vote"@.len() == 4 && "title"@.len() == 5 && "body"@.len() == 4 && "url"@.len() == 3);
    assert("vote"@[0] == 'v');
    assert("body"@[0] == 'b');
    let members = general_comment(comment, people)->Object_0;
    lemma_member_at(members, 0);
    lemma_member_at(members, 1);
    lemma_member_at(members, 2);
    lemma_member_at(members, 3);
    lemma_member_at(members, 4);
    lemma_member_at(members, 5);
    lemma_member_at(members, 6);
}

/// An inline comment says by name where it stands in its thread, who made it, when, and what it
/// says.
pub proof fn lemma_inline_comment_says(comment: JsonView, index: nat, people: PeopleView)
    requires
        index < u64::MAX,
    ensures
        ({
            let said = inline_comment(comment, index, people);
            &&& said.unsigned("sequence"@) == Some((index + 1) as u64)
            &&& said.text("created_at"@) == comment.text("date"@)
            &&& comment.text("text"@) matches Some(text) ==> said.text("body"@) == (if is_blank(
                text,
            ) {
                None
            } else {
                Some(text)
            })
            &&& identity_of(comment, "person"@, people) matches Some(person) ==> said.get("author"@)
                == Some(person)
        }),
{
    reveal_strlit("sequence");
    reveal_strlit("author");
    reveal_strlit("created_at");
    reveal_strlit("body");
    assert("sequence"@.len() == 8 && "author"@.len() == 6 && "created_at"@.len() == 10
        && "body"@.len() == 4);
    let members = inline_comment(comment, index, people)->Object_0;
    lemma_member_at(members, 0);
    lemma_member_at(members, 1);
    lemma_member_at(members, 2);
    lemma_member_at(members, 3);
}

/// A review request says by name who is asked, by whom, when, for which type of review, and
/// whether it is pending.
pub proof fn lemma_review_request_says(vote: JsonView, people: PeopleView)
    ensures
        ({
            let said = review_assignment(vote, people);
            &&& identity_of(vote, reviewer_member(), people) matches Some(person) ==> said.get(
                reviewer_member(),
            ) == Some(person)
            &&& identity_of(vote, "registrant"@, people) matches Some(person) ==> said.get(
                "registrant"@,
            ) == Some(person)
            &&& said.text("created_at"@) == vote.text("date_created"@)
            &&& said.text("review_type"@) == vote.text("review_type"@)
            &&& said.flag("pending"@) == vote.flag("is_pending"@)
            &&& said.text("comment_url"@) == vote.text("comment_link"@)
            &&& said.text("url"@) == vote.text("web_link"@)
        }),
{
    lemma_reviewer_member();
    reveal_strlit("registrant");
    reveal_strlit("created_at");
    reveal_strlit("review_type");
    reveal_strlit("pending");
    reveal_strlit("comment_url");
    reveal_strlit("url");
    assert("registrant"@.len() == 10 && "created_at"@.len() == 10 && "review_type"@.len() == 11
        && "pending"@.len() == 7 && "comment_url"@.len() == 11 && "url"@.len() == 3);
    assert("registrant"@[0] == 'r');
    assert("created_at"@[0] == 'c');
    assert("review_type"@[0] == 'r');
    assert("comment_url"@[0] == 'c');
    let members = review_assignment(vote, people)->Object_0;
    lemma_member_at(members, 0);
    lemma_member_at(members, 1);
    lemma_member_at(members, 2);
    lemma_member_at(members, 3);
    lemma_member_at(members, 4);
    lemma_member_at(members, 5);
    lemma_member_at(members, 6);
}

/// A person is named by the profile: its name, its display name and its page. What the profile does
/// not say comes from the link to it, whose last segment is the name behind a tilde.
pub proof fn lemma_identity_says(person: JsonView, front: Seq<char>, name: Seq<char>)
    requires
        name.len() > 0,
        !name.contains('/') && name[0] != '~',
    ensures
        ({
            let link = front + seq!['/'] + (seq!['~'] + name);
            let known = identity_object(Some(person), Some(link));
            let linked = identity_object(None, Some(link));
            &&& person.text("name"@) matches Some(own) ==> known.text("username"@) == Some(own)
            &&& person.text("name"@) is None ==> known.text("username"@) == Some(name)
            &&& person.text("display_name"@) matches Some(own) ==> known.text("display_name"@) == Some(
                own,
            )
            &&& person.text("display_name"@) is None ==> known.text("display_name"@) == known.text(
                "username"@,
            )
            &&& person.text("web_link"@) matches Some(own) ==> known.text("url"@) == Some(own)
            &&& linked.text("username"@) == Some(name)
            &&& linked.text("display_name"@) == Some(name)
            &&& linked.text("url"@) == Some("https://launchpad.net/~"@ + name)
        }),
{
    reveal_strlit("username");
    reveal_strlit("display_name");
    reveal_strlit("url");
    assert("username"@.len() == 8 && "display_name"@.len() == 12 && "url"@.len() == 3);
    let link = front + seq!['/'] + (seq!['~'] + name);
    let segment = seq!['~'] + name;
    assert(!segment.contains('/')) by {
        if segment.contains('/') {
            let i = choose|i: int| 0 <= i < segment.len() && segment[i] == '/';
            assert(name[i - 1] == '/');
        }
    }
    lemma_link_name(front, segment);
    assert(segment.skip(1) =~= name);
    assert(trim_start_of(name, '~') == name);
    assert(linked_name(link) == name);
    let known = identity_object(Some(person), Some(link))->Object_0;
    lemma_member_at(known, 0);
    lemma_member_at(known, 1);
    lemma_member_at(known, 2);
    let linked = identity_object(None, Some(link))->Object_0;
    lemma_member_at(linked, 0);
    lemma_member_at(linked, 1);
    lemma_member_at(linked, 2);
}

/// Who made something is whoever stands in its member, or else the person with the profile at the
/// link that stands for it.
pub proof fn lemma_identity_is_found(
    value: JsonView,
    people: PeopleView,
    link: Seq<char>,
    profile: JsonView,
)
    ensures
        value.get("author"@) is None && value.text("author_link"@) == Some(link)
            && crate::json::member_in(people.known, link) == Some(profile) ==> identity_of(
            value,
            "author"@,
            people,
        ) == Some(identity_object(Some(profile), Some(link))),
        value.get("person"@) is None && value.text("person_link"@) == Some(link)
            && crate::json::member_in(people.known, link) == Some(profile) ==> identity_of(
            value,
            "person"@,
            people,
        ) == Some(identity_object(Some(profile), Some(link))),
        value.get(reviewer_member()) is None && value.text("reviewer_link"@) == Some(link)
            && crate::json::member_in(people.known, link) == Some(profile) ==> identity_of(
            value,
            reviewer_member(),
            people,
        ) == Some(identity_object(Some(profile), Some(link))),
        value.get("author"@) == Some(profile) && profile is Object ==> (identity_of(
            value,
            "author"@,
            people,
        ) matches Some(person) && exists|link: Option<Seq<char>>|
            person == #[trigger] identity_object(Some(profile), link)),
        value.get("author"@) is None && value.text("author_link"@) is None ==> identity_of(
            value,
            "author"@,
            people,
        ) is None,
{
    lemma_reviewer_member();
    reveal_strlit("author");
    reveal_strlit("owner");
    reveal_strlit("person");
    reveal_strlit("registrant");
    assert("author"@.len() == 6 && "owner"@.len() == 5 && "person"@.len() == 6
        && "registrant"@.len() == 10);
    assert("author"@[0] == 'a');
    assert("person"@[0] == 'p');
    if value.get("author"@) == Some(profile) && profile is Object {
        assert(identity_of(value, "author"@, people) == Some(
            identity_object(Some(profile), link_of(value, "author"@)),
        ));
    }
}

/// Whether something was made no earlier than an instant, as far as that is known.
pub open spec fn is_recent_enough(value: JsonView, since: Option<(i64, u32)>) -> bool {
    since matches Some(since) ==> (value.text("created_at"@) matches Some(text) ==> (rfc3339_instant(
        text,
    ) matches Some(made) ==> made.0 > since.0 || (made.0 == since.0 && made.1 >= since.1)))
}

/// Whether something is by the person of a name, user name or display name, in whatever case and
/// with or without a tilde in front.
pub open spec fn is_by_person(value: JsonView, field: Seq<char>, name: Option<Seq<char>>) -> bool {
    name matches Some(name) ==> (value.get(field) matches Some(person) && ((person.text(
        "username"@,
    ) matches Some(own) && same_letters(own, trim_start_of(name, '~'))) || (person.text(
        "display_name"@,
    ) matches Some(own) && same_letters(own, trim_start_of(name, '~')))))
}

/// What is wanted of a discussion is what was made since the instant that is asked for, by the
/// person that is asked for.
pub proof fn lemma_filters_of_discussion(
    value: JsonView,
    field: Seq<char>,
    since: Option<(i64, u32)>,
    name: Option<Seq<char>>,
)
    ensures
        passes_filters(value, field, since, name) <==> is_recent_enough(value, since)
            && is_by_person(value, field, name),
{
}

/// The comments of a discussion are those with a body, its votes those with a vote, and its
/// requests all, each as far as they are wanted.
pub proof fn lemma_activity_is_whole(
    comments: Seq<JsonView>,
    requests: Seq<JsonView>,
    people: PeopleView,
    since: Option<(i64, u32)>,
    name: Option<Seq<char>>,
    i: int,
)
    ensures
        ({
            let activity = activity_of(comments, requests, people, since, name);
            &&& 0 <= i < comments.len() ==> {
                let said = general_comment(comments[i], people);
                let wanted = is_recent_enough(said, since) && is_by_person(said, "author"@, name);
                &&& activity.comments.contains(said) <==> wanted && body_of(comments[i]) is Some
                &&& activity.votes.contains(said) <==> wanted && comments[i].text("vote"@) is Some
            }
            &&& 0 <= i < requests.len() ==> {
                let said = review_assignment(requests[i], people);
                activity.requests.contains(said) <==> is_recent_enough(said, since) && is_by_person(
                    said,
                    reviewer_member(),
                    name,
                )
            }
            &&& activity.comments.len() <= comments.len() && activity.votes.len() <= comments.len()
            &&& activity.requests.len() <= requests.len()
            &&& 0 <= i < activity.comments.len() ==> exists|k: int|
                0 <= k < comments.len() && activity.comments[i] == general_comment(
                    #[trigger] comments[k],
                    people,
                )
            &&& 0 <= i < activity.votes.len() ==> exists|k: int|
                0 <= k < comments.len() && activity.votes[i] == general_comment(
                    #[trigger] comments[k],
                    people,
                )
        }),
{
    let normalised = comments.map_values(|comment: JsonView| general_comment(comment, people));
    let asked = requests.map_values(|request: JsonView| review_assignment(request, people));
    let activity = activity_of(comments, requests, people, since, name);
    let body = wanted_comment("body"@, since, name);
    let vote = wanted_comment("vote"@, since, name);
    let by = wanted_by(reviewer_member(), since, name);
    normalised.lemma_filter_len(body);
    normalised.lemma_filter_len(vote);
    asked.lemma_filter_len(by);
    if 0 <= i < comments.len() {
        let said = general_comment(comments[i], people);
        assert(normalised[i] == said);
        lemma_general_comment_says(comments[i], people);
        lemma_kept(normalised, body, said);
        lemma_kept(normalised, vote, said);
    }
    if 0 <= i < requests.len() {
        assert(asked[i] == review_assignment(requests[i], people));
        lemma_kept(asked, by, asked[i]);
    }
    if 0 <= i < activity.comments.len() {
        lemma_kept(normalised, body, activity.comments[i]);
        assert(activity.comments.contains(activity.comments[i]));
        let k = choose|k: int| 0 <= k < normalised.len() && normalised[k] == activity.comments[i];
        assert(activity.comments[i] == general_comment(comments[k], people));
    }
    if 0 <= i < activity.votes.len() {
        lemma_kept(normalised, vote, activity.votes[i]);
        assert(activity.votes.contains(activity.votes[i]));
        let k = choose|k: int| 0 <= k < normalised.len() && normalised[k] == activity.votes[i];
        assert(activity.votes[i] == general_comment(comments[k], people));
    }
}

/// The comments of a discussion stay in their order.
pub proof fn lemma_activity_stays_in_order(
    comments: Seq<JsonView>,
    more: Seq<JsonView>,
    requests: Seq<JsonView>,
    people: PeopleView,
    since: Option<(i64, u32)>,
    name: Option<Seq<char>>,
)
    ensures
        ({
            let first = activity_of(comments, requests, people, since, name);
            let second = activity_of(more, requests, people, since, name);
            let both = activity_of(comments + more, requests, people, since, name);
            &&& both.comments == first.comments + second.comments
            &&& both.votes == first.votes + second.votes
        }),
{
    let f = |comment: JsonView| general_comment(comment, people);
    assert((comments + more).map_values(f) =~= comments.map_values(f) + more.map_values(f));
    Seq::filter_distributes_over_add(
        comments.map_values(f),
        more.map_values(f),
        wanted_comment("body"@, since, name),
    );
    Seq::filter_distributes_over_add(
        comments.map_values(f),
        more.map_values(f),
        wanted_comment("vote"@, since, name),
    );
}

/// A thread says by name on which snapshot and line it stands, and in which state, which file and
/// line of the file that is, and has its comments. The state is outdated where the snapshot is
/// stale, otherwise open on the current snapshot and superseded on any other.
#[verifier::rlimit(80)]
pub proof fn lemma_thread_says(line: nat, comments: Seq<JsonView>, context: ThreadContext)
    ensures
        ({
            let said = thread_object(line, comments, context);
            let shown = match context.diff {
                Some(diff) => diff_line_location(diff, line),
                None => None,
            };
            &&& said.text("thread_id"@) == Some(decimal(context.id as nat) + ":"@ + decimal(line))
            &&& said.unsigned("preview_diff_id"@) == Some(context.id)
            &&& said.flag("current"@) == Some(context.current)
            &&& said.flag("stale"@) == Some(context.stale)
            &&& said.text("state"@) == Some(
                if context.stale {
                    "outdated"@
                } else if context.current {
                    "open"@
                } else {
                    "superseded"@
                },
            )
            &&& said.unsigned("diff_line"@) == Some(line as u64)
            &&& said.text("file"@) == (match shown {
                Some(shown) => Some(shown.path),
                None => None,
            })
            &&& said.unsigned("source_line"@) == (match shown {
                Some(shown) => if shown.side == DiffSide::Original {
                    Some(shown.file_line as u64)
                } else {
                    None
                },
                None => None,
            })
            &&& said.unsigned("target_line"@) == (match shown {
                Some(shown) => if shown.side == DiffSide::Modified {
                    Some(shown.file_line as u64)
                } else {
                    None
                },
                None => None,
            })
            &&& said.get("comments"@) == Some(JsonView::Array(comments))
            &&& shown matches Some(shown) ==> said.get("location"@) == Some(location_object(shown))
        }),
{
    reveal_strlit("thread_id");
    reveal_strlit("preview_diff_id");
    reveal_strlit("current");
    reveal_strlit("stale");
    reveal_strlit("state");
    reveal_strlit("diff_line");
    reveal_strlit("file");
    reveal_strlit("source_line");
    reveal_strlit("target_line");
    reveal_strlit("location");
    reveal_strlit("comments");
    assert("thread_id"@.len() == 9 && "preview_diff_id"@.len() == 15 && "current"@.len() == 7
        && "stale"@.len() == 5 && "state"@.len() == 5 && "diff_line"@.len() == 9
        && "file"@.len() == 4 && "source_line"@.len() == 11 && "target_line"@.len() == 11
        && "location"@.len() == 8 && "comments"@.len() == 8);
    assert("thread_id"@[0] == 't');
    assert("diff_line"@[0] == 'd');
    assert("stale"@[3] == 'l');
    assert("state"@[3] == 't');
    assert("source_line"@[0] == 's');
    assert("target_line"@[0] == 't');
    assert("location"@[0] == 'l');
    assert("comments"@[0] == 'c');
    let members = thread_object(line, comments, context)->Object_0;
    lemma_member_at(members, 0);
    lemma_member_at(members, 1);
    lemma_member_at(members, 2);
    lemma_member_at(members, 3);
    lemma_member_at(members, 4);
    lemma_member_at(members, 5);
    lemma_member_at(members, 6);
    lemma_member_at(members, 7);
    lemma_member_at(members, 8);
    lemma_member_at(members, 9);
    lemma_member_at(members, 10);
}

/// A location says by name its path, side, line of the file, line of the diff and what that shows.
pub proof fn lemma_location_says(location: LocationView)
    ensures
        ({
            let said = location_object(location);
            &&& said.text("path"@) == Some(location.path)
            &&& said.text("side"@) == Some(
                if location.side == DiffSide::Original {
                    "original"@
                } else {
                    "modified"@
                },
            )
            &&& said.unsigned("file_line"@) == Some(location.file_line as u64)
            &&& said.unsigned("diff_line"@) == Some(location.diff_line as u64)
            &&& said.text("kind"@) == Some(
                match location.kind {
                    DiffLineKind::Context => "context"@,
                    DiffLineKind::Added => "added"@,
                    DiffLineKind::Removed => "removed"@,
                },
            )
        }),
{
    reveal_strlit("path");
    reveal_strlit("side");
    reveal_strlit("file_line");
    reveal_strlit("diff_line");
    reveal_strlit("kind");
    assert("path"@.len() == 4 && "side"@.len() == 4 && "file_line"@.len() == 9
        && "diff_line"@.len() == 9 && "kind"@.len() == 4);
    assert("path"@[0] == 'p');
    assert("side"@[0] == 's');
    assert("kind"@[0] == 'k');
    assert("file_line"@[0] == 'f');
    assert("diff_line"@[0] == 'd');
    let members = location_object(location)->Object_0;
    lemma_member_at(members, 0);
    lemma_member_at(members, 1);
    lemma_member_at(members, 2);
    lemma_member_at(members, 3);
    lemma_member_at(members, 4);
}

/// The test whether a comment stands on a line of the diff.
pub open spec fn on_line(line: nat) -> spec_fn(JsonView) -> bool {
    |comment: JsonView| comment_line(comment) == Some(line)
}

proof fn lemma_all_kept(items: Seq<JsonView>, test: spec_fn(JsonView) -> bool)
    ensures
        (forall|i: int| 0 <= i < items.len() ==> test(#[trigger] items[i])) ==> items.filter(test)
            =~= items,
        (forall|i: int| 0 <= i < items.len() ==> !test(#[trigger] items[i])) ==> items.filter(
            test,
        ).len() == 0,
    decreases items.len(),
{
    reveal(Seq::filter);
    if items.len() > 0 {
        let front = items.drop_last();
        assert forall|i: int| 0 <= i < front.len() implies #[trigger] front[i] == items[i] by {}
        lemma_all_kept(front, test);
        assert(items.last() == items[items.len() - 1]);
        if forall|i: int| 0 <= i < items.len() ==> test(#[trigger] items[i]) {
            assert forall|i: int| 0 <= i < front.len() implies test(#[trigger] front[i]) by {
                assert(test(items[i]));
            }
            assert(front.push(items.last()) =~= items);
        }
        if forall|i: int| 0 <= i < items.len() ==> !test(#[trigger] items[i]) {
            assert forall|i: int| 0 <= i < front.len() implies !test(#[trigger] front[i]) by {
                assert(!test(items[i]));
            }
        }
    }
}

proof fn lemma_run_is_line(comments: Seq<JsonView>, line: Option<nat>)
    ensures
        forall|i: int|
            0 <= i < run_length(comments, line) ==> comment_line(#[trigger] comments[i]) == line,
    decreases comments.len(),
{
    lemma_run_ends(comments, line);
    if comments.len() > 0 && comment_line(comments[0]) == line {
        let rest = comments.skip(1);
        lemma_run_is_line(rest, line);
        assert forall|i: int| 0 <= i < run_length(comments, line) implies comment_line(
            #[trigger] comments[i],
        ) == line by {
            if i > 0 {
                assert(rest[i - 1] == comments[i]);
            }
        }
    }
}

/// The thread on a line of a snapshot, made of all comments on that line.
pub open spec fn thread_on(comments: Seq<JsonView>, line: nat, context: ThreadContext) -> JsonView {
    thread_object(line, thread_comments(comments.filter(on_line(line)), context), context)
}

/// How many of the first comments stand on the line of the first.
spec fn first_run(comments: Seq<JsonView>) -> int {
    1 + run_length(comments.skip(1), comment_line(comments[0])) as int
}

proof fn lemma_first_group(comments: Seq<JsonView>, own: nat)
    requires
        by_line(comments),
        comments.len() > 0,
    ensures
        0 < first_run(comments) <= comments.len(),
        by_line(comments.skip(first_run(comments))),
        comments.filter(on_line(own)) == (if Some(own) == comment_line(comments[0]) {
            comments.take(first_run(comments))
        } else {
            comments.skip(first_run(comments)).filter(on_line(own))
        }),
        Some(own) == comment_line(comments[0]) ==> comments.skip(first_run(comments)).filter(
            on_line(own),
        ).len() == 0,
{
    let first = comment_line(comments[0]);
    let rest = comments.skip(1);
    let count = first_run(comments);
    lemma_run_ends(rest, first);
    lemma_run_is_line(rest, first);
    let group = comments.take(count);
    let later = comments.skip(count);
    assert(group + later =~= comments);
    assert forall|i: int| 0 <= i < group.len() implies comment_line(#[trigger] group[i]) == first by {
        if i > 0 {
            assert(group[i] == rest[i - 1]);
        }
    }
    assert forall|i: int| 0 <= i < later.len() implies comment_line(#[trigger] later[i]) is Some by {
        assert(later[i] == comments[i + count]);
    }
    assert forall|i: int, j: int| 0 <= i < j < later.len() implies comment_line(
        #[trigger] later[i],
    )->0 <= comment_line(#[trigger] later[j])->0 by {
        assert(later[i] == comments[i + count]);
        assert(later[j] == comments[j + count]);
    }
    assert forall|i: int| 0 <= i < later.len() implies comment_line(#[trigger] later[i])->0
        > first->0 by {
        assert(later[0] == comments[count]);
        assert(comments[count] == rest[count - 1]);
        assert(comment_line(comments[0])->0 <= comment_line(comments[count])->0);
        if i > 0 {
            assert(comment_line(later[0])->0 <= comment_line(later[i])->0);
        }
    }
    Seq::filter_distributes_over_add(group, later, on_line(own));
    lemma_all_kept(group, on_line(own));
    lemma_all_kept(later, on_line(own));
    if Some(own) == first {
        assert forall|i: int| 0 <= i < group.len() implies on_line(own)(#[trigger] group[i]) by {}
        assert forall|i: int| 0 <= i < later.len() implies !on_line(own)(#[trigger] later[i]) by {}
        assert(comments.filter(on_line(own)) =~= group);
    } else {
        assert forall|i: int| 0 <= i < group.len() implies !on_line(own)(#[trigger] group[i]) by {}
        assert(comments.filter(on_line(own)) =~= later.filter(on_line(own)));
    }
}

proof fn lemma_no_thread(comments: Seq<JsonView>, context: ThreadContext)
    requires
        comments.len() == 0,
    ensures
        thread_comments(comments, context).len() == 0,
{
    let said = comments.map(
        |index: int, comment: JsonView| inline_comment(comment, index as nat, context.people),
    );
    said.lemma_filter_len(wanted_by("author"@, context.since, context.reviewer));
}

proof fn lemma_line_has_thread(comments: Seq<JsonView>, context: ThreadContext, line: nat)
    requires
        by_line(comments),
        thread_comments(comments.filter(on_line(line)), context).len() > 0,
    ensures
        threads_from(comments, context).contains(thread_on(comments, line, context)),
    decreases comments.len(),
{
    if comments.len() == 0 {
        comments.lemma_filter_len(on_line(line));
        lemma_no_thread(comments.filter(on_line(line)), context);
    } else {
        lemma_first_group(comments, line);
        let later = comments.skip(first_run(comments));
        let kept = thread_comments(comments.take(first_run(comments)), context);
        let threads = threads_from(comments, context);
        let behind = threads_from(later, context);
        if Some(line) == comment_line(comments[0]) {
            assert(threads[0] == thread_on(comments, line, context));
        } else {
            lemma_line_has_thread(later, context, line);
            let k = choose|k: int|
                0 <= k < behind.len() && behind[k] == thread_on(later, line, context);
            if kept.len() == 0 {
                assert(threads[k] == thread_on(comments, line, context));
            } else {
                assert(threads[k + 1] == behind[k]);
            }
        }
    }
}

proof fn lemma_thread_has_line(comments: Seq<JsonView>, context: ThreadContext, k: int) -> (own: nat)
    requires
        by_line(comments),
        0 <= k < threads_from(comments, context).len(),
    ensures
        threads_from(comments, context)[k] == thread_on(comments, own, context),
        thread_comments(comments.filter(on_line(own)), context).len() > 0,
    decreases comments.len(),
{
    let first = comment_line(comments[0])->0;
    lemma_first_group(comments, first);
    let later = comments.skip(first_run(comments));
    let kept = thread_comments(comments.take(first_run(comments)), context);
    if kept.len() > 0 && k == 0 {
        first
    } else {
        let index = if kept.len() > 0 {
            k - 1
        } else {
            k
        };
        assert(threads_from(comments, context)[k] == threads_from(later, context)[index]);
        let own = lemma_thread_has_line(later, context, index);
        lemma_first_group(comments, own);
        if Some(own) == comment_line(comments[0]) {
            lemma_no_thread(later.filter(on_line(own)), context);
        }
        own
    }
}

proof fn lemma_ordered_by_line(comments: Seq<JsonView>)
    requires
        forall|i: int| 0 <= i < comments.len() ==> comment_line(#[trigger] comments[i]) is Some,
    ensures
        by_line(ordered_comments(comments)),
{
    let keys = comments.map_values(|comment: JsonView| comment_key(comment));
    let ordered = ordered_comments(comments);
    lemma_order_is_permutation(keys);
    assert forall|i: int| 0 <= i < ordered.len() implies comment_line(#[trigger] ordered[i]) is Some
        && comment_line(ordered[i])->0 <= u64::MAX && comment_key(ordered[i]) == keys[order_of(
        keys,
    )[i]] by {
        assert(ordered[i] == comments[order_of(keys)[i]]);
        assert(comment_line(comments[order_of(keys)[i]]) is Some);
        assert(comment_line(ordered[i])->0 <= usize::MAX);
    }
    assert forall|i: int, j: int| 0 <= i < j < ordered.len() implies comment_line(
        #[trigger] ordered[i],
    )->0 <= comment_line(#[trigger] ordered[j])->0 by {
        lemma_order_is_sorted_and_stable(keys, i, j);
    }
}

/// Every line of a snapshot with a wanted comment has a thread, made of all comments on that line,
/// and there are no other threads.
pub proof fn lemma_every_commented_line_has_thread(
    comments: Seq<JsonView>,
    context: ThreadContext,
    line: nat,
    k: int,
)
    ensures
        diff_threads(comments, context) matches Ok(threads) ==> {
            let ordered = ordered_comments(comments);
            &&& thread_comments(ordered.filter(on_line(line)), context).len() > 0 ==> threads.contains(
                thread_on(ordered, line, context),
            )
            &&& 0 <= k < threads.len() ==> exists|own: nat|
                threads[k] == #[trigger] thread_on(ordered, own, context)
        },
        diff_threads(comments, context) is Err <==> exists|i: int|
            0 <= i < comments.len() && comment_line(#[trigger] comments[i]) is None,
{
    if let Ok(threads) = diff_threads(comments, context) {
        lemma_ordered_by_line(comments);
        let ordered = ordered_comments(comments);
        if thread_comments(ordered.filter(on_line(line)), context).len() > 0 {
            lemma_line_has_thread(ordered, context, line);
        }
        if 0 <= k < threads.len() {
            let own = lemma_thread_has_line(ordered, context, k);
            assert(threads[k] == thread_on(ordered, own, context));
        }
    }
}

/// Comments are taken by line and then by date, and none is lost or taken twice. The line of a
/// comment is the number that it says.
pub proof fn lemma_comments_taken_by_line_and_date(comments: Seq<JsonView>, i: int, j: int, line: u64)
    requires
        0 <= i < j < comments.len(),
    ensures
        ordered_comments(comments).to_multiset() =~= comments.to_multiset(),
        ({
            let earlier = ordered_comments(comments)[i];
            let later = ordered_comments(comments)[j];
            comment_line(earlier) is Some && comment_line(earlier) == comment_line(later) ==> (
            earlier.text("date"@) matches Some(first) ==> (later.text("date"@) matches Some(second)
                && !precedes(second, first)))
        }),
        comments[i].text("line_number"@) == Some(decimal(line as nat)) && line <= usize::MAX
            ==> comment_line(comments[i]) == Some(line as nat),
{
    let keys = comments.map_values(|comment: JsonView| comment_key(comment));
    lemma_arranged_is_same(comments, keys);
    lemma_order_is_permutation(keys);
    lemma_order_is_sorted_and_stable(keys, i, j);
    let order = order_of(keys);
    assert(ordered_comments(comments)[i] == comments[order[i]]);
    assert(ordered_comments(comments)[j] == comments[order[j]]);
    assert(keys[order[i]] == comment_key(comments[order[i]]));
    assert(keys[order[j]] == comment_key(comments[order[j]]));
    crate::number::lemma_decimal_unsigned(line as nat);
}

/// Where nothing is left out by a filter, a thread has all comments on its line, numbered from one
/// on.
pub proof fn lemma_thread_has_all_comments(group: Seq<JsonView>, context: ThreadContext, i: int)
    ensures
        context.since is None && context.reviewer is None ==> {
            &&& thread_comments(group, context).len() == group.len()
            &&& 0 <= i < group.len() ==> thread_comments(group, context)[i] == inline_comment(
                group[i],
                i as nat,
                context.people,
            )
        },
        thread_comments(group, context).len() <= group.len(),
        0 <= i < group.len() ==> {
            let said = inline_comment(group[i], i as nat, context.people);
            thread_comments(group, context).contains(said) <==> is_recent_enough(said, context.since)
                && is_by_person(said, "author"@, context.reviewer)
        },
{
    let said = group.map(
        |index: int, comment: JsonView| inline_comment(comment, index as nat, context.people),
    );
    let test = wanted_by("author"@, context.since, context.reviewer);
    said.lemma_filter_len(test);
    if context.since is None && context.reviewer is None {
        lemma_all_kept(said, test);
    }
    if 0 <= i < group.len() {
        lemma_kept(said, test, said[i]);
    }
}

/// The filters of a discussion are those of the request: all comments unless it says otherwise,
/// all snapshots unless it asks for the current or the unresolved ones, and everyone, or the person
/// that it names, without the blanks around the name.
pub proof fn lemma_discussion_filters(request: Request)
    ensures
        filters_of(request) matches Ok(filters) ==> {
            &&& filters.comments == (match request.comments {
                Some(comments) => comments,
                None => DiscussionComments::All,
            })
            &&& filters.current_only == (request.current_diff_only == Some(true))
            &&& filters.unresolved_only == (request.unresolved_only == Some(true))
            &&& filters.reviewer == (match request.reviewer {
                Some(name) => Some(trimmed(name@)),
                None => None,
            })
            &&& filters.since is Some <==> request.since is Some
            &&& request.since matches Some(since) ==> filters.since == rfc3339_instant(since@)
        },
        filters_of(request) is Err <==> (request.since matches Some(since) && rfc3339_instant(
            since@,
        ) is None),
{
}

/// Whether a snapshot is wanted: with `current_diff_only` only the current one, and with
/// `unresolved_only` only the current one, if it is not stale.
pub open spec fn wants_snapshot(filters: FiltersView, preview_diff: JsonView, current_id: Option<u64>) -> bool {
    let current = preview_diff.unsigned(
        "id"@,
    ) is Some && preview_diff.unsigned("id"@) == current_id;
    &&& filters.current_only ==> current
    &&& filters.unresolved_only ==> current && preview_diff.flag("stale"@) != Some(true)
}

/// Whether what is said of a snapshot is of that snapshot.
pub open spec fn is_of_snapshot(diff: DiffView, preview_diff: JsonView, current_id: Option<u64>) -> bool {
    &&& preview_diff.unsigned("id"@) == Some(diff.id)
    &&& diff.date_created == preview_diff.text("date_created"@)
    &&& diff.stale == (preview_diff.flag("stale"@) == Some(true))
    &&& diff.current == (current_id == Some(diff.id))
}

/// A discussion has every snapshot that is wanted, in their order, and no other. Without filters it
/// has them all.
#[verifier::rlimit(80)]
pub proof fn lemma_discussion_has_wanted_snapshots(
    proposal: JsonView,
    preview_diffs: Seq<JsonView>,
    current_id: Option<u64>,
    filters: FiltersView,
    people: PeopleView,
    replies: Seq<Reply>,
    at: int,
    i: int,
)
    ensures
        diffs_at(proposal, preview_diffs, current_id, filters, people, replies, at) matches Ok(
            (diffs, _, _),
        ) ==> {
            &&& 0 <= i < preview_diffs.len() && wants_snapshot(filters, preview_diffs[i], current_id)
                ==> exists|k: int|
                0 <= k < diffs.len() && is_of_snapshot(
                    #[trigger] diffs[k],
                    preview_diffs[i],
                    current_id,
                )
            &&& 0 <= i < diffs.len() ==> exists|k: int|
                0 <= k < preview_diffs.len() && is_of_snapshot(
                    diffs[i],
                    #[trigger] preview_diffs[k],
                    current_id,
                ) && wants_snapshot(filters, preview_diffs[k], current_id)
            &&& !filters.current_only && !filters.unresolved_only ==> diffs.len()
                == preview_diffs.len() && (0 <= i < diffs.len() ==> is_of_snapshot(
                diffs[i],
                preview_diffs[i],
                current_id,
            ))
            &&& diffs.len() <= preview_diffs.len()
        },
    decreases preview_diffs.len(),
{
    if preview_diffs.len() > 0 {
        let front = preview_diffs.drop_last();
        lemma_discussion_has_wanted_snapshots(
            proposal,
            front,
            current_id,
            filters,
            people,
            replies,
            at,
            i,
        );
        if let Ok((diffs, _, _)) = diffs_at(
            proposal,
            preview_diffs,
            current_id,
            filters,
            people,
            replies,
            at,
        ) {
            let before = diffs_at(
                proposal,
                front,
                current_id,
                filters,
                people,
                replies,
                at,
            )->Ok_0.0;
            let last = preview_diffs.last();
            assert(last == preview_diffs[preview_diffs.len() - 1]);
            if 0 <= i < front.len() && wants_snapshot(filters, preview_diffs[i], current_id) {
                assert(front[i] == preview_diffs[i]);
                let k = choose|k: int|
                    0 <= k < before.len() && is_of_snapshot(
                        #[trigger] before[k],
                        preview_diffs[i],
                        current_id,
                    );
                assert(diffs[k] == before[k]);
            }
            if wants_snapshot(filters, last, current_id) {
                assert(is_of_snapshot(diffs[diffs.len() - 1], last, current_id));
            }
            if 0 <= i < before.len() {
                let k = choose|k: int|
                    0 <= k < front.len() && is_of_snapshot(
                        before[i],
                        #[trigger] front[k],
                        current_id,
                    ) && wants_snapshot(filters, front[k], current_id);
                assert(preview_diffs[k] == front[k]);
                assert(diffs[i] == before[i]);
            }
        }
    }
}

/// The threads of a discussion are those of all its snapshots together, none lost or twice.
pub proof fn lemma_discussion_has_all_threads(diffs: Seq<DiffView>)
    ensures
        ordered_threads(diffs).to_multiset() =~= threads_together(diffs).to_multiset(),
        diffs.len() == 0 ==> threads_together(diffs).len() == 0,
        diffs.len() > 0 ==> threads_together(diffs) == threads_together(diffs.drop_last())
            + diffs.last().threads,
{
    let threads = threads_together(diffs);
    lemma_arranged_is_same(
        threads,
        threads.map_values(|thread: JsonView| thread_key(thread)),
    );
}

/// A discussion says by name what was gathered: the proposal, the snapshot that is current and
/// whether it is stale, the votes, the comments, the requests, the threads, and their summary.
#[verifier::rlimit(80)]
pub proof fn lemma_discussion_says(request: Request, gathered: GatheredView)
    ensures
        ({
            let said = JsonView::Object(discussion_details(request, gathered));
            &&& said.text("kind"@) == Some("merge_proposal_discussion"@)
            &&& said.flag("found"@) == Some(true)
            &&& said.get("selected_proposal"@) == Some(gathered.selected)
            &&& said.text("selection_reason"@) == Some(gathered.reason)
            &&& gathered.lookup matches Some(lookup) ==> said.get("lookup"@) == Some(lookup)
            &&& said.unsigned("current_preview_diff_id"@) == gathered.current_id
            &&& said.flag("current_preview_diff_stale"@) == Some(gathered.current_stale)
            &&& said.text("coverage"@) == Some(
                if request.comments == Some(DiscussionComments::General) {
                    "not_requested"@
                } else if request.current_diff_only == Some(true) || request.unresolved_only == Some(
                    true,
                ) {
                    "current_preview_diff"@
                } else {
                    "all_preview_diffs"@
                },
            )
            &&& said.get("review_summary"@) == Some(
                crate::summary::review_summary(
                    gathered.activity.comments,
                    gathered.activity.votes,
                    gathered.activity.requests,
                    ordered_threads(gathered.diffs),
                ),
            )
            &&& said.unsigned("identity_resolution_failures"@) == Some(
                gathered.unknown_people as u64,
            )
            &&& said.get("review_votes"@) == Some(JsonView::Array(gathered.activity.votes))
            &&& said.get("general_comments"@) == Some(JsonView::Array(gathered.activity.comments))
            &&& said.get("review_requests"@) == Some(JsonView::Array(gathered.activity.requests))
            &&& said.get("inline_threads"@) == Some(JsonView::Array(ordered_threads(gathered.diffs)))
            &&& said.text("format"@) == Some(
                match request.format {
                    Some(DiscussionFormat::Structured) => "structured"@,
                    Some(DiscussionFormat::Both) => "both"@,
                    _ => "summary"@,
                },
            )
        }),
{
    reveal_strlit("kind");
    reveal_strlit("found");
    reveal_strlit("selected_proposal");
    reveal_strlit("selection_reason");
    reveal_strlit("lookup");
    reveal_strlit("current_preview_diff_id");
    reveal_strlit("current_preview_diff_stale");
    reveal_strlit("coverage");
    reveal_strlit("format");
    reveal_strlit("filters");
    reveal_strlit("review_summary");
    reveal_strlit("identity_resolution_failures");
    reveal_strlit("review_votes");
    reveal_strlit("general_comments");
    reveal_strlit("review_requests");
    reveal_strlit("inline_threads");
    reveal_strlit("preview_diffs");
    assert("kind"@.len() == 4 && "found"@.len() == 5 && "selected_proposal"@.len() == 17
        && "selection_reason"@.len() == 16 && "lookup"@.len() == 6
        && "current_preview_diff_id"@.len() == 23 && "current_preview_diff_stale"@.len() == 26
        && "coverage"@.len() == 8 && "format"@.len() == 6 && "filters"@.len() == 7
        && "review_summary"@.len() == 14 && "identity_resolution_failures"@.len() == 28
        && "review_votes"@.len() == 12 && "general_comments"@.len() == 16
        && "review_requests"@.len() == 15 && "inline_threads"@.len() == 14
        && "preview_diffs"@.len() == 13);
    assert("selection_reason"@[0] == 's');
    assert("general_comments"@[0] == 'g');
    assert("lookup"@[0] == 'l');
    assert("format"@[0] == 'f');
    assert("review_summary"@[0] == 'r');
    assert("inline_threads"@[0] == 'i');
    let members = discussion_details(request, gathered);
    lemma_member_at(members, 0);
    lemma_member_at(members, 1);
    lemma_member_at(members, 2);
    lemma_member_at(members, 3);
    lemma_member_at(members, 4);
    lemma_member_at(members, 5);
    lemma_member_at(members, 6);
    lemma_member_at(members, 7);
    lemma_member_at(members, 8);
    lemma_member_at(members, 9);
    lemma_member_at(members, 10);
    lemma_member_at(members, 11);
    lemma_member_at(members, 12);
    lemma_member_at(members, 13);
    lemma_member_at(members, 14);
    lemma_member_at(members, 15);
    lemma_member_at(members, 16);
}

/// A discussion gives its summary unless the request asks otherwise; as structured data it is the
/// JSON of its details alone, and as both the summary with that JSON behind it. What is written as
/// JSON is the details.
pub proof fn lemma_discussion_format(
    result: ResultView,
    format: DiscussionFormat,
    replies: Seq<Reply>,
    at: int,
)
    requires
        0 <= at,
    ensures
        formatted_at(result, format, replies, at) matches Err(action) ==> action !is Fail ==> action
            == (ActionView::Write { value: JsonView::Object(result.details) }) && format
            != DiscussionFormat::Summary,
        formatted_at(result, format, replies, at) matches Ok(shown) ==> {
            &&& shown.details == result.details && shown.source_url == result.source_url
            &&& format == DiscussionFormat::Summary ==> shown.text == result.text
            &&& format != DiscussionFormat::Summary ==> replies.len() > at && (
            replies[at] matches Reply::Text(json) && {
                &&& format == DiscussionFormat::Structured ==> shown.text == json@
                &&& format == DiscussionFormat::Both ==> result.text.is_prefix_of(shown.text)
                    && exists|from: int|
                    #[trigger] crate::text::occurs_at(shown.text, json@, from) && from
                        >= result.text.len()
            })
        },
{
    if let Ok(shown) = formatted_at(result, format, replies, at) {
        if format == DiscussionFormat::Both {
            let json = replies[at]->Text_0@;
            reveal_strlit("\n\n## Structured data\n\n```json\n");
            let from = (result.text + "\n\n## Structured data\n\n```json\n"@).len() as int;
            assert(shown.text.subrange(from, from + json.len()) =~= json);
            assert(shown.text.take(result.text.len() as int) =~= result.text);
            assert(crate::text::occurs_at(shown.text, json, from));
        }
    }
}

/// The general part of a discussion asks for the comments and then for the votes of the proposal,
/// by the links that it has for them, unless only inline comments are wanted.
pub proof fn lemma_general_part_asks(
    proposal: JsonView,
    filters: FiltersView,
    replies: Seq<Reply>,
    at: int,
)
    requires
        at == replies.len() || at + 1 == replies.len(),
        at >= 0,
    ensures
        filters.comments == DiscussionComments::Inline ==> (general_at(
            proposal,
            filters,
            replies,
            at,
        ) matches Ok((activity, _, next)) && next == at && activity.comments.len() == 0
            && activity.votes.len() == 0 && activity.requests.len() == 0),
        filters.comments != DiscussionComments::Inline ==> (general_at(
            proposal,
            filters,
            replies,
            at,
        ) matches Err(action) ==> action !is Fail ==> {
            &&& at == replies.len() ==> (proposal.text("all_comments_collection_link"@) matches Some(
                link,
            ) && action == get_all(link))
            &&& at + 1 == replies.len() ==> (proposal.text("votes_collection_link"@) matches Some(
                link,
            ) && action == get_all(link))
        }),
{
}

/// The inline comments and the drafts of a snapshot are asked of the merge proposal by the number
/// of the snapshot.
pub proof fn lemma_snapshot_is_asked_by_number(proposal: JsonView, operation: Seq<char>, id: u64)
    ensures
        crate::preview::review_operation(proposal, operation, id) matches ActionView::Get { place }
            ==> (place matches PlaceView::Query(query) && {
            &&& proposal.text("self_link"@) == Some(query.base)
            &&& sends(query.pairs, "ws.op"@, operation)
            &&& sends(query.pairs, "previewdiff_id"@, decimal(id as nat))
        }),
        proposal.text("self_link"@) is Some ==> crate::preview::review_operation(
            proposal,
            operation,
            id,
        ) is Get,
{
    reveal_strlit("ws.op");
    reveal_strlit("previewdiff_id");
    assert("ws.op"@.len() == 5 && "previewdiff_id"@.len() == 14);
    let pairs = crate::preview::review_pairs(operation, id);
    assert(pairs[0].0 == "ws.op"@ && pairs[1].0 == "previewdiff_id"@);
}

} // verus!
