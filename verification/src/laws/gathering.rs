//! That what was gathered is what is reported.
use vstd::prelude::*;
use crate::branches::{
    checkout_object, selector_at, selector_context, LookupContextView, SelectorView,
};
use crate::conversation::{
    diff_summary, discussion_at, filters_object, lookup_object, snapshots_at, GatheredView,
};
use crate::discussion::{current_at, diffs_at, filters_of, general_at, people_at, DiffView};
use crate::error::ErrorView;
use crate::fields::reviewer_member;
use crate::json::{items_view, member_in, JsonView};
use crate::launchpad::executed;
use crate::laws::creating::full_ref;
use crate::laws::discussing::lemma_discussion_says;
use crate::laws::finding::{lemma_found_proposal_is_reported, lemma_missing_proposal_is_reported};
use crate::laws::sending::{option_of, text_of};
use crate::laws::showing::{lemma_join_shows, lemma_shows_within, shows};
use crate::laws::terms::{lemma_member_at, lemma_reviewer_member};
use crate::lookup::{ambiguous, inspected_names, match_text, MatchView};
use crate::number::decimal;
use crate::people::{missing_links_of, PeopleView};
use crate::request::{DiscussionComments, Operation, Request};
use crate::steps::{ActionView, CheckoutView, LookupView, Reply};
use crate::text::{is_blank, trimmed};

verus! {

/// What a discussion reports is what was gathered for it: the current snapshot, the comments, votes
/// and requests of the proposal, and the threads of the snapshots that the proposal has, each part
/// from the answers behind those of the part before it.
#[verifier::rlimit(80)]
pub proof fn lemma_discussion_is_what_was_gathered(
    request: Request,
    proposal: JsonView,
    lookup: Option<JsonView>,
    reason: Seq<char>,
    replies: Seq<Reply>,
    at: int,
)
    ensures
        discussion_at(request, proposal, lookup, reason, replies, at) matches Ok(result) ==> {
            let said = JsonView::Object(result.details);
            let filters = filters_of(request)->Ok_0;
            let (current_id, stale, one) = current_at(proposal, replies, at)->Ok_0;
            let (activity, people, two) = general_at(proposal, filters, replies, one)->Ok_0;
            let (snapshots, three) = snapshots_at(proposal, filters, replies, two)->Ok_0;
            let (diffs, known, four) = diffs_at(
                proposal,
                snapshots,
                current_id,
                filters,
                people,
                replies,
                three,
            )->Ok_0;
            &&& filters_of(request) is Ok
            &&& said.unsigned("current_preview_diff_id"@) == current_id
            &&& said.flag("current_preview_diff_stale"@) == Some(stale)
            &&& said.get("general_comments"@) == Some(JsonView::Array(activity.comments))
            &&& said.get("review_votes"@) == Some(JsonView::Array(activity.votes))
            &&& said.get("review_requests"@) == Some(JsonView::Array(activity.requests))
            &&& said.get("inline_threads"@) == Some(
                JsonView::Array(crate::conversation::ordered_threads(diffs)),
            )
            &&& said.text("selection_reason"@) == Some(reason)
            &&& said.get("review_summary"@) == Some(
                crate::summary::review_summary(
                    activity.comments,
                    activity.votes,
                    activity.requests,
                    crate::conversation::ordered_threads(diffs),
                ),
            )
            &&& result.source_url == proposal.text("web_link"@)
            &&& filters.comments != DiscussionComments::General ==> (
            replies[two] matches Reply::Entries(entries) && snapshots == items_view(entries@))
            &&& filters.comments == DiscussionComments::General ==> snapshots.len() == 0
        },
{
    if let Ok(result) = discussion_at(request, proposal, lookup, reason, replies, at) {
        let filters = filters_of(request)->Ok_0;
        let (current_id, stale, one) = current_at(proposal, replies, at)->Ok_0;
        let (activity, people, two) = general_at(proposal, filters, replies, one)->Ok_0;
        let (snapshots, three) = snapshots_at(proposal, filters, replies, two)->Ok_0;
        let (diffs, known, four) = diffs_at(
            proposal,
            snapshots,
            current_id,
            filters,
            people,
            replies,
            three,
        )->Ok_0;
        let selected = crate::details::proposal_details_at(proposal, replies, four)->Ok_0;
        let gathered = GatheredView {
            lookup,
            reason,
            current_id,
            current_stale: stale,
            activity,
            diffs,
            unknown_people: known.failed.len(),
            selected,
        };
        lemma_discussion_says(request, gathered);
    }
}

/// The current snapshot of a discussion is the one that the proposal links to as its preview diff,
/// by its number, and whether it is stale is what it says. Without such a link there is none.
pub proof fn lemma_current_snapshot(proposal: JsonView, replies: Seq<Reply>, at: int)
    requires
        0 <= at,
    ensures
        current_at(proposal, replies, at) matches Ok((id, stale, next)) ==> {
            &&& proposal.text("preview_diff_link"@) is Some ==> next == at + 1 && (
            replies[at] matches Reply::Json(current) && id == current@.unsigned("id"@) && stale == (
            current@.flag("stale"@) == Some(true)))
            &&& proposal.text("preview_diff_link"@) is None ==> id is None && !stale && next == at
        },
        current_at(proposal, replies, at) matches Err(action) ==> action !is Fail ==> (proposal.text(
            "preview_diff_link"@,
        ) matches Some(link) && action == crate::steps::get(link)),
{
}

/// A discussion is of the merge proposal that the request names, or else of the one that was found
/// for its branch or for that of the checkout.
pub proof fn lemma_discussion_is_of_proposal(request: Request, base: Seq<char>, replies: Seq<Reply>)
    requires
        request.op == Operation::MergeProposalDiscussion,
    ensures
        ({
            let named = !is_blank(
                text_of(request.repository),
            ) && !is_blank(text_of(request.branch));
            executed(request, base, replies) matches Err(action) ==> action !is Fail ==> {
                &&& !is_blank(text_of(request.target)) && replies.len() == 0 ==> action == (
                ActionView::Proposal { target: text_of(request.target) })
                &&& is_blank(text_of(request.target)) && !named && replies.len() == 0
                    ==> action is Checkout
                &&& is_blank(text_of(request.target)) && named && replies.len() == 0 ==> (
                action matches ActionView::Lookup { repository, branch } && {
                    &&& crate::repository::normalised_repository(text_of(request.repository))
                        == Ok::<Seq<char>, ErrorView>(repository)
                    &&& branch == trimmed(text_of(request.branch))
                })
            }
        }),
{
    let empty: Seq<char> = Seq::empty();
    assert(is_blank(empty)) by {
        assert(trimmed(empty) =~= empty);
    }
}

/// The profiles that are asked for are those of everyone who is linked to and not known yet, and
/// each is recorded under its own link.
pub proof fn lemma_profiles_are_recorded(
    people: PeopleView,
    links: Seq<Seq<char>>,
    found: Seq<Option<JsonView>>,
    i: int,
)
    requires
        links.no_duplicates(),
        found.len() == links.len(),
        forall|k: int| 0 <= k < links.len() ==> !people.has_tried(#[trigger] links[k]),
        0 <= i < links.len(),
    ensures
        found[i] matches Some(profile) ==> member_in(people.with_all(links, found).known, links[i])
            == Some(profile),
        found[i] is None ==> people.with_all(links, found).failed.contains(links[i]) && member_in(
            people.with_all(links, found).known,
            links[i],
        ) is None,
{
    lemma_recorded(people, links, found, links[i]);
    lemma_all_recorded(people, links, found, i);
}

proof fn lemma_member_push(
    members: Seq<(Seq<char>, JsonView)>,
    name: Seq<char>,
    value: JsonView,
    other: Seq<char>,
)
    ensures
        member_in(members, other) is Some ==> member_in(members.push((name, value)), other)
            == member_in(members, other),
        member_in(members, other) is None ==> member_in(members.push((name, value)), other) == (
        if other == name {
            Some(value)
        } else {
            None
        }),
    decreases members.len(),
{
    let longer = members.push((name, value));
    if members.len() == 0 {
        assert(longer.skip(1) =~= members);
    } else {
        lemma_member_push(members.skip(1), name, value, other);
        assert(longer.skip(1) =~= members.skip(1).push((name, value)));
        assert(longer[0] == members[0]);
    }
}

proof fn lemma_recorded(
    people: PeopleView,
    links: Seq<Seq<char>>,
    found: Seq<Option<JsonView>>,
    other: Seq<char>,
)
    requires
        found.len() == links.len(),
    ensures
        !links.contains(other) ==> {
            &&& member_in(people.with_all(links, found).known, other) == member_in(
                people.known,
                other,
            )
            &&& people.with_all(links, found).failed.contains(other) == people.failed.contains(other)
        },
    decreases links.len(),
{
    if links.len() > 0 && !links.contains(other) {
        let front = links.drop_last();
        let taken = found.take(links.len() - 1);
        assert(!front.contains(other)) by {
            if front.contains(other) {
                let k = choose|k: int| 0 <= k < front.len() && front[k] == other;
                assert(links[k] == other);
            }
        }
        lemma_recorded(people, front, taken, other);
        let before = people.with_all(front, taken);
        assert(links.last() == links[links.len() - 1]);
        assert(links.last() != other);
        if let Some(profile) = found[links.len() - 1] {
            lemma_member_push(before.known, links.last(), profile, other);
        } else {
            let longer = before.failed.push(links.last());
            if before.failed.contains(other) {
                let k = choose|k: int| 0 <= k < before.failed.len() && before.failed[k] == other;
                assert(longer[k] == other);
            }
            if longer.contains(other) {
                let k = choose|k: int| 0 <= k < longer.len() && longer[k] == other;
                assert(before.failed[k] == other);
            }
        }
    }
}

proof fn lemma_all_recorded(
    people: PeopleView,
    links: Seq<Seq<char>>,
    found: Seq<Option<JsonView>>,
    i: int,
)
    requires
        links.no_duplicates(),
        found.len() == links.len(),
        forall|k: int| 0 <= k < links.len() ==> !people.has_tried(#[trigger] links[k]),
        0 <= i < links.len(),
    ensures
        found[i] matches Some(profile) ==> member_in(people.with_all(links, found).known, links[i])
            == Some(profile),
        found[i] is None ==> people.with_all(links, found).failed.contains(links[i]) && member_in(
            people.with_all(links, found).known,
            links[i],
        ) is None,
    decreases links.len(),
{
    let front = links.drop_last();
    let last = links.len() - 1;
    let taken = found.take(last);
    let before = people.with_all(front, taken);
    let link = links[last];
    assert(front.no_duplicates());
    assert(!front.contains(link)) by {
        if front.contains(link) {
            let k = choose|k: int| 0 <= k < front.len() && front[k] == link;
            assert(links[k] == links[last]);
        }
    }
    lemma_recorded(people, front, taken, link);
    assert(!people.has_tried(links[last]));
    assert(!before.has_tried(link));
    assert(links.last() == link);
    if i < last {
        assert forall|k: int| 0 <= k < front.len() implies !people.has_tried(#[trigger] front[k]) by {
            assert(front[k] == links[k]);
        }
        lemma_all_recorded(people, front, taken, i);
        assert(front[i] == links[i]);
        assert(links[i] != link);
        if let Some(profile) = found[last] {
            lemma_member_push(before.known, link, profile, links[i]);
        } else {
            let longer = before.failed.push(link);
            if before.failed.contains(links[i]) {
                let k = choose|k: int| 0 <= k < before.failed.len() && before.failed[k] == links[i];
                assert(longer[k] == links[i]);
            }
        }
    } else {
        if let Some(profile) = found[last] {
            lemma_member_push(before.known, link, profile, link);
        } else {
            let longer = before.failed.push(link);
            assert(longer[before.failed.len() as int] == link);
        }
    }
}

/// Whoever is linked to by an entry, in whichever part, is known afterwards or was asked for.
pub proof fn lemma_linked_people_are_asked_for(
    entries: Seq<JsonView>,
    people: PeopleView,
    i: int,
    link: Seq<char>,
)
    requires
        0 <= i < entries.len(),
        crate::people::link_of(entries[i], "author"@) == Some(link) || crate::people::link_of(
            entries[i],
            "person"@,
        ) == Some(link) || crate::people::link_of(entries[i], reviewer_member()) == Some(link)
            || crate::people::link_of(entries[i], "owner"@) == Some(link) || crate::people::link_of(
            entries[i],
            "registrant"@,
        ) == Some(link),
    ensures
        people.has_tried(link) || missing_links_of(entries, people).contains(link),
    decreases entries.len(),
{
    let front = entries.drop_last();
    let before = missing_links_of(front, people);
    let last = entries.last();
    let one = crate::people::with_link(before, people, crate::people::link_of(last, "author"@));
    let two = crate::people::with_link(one, people, crate::people::link_of(last, "owner"@));
    let three = crate::people::with_link(two, people, crate::people::link_of(last, "person"@));
    let four = crate::people::with_link(
        three,
        people,
        crate::people::link_of(last, reviewer_member()),
    );
    let five = crate::people::with_link(four, people, crate::people::link_of(last, "registrant"@));
    assert(five == missing_links_of(entries, people));
    if i < front.len() {
        assert(front[i] == entries[i]);
        lemma_linked_people_are_asked_for(front, people, i, link);
    }
    lemma_link_kept(before, people, crate::people::link_of(last, "author"@), link);
    lemma_link_kept(one, people, crate::people::link_of(last, "owner"@), link);
    lemma_link_kept(two, people, crate::people::link_of(last, "person"@), link);
    lemma_link_kept(three, people, crate::people::link_of(last, reviewer_member()), link);
    lemma_link_kept(four, people, crate::people::link_of(last, "registrant"@), link);
}

proof fn lemma_link_kept(
    links: Seq<Seq<char>>,
    people: PeopleView,
    more: Option<Seq<char>>,
    link: Seq<char>,
)
    ensures
        links.contains(link) ==> crate::people::with_link(links, people, more).contains(link),
        more == Some(link) ==> people.has_tried(link) || crate::people::with_link(
            links,
            people,
            more,
        ).contains(link),
{
    let after = crate::people::with_link(links, people, more);
    if links.contains(link) {
        let k = choose|k: int| 0 <= k < links.len() && links[k] == link;
        assert(after[k] == link);
    } else if more == Some(link) && !people.has_tried(link) {
        assert(after[links.len() as int] == link);
    }
}

/// The profiles of a part of a discussion are asked for all at once, by their links.
pub proof fn lemma_profiles_are_asked_for(
    people: PeopleView,
    entries: Seq<JsonView>,
    replies: Seq<Reply>,
    at: int,
)
    requires
        0 <= at,
    ensures
        people_at(people, entries, replies, at) matches Err(action) ==> action !is Fail ==> action == (
        ActionView::People { links: missing_links_of(entries, people) }),
        people_at(people, entries, replies, at) matches Ok((known, next)) ==> {
            &&& missing_links_of(entries, people).len() == 0 ==> known == people && next == at
            &&& missing_links_of(entries, people).len() > 0 ==> next == at + 1 && (
            replies[at] matches Reply::People(found) && found@.len() == missing_links_of(
                entries,
                people,
            ).len() && known == people.with_all(
                missing_links_of(entries, people),
                crate::people::profiles_view(found@),
            ))
        },
{
}

/// The lookup of a discussion says by name where the proposal was found, for which branch, and of
/// how many.
pub proof fn lemma_lookup_says(request: Request, selector: SelectorView, lookup: LookupView)
    requires
        lookup is Found,
    ensures
        ({
            let said = lookup_object(request, selector, lookup);
            &&& lookup->Found_repository.text("unique_name"@) matches Some(name) ==> said.text(
                "repository"@,
            ) == Some(name)
            &&& said.flag("found"@) == Some(true)
            &&& said.text("requested_repository"@) == Some(selector.requested_repository)
            &&& said.text("branch"@) == Some(full_ref(selector.branch))
            &&& said.flag("inferred"@) == Some(selector.inferred)
            &&& said.flag("related_repository"@) == Some(lookup->related_repository)
            &&& said.unsigned("candidate_count"@) == Some(lookup->candidate_count as u64)
        }),
{
    reveal_strlit("repository");
    reveal_strlit("found");
    reveal_strlit("requested_repository");
    reveal_strlit("branch");
    reveal_strlit("inferred");
    reveal_strlit("related_repository");
    reveal_strlit("candidate_count");
    reveal_strlit("matching_proposals");
    reveal_strlit("selection_filters");
    assert("repository"@.len() == 10 && "found"@.len() == 5 && "requested_repository"@.len() == 20
        && "branch"@.len() == 6 && "inferred"@.len() == 8 && "related_repository"@.len() == 18
        && "candidate_count"@.len() == 15 && "matching_proposals"@.len() == 18
        && "selection_filters"@.len() == 17);
    assert("related_repository"@[0] == 'r');
    assert("matching_proposals"@[0] == 'm');
    let members = lookup_object(request, selector, lookup)->Object_0;
    lemma_member_at(members, 0);
    lemma_member_at(members, 1);
    lemma_member_at(members, 2);
    lemma_member_at(members, 3);
    lemma_member_at(members, 4);
    lemma_member_at(members, 5);
    lemma_member_at(members, 6);
    lemma_member_at(members, 7);
    lemma_member_at(members, 8);
}

/// The filters of a discussion are reported by name, as the request has them.
pub proof fn lemma_discussion_filters_say(request: Request)
    ensures
        ({
            let said = filters_object(request);
            &&& said.text("comments"@) == Some(
                match request.comments {
                    Some(DiscussionComments::General) => "general"@,
                    Some(DiscussionComments::Inline) => "inline"@,
                    _ => "all"@,
                },
            )
            &&& said.flag("current_diff_only"@) == Some(request.current_diff_only == Some(true))
            &&& said.flag("unresolved_only"@) == Some(request.unresolved_only == Some(true))
            &&& said.text("since"@) == option_of(request.since)
            &&& said.text(reviewer_member()) == (match request.reviewer {
                Some(name) => Some(trimmed(name@)),
                None => None,
            })
        }),
{
    lemma_reviewer_member();
    reveal_strlit("comments");
    reveal_strlit("current_diff_only");
    reveal_strlit("unresolved_only");
    reveal_strlit("since");
    assert("comments"@.len() == 8 && "current_diff_only"@.len() == 17
        && "unresolved_only"@.len() == 15 && "since"@.len() == 5);
    let members = filters_object(request)->Object_0;
    lemma_member_at(members, 0);
    lemma_member_at(members, 1);
    lemma_member_at(members, 2);
    lemma_member_at(members, 3);
    lemma_member_at(members, 4);
}

/// A snapshot is reported by name: its number, when it was made, whether it is current or stale,
/// and how many threads it has.
pub proof fn lemma_snapshot_says(diff: DiffView)
    ensures
        ({
            let said = diff_summary(diff);
            &&& said.unsigned("preview_diff_id"@) == Some(diff.id)
            &&& said.text("date_created"@) == diff.date_created
            &&& said.flag("current"@) == Some(diff.current)
            &&& said.flag("stale"@) == Some(diff.stale)
            &&& said.unsigned("thread_count"@) == Some(diff.threads.len() as u64)
        }),
{
    reveal_strlit("preview_diff_id");
    reveal_strlit("date_created");
    reveal_strlit("current");
    reveal_strlit("stale");
    reveal_strlit("thread_count");
    assert("preview_diff_id"@.len() == 15 && "date_created"@.len() == 12 && "current"@.len() == 7
        && "stale"@.len() == 5 && "thread_count"@.len() == 12);
    assert("date_created"@[0] == 'd');
    assert("thread_count"@[0] == 't');
    let members = diff_summary(diff)->Object_0;
    lemma_member_at(members, 0);
    lemma_member_at(members, 1);
    lemma_member_at(members, 2);
    lemma_member_at(members, 3);
    lemma_member_at(members, 4);
}

/// A checkout is reported by name: its directory, the remote that was selected, and all that were
/// looked at.
pub proof fn lemma_checkout_says(checkout: CheckoutView, i: int)
    ensures
        ({
            let said = checkout_object(checkout);
            &&& said.text("working_directory"@) == Some(checkout.working_directory)
            &&& said.get("selected_remote"@) matches Some(remote) && remote.text("name"@) == Some(
                checkout.selected.0,
            ) && remote.text("url"@) == Some(checkout.selected.1)
            &&& said.get("inspected_remotes"@) matches Some(JsonView::Array(remotes)) && {
                &&& remotes.len() == checkout.remotes.len()
                &&& 0 <= i < remotes.len() ==> remotes[i].text("name"@) == Some(
                    checkout.remotes[i].0,
                ) && remotes[i].text("url"@) == Some(checkout.remotes[i].1)
            }
        }),
{
    reveal_strlit("working_directory");
    reveal_strlit("selected_remote");
    reveal_strlit("inspected_remotes");
    assert("working_directory"@.len() == 17 && "selected_remote"@.len() == 15
        && "inspected_remotes"@.len() == 17);
    assert("working_directory"@[0] == 'w');
    assert("inspected_remotes"@[0] == 'i');
    reveal_strlit("name");
    reveal_strlit("url");
    assert("name"@.len() == 4 && "url"@.len() == 3);
    let members = checkout_object(checkout)->Object_0;
    lemma_member_at(members, 0);
    lemma_member_at(members, 1);
    lemma_member_at(members, 2);
    let selected = crate::branches::remote_object(checkout.selected)->Object_0;
    lemma_member_at(selected, 0);
    lemma_member_at(selected, 1);
    if 0 <= i < checkout.remotes.len() {
        let remote = crate::branches::remote_object(checkout.remotes[i])->Object_0;
        lemma_member_at(remote, 0);
        lemma_member_at(remote, 1);
    }
}

/// The proposal of a branch is reported for the repository and branch that were asked for, by the
/// request or, inferred, by the checkout.
pub proof fn lemma_branch_report(request: Request, base: Seq<char>, replies: Seq<Reply>)
    requires
        request.op == Operation::MergeProposalForBranch,
    ensures
        executed(request, base, replies) matches Ok(result) ==> {
            let said = JsonView::Object(result.details);
            let named = !is_blank(
                text_of(request.repository),
            ) && !is_blank(text_of(request.branch));
            let at: int = if named {
                0
            } else {
                1
            };
            &&& said.text("kind"@) == Some("merge_proposal_for_branch"@)
            &&& said.flag("inferred"@) == Some(!named)
            &&& named ==> said.text("requested_repository"@) == Some(text_of(request.repository))
                && said.text("branch"@) == Some(full_ref(trimmed(text_of(request.branch))))
            &&& !named ==> (replies[0] matches Reply::Checkout(checkout) && said.text(
                "requested_repository"@,
            ) == Some(checkout.selected.url@) && said.text("branch"@) == Some(
                full_ref(checkout.branch@),
            ))
            &&& replies.len() > at
            &&& replies[at] matches Reply::Lookup(lookup) && said.flag("found"@) == Some(
                lookup@ is Found,
            )
        },
{
    let empty: Seq<char> = Seq::empty();
    assert(is_blank(empty)) by {
        assert(trimmed(empty) =~= empty);
    }
    if let Ok(result) = executed(request, base, replies) {
        let named = !is_blank(text_of(request.repository)) && !is_blank(text_of(request.branch));
        let at: int = if named {
            0
        } else {
            1
        };
        let selector = selector_at(request, replies)->Ok_0;
        let context = selector_context(selector, "merge_proposal_for_branch"@);
        lemma_report(request, replies[at]->Lookup_0@, context, replies, at + 1);
    }
}

proof fn lemma_report(
    request: Request,
    lookup: LookupView,
    context: LookupContextView,
    replies: Seq<Reply>,
    at: int,
)
    requires
        0 <= at,
    ensures
        crate::branches::lookup_result(request, lookup, context, replies, at) matches Ok(result) ==> {
            let said = JsonView::Object(result.details);
            &&& said.text("kind"@) == Some(context.kind)
            &&& said.flag("found"@) == Some(lookup is Found)
            &&& said.text("requested_repository"@) == Some(context.requested_repository)
            &&& said.text("branch"@) == Some(full_ref(context.branch))
            &&& said.flag("inferred"@) == Some(context.inferred)
        },
{
    if let Ok(result) = crate::branches::lookup_result(request, lookup, context, replies, at) {
        match lookup {
            LookupView::Missing { repository, inspected_repositories } => {
                lemma_missing_proposal_is_reported(
                    request,
                    repository,
                    inspected_repositories,
                    context,
                );
            },
            LookupView::Found { proposal, .. } => {
                let details = crate::details::proposal_details_at(proposal, replies, at)->Ok_0;
                lemma_found_proposal_is_reported(request, lookup, details, context, 0);
            },
        }
    }
}

/// The current merge proposal is reported for the branch and remote of the checkout.
pub proof fn lemma_current_report(request: Request, base: Seq<char>, replies: Seq<Reply>)
    requires
        request.op == Operation::CurrentMergeProposal,
    ensures
        executed(request, base, replies) matches Ok(result) ==> {
            let said = JsonView::Object(result.details);
            &&& said.text("kind"@) == Some("current_merge_proposal"@)
            &&& said.flag("inferred"@) == Some(true)
            &&& replies[0] matches Reply::Checkout(checkout) && said.text("requested_repository"@)
                == Some(checkout.selected.url@) && said.text("branch"@) == Some(
                full_ref(checkout.branch@),
            )
            &&& replies[1] matches Reply::Lookup(lookup) && said.flag("found"@) == Some(
                lookup@ is Found,
            )
        },
{
    if let Ok(result) = executed(request, base, replies) {
        let checkout = replies[0]->Checkout_0@;
        let context = LookupContextView {
            requested_repository: checkout.selected.1,
            branch: checkout.branch,
            inferred: true,
            kind: "current_merge_proposal"@,
            metadata: Some(checkout_object(checkout)),
        };
        lemma_report(request, replies[1]->Lookup_0@, context, replies, 2);
    }
}

/// The names of the repositories that were inspected are those of the candidates, other than the
/// one that was asked for.
pub proof fn lemma_inspected_names_are_whole(
    repositories: Seq<JsonView>,
    canonical: Seq<char>,
    name: Seq<char>,
)
    ensures
        inspected_names(repositories, canonical).contains(name) <==> name != canonical && exists|i: int|
            0 <= i < repositories.len() && (#[trigger] repositories[i]).text("unique_name"@) == Some(
                name,
            ),
    decreases repositories.len(),
{
    if repositories.len() > 0 {
        let front = repositories.drop_last();
        lemma_inspected_names_are_whole(front, canonical, name);
        let before = inspected_names(front, canonical);
        let names = inspected_names(repositories, canonical);
        let last = repositories.last();
        assert(last == repositories[repositories.len() - 1]);
        if before.contains(name) {
            let k = choose|k: int| 0 <= k < before.len() && before[k] == name;
            assert(names[k] == name);
            let i = choose|i: int|
                0 <= i < front.len() && (#[trigger] front[i]).text("unique_name"@) == Some(name);
            assert(repositories[i] == front[i]);
        }
        if last.text("unique_name"@) == Some(name) && name != canonical && !before.contains(name) {
            assert(names[before.len() as int] == name);
        }
        if names.contains(name) && !before.contains(name) {
            let k = choose|k: int| 0 <= k < names.len() && names[k] == name;
            if k < before.len() {
                assert(before[k] == name);
            }
            assert(last.text("unique_name"@) == Some(name));
        }
        if name != canonical && !names.contains(name) {
            assert forall|i: int| 0 <= i < repositories.len() implies (
            #[trigger] repositories[i]).text("unique_name"@) != Some(name) by {
                if i < front.len() {
                    assert(front[i] == repositories[i]);
                }
            }
        }
    }
}

/// Why several repositories are no answer is said with each of them.
pub proof fn lemma_ambiguity_names_repositories(
    matches: Seq<MatchView>,
    canonical: Seq<char>,
    branch: Seq<char>,
    i: int,
)
    requires
        0 <= i < matches.len(),
    ensures
        shows(ambiguous(matches, canonical, branch).message(), match_text(matches[i], branch)),
        matches[i].repository.text("unique_name"@) matches Some(name) ==> (name + ":"@ + branch
            + " (MP "@).is_prefix_of(match_text(matches[i], branch)),
{
    let each = matches.map_values(|found: MatchView| match_text(found, branch));
    lemma_join_shows(each, "; "@, i);
    let list = join_of(each);
    let error = ambiguous(matches, canonical, branch);
    let start = "cannot select a merge proposal for "@ + canonical + ":"@ + branch
        + "; matching repositories: "@;
    let end = "; retry with a full merge proposal target or narrow with status and target_branch"@;
    let reason = start + list + end;
    assert(error == crate::error::invalid(reason));
    crate::laws::showing::lemma_shows_at(start, list, end);
    crate::laws::showing::lemma_shows_at("invalid request: "@, reason, Seq::empty());
    lemma_shows_within(error.message(), reason, list);
    lemma_shows_within(error.message(), list, each[i]);
    if let Some(name) = matches[i].repository.text("unique_name"@) {
        let head = name + ":"@ + branch + " (MP "@;
        let text = match_text(matches[i], branch);
        assert(text.take(head.len() as int) =~= head);
    }
}

spec fn join_of(parts: Seq<Seq<char>>) -> Seq<char> {
    crate::split::join(parts, "; "@)
}

/// A diff that is too long is cut off at the last character that fits, with a note behind it.
pub proof fn lemma_long_diff_is_cut(text: Seq<char>)
    ensures
        crate::size::byte_size(text) > 2_097_152 ==> exists|front: Seq<char>|
            {
                &&& crate::size::shown_diff(text) == #[trigger] (front
                    + "\n\n[Diff truncated at 2 MiB]"@)
                &&& front.is_prefix_of(text)
                &&& crate::size::byte_size(front) <= 2_097_152
            },
        crate::size::byte_size(text) <= 2_097_152 ==> crate::size::shown_diff(text) == text,
{
    if crate::size::byte_size(text) > 2_097_152 {
        let front = crate::size::front_within(text, 2_097_152);
        crate::size::lemma_front_is_longest(text, 2_097_152);
        assert(crate::size::shown_diff(text) == front + "\n\n[Diff truncated at 2 MiB]"@);
    }
}

/// A command that failed is explained by what it wrote to its error output, or else to its output,
/// or else by its status.
pub proof fn lemma_failure_is_explained(stderr: Seq<char>, stdout: Seq<char>, status: Seq<char>)
    ensures
        !is_blank(stderr) ==> crate::local_git::failure_reason(stderr, stdout, status) == trimmed(
            stderr,
        ),
        is_blank(stderr) && !is_blank(stdout) ==> crate::local_git::failure_reason(
            stderr,
            stdout,
            status,
        ) == trimmed(stdout),
        is_blank(stderr) && is_blank(stdout) ==> crate::local_git::failure_reason(
            stderr,
            stdout,
            status,
        ) == "exited with status "@ + status,
{
}

/// A repository is looked up by its path.
pub proof fn lemma_repository_is_looked_up(base: Seq<char>, raw: Seq<char>, path: Seq<char>)
    requires
        base.len() > 0 && base.last() != '/',
        crate::repository::normalised_repository(raw) == Ok::<Seq<char>, ErrorView>(path),
    ensures
        crate::repository::repository_lookup_url(base, raw) == Ok::<Seq<char>, ErrorView>(
            base + "/"@ + ("+git?ws.op=getByPath&path="@ + crate::web::form_encoded(
                vstd::utf8::encode_utf8(path),
            )),
        ),
{
    reveal_strlit("/+git?ws.op=getByPath&path=");
    reveal_strlit("+git?ws.op=getByPath&path=");
    reveal_strlit("/");
    let rest = "+git?ws.op=getByPath&path="@ + crate::web::form_encoded(
        vstd::utf8::encode_utf8(path),
    );
    assert("/+git?ws.op=getByPath&path="@ + crate::web::form_encoded(vstd::utf8::encode_utf8(path))
        =~= "/"@ + rest);
    assert(rest[0] == '+');
    crate::laws::terms::lemma_service_url(base, rest);
}

/// What was done is said in the text of the result: a review with how many inline comments it has
/// and where, a status, and a comment with where it is.
pub proof fn lemma_results_say_what_was_done(
    request: Request,
    id: u64,
    proposal: JsonView,
    count: nat,
    url: Seq<char>,
    page: Seq<char>,
)
    requires
        proposal.text("web_link"@) == Some(page),
    ensures
        count == 1 ==> crate::reviewing::review_result(request, id, proposal, count).text
            =~= "Review submitted with "@ + decimal(count) + " inline comment"@ + ": "@ + page,
        count != 1 ==> crate::reviewing::review_result(request, id, proposal, count).text
            =~= "Review submitted with "@ + decimal(count) + " inline comment"@ + "s"@ + ": "@ + page,
        crate::creating::comment_result("bug"@, url).text == "Comment added to "@ + url,
        crate::creating::comment_result("bug"@, url).source_url == Some(url),
{
}

} // verus!
