//! What is created and changed on Launchpad, and with which values.
use vstd::prelude::*;
use crate::creating::{bug_form, merge_form, with_value};
use crate::inspecting::{bug_search_pairs, proposal_search_pairs, with_values};
use crate::json::JsonView;
use crate::launchpad::executed;
use crate::laws::sending::{is_own_url, option_of, text_of};
use crate::laws::terms::{
    lemma_member_at, lemma_service_url, sends, sends_list, sends_list_at, sends_no, sends_option,
};
use crate::number::decimal;
use crate::repository::{normalised_repository, repository_lookup_url};
use crate::request::{OneOrMany, Operation, Request};
use crate::steps::{get, ActionView, GitRef, PlaceView, Reply};
use crate::target::{parsed_target, KindView};

verus! {

/// What the texts of an optional list hold, none where there is no list.
pub open spec fn listed(texts: Option<Vec<String>>) -> Seq<Seq<char>> {
    match texts {
        Some(texts) => Seq::new(texts@.len(), |i: int| texts@[i]@),
        None => Seq::empty(),
    }
}

/// The texts of an optional filter, one or several, none where there is no filter.
pub open spec fn filtered(texts: Option<OneOrMany>) -> Seq<Seq<char>> {
    match texts {
        Some(OneOrMany::One(text)) => seq![text@],
        Some(OneOrMany::Many(texts)) => Seq::new(texts@.len(), |i: int| texts@[i]@),
        None => Seq::empty(),
    }
}

/// The full ref of a branch or ref.
pub open spec fn full_ref(name: Seq<char>) -> Seq<char> {
    if "refs/"@.is_prefix_of(name) {
        name
    } else {
        "refs/heads/"@ + name
    }
}

proof fn lemma_bug_form(request: Request, title: Seq<char>, description: Seq<char>, target: Seq<char>)
    ensures
        ({
            let pairs = bug_form(request, title, description, target);
            &&& sends(pairs, "ws.op"@, "createBug"@)
            &&& sends(pairs, "title"@, title)
            &&& sends(pairs, "description"@, description)
            &&& sends(pairs, "target"@, target)
            &&& sends_option(pairs, "information_type"@, option_of(request.information_type))
            &&& sends_list(pairs, "tags"@, listed(request.tags))
        }),
{
    reveal_strlit("ws.op");
    reveal_strlit("title");
    reveal_strlit("description");
    reveal_strlit("target");
    reveal_strlit("information_type");
    reveal_strlit("tags");
    assert("ws.op"@.len() == 5 && "title"@.len() == 5 && "description"@.len() == 11
        && "target"@.len() == 6 && "information_type"@.len() == 16 && "tags"@.len() == 4);
    assert("ws.op"@[0] == 'w');
    assert("title"@[0] == 't');
    let pairs = bug_form(request, title, description, target);
    assert(pairs[0].0 == "ws.op"@ && pairs[1].0 == "title"@ && pairs[2].0 == "description"@
        && pairs[3].0 == "target"@);
    let from: int = if request.information_type is Some {
        5
    } else {
        4
    };
    if request.information_type is Some {
        assert(pairs[4].0 == "information_type"@);
    }
    assert(sends_list_at(pairs, "tags"@, listed(request.tags), from));
}

/// A bug is created with the title, the description, the tags and the information type of the
/// request, on the target of the request.
pub proof fn lemma_bug_is_created_as_asked(request: Request, base: Seq<char>, replies: Seq<Reply>)
    requires
        request.op == Operation::BugCreate,
        base.len() > 0 && base.last() != '/',
        text_of(request.target).len() > 0 && text_of(request.target)[0] != '/',
    ensures
        executed(request, base, replies) matches Err(ActionView::Create { url, pairs }) ==> {
            &&& replies.len() == 0
            &&& url == base + "/"@ + "bugs"@
            &&& sends(pairs, "ws.op"@, "createBug"@)
            &&& sends(pairs, "title"@, text_of(request.title))
            &&& sends(pairs, "description"@, text_of(request.description))
            &&& sends(pairs, "target"@, base + "/"@ + text_of(request.target))
            &&& sends_option(pairs, "information_type"@, option_of(request.information_type))
            &&& sends_list(pairs, "tags"@, listed(request.tags))
        },
        crate::request::validated(request) is Ok && replies.len() == 0
            && !crate::text::is_blank(text_of(request.target))
            && !crate::text::is_blank(text_of(request.title))
            && !crate::text::is_blank(text_of(request.description)) ==> (executed(
            request,
            base,
            replies,
        ) matches Err(ActionView::Create { .. })),
{
    reveal_strlit("/bugs");
    reveal_strlit("bugs");
    reveal_strlit("/");
    assert("/bugs"@ =~= "/"@ + "bugs"@);
    lemma_service_url(base, "bugs"@);
    lemma_service_url(base, text_of(request.target));
    lemma_bug_form(
        request,
        text_of(request.title),
        text_of(request.description),
        base + "/"@ + text_of(request.target),
    );
}

/// A bug is reported as created only once its form was answered. The report is of the resource
/// that the answer points to, with its number and page.
pub proof fn lemma_bug_is_reported_once_created(request: Request, base: Seq<char>, replies: Seq<Reply>)
    requires
        request.op == Operation::BugCreate,
    ensures
        executed(request, base, replies) matches Ok(result) ==> {
            &&& replies.len() >= 3
            &&& executed(request, base, replies.take(0)) matches Err(ActionView::Create { .. })
            &&& replies[0] matches Reply::Text(location) && executed(request, base, replies.take(1))
                == Err::<crate::response::ResultView, ActionView>(get(location@))
            &&& replies[1] matches Reply::Json(bug) && {
                &&& JsonView::Object(result.details).text("kind"@) == Some("bug"@)
                &&& JsonView::Object(result.details).unsigned("id"@) == bug@.unsigned("id"@)
                &&& bug@.unsigned("id"@) is Some
                &&& result.source_url == bug@.text("web_link"@)
            }
        },
{
    if let Ok(result) = executed(request, base, replies) {
        reveal_strlit("kind");
        reveal_strlit("id");
        assert("kind"@.len() == 4 && "id"@.len() == 2);
        lemma_member_at(result.details, 0);
        lemma_member_at(result.details, 1);
    }
}

proof fn lemma_merge_form(request: Request, target: Seq<char>)
    ensures
        ({
            let pairs = merge_form(request, target);
            &&& sends(pairs, "ws.op"@, "createMergeProposal"@)
            &&& sends(pairs, "merge_target"@, target)
            &&& sends(pairs, "initial_comment"@, text_of(request.description))
            &&& sends(
                pairs,
                "needs_review"@,
                if request.needs_review == Some(false) {
                    "false"@
                } else {
                    "true"@
                },
            )
            &&& sends_option(pairs, "commit_message"@, option_of(request.commit_message))
        }),
{
    reveal_strlit("ws.op");
    reveal_strlit("merge_target");
    reveal_strlit("initial_comment");
    reveal_strlit("needs_review");
    reveal_strlit("commit_message");
    assert("ws.op"@.len() == 5 && "merge_target"@.len() == 12 && "initial_comment"@.len() == 15
        && "needs_review"@.len() == 12 && "commit_message"@.len() == 14);
    assert("merge_target"@[0] == 'm');
    assert("needs_review"@[0] == 'n');
    let pairs = merge_form(request, target);
    assert(pairs[0].0 == "ws.op"@ && pairs[1].0 == "merge_target"@ && pairs[2].0
        == "initial_comment"@ && pairs[3].0 == "needs_review"@);
    if request.commit_message is Some {
        assert(pairs[4].0 == "commit_message"@);
    }
}

/// Whether a link is that of a ref in a list, and of the first with its path.
pub open spec fn links_ref(refs: Seq<GitRef>, path: Seq<char>, link: Seq<char>) -> bool {
    exists|i: int|
        {
            &&& 0 <= i < refs.len()
            &&& (#[trigger] refs[i]).path matches Some(own) && own@ == path
            &&& refs[i].self_link matches Some(own) && own@ == link
            &&& forall|j: int|
                0 <= j < i ==> ((#[trigger] refs[j]).path matches Some(own) ==> own@ != path)
        }
}

pub(crate) proof fn lemma_ref_found(refs: Seq<GitRef>, path: Seq<char>)
    ensures
        crate::lookup::ref_with_path(crate::steps::refs_view(refs), path) matches Some(found) ==> (
        found.self_link matches Some(link) ==> links_ref(refs, path, link)),
    decreases refs.len(),
{
    let all = crate::steps::refs_view(refs);
    if refs.len() > 0 {
        assert(all[0] == refs[0]@);
        let rest = refs.skip(1);
        assert(all.skip(1) =~= crate::steps::refs_view(rest));
        if all[0].path == Some(path) {
            if let Some(link) = all[0].self_link {
                assert(refs[0].self_link->0@ == link);
                assert(links_ref(refs, path, link));
            }
        } else {
            lemma_ref_found(rest, path);
            if let Some(found) = crate::lookup::ref_with_path(crate::steps::refs_view(rest), path) {
                if let Some(link) = found.self_link {
                    let i = choose|i: int|
                        {
                            &&& 0 <= i < rest.len()
                            &&& (#[trigger] rest[i]).path matches Some(own) && own@ == path
                            &&& rest[i].self_link matches Some(own) && own@ == link
                            &&& forall|j: int|
                                0 <= j < i ==> ((#[trigger] rest[j]).path matches Some(own) ==> own@
                                    != path)
                        };
                    assert(refs[i + 1] == rest[i]);
                    assert forall|j: int| 0 <= j < i + 1 implies ((
                    #[trigger] refs[j]).path matches Some(own) ==> own@ != path) by {
                        if j > 0 {
                            assert(rest[j - 1] == refs[j]);
                        }
                    }
                }
            }
        }
    }
}

/// A merge proposal is created on the source ref, for the target ref, with the description, the
/// commit message and the wish for a review of the request. Both refs are those with the full
/// paths that the request names, in the refs of their repositories.
pub proof fn lemma_proposal_is_created_as_asked(request: Request, base: Seq<char>, replies: Seq<Reply>)
    requires
        request.op == Operation::MergeProposalCreate,
    ensures
        executed(request, base, replies) matches Err(ActionView::Create { url, pairs }) ==> {
            &&& replies.len() == 4
            &&& replies[1] matches Reply::Refs(refs) && links_ref(
                refs@,
                full_ref(text_of(request.source_ref)),
                url,
            )
            &&& replies[3] matches Reply::Refs(refs) && exists|link: Seq<char>|
                {
                    &&& links_ref(refs@, full_ref(text_of(request.target_ref)), link)
                    &&& #[trigger] sends(pairs, "merge_target"@, link)
                }
            &&& sends(pairs, "ws.op"@, "createMergeProposal"@)
            &&& sends(pairs, "initial_comment"@, text_of(request.description))
            &&& sends(
                pairs,
                "needs_review"@,
                if request.needs_review == Some(false) {
                    "false"@
                } else {
                    "true"@
                },
            )
            &&& sends_option(pairs, "commit_message"@, option_of(request.commit_message))
        },
{
    if let Err(ActionView::Create { url, pairs }) = executed(request, base, replies) {
        let sources = replies[1]->Refs_0@;
        let targets = replies[3]->Refs_0@;
        lemma_ref_found(sources, full_ref(text_of(request.source_ref)));
        lemma_ref_found(targets, full_ref(text_of(request.target_ref)));
        let target = crate::lookup::ref_with_path(
            crate::steps::refs_view(targets),
            full_ref(text_of(request.target_ref)),
        )->0;
        lemma_merge_form(request, target.self_link->0);
    }
}

/// Before a merge proposal is created, the repository of the request and the target repository,
/// or the same one where there is none, are looked up and their refs are listed by the names that
/// the lookups gave.
pub proof fn lemma_proposal_creation_asks(request: Request, base: Seq<char>, replies: Seq<Reply>)
    requires
        request.op == Operation::MergeProposalCreate,
    ensures
        executed(request, base, replies) matches Err(action) ==> action !is Fail ==> {
            &&& replies.len() == 0 ==> (repository_lookup_url(
                base,
                normalised_repository(text_of(request.repository))->Ok_0,
            ) matches Ok(url) && action == get(url))
            &&& replies.len() == 1 ==> (replies[0] matches Reply::Json(found) && found@.text(
                "unique_name"@,
            ) matches Some(name) && action == (ActionView::Refs { repository: name }))
            &&& replies.len() == 2 ==> (repository_lookup_url(
                base,
                match request.target_repository {
                    Some(raw) => normalised_repository(raw@)->Ok_0,
                    None => normalised_repository(text_of(request.repository))->Ok_0,
                },
            ) matches Ok(url) && action == get(url))
            &&& replies.len() == 3 ==> (replies[2] matches Reply::Json(found) && found@.text(
                "unique_name"@,
            ) matches Some(name) && action == (ActionView::Refs { repository: name }))
            &&& replies.len() == 4 ==> action is Create
            &&& replies.len() == 5 ==> (replies[4] matches Reply::Text(location) && action == get(
                location@,
            ))
        },
        executed(request, base, replies) matches Ok(result) ==> {
            &&& replies.len() >= 8
            &&& executed(request, base, replies.take(4)) matches Err(ActionView::Create { .. })
            &&& replies[5] matches Reply::Json(proposal) && result.source_url == proposal@.text(
                "web_link"@,
            )
        },
{
}

/// A comment on a bug is posted to that bug with the body and the subject of the request.
#[verifier::rlimit(80)]
pub proof fn lemma_bug_comment_is_posted(request: Request, base: Seq<char>, replies: Seq<Reply>, id: u64)
    requires
        request.op == Operation::Comment,
        base.len() > 0 && base.last() != '/',
        parsed_target(text_of(request.target)) matches Ok(target) && target.kind == (KindView::Bug {
            id,
        }),
    ensures
        executed(request, base, replies) matches Err(action) ==> action !is Fail ==> {
            &&& replies.len() == 0
            &&& action matches ActionView::Post { url, pairs } && {
                &&& url == base + "/"@ + ("bugs/"@ + decimal(id as nat))
                &&& sends(pairs, "ws.op"@, "newMessage"@)
                &&& sends(pairs, "content"@, text_of(request.body))
                &&& sends_option(pairs, "subject"@, option_of(request.subject))
            }
        },
        executed(request, base, replies) matches Ok(result) ==> {
            &&& replies.len() > 0 && replies[0] is Done
            &&& executed(request, base, replies.take(0)) matches Err(ActionView::Post { .. })
            &&& JsonView::Object(result.details).text("kind"@) == Some("bug"@)
            &&& result.source_url == Some(
                "https://bugs.launchpad.net"@ + "/"@ + parsed_target(text_of(request.target))->Ok_0.path,
            )
        },
{
    reveal_strlit("ws.op");
    reveal_strlit("content");
    reveal_strlit("subject");
    assert("ws.op"@.len() == 5 && "content"@.len() == 7 && "subject"@.len() == 7);
    assert("content"@[0] == 'c');
    assert("subject"@[0] == 's');
    reveal_strlit("/bugs/");
    reveal_strlit("bugs/");
    reveal_strlit("/");
    reveal_strlit("");
    let rest = "bugs/"@ + decimal(id as nat);
    assert(rest[0] == 'b');
    assert(crate::viewing::bug_resource(id, ""@) =~= "/"@ + rest);
    lemma_service_url(base, rest);
    let pairs = with_value(
        Seq::empty().push(("ws.op"@, "newMessage"@)).push(("content"@, text_of(request.body))),
        "subject"@,
        option_of(request.subject),
    );
    assert(pairs[0].0 == "ws.op"@ && pairs[1].0 == "content"@);
    if request.subject is Some {
        assert(pairs[2].0 == "subject"@);
    }
    if let Ok(result) = executed(request, base, replies) {
        lemma_member_at(result.details, 0);
    }
}

/// A comment on a merge proposal is posted to the one that the request names, with the body, the
/// subject and the vote of the request.
#[verifier::rlimit(80)]
pub proof fn lemma_proposal_comment_is_posted(request: Request, base: Seq<char>, replies: Seq<Reply>)
    requires
        request.op == Operation::Comment,
        parsed_target(text_of(request.target)) matches Ok(target) && (
        target.kind is MergeProposal || target.kind is MergeProposalId),
    ensures
        executed(request, base, replies) matches Err(action) ==> action !is Fail ==> {
            &&& replies.len() == 0 ==> action == (ActionView::Proposal {
                target: text_of(request.target),
            })
            &&& replies.len() <= 1
            &&& replies.len() == 1 ==> (action matches ActionView::Post { url, pairs } && {
                &&& replies[0] matches Reply::Json(proposal) && is_own_url(url, proposal@)
                &&& sends(pairs, "ws.op"@, "createComment"@)
                &&& sends(pairs, "content"@, text_of(request.body))
                &&& sends_option(pairs, "subject"@, option_of(request.subject))
                &&& sends_option(pairs, "vote"@, option_of(request.vote))
            })
        },
        executed(request, base, replies) matches Ok(result) ==> {
            &&& replies.len() > 1 && replies[1] is Done
            &&& executed(request, base, replies.take(1)) matches Err(ActionView::Post { .. })
            &&& JsonView::Object(result.details).text("kind"@) == Some("branch_merge_proposal"@)
        },
{
    reveal_strlit("ws.op");
    reveal_strlit("content");
    reveal_strlit("subject");
    reveal_strlit("vote");
    assert("ws.op"@.len() == 5 && "content"@.len() == 7 && "subject"@.len() == 7
        && "vote"@.len() == 4);
    assert("content"@[0] == 'c');
    assert("subject"@[0] == 's');
    let pairs = with_value(
        with_value(
            Seq::empty().push(("ws.op"@, "createComment"@)).push(
                ("content"@, text_of(request.body)),
            ),
            "subject"@,
            option_of(request.subject),
        ),
        "vote"@,
        option_of(request.vote),
    );
    assert(pairs[0].0 == "ws.op"@ && pairs[1].0 == "content"@);
    if request.subject is Some {
        assert(pairs[2].0 == "subject"@);
    }
    if request.vote is Some {
        assert(pairs.last().0 == "vote"@);
        assert(pairs[pairs.len() - 1].0 == "vote"@);
    }
    if let Ok(result) = executed(request, base, replies) {
        lemma_member_at(result.details, 0);
    }
}

/// The status of a merge proposal is set to the one of the request, on the proposal that the
/// request names, and reported only once that was answered.
pub proof fn lemma_status_is_set(request: Request, base: Seq<char>, replies: Seq<Reply>)
    requires
        request.op == Operation::SetMergeProposalStatus,
    ensures
        executed(request, base, replies) matches Err(action) ==> action !is Fail ==> {
            &&& replies.len() == 0 ==> action == (ActionView::Proposal {
                target: text_of(request.target),
            })
            &&& replies.len() <= 1
            &&& replies.len() == 1 ==> (action matches ActionView::Post { url, pairs } && {
                &&& replies[0] matches Reply::Json(proposal) && is_own_url(url, proposal@)
                &&& sends(pairs, "ws.op"@, "setStatus"@)
                &&& request.status matches Some(OneOrMany::One(status)) && sends(
                    pairs,
                    "status"@,
                    status@,
                )
            })
        },
        executed(request, base, replies) matches Ok(result) ==> {
            &&& replies.len() > 1 && replies[1] is Done
            &&& executed(request, base, replies.take(1)) matches Err(ActionView::Post { .. })
            &&& request.status matches Some(OneOrMany::One(status)) && JsonView::Object(
                result.details,
            ).text("status"@) == Some(status@)
        },
{
    reveal_strlit("ws.op");
    reveal_strlit("status");
    assert("ws.op"@.len() == 5 && "status"@.len() == 6);
    if let Err(ActionView::Post { url, pairs }) = executed(request, base, replies) {
        assert(pairs[0].0 == "ws.op"@ && pairs[1].0 == "status"@);
    }
    if let Ok(result) = executed(request, base, replies) {
        lemma_member_at(result.details, 0);
    }
}

proof fn lemma_with_values(
    before: Seq<(Seq<char>, Seq<char>)>,
    name: Seq<char>,
    values: Option<Seq<Seq<char>>>,
    listed: Seq<Seq<char>>,
)
    requires
        sends_no(before, name),
        listed =~= (match values {
            Some(values) => values,
            None => Seq::empty(),
        }),
    ensures
        ({
            let after = with_values(before, name, values);
            &&& sends_list_at(after, name, listed, before.len() as int)
            &&& after.len() == before.len() + listed.len()
            &&& forall|i: int| 0 <= i < before.len() ==> #[trigger] after[i] == before[i]
            &&& forall|i: int| before.len() <= i < after.len() ==> (#[trigger] after[i]).0 == name
        }),
{
}

pub(crate) proof fn lemma_filter_texts(filter: Option<OneOrMany>)
    ensures
        filtered(filter) =~= (match crate::request::filter_values(filter) {
            Some(values) => values,
            None => Seq::empty(),
        }),
{
    if let Some(values) = filter {
        assert(filtered(filter) =~= values.texts());
    }
}

/// Whether a form is the same up to an index and then has another name only.
spec fn extends(
    after: Seq<(Seq<char>, Seq<char>)>,
    before: Seq<(Seq<char>, Seq<char>)>,
    name: Seq<char>,
) -> bool {
    &&& before.len() <= after.len()
    &&& forall|i: int| 0 <= i < before.len() ==> #[trigger] after[i] == before[i]
    &&& forall|i: int| before.len() <= i < after.len() ==> (#[trigger] after[i]).0 == name
}

proof fn lemma_extended(
    after: Seq<(Seq<char>, Seq<char>)>,
    before: Seq<(Seq<char>, Seq<char>)>,
    name: Seq<char>,
    other: Seq<char>,
    value: Seq<char>,
    values: Seq<Seq<char>>,
    from: int,
)
    requires
        extends(after, before, name),
        other != name,
    ensures
        sends(before, other, value) ==> sends(after, other, value),
        sends_no(before, other) ==> sends_no(after, other),
        sends_list_at(before, other, values, from) ==> sends_list_at(after, other, values, from),
{
    if sends(before, other, value) {
        let i = choose|i: int| 0 <= i < before.len() && (#[trigger] before[i]).0 == other;
        assert(after[i].0 == other);
        assert forall|i: int| 0 <= i < after.len() && (#[trigger] after[i]).0 == other implies after[i].1
            == value by {
            assert(i < before.len());
            assert(before[i].0 == other);
        }
    }
    if sends_no(before, other) {
        assert forall|i: int| 0 <= i < after.len() implies (#[trigger] after[i]).0 != other by {
            if i < before.len() {
                assert(before[i].0 != other);
            }
        }
    }
    if sends_list_at(before, other, values, from) {
        assert forall|i: int| 0 <= i < values.len() implies #[trigger] after[from + i] == (
            other,
            values[i],
        ) by {
            assert(before[from + i] == (other, values[i]));
        }
        assert forall|i: int| 0 <= i < after.len() && (#[trigger] after[i]).0 == other implies from <= i
            < from + values.len() by {
            assert(i < before.len());
            assert(before[i].0 == other);
        }
    }
}

/// A search for bugs asks the target of the request for the tasks with the text, the statuses, the
/// importances and the tags of the request, as many as the limit of the request, and reports how
/// many were found.
#[verifier::rlimit(80)]
pub proof fn lemma_bug_search_asks(request: Request, base: Seq<char>, replies: Seq<Reply>)
    requires
        request.op == Operation::SearchBugs,
        base.len() > 0 && base.last() != '/',
        text_of(request.target).len() > 0 && text_of(request.target)[0] != '/',
    ensures
        executed(request, base, replies) matches Err(action) ==> action !is Fail ==> {
            &&& replies.len() == 0
            &&& action matches ActionView::GetSome { place: PlaceView::Query(query), limit } && {
                &&& query.base == base + "/"@ + text_of(request.target)
                &&& request.limit matches Some(own) ==> limit == own
                &&& request.limit is None ==> limit == 10
                &&& sends(query.pairs, "ws.op"@, "searchTasks"@)
                &&& sends(query.pairs, "ws.size"@, decimal(limit as nat))
                &&& sends_option(query.pairs, "search_text"@, option_of(request.query))
                &&& sends_list(query.pairs, "status"@, filtered(request.status))
                &&& sends_list(query.pairs, "importance"@, filtered(request.importance))
                &&& sends_list(query.pairs, "tags"@, listed(request.tags))
            }
        },
        executed(request, base, replies) matches Ok(result) ==> {
            &&& replies.len() > 0 && (replies[0] matches Reply::Entries(tasks) && JsonView::Object(
                result.details,
            ).unsigned("count"@) == Some(tasks@.len() as u64))
            &&& JsonView::Object(result.details).text("target"@) == Some(text_of(request.target))
        },
{
    reveal_strlit("ws.op");
    reveal_strlit("omit_duplicates");
    reveal_strlit("ws.size");
    reveal_strlit("status");
    reveal_strlit("importance");
    reveal_strlit("search_text");
    reveal_strlit("tags");
    assert("ws.op"@.len() == 5 && "omit_duplicates"@.len() == 15 && "ws.size"@.len() == 7
        && "status"@.len() == 6 && "importance"@.len() == 10 && "search_text"@.len() == 11
        && "tags"@.len() == 4);
    reveal_strlit("count");
    reveal_strlit("target");
    assert("count"@.len() == 5 && "target"@.len() == 6);
    lemma_service_url(base, text_of(request.target));
    let limit = crate::request::request_limit(request);
    let start = Seq::empty().push(("ws.op"@, "searchTasks"@)).push(("omit_duplicates"@, "true"@)).push(
        ("ws.size"@, decimal(limit as nat)),
    );
    assert(start[0].0 == "ws.op"@ && start[1].0 == "omit_duplicates"@ && start[2].0 == "ws.size"@);
    lemma_filter_texts(request.status);
    lemma_filter_texts(request.importance);
    let statuses = crate::request::filter_values(request.status);
    let importances = crate::request::filter_values(request.importance);
    let one = with_values(start, "status"@, statuses);
    lemma_with_values(start, "status"@, statuses, filtered(request.status));
    assert(sends_no(one, "importance"@));
    let two = with_values(one, "importance"@, importances);
    lemma_with_values(one, "importance"@, importances, filtered(request.importance));
    let three = match request.query {
        Some(text) => two.push(("search_text"@, text@)),
        None => two,
    };
    assert(sends_no(two, "search_text"@));
    if request.query is Some {
        assert(three[two.len() as int].0 == "search_text"@);
    }
    assert(sends_option(three, "search_text"@, option_of(request.query)));
    assert(sends_no(three, "tags"@));
    let tags = crate::inspecting::tag_values(request);
    let four = with_values(three, "tags"@, tags);
    lemma_with_values(three, "tags"@, tags, listed(request.tags));
    assert(four == bug_search_pairs(request));
    lemma_carried(one, two, three, four, start, request);
    if let Ok(result) = executed(request, base, replies) {
        lemma_member_at(result.details, 0);
        lemma_member_at(result.details, 1);
    }
}

proof fn lemma_carried(
    one: Seq<(Seq<char>, Seq<char>)>,
    two: Seq<(Seq<char>, Seq<char>)>,
    three: Seq<(Seq<char>, Seq<char>)>,
    four: Seq<(Seq<char>, Seq<char>)>,
    start: Seq<(Seq<char>, Seq<char>)>,
    request: Request,
)
    requires
        extends(one, start, "status"@),
        extends(two, one, "importance"@),
        extends(three, two, "search_text"@),
        extends(four, three, "tags"@),
        sends(start, "ws.op"@, "searchTasks"@),
        sends(
            start,
            "ws.size"@,
            decimal(crate::request::request_limit(request) as nat),
        ),
        sends_list_at(one, "status"@, filtered(request.status), start.len() as int),
        sends_list_at(two, "importance"@, filtered(request.importance), one.len() as int),
        sends_option(three, "search_text"@, option_of(request.query)),
        sends_list_at(four, "tags"@, listed(request.tags), three.len() as int),
    ensures
        sends(four, "ws.op"@, "searchTasks"@),
        sends(
            four,
            "ws.size"@,
            decimal(crate::request::request_limit(request) as nat),
        ),
        sends_list(four, "status"@, filtered(request.status)),
        sends_list(four, "importance"@, filtered(request.importance)),
        sends_option(four, "search_text"@, option_of(request.query)),
        sends_list(four, "tags"@, listed(request.tags)),
{
    reveal_strlit("ws.op");
    reveal_strlit("omit_duplicates");
    reveal_strlit("ws.size");
    reveal_strlit("status");
    reveal_strlit("importance");
    reveal_strlit("search_text");
    reveal_strlit("tags");
    assert("ws.op"@.len() == 5 && "omit_duplicates"@.len() == 15 && "ws.size"@.len() == 7
        && "status"@.len() == 6 && "importance"@.len() == 10 && "search_text"@.len() == 11
        && "tags"@.len() == 4);
    let size = decimal(crate::request::request_limit(request) as nat);
    let none = Seq::empty();
    let text = text_of(request.query);
    lemma_extended(one, start, "status"@, "ws.op"@, "searchTasks"@, none, 0);
    lemma_extended(two, one, "importance"@, "ws.op"@, "searchTasks"@, none, 0);
    lemma_extended(three, two, "search_text"@, "ws.op"@, "searchTasks"@, none, 0);
    lemma_extended(four, three, "tags"@, "ws.op"@, "searchTasks"@, none, 0);
    lemma_extended(one, start, "status"@, "ws.size"@, size, none, 0);
    lemma_extended(two, one, "importance"@, "ws.size"@, size, none, 0);
    lemma_extended(three, two, "search_text"@, "ws.size"@, size, none, 0);
    lemma_extended(four, three, "tags"@, "ws.size"@, size, none, 0);
    let statuses = filtered(request.status);
    lemma_extended(two, one, "importance"@, "status"@, text, statuses, start.len() as int);
    lemma_extended(three, two, "search_text"@, "status"@, text, statuses, start.len() as int);
    lemma_extended(four, three, "tags"@, "status"@, text, statuses, start.len() as int);
    let importances = filtered(request.importance);
    lemma_extended(three, two, "search_text"@, "importance"@, text, importances, one.len() as int);
    lemma_extended(four, three, "tags"@, "importance"@, text, importances, one.len() as int);
    lemma_extended(four, three, "tags"@, "search_text"@, text, none, 0);
}

/// A search for merge proposals asks the repository of the request for one more than the limit,
/// with the statuses of the request. It reports no more than the limit, and that there are more
/// exactly where there were.
#[verifier::rlimit(80)]
pub proof fn lemma_proposal_search_asks(request: Request, base: Seq<char>, replies: Seq<Reply>)
    requires
        request.op == Operation::SearchMergeProposals,
    ensures
        executed(request, base, replies) matches Err(action) ==> action !is Fail ==> {
            &&& replies.len() == 0 ==> (repository_lookup_url(
                base,
                normalised_repository(text_of(request.repository))->Ok_0,
            ) matches Ok(url) && action == get(url))
            &&& replies.len() <= 1
            &&& replies.len() == 1 ==> (replies[0] matches Reply::Json(repository) && {
                &&& action matches ActionView::GetSome { place: PlaceView::Query(query), limit } && {
                    &&& repository@.text("self_link"@) == Some(query.base)
                    &&& limit == (match request.limit {
                        Some(own) => own,
                        None => 10,
                    }) + 1
                    &&& sends(query.pairs, "ws.op"@, "getMergeProposals"@)
                    &&& sends(query.pairs, "ws.size"@, decimal(limit as nat))
                    &&& sends_list(query.pairs, "status"@, filtered(request.status))
                }
            })
        },
        executed(request, base, replies) matches Ok(result) ==> {
            let details = JsonView::Object(result.details);
            let limit = match request.limit {
                Some(own) => own,
                None => 10,
            };
            &&& replies.len() > 1 && (replies[1] matches Reply::Entries(found) && {
                &&& details.unsigned("count"@) == Some(
                    if found@.len() > limit {
                        limit as u64
                    } else {
                        found@.len() as u64
                    },
                )
                &&& details.flag("truncated"@) == Some(found@.len() > limit)
            })
            &&& details.unsigned("limit"@) == (match request.limit {
                Some(own) => Some(own as u64),
                None => None,
            })
            &&& replies[0] matches Reply::Json(repository) && details.text("repository"@)
                == repository@.text("unique_name"@)
        },
{
    reveal_strlit("ws.op");
    reveal_strlit("ws.size");
    reveal_strlit("status");
    assert("ws.op"@.len() == 5 && "ws.size"@.len() == 7 && "status"@.len() == 6);    
    reveal_strlit("count");
    reveal_strlit("limit");
    reveal_strlit("truncated");
    reveal_strlit("repository");
    assert("count"@.len() == 5 && "limit"@.len() == 5 && "truncated"@.len() == 9
        && "repository"@.len() == 10);
    assert("count"@[0] == 'c');
    assert("limit"@[0] == 'l');
    let limit = crate::request::request_limit(request);
    if crate::request::validated(request) is Ok {
        crate::request::lemma_valid_limit(request);
    }
    let start = Seq::empty().push(("ws.op"@, "getMergeProposals"@)).push(
        ("ws.size"@, decimal(limit as nat + 1)),
    );
    assert(start[0].0 == "ws.op"@ && start[1].0 == "ws.size"@);
    lemma_filter_texts(request.status);
    let statuses = crate::request::filter_values(request.status);
    let one = with_values(start, "status"@, statuses);
    lemma_with_values(start, "status"@, statuses, filtered(request.status));
    assert(one == proposal_search_pairs(request));
    assert(sends_list_at(one, "status"@, filtered(request.status), start.len() as int));
    lemma_extended(one, start, "status"@, "ws.op"@, "getMergeProposals"@, Seq::empty(), 0);
    lemma_extended(one, start, "status"@, "ws.size"@, decimal(limit as nat + 1), Seq::empty(), 0);
    if let Ok(result) = executed(request, base, replies) {
        lemma_member_at(result.details, 0);
        lemma_member_at(result.details, 1);
        lemma_member_at(result.details, 2);
        lemma_member_at(result.details, 3);
        if let Reply::Entries(found) = replies[1] {
            assert(crate::json::items_view(found@).len() == found@.len());
        }
    }
}

} // verus!
