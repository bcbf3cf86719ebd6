//! That the text of a result is that of what was answered.
use vstd::prelude::*;
use crate::conversation::{discussion_at, ordered_threads, snapshots_at};
use crate::discussion::{current_at, diffs_at, filters_of, general_at};
use crate::json::{items_view, JsonView};
use crate::launchpad::executed;
use crate::laws::sending::{option_of, text_of};
use crate::laws::terms::lemma_member_at;
use crate::render::{bug_document, generic_document, proposal_document, repository_document};
use crate::report::{
    bug_search_document, diff_location_document, discussion_document, inline_comments_document,
    preview_diffs_document, proposal_lookup_document, proposal_search_document,
    review_drafts_document, DiscussionSections,
};
use crate::request::{request_preview_diff, DiscussionComments, Operation, Request};
use crate::steps::{LookupView, Reply};
use crate::target::TargetView;
use crate::viewing::{proposal_view, target_view};

verus! {

/// The entries of an answer, none where it has none.
pub open spec fn entries_of(reply: Reply) -> Seq<JsonView> {
    match reply {
        Reply::Entries(entries) => items_view(entries@),
        _ => Seq::empty(),
    }
}

/// A resource that is viewed is shown as it was answered: a bug with its tasks and as many comments
/// as were asked for, a repository and anything else as it is.
pub proof fn lemma_viewed_resource_is_shown(
    target: TargetView,
    raw: Seq<char>,
    base: Seq<char>,
    replies: Seq<Reply>,
)
    ensures
        target_view(target, raw, base, replies) matches Ok(result) ==> (
        replies[0] matches Reply::Json(resource) && {
            let said = JsonView::Object(result.details);
            &&& target.kind is Bug ==> result.text == bug_document(
                resource@,
                entries_of(replies[1]),
                if target.include_comments {
                    entries_of(replies[2])
                } else {
                    Seq::empty()
                },
                target.include_comments,
                target.comment_limit as nat,
            )
            &&& target.kind is Repository ==> {
                &&& result.text == repository_document(resource@)
                &&& said.text("kind"@) == Some("git_repository"@)
                &&& said.text("target"@) == Some(target.path)
                &&& result.source_url == resource@.text("web_link"@)
            }
            &&& target.kind is Generic ==> {
                &&& result.text == generic_document(resource@)
                &&& said.text("target"@) == Some(target.path)
                &&& result.source_url == resource@.text("web_link"@)
            }
            &&& target.kind is MergeProposal || target.kind is MergeProposalId ==> proposal_view(
                target,
                resource@,
                replies,
            ) == Ok::<crate::response::ResultView, crate::steps::ActionView>(result)
        }),
{
    reveal_strlit("kind");
    reveal_strlit("target");
    assert("kind"@.len() == 4 && "target"@.len() == 6);
    if let Ok(result) = target_view(target, raw, base, replies) {
        if target.kind is Repository || target.kind is Generic {
            lemma_member_at(result.details, 0);
            lemma_member_at(result.details, 1);
        }
    }
}

/// A merge proposal that is viewed without its diff is shown with as many of its comments as were
/// asked for and with its votes, and reported with its repositories.
pub proof fn lemma_viewed_proposal_is_shown(
    target: TargetView,
    proposal: JsonView,
    replies: Seq<Reply>,
)
    requires
        !target.diff,
    ensures
        proposal_view(target, proposal, replies) matches Ok(result) ==> {
            let next: int = if target.include_comments {
                2
            } else {
                1
            };
            &&& result.text == proposal_document(
                proposal,
                if target.include_comments {
                    entries_of(replies[1])
                } else {
                    Seq::empty()
                },
                entries_of(replies[next]),
                target.include_comments,
                target.comment_limit as nat,
                1,
            )
            &&& replies[next + 1] matches Reply::Json(source)
                && replies[next + 2] matches Reply::Json(own) && JsonView::Object(result.details)
                == crate::details::proposal_object(proposal, source@, own@)
        },
{
}

/// A repository that is viewed is shown as it was answered.
pub proof fn lemma_viewed_repository_is_shown(request: Request, base: Seq<char>, replies: Seq<Reply>)
    requires
        request.op == Operation::RepoView,
    ensures
        executed(request, base, replies) matches Ok(result) ==> (
        replies[0] matches Reply::Json(repository) && {
            &&& result.text == repository_document(repository@)
            &&& result.source_url == repository@.text("web_link"@)
            &&& JsonView::Object(result.details).text("kind"@) == Some("git_repository"@)
        }),
        executed(request, base, replies) matches Err(action) ==> action !is Fail ==> {
            &&& replies.len() == 0
            &&& crate::repository::repository_lookup_url(base, text_of(request.repository)) matches Ok(
                url,
            ) && action == crate::steps::get(url)
        },
{
    if let Ok(result) = executed(request, base, replies) {
        lemma_member_at(result.details, 0);
    }
}

/// The results of a search are shown as they were answered, merge proposals up to the limit.
pub proof fn lemma_found_results_are_shown(request: Request, base: Seq<char>, replies: Seq<Reply>)
    ensures
        request.op == Operation::SearchBugs ==> (executed(request, base, replies) matches Ok(result)
            ==> result.text == bug_search_document(
            text_of(request.target),
            option_of(request.query),
            entries_of(replies[0]),
        )),
        request.op == Operation::SearchMergeProposals ==> (executed(
            request,
            base,
            replies,
        ) matches Ok(result) ==> {
            let limit: int = match request.limit {
                Some(limit) => limit as int,
                None => 10,
            };
            let found = entries_of(replies[1]);
            result.text == proposal_search_document(
                if found.len() > limit {
                    found.take(limit)
                } else {
                    found
                },
                request.limit,
                found.len() > limit,
            )
        }),
{
}

/// The snapshots of a merge proposal, their comments and their drafts, and the place of a line, are
/// shown as they were answered, under the number of the proposal.
pub proof fn lemma_snapshot_texts(request: Request, base: Seq<char>, replies: Seq<Reply>)
    ensures
        request.op == Operation::PreviewDiffs ==> (executed(request, base, replies) matches Ok(result)
            ==> (replies[0] matches Reply::Json(proposal) && replies[2] matches Reply::Json(current)
            && result.text == preview_diffs_document(
            entries_of(replies[1]),
            current@.unsigned("id"@)->0,
            crate::fields::id_of(proposal@)->0,
        ) && result.source_url == proposal@.text("web_link"@))),
        request.op == Operation::InlineComments ==> (executed(request, base, replies) matches Ok(
            result,
        ) ==> (replies[0] matches Reply::Json(proposal) && replies[2] matches Reply::Json(comments)
            && result.text == inline_comments_document(
            comments@.items(),
            request_preview_diff(request)->Ok_0,
            crate::fields::id_of(proposal@)->0,
        ) && result.source_url == proposal@.text("web_link"@))),
        request.op == Operation::ReviewDrafts ==> (executed(request, base, replies) matches Ok(result)
            ==> (replies[0] matches Reply::Json(proposal) && replies[2] matches Reply::Json(drafts)
            && result.text == review_drafts_document(
            if drafts@ == JsonView::Null {
                JsonView::Object(Seq::empty())
            } else {
                drafts@
            },
            request_preview_diff(request)->Ok_0,
            crate::fields::id_of(proposal@)->0,
        ))),
        request.op == Operation::DiffLineMap ==> (executed(request, base, replies) matches Ok(result)
            ==> (replies[0] matches Reply::Json(proposal) && replies[2] matches Reply::Text(diff)
            && result.text == diff_location_document(
            crate::diff::file_line_location(
                diff@,
                text_of(request.path),
                request.side->0,
                request.file_line->0 as nat,
            )->0,
            request_preview_diff(request)->Ok_0,
            crate::fields::id_of(proposal@)->0,
        ))),
{
}

/// What was created is shown as it was answered.
pub proof fn lemma_created_is_shown(request: Request, base: Seq<char>, replies: Seq<Reply>)
    ensures
        request.op == Operation::BugCreate ==> (executed(request, base, replies) matches Ok(result)
            ==> (replies[1] matches Reply::Json(bug) && result.text
            == "# Created Launchpad bug\n\n"@ + bug_document(
            bug@,
            entries_of(replies[2]),
            Seq::empty(),
            false,
            1,
        ))),
        request.op == Operation::MergeProposalCreate ==> (executed(
            request,
            base,
            replies,
        ) matches Ok(result) ==> (replies[5] matches Reply::Json(proposal)
            && replies[6] matches Reply::Json(source) && replies[7] matches Reply::Json(target)
            && result.text == "# Created Launchpad merge proposal\n\n"@ + proposal_document(
            proposal@,
            Seq::empty(),
            Seq::empty(),
            false,
            1,
            1,
        ) && JsonView::Object(result.details) == crate::details::proposal_object(
            proposal@,
            source@,
            target@,
        ))),
{
}

/// A proposal that was found is shown with the others, and for which repository and branch and why
/// it was selected.
pub proof fn lemma_found_proposal_is_shown(
    request: Request,
    lookup: LookupView,
    details: JsonView,
    context: crate::branches::LookupContextView,
)
    requires
        lookup is Found,
        lookup->Found_repository.text("unique_name"@) is Some,
    ensures
        crate::branches::found_result(request, lookup, details, context).text
            == proposal_lookup_document(
            lookup->proposal,
            lookup->alternatives,
            lookup->Found_repository.text("unique_name"@)->0,
            crate::laws::creating::full_ref(context.branch),
            if context.inferred {
                "current Git checkout"@
            } else if lookup->related_repository {
                "related target repository"@
            } else {
                "explicit repository and branch"@
            },
            lookup->reason,
        ),
{
}

/// That there is no proposal is shown for the repository and branch.
pub proof fn lemma_missing_proposal_is_shown(
    request: Request,
    repository: Seq<char>,
    inspected: Seq<Seq<char>>,
    context: crate::branches::LookupContextView,
)
    ensures
        crate::branches::missing_result(request, repository, inspected, context).text
            == "# No merge proposal found for "@ + repository + ":"@ + crate::laws::creating::full_ref(
            context.branch,
        ),
{
}

/// The summary of a discussion is that of what was gathered, with the parts that were wanted.
pub proof fn lemma_discussion_text(
    request: Request,
    proposal: JsonView,
    lookup: Option<JsonView>,
    reason: Seq<char>,
    replies: Seq<Reply>,
    at: int,
)
    requires
        request.format is None,
    ensures
        discussion_at(request, proposal, lookup, reason, replies, at) matches Ok(result) ==> {
            let filters = filters_of(request)->Ok_0;
            let (current_id, stale, one) = current_at(proposal, replies, at)->Ok_0;
            let (activity, people, two) = general_at(proposal, filters, replies, one)->Ok_0;
            let (snapshots, three) = snapshots_at(proposal, filters, replies, two)->Ok_0;
            let (diffs, known, four) = diffs_at(
                proposal,
                snapshots,
                current_id,
                filters,
                people,
                replies,
                three,
            )->Ok_0;
            result.text == discussion_document(
                proposal,
                current_id,
                crate::summary::review_summary(
                    activity.comments,
                    activity.votes,
                    activity.requests,
                    ordered_threads(diffs),
                ),
                DiscussionSections {
                    general: request.comments != Some(DiscussionComments::Inline),
                    inline: request.comments != Some(DiscussionComments::General),
                    current_preview_diff_stale: stale,
                    identity_resolution_failures: known.failed.len() as usize,
                },
            )
        },
{
}

} // verus!
