//! The operations of the bridge, by request.
use vstd::prelude::*;
use crate::branches::{
    branch_view, current_view, lookup_action, selector_at, selector_steps,
    view_current_merge_proposal, view_merge_proposal_for_branch,
};
use crate::conversation::{
    discussion_at, discussion_view, lookup_object, names_target, snapshots_at,
    view_merge_proposal_discussion,
};
use crate::creating::{
    add_comment, bug_creation, comment_addition, create_bug, create_merge_proposal, merge_creation,
    set_merge_proposal_status, status_change,
};
use crate::discussion::{current_at, diffs_at, filters_of, general_at, FiltersView};
use crate::error::{Error, ErrorView};
use crate::files::{file_view, read_repository_file};
use crate::inspecting::{
    bug_search, diff_line_view, inline_comments_view, map_diff_line, preview_diffs_view,
    proposal_at, proposal_search, repository_view, review_drafts_view, search_bugs,
    search_merge_proposals, view_inline_comments, view_preview_diffs, view_repository,
    view_review_drafts,
};
use crate::json::JsonView;
use crate::local_git::{checkout_merge_proposal, checkout_proposal_view, push_view};
use crate::people::PeopleView;
use crate::request::{lemma_valid_limit, validated, Operation, Request};
use crate::response::{OperationResult, ResultView};
use crate::reviewing::{draft_update, submission, submit_review, update_review_draft};
use crate::steps::{fail, lookup_at, result_step, Action, ActionView, LookupView, Reply};
use crate::viewing::{resource_view, view_resource};

verus! {

/// Whether an operation works without the web service.
pub open spec fn is_local(op: Operation) -> bool {
    op == Operation::FileRead || op == Operation::MergeProposalPush
}

/// Which access to the web service a request needs: none, or one that may have to be
/// authenticated.
pub open spec fn connection(request: Request) -> Result<Option<bool>, ErrorView> {
    match validated(request) {
        Err(error) => Err(error),
        Ok(_) => if is_local(request.op) {
            Ok(None)
        } else {
            Ok(Some(crate::request::needs_authentication(request.op)))
        },
    }
}

/// Which access to the web service a request needs: none, or one that may have to be
/// authenticated. A request that is not valid is refused before anything is loaded.
pub fn required_connection(request: &Request) -> (r: Result<Option<bool>, Error>)
    ensures
        (r matches Ok(needed) ==> connection(*request) == Ok::<Option<bool>, ErrorView>(needed)),
        r matches Err(error) ==> connection(*request) == Err::<Option<bool>, ErrorView>(error@),
{
    request.validate()?;
    if request.op == Operation::FileRead || request.op == Operation::MergeProposalPush {
        return Ok(None);
    }
    Ok(Some(request.op.requires_authentication()))
}

/// The operation of a valid request.
pub open spec fn operated(request: Request, base: Seq<char>, replies: Seq<Reply>) -> Result<
    ResultView,
    ActionView,
> {
    match request.op {
        Operation::ResourceView => resource_view(request, base, replies),
        Operation::RepoView => repository_view(request, base, replies),
        Operation::FileRead => file_view(request, replies),
        Operation::SearchBugs => bug_search(request, base, replies),
        Operation::SearchMergeProposals => proposal_search(request, base, replies),
        Operation::MergeProposalForBranch => branch_view(request, replies),
        Operation::CurrentMergeProposal => current_view(request, replies),
        Operation::MergeProposalDiscussion => discussion_view(request, replies),
        Operation::PreviewDiffs => preview_diffs_view(request, replies),
        Operation::InlineComments => inline_comments_view(request, replies),
        Operation::ReviewDrafts => review_drafts_view(request, replies),
        Operation::DiffLineMap => diff_line_view(request, replies),
        Operation::BugCreate => bug_creation(request, base, replies),
        Operation::MergeProposalCreate => merge_creation(request, base, replies),
        Operation::Comment => comment_addition(request, base, replies),
        Operation::ReviewDraftUpdate => draft_update(request, replies),
        Operation::ReviewSubmit => submission(request, replies),
        Operation::SetMergeProposalStatus => status_change(request, replies),
        Operation::MergeProposalCheckout => checkout_proposal_view(request, replies),
        Operation::MergeProposalPush => push_view(request, replies),
    }
}

/// A request is refused where it is not valid, and otherwise its operation is carried out.
pub open spec fn executed(request: Request, base: Seq<char>, replies: Seq<Reply>) -> Result<
    ResultView,
    ActionView,
> {
    match validated(request) {
        Err(error) => Err(fail(error)),
        Ok(_) => operated(request, base, replies),
    }
}

/// Carries a request out against the web service at a base URL, as far as the answers go.
pub fn execute(request: &Request, base: &str, replies: &Vec<Reply>) -> (r: Result<
    OperationResult,
    Action,
>)
    ensures
        result_step(r) == executed(*request, base@, replies@),
{
    if let Err(error) = request.validate() {
        return Err(Action::Fail { error });
    }
    proof {
        lemma_valid_limit(*request);
    }
    match request.op {
        Operation::ResourceView => view_resource(request, base, replies),
        Operation::RepoView => view_repository(request, base, replies),
        Operation::FileRead => read_repository_file(request, replies),
        Operation::SearchBugs => search_bugs(request, base, replies),
        Operation::SearchMergeProposals => search_merge_proposals(request, base, replies),
        Operation::MergeProposalForBranch => view_merge_proposal_for_branch(request, replies),
        Operation::CurrentMergeProposal => view_current_merge_proposal(request, replies),
        Operation::MergeProposalDiscussion => view_merge_proposal_discussion(request, replies),
        Operation::PreviewDiffs => view_preview_diffs(request, replies),
        Operation::InlineComments => view_inline_comments(request, replies),
        Operation::ReviewDrafts => view_review_drafts(request, replies),
        Operation::DiffLineMap => map_diff_line(request, replies),
        Operation::BugCreate => create_bug(request, base, replies),
        Operation::MergeProposalCreate => create_merge_proposal(request, base, replies),
        Operation::Comment => add_comment(request, base, replies),
        Operation::ReviewDraftUpdate => update_review_draft(request, replies),
        Operation::ReviewSubmit => submit_review(request, replies),
        Operation::SetMergeProposalStatus => set_merge_proposal_status(request, replies),
        Operation::MergeProposalCheckout => checkout_merge_proposal(request, replies),
        Operation::MergeProposalPush => crate::local_git::push(request, replies),
    }
}

/// A request that is not valid is refused before anything is asked for.
pub proof fn lemma_invalid_request_refused(request: Request, base: Seq<char>, replies: Seq<Reply>)
    requires
        validated(request) is Err,
    ensures
        connection(request) == Err::<Option<bool>, ErrorView>(validated(request)->Err_0),
        executed(request, base, replies) == Err::<ResultView, ActionView>(
            fail(validated(request)->Err_0),
        ),
{
}

/// A request that needs no connection does not depend on where the web service is.
pub proof fn lemma_local_request(request: Request, base: Seq<char>, other: Seq<char>, replies: Seq<Reply>)
    requires
        connection(request) == Ok::<Option<bool>, ErrorView>(None),
    ensures
        executed(request, base, replies) == executed(request, other, replies),
{
}

/// Whether an action changes something: on Launchpad, or in the file system.
pub open spec fn changes(action: ActionView) -> bool {
    action is Post || action is Create || action is Remove
}

/// Whether an operation is one that changes something.
pub open spec fn is_write(op: Operation) -> bool {
    ||| op == Operation::BugCreate
    ||| op == Operation::MergeProposalCreate
    ||| op == Operation::Comment
    ||| op == Operation::ReviewDraftUpdate
    ||| op == Operation::ReviewSubmit
    ||| op == Operation::SetMergeProposalStatus
    ||| op == Operation::MergeProposalCheckout
    ||| op == Operation::MergeProposalPush
}

/// Whether a step, where it asks for something, asks for nothing that changes anything.
pub open spec fn only_reads<T>(step: Result<T, ActionView>) -> bool {
    step matches Err(action) ==> !changes(action) && action !is Git
}

/// An operation that only reads changes nothing on Launchpad or in the file system, and runs
/// no command.
pub proof fn lemma_reads_change_nothing(request: Request, base: Seq<char>, replies: Seq<Reply>)
    requires
        !is_write(request.op),
    ensures
        only_reads(executed(request, base, replies)),
{
    match request.op {
        Operation::ResourceView => lemma_resource_view_reads(request, base, replies),
        Operation::RepoView => lemma_repository_view_reads(request, base, replies),
        Operation::FileRead => lemma_file_view_reads(request, replies),
        Operation::SearchBugs => lemma_bug_search_reads(request, base, replies),
        Operation::SearchMergeProposals => lemma_proposal_search_reads(request, base, replies),
        Operation::MergeProposalForBranch => lemma_branch_view_reads(request, replies),
        Operation::CurrentMergeProposal => lemma_current_view_reads(request, replies),
        Operation::MergeProposalDiscussion => lemma_discussion_view_reads(request, replies),
        Operation::PreviewDiffs => lemma_preview_diffs_view_reads(request, replies),
        Operation::InlineComments => lemma_inline_comments_view_reads(request, replies),
        Operation::ReviewDrafts => lemma_review_drafts_view_reads(request, replies),
        Operation::DiffLineMap => lemma_diff_line_view_reads(request, replies),
        _ => {},
    }
}

proof fn lemma_resource_view_reads(request: Request, base: Seq<char>, replies: Seq<Reply>)
    ensures
        only_reads(resource_view(request, base, replies)),
{
}

proof fn lemma_repository_view_reads(request: Request, base: Seq<char>, replies: Seq<Reply>)
    ensures
        only_reads(repository_view(request, base, replies)),
{
}

proof fn lemma_file_view_reads(request: Request, replies: Seq<Reply>)
    ensures
        only_reads(file_view(request, replies)),
{
}

proof fn lemma_bug_search_reads(request: Request, base: Seq<char>, replies: Seq<Reply>)
    ensures
        only_reads(bug_search(request, base, replies)),
{
}

proof fn lemma_proposal_search_reads(request: Request, base: Seq<char>, replies: Seq<Reply>)
    ensures
        only_reads(proposal_search(request, base, replies)),
{
}

proof fn lemma_branch_view_reads(request: Request, replies: Seq<Reply>)
    ensures
        only_reads(branch_view(request, replies)),
{
}

proof fn lemma_current_view_reads(request: Request, replies: Seq<Reply>)
    ensures
        only_reads(current_view(request, replies)),
{
}

proof fn lemma_diffs_read(
    proposal: JsonView,
    preview_diffs: Seq<JsonView>,
    current_id: Option<u64>,
    filters: FiltersView,
    people: PeopleView,
    replies: Seq<Reply>,
    at: int,
)
    ensures
        only_reads(diffs_at(proposal, preview_diffs, current_id, filters, people, replies, at)),
    decreases preview_diffs.len(),
{
    if preview_diffs.len() > 0 {
        lemma_diffs_read(
            proposal,
            preview_diffs.drop_last(),
            current_id,
            filters,
            people,
            replies,
            at,
        );
    }
}

proof fn lemma_discussion_reads(
    request: Request,
    proposal: JsonView,
    lookup: Option<JsonView>,
    reason: Seq<char>,
    replies: Seq<Reply>,
    at: int,
)
    ensures
        only_reads(discussion_at(request, proposal, lookup, reason, replies, at)),
{
    if let Ok(filters) = filters_of(request) {
        if let Ok((current_id, _, next)) = current_at(proposal, replies, at) {
            lemma_general_reads(proposal, filters, replies, next);
            if let Ok((_, people, next)) = general_at(proposal, filters, replies, next) {
                if let Ok((preview_diffs, next)) = snapshots_at(proposal, filters, replies, next) {
                    lemma_diffs_read(
                        proposal,
                        preview_diffs,
                        current_id,
                        filters,
                        people,
                        replies,
                        next,
                    );
                }
            }
        }
    }
}

proof fn lemma_general_reads(
    proposal: JsonView,
    filters: FiltersView,
    replies: Seq<Reply>,
    at: int,
)
    ensures
        only_reads(general_at(proposal, filters, replies, at)),
{
}

proof fn lemma_discussion_view_reads(request: Request, replies: Seq<Reply>)
    ensures
        only_reads(discussion_view(request, replies)),
{
    if names_target(request) {
        if let Ok(proposal) = proposal_at(request, replies, 0) {
            lemma_discussion_reads(
                request,
                proposal,
                None,
                "selected the explicitly requested merge proposal"@,
                replies,
                1,
            );
        }
    } else if let Ok(selector) = selector_at(request, replies) {
        let next = selector_steps(request);
        if let Ok(lookup) = lookup_at(replies, next, lookup_action(selector)) {
            if let LookupView::Found { proposal, reason, .. } = lookup {
                lemma_discussion_reads(
                    request,
                    proposal,
                    Some(lookup_object(request, selector, lookup)),
                    reason,
                    replies,
                    next + 1,
                );
            }
        }
    }
}

proof fn lemma_preview_diffs_view_reads(request: Request, replies: Seq<Reply>)
    ensures
        only_reads(preview_diffs_view(request, replies)),
{
}

proof fn lemma_inline_comments_view_reads(request: Request, replies: Seq<Reply>)
    ensures
        only_reads(inline_comments_view(request, replies)),
{
}

proof fn lemma_review_drafts_view_reads(request: Request, replies: Seq<Reply>)
    ensures
        only_reads(review_drafts_view(request, replies)),
{
}

proof fn lemma_diff_line_view_reads(request: Request, replies: Seq<Reply>)
    ensures
        only_reads(diff_line_view(request, replies)),
{
}

/// Nothing is sent to Launchpad but by an operation that needs authentication.
pub proof fn lemma_sending_needs_authentication(
    request: Request,
    base: Seq<char>,
    replies: Seq<Reply>,
)
    ensures
        executed(request, base, replies) matches Err(action) ==> action is Post || action is Create
            ==> connection(request) == Ok::<Option<bool>, ErrorView>(Some(true)),
{
    if !is_write(request.op) {
        lemma_reads_change_nothing(request, base, replies);
    } else if request.op == Operation::MergeProposalCheckout {
        lemma_checkout_sends_nothing(request, replies);
    }
}

proof fn lemma_checkout_sends_nothing(request: Request, replies: Seq<Reply>)
    ensures
        checkout_proposal_view(request, replies) matches Err(action) ==> action !is Post
            && action !is Create,
{
}

} // verus!
