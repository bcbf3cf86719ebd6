//! That operations come to their result: what their answers have to be for it.
use vstd::prelude::*;
use crate::error::ErrorView;
use crate::json::JsonView;
use crate::launchpad::executed;
use crate::laws::checkouts::succeeded;
use crate::laws::creating::{full_ref, links_ref};
use crate::laws::finding::is_match;
use crate::laws::sending::text_of;
use crate::lookup::branch_lookup;
use crate::repository::{normalised_repository, repository_lookup_url};
use crate::request::{request_preview_diff, validated, Operation, Request};
use crate::steps::{ActionView, Reply};
use crate::target::{parsed_target, TargetView};
use crate::text::is_blank;
use crate::viewing::target_view;
use crate::web::parsed_url;

verus! {

/// Whether an answer is a resource.
pub open spec fn is_resource(reply: Reply, value: JsonView) -> bool {
    reply matches Reply::Json(own) && own@ == value
}

/// What a step stops with, where it does, and otherwise a failure.
pub open spec fn next<T>(step: Result<T, ActionView>) -> ActionView {
    match step {
        Ok(_) => crate::steps::fail(ErrorView::HomeDirectory),
        Err(action) => action,
    }
}

/// Whether a resource has a link of its own that can be read.
pub open spec fn has_own_link(resource: JsonView) -> bool {
    resource.text("self_link"@) matches Some(link) && parsed_url(link) is Ok
}

/// A search for bugs comes to its result with the entries that it asks for.
pub proof fn lemma_bug_search_succeeds(request: Request, base: Seq<char>, replies: Seq<Reply>)
    requires
        request.op == Operation::SearchBugs,
        validated(request) is Ok,
        !is_blank(text_of(request.target)),
    ensures
        replies.len() == 0 ==> next(executed(request, base, replies)) is GetSome,
        replies.len() > 0 && replies[0] is Entries ==> executed(request, base, replies) is Ok,
{
}

/// A search for merge proposals comes to its result with the repository and the entries that it
/// asks for.
pub proof fn lemma_proposal_search_succeeds(
    request: Request,
    base: Seq<char>,
    replies: Seq<Reply>,
    repository: JsonView,
    path: Seq<char>,
)
    requires
        request.op == Operation::SearchMergeProposals,
        validated(request) is Ok,
        !is_blank(text_of(request.repository)),
        normalised_repository(text_of(request.repository)) == Ok::<Seq<char>, ErrorView>(path),
        normalised_repository(path) is Ok,
        repository.text("self_link"@) is Some,
    ensures
        replies.len() == 0 ==> next(executed(request, base, replies)) is Get,
        replies.len() == 1 && is_resource(replies[0], repository) ==> next(executed(
            request,
            base,
            replies,
        )) is GetSome,
        replies.len() == 2 && is_resource(replies[0], repository) && replies[1] is Entries
            ==> executed(request, base, replies) is Ok,
{
}

/// A comment is added with the answer that it was posted.
pub proof fn lemma_comment_succeeds(
    request: Request,
    base: Seq<char>,
    replies: Seq<Reply>,
    proposal: JsonView,
)
    requires
        request.op == Operation::Comment,
        validated(request) is Ok,
        !is_blank(text_of(request.target)) && !is_blank(text_of(request.body)),
        parsed_target(text_of(request.target)) is Ok,
        has_own_link(proposal),
    ensures
        parsed_target(text_of(request.target))->Ok_0.kind is Bug ==> {
            &&& replies.len() == 0 ==> next(executed(request, base, replies)) is Post
            &&& replies.len() == 1 && replies[0] is Done ==> executed(request, base, replies) is Ok
        },
        parsed_target(text_of(request.target))->Ok_0.kind is MergeProposal || parsed_target(
            text_of(request.target),
        )->Ok_0.kind is MergeProposalId ==> {
            &&& replies.len() == 0 ==> next(executed(request, base, replies)) is Proposal
            &&& replies.len() == 1 && is_resource(replies[0], proposal) ==> next(executed(
                request,
                base,
                replies,
            )) is Post
            &&& replies.len() == 2 && is_resource(replies[0], proposal) && replies[1] is Done
                ==> executed(request, base, replies) is Ok
        },
{
}

/// The status of a merge proposal is set with the answer that it was posted.
pub proof fn lemma_status_change_succeeds(
    request: Request,
    base: Seq<char>,
    replies: Seq<Reply>,
    proposal: JsonView,
)
    requires
        request.op == Operation::SetMergeProposalStatus,
        validated(request) is Ok,
        !is_blank(text_of(request.target)),
        has_own_link(proposal),
    ensures
        replies.len() == 0 ==> next(executed(request, base, replies)) is Proposal,
        replies.len() == 1 && is_resource(replies[0], proposal) ==> next(executed(
            request,
            base,
            replies,
        )) is Post,
        replies.len() == 2 && is_resource(replies[0], proposal) && replies[1] is Done ==> executed(
            request,
            base,
            replies,
        ) is Ok,
{
}

/// A bug is created with the answers where it is and what it is.
pub proof fn lemma_bug_creation_succeeds(
    request: Request,
    base: Seq<char>,
    replies: Seq<Reply>,
    bug: JsonView,
)
    requires
        request.op == Operation::BugCreate,
        validated(request) is Ok,
        !is_blank(text_of(request.target)) && !is_blank(text_of(request.title)) && !is_blank(
            text_of(request.description),
        ),
        bug.unsigned("id"@) is Some,
        replies.len() == 3,
        replies[0] is Text && is_resource(replies[1], bug) && replies[2] is Entries,
    ensures
        executed(request, base, replies) is Ok,
{
}

/// A merge proposal is created where both refs are found in the repositories of the request.
pub proof fn lemma_proposal_creation_succeeds(
    request: Request,
    base: Seq<char>,
    replies: Seq<Reply>,
    source: JsonView,
    target: JsonView,
    source_link: Seq<char>,
    target_link: Seq<char>,
    path: Seq<char>,
)
    requires
        request.op == Operation::MergeProposalCreate,
        validated(request) is Ok,
        !is_blank(text_of(request.repository)) && !is_blank(text_of(request.source_ref))
            && !is_blank(text_of(request.target_ref)),
        request.target_repository is None,
        normalised_repository(text_of(request.repository)) == Ok::<Seq<char>, ErrorView>(path),
        normalised_repository(path) is Ok,
        source.text("unique_name"@) matches Some(name) && !is_blank(name),
        target.text("unique_name"@) matches Some(name) && !is_blank(name),
        replies.len() == 4,
        is_resource(replies[0], source) && is_resource(replies[2], target),
        replies[1] matches Reply::Refs(refs) && links_ref(
            refs@,
            full_ref(text_of(request.source_ref)),
            source_link,
        ),
        replies[3] matches Reply::Refs(refs) && links_ref(
            refs@,
            full_ref(text_of(request.target_ref)),
            target_link,
        ),
    ensures
        next(executed(request, base, replies)) is Create,
{
    crate::laws::finding::lemma_ref_link(
        replies[1]->Refs_0@,
        full_ref(text_of(request.source_ref)),
        source_link,
    );
    crate::laws::finding::lemma_ref_link(
        replies[3]->Refs_0@,
        full_ref(text_of(request.target_ref)),
        target_link,
    );
}

/// A draft is saved or deleted on a line that the diff of the current snapshot shows and that a
/// comment can stand on.
pub proof fn lemma_draft_update_succeeds(
    request: Request,
    base: Seq<char>,
    replies: Seq<Reply>,
    proposal: JsonView,
    current: JsonView,
    id: u64,
)
    requires
        request.op == Operation::ReviewDraftUpdate,
        validated(request) is Ok,
        request_preview_diff(request) == Ok::<u64, ErrorView>(id),
        id > 0,
        !is_blank(text_of(request.target)),
        replies.len() == 7,
        is_resource(replies[0], proposal) && is_resource(replies[5], proposal),
        is_resource(replies[1], current) && is_resource(replies[6], current),
        replies[2] is Text && replies[4] is Text,
        is_resource(replies[3], JsonView::Null),
        proposal.text("preview_diff_link"@) is Some && has_own_link(proposal),
        current.unsigned("id"@) == Some(id) && current.flag("stale"@) != Some(true),
        current.text("diff_text_link"@) is Some,
        crate::diff::file_line_location(
            replies[2]->Text_0@,
            text_of(request.path),
            request.side->0,
            request.file_line->0 as nat,
        ) matches Some(location) && location.is_commentable(),
    ensures
        next(executed(request, base, replies)) is Post,
        executed(request, base, replies.push(Reply::Done)) is Ok,
{
    let more = replies.push(Reply::Done);
    assert(more[0] == replies[0] && more[1] == replies[1] && more[2] == replies[2]);
    assert(more[3] == replies[3] && more[4] == replies[4] && more[5] == replies[5]);
    assert(more[6] == replies[6]);
}

/// A merge proposal is checked out into a directory that is not there, where the clone succeeds.
pub proof fn lemma_checkout_succeeds(
    spec: crate::details::CheckoutSpecView,
    request: Request,
    replies: Seq<Reply>,
    at: int,
)
    requires
        0 <= at,
        spec.source_https_url is Some || spec.source_ssh_url is Some,
        replies.len() > at && replies[at] is Text,
    ensures
        replies.len() == at + 1 ==> next(crate::local_git::checkout_view(spec, request, replies, at)) is Exists,
        replies.len() == at + 2 && replies[at + 1] == Reply::Exists(false)
            ==> next(crate::local_git::checkout_view(spec, request, replies, at)) is Git,
        replies.len() == at + 4 && replies[at + 1] == Reply::Exists(false) && succeeded(
            replies[at + 2],
        ) && succeeded(replies[at + 3]) ==> crate::local_git::checkout_view(
            spec,
            request,
            replies,
            at,
        ) is Ok,
{
}

/// What is checked out in a directory is pushed, unless nothing is.
pub proof fn lemma_push_succeeds(
    request: Request,
    base: Seq<char>,
    replies: Seq<Reply>,
    branch: Seq<char>,
)
    requires
        request.op == Operation::MergeProposalPush,
        validated(request) is Ok,
        replies.len() >= 2 && replies[0] is Text && succeeded(replies[1]),
        replies[1]->Output_0.stdout@ == vstd::utf8::encode_utf8(branch),
        crate::text::trimmed(branch).len() > 0 && crate::text::trimmed(branch) != "HEAD"@,
    ensures
        replies.len() == 2 ==> next(executed(request, base, replies)) is Git,
        replies.len() == 3 && succeeded(replies[2]) && replies[2]->Output_0.stderr@.len() == 0
            ==> executed(request, base, replies) is Ok,
{
    crate::laws::checkouts::lemma_written(branch);
    let none: Seq<char> = Seq::empty();
    crate::laws::checkouts::lemma_written(none);
    vstd::utf8::encode_utf8_valid_utf8(none);
    assert(vstd::utf8::encode_utf8(none) =~= Seq::empty());
    if replies.len() == 3 && succeeded(replies[2]) && replies[2]->Output_0.stderr@.len() == 0 {
        assert(replies[2]->Output_0.stderr@ =~= Seq::empty());
    }
}

/// A proposal of the branch that is asked for is found in the repository itself.
pub proof fn lemma_own_match_is_found(
    request: Request,
    path: Seq<char>,
    branch: Seq<char>,
    base: Seq<char>,
    replies: Seq<Reply>,
    repository: JsonView,
    link: Seq<char>,
    i: int,
)
    requires
        repository_lookup_url(base, path) is Ok,
        replies.len() == 3,
        is_resource(replies[0], repository),
        repository.text("unique_name"@) is Some,
        replies[1] matches Reply::Refs(refs) && links_ref(refs@, full_ref(branch), link),
        replies[2] matches Reply::Entries(entries) && 0 <= i < entries@.len() && is_match(
            entries@[i]@,
            request,
            branch,
        ),
    ensures
        branch_lookup(request, path, branch, base, replies) matches Ok(lookup)
            && lookup is Found && !lookup->related_repository,
{
    let refs = replies[1]->Refs_0@;
    let entries = crate::json::items_view(replies[2]->Entries_0@);
    crate::laws::finding::lemma_ref_link(refs, full_ref(branch), link);
    crate::laws::finding::lemma_has_ref(refs, full_ref(branch));
    crate::laws::finding::lemma_eligible(entries, request, branch);
    assert(entries[i] == replies[2]->Entries_0@[i]@);
    assert(entries.contains(entries[i]));
    let kept = entries.filter(crate::lookup::from_branch(full_ref(branch))).filter(
        crate::proposals::eligibility(request),
    );
    assert(kept.contains(entries[i]));
}

/// The inline comments of a snapshot are given where the proposal has the snapshot.
pub proof fn lemma_snapshot_comments_succeed(
    request: Request,
    base: Seq<char>,
    replies: Seq<Reply>,
    proposal: JsonView,
    id: u64,
    k: int,
)
    requires
        request.op == Operation::InlineComments || request.op == Operation::ReviewDrafts || request.op
            == Operation::DiffLineMap,
        validated(request) is Ok,
        request_preview_diff(request) == Ok::<u64, ErrorView>(id),
        !is_blank(text_of(request.target)),
        proposal.text("self_link"@) is Some,
        proposal.text("preview_diffs_collection_link"@) is Some,
        replies.len() == 3,
        is_resource(replies[0], proposal),
        replies[1] matches Reply::Entries(entries) && 0 <= k < entries@.len() && entries@[k]@.unsigned(
            "id"@,
        ) == Some(id) && forall|j: int|
            0 <= j < entries@.len() ==> (#[trigger] entries@[j])@.text("diff_text_link"@) is Some,
    ensures
        request.op == Operation::InlineComments && (replies[2] matches Reply::Json(answer)
            && answer@ is Array) ==> executed(request, base, replies) is Ok,
        request.op == Operation::ReviewDrafts && is_resource(replies[2], JsonView::Null) ==> executed(
            request,
            base,
            replies,
        ) is Ok,
        request.op == Operation::DiffLineMap && (replies[2] matches Reply::Text(diff)
            && crate::diff::file_line_location(
            diff@,
            text_of(request.path),
            request.side->0,
            request.file_line->0 as nat,
        ) is Some) ==> executed(request, base, replies) is Ok,
{
    let entries = crate::json::items_view(replies[1]->Entries_0@);
    crate::laws::viewing::lemma_snapshot_with_number(entries, id);
    assert(entries[k] == replies[1]->Entries_0@[k]@);
    let found = crate::preview::preview_with_id(entries, id)->0;
    let j = choose|j: int| 0 <= j < entries.len() && entries[j] == found;
    assert(replies[1]->Entries_0@[j]@ == found);
}

/// A bug, a repository and any other resource are viewed with the answers that they ask for.
pub proof fn lemma_resource_view_succeeds(
    target: TargetView,
    raw: Seq<char>,
    base: Seq<char>,
    replies: Seq<Reply>,
)
    requires
        !target.diff,
        replies.len() >= 1 && replies[0] is Json,
    ensures
        target.kind is Bug && target.include_comments && replies.len() == 3 && replies[1] is Entries
            && replies[2] is Entries ==> target_view(target, raw, base, replies) is Ok,
        target.kind is Bug && !target.include_comments && replies.len() == 2 && replies[1] is Entries
            ==> target_view(target, raw, base, replies) is Ok,
        target.kind is Repository && repository_lookup_url(base, target.path) is Ok ==> target_view(
            target,
            raw,
            base,
            replies,
        ) is Ok,
        target.kind is Generic ==> target_view(target, raw, base, replies) is Ok,
{
}

/// A merge proposal is viewed with its comments, its votes, which may be unknown, and its
/// repositories, and its diff with the snapshot and its text.
pub proof fn lemma_proposal_view_succeeds(
    target: TargetView,
    proposal: JsonView,
    replies: Seq<Reply>,
)
    requires
        proposal.text("all_comments_collection_link"@) is Some,
        proposal.text("votes_collection_link"@) is Some,
        proposal.text("source_git_repository_link"@) is Some,
        proposal.text("target_git_repository_link"@) is Some,
        proposal.text("preview_diff_link"@) is Some,
    ensures
        !target.diff && target.include_comments && replies.len() == 5 && replies[1] is Entries && (
        replies[2] is Entries || replies[2] is Fault) && replies[3] is Json && replies[4] is Json
            ==> crate::viewing::proposal_view(target, proposal, replies) is Ok,
        target.diff && target.preview_diff_id is None && replies.len() == 3 && (
        replies[1] matches Reply::Json(current) && (current@.unsigned("id"@) matches Some(id) && id > 0)
            && current@.text("diff_text_link"@) is Some) && replies[2] is Text
            ==> crate::viewing::proposal_view(target, proposal, replies) is Ok,
{
}

/// A file is read where the repository and path are those of one.
pub proof fn lemma_file_read_succeeds(
    request: Request,
    base: Seq<char>,
    replies: Seq<Reply>,
    branch: Seq<char>,
)
    requires
        request.op == Operation::FileRead,
        validated(request) is Ok,
        !is_blank(text_of(request.repository)) && !is_blank(text_of(request.path)),
        normalised_repository(text_of(request.repository)) is Ok,
        request.branch matches Some(own) && own@ == branch,
    ensures
        replies.len() == 0 ==> next(executed(request, base, replies)) is File,
        replies.len() == 1 && replies[0] is File ==> executed(request, base, replies) is Ok,
{
}

/// The history of snapshots is given where the proposal has one and a current snapshot.
pub proof fn lemma_history_succeeds(
    request: Request,
    base: Seq<char>,
    replies: Seq<Reply>,
    proposal: JsonView,
)
    requires
        request.op == Operation::PreviewDiffs,
        validated(request) is Ok,
        !is_blank(text_of(request.target)),
        proposal.text("preview_diffs_collection_link"@) is Some && proposal.text(
            "preview_diff_link"@,
        ) is Some && proposal.text("self_link"@) is Some,
        replies.len() == 3 && is_resource(replies[0], proposal) && replies[1] is Entries,
        replies[2] matches Reply::Json(current) && (current@.unsigned("id"@) matches Some(id) && id > 0),
    ensures
        executed(request, base, replies) is Ok,
{
}

/// A discussion without comments, votes and snapshots comes to its result.
pub proof fn lemma_discussion_succeeds(
    request: Request,
    base: Seq<char>,
    replies: Seq<Reply>,
    proposal: JsonView,
)
    requires
        request.op == Operation::MergeProposalDiscussion,
        validated(request) is Ok,
        !is_blank(text_of(request.target)),
        request.since is None && request.format is None && request.comments is None,
        proposal.text("preview_diff_link"@) is None,
        proposal.text("all_comments_collection_link"@) is Some && proposal.text(
            "votes_collection_link"@,
        ) is Some && proposal.text("preview_diffs_collection_link"@) is Some,
        proposal.text("source_git_repository_link"@) is Some && proposal.text(
            "target_git_repository_link"@,
        ) is Some,
        replies.len() == 6 && is_resource(replies[0], proposal),
        replies[1] matches Reply::Entries(entries) && entries@.len() == 0,
        replies[2] matches Reply::Entries(entries) && entries@.len() == 0,
        replies[3] matches Reply::Entries(entries) && entries@.len() == 0,
        replies[4] is Json && replies[5] is Json,
    ensures
        executed(request, base, replies) is Ok,
{
    let comments = crate::json::items_view(replies[1]->Entries_0@);
    let requests = crate::json::items_view(replies[2]->Entries_0@);
    assert((comments + requests).len() == 0);
    let nobody = crate::people::PeopleView { known: Seq::empty(), failed: Seq::empty() };
    assert(crate::people::missing_links_of(comments + requests, nobody).len() == 0);
}

} // verus!
