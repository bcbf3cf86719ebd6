//! What is read of Launchpad: where each part of an answer comes from.
use vstd::prelude::*;
use crate::error::ErrorView;
use crate::json::{items_view, JsonView};
use crate::launchpad::executed;
use crate::laws::sending::{option_of, selects, text_of};
use crate::laws::terms::{lemma_member_at, lemma_service_url, sends};
use crate::number::decimal;
use crate::pages::{all_entries, found_proposal, has_id, page_entries, some_entries, Page};
use crate::preview::{preview_at, preview_with_id};
use crate::repository::{normalised_repository, repository_lookup_url};
use crate::request::{request_preview_diff, Operation, Request};
use crate::resolving::{proposal_of_id, remote_paths};
use crate::response::ResultView;
use crate::steps::{get, get_all, get_some, ActionView, PlaceView, Reply};
use crate::target::{parsed_target, KindView, TargetView};
use crate::viewing::{proposal_view, requested_target, target_view};

verus! {

/// The path of a bug in the web service.
pub open spec fn bug_at(base: Seq<char>, id: u64, rest: Seq<char>) -> Seq<char> {
    base + "/"@ + ("bugs/"@ + decimal(id as nat) + rest)
}

proof fn lemma_bug_at(base: Seq<char>, id: u64, rest: Seq<char>)
    requires
        base.len() > 0 && base.last() != '/',
    ensures
        crate::repository::service_url(base, crate::viewing::bug_resource(id, rest)) == bug_at(
            base,
            id,
            rest,
        ),
{
    reveal_strlit("/bugs/");
    reveal_strlit("bugs/");
    reveal_strlit("/");
    let path = "bugs/"@ + decimal(id as nat) + rest;
    assert(path[0] == 'b');
    assert(crate::viewing::bug_resource(id, rest) =~= "/"@ + path);
    lemma_service_url(base, path);
}

/// A view of a bug asks for the bug, for its tasks, and for as many of its messages as are wanted,
/// if any, all by its number. It is reported under its number with its page.
pub proof fn lemma_bug_is_viewed(
    target: TargetView,
    raw: Seq<char>,
    base: Seq<char>,
    replies: Seq<Reply>,
    id: u64,
)
    requires
        target.kind == (KindView::Bug { id }),
        base.len() > 0 && base.last() != '/',
    ensures
        target_view(target, raw, base, replies) matches Err(action) ==> action !is Fail ==> {
            &&& !target.diff
            &&& replies.len() == 0 ==> action == get(bug_at(base, id, ""@))
            &&& replies.len() == 1 ==> action == get_some(bug_at(base, id, "/bug_tasks"@), 50)
            &&& replies.len() == 2 ==> target.include_comments && action == get_some(
                bug_at(base, id, "/messages"@),
                target.comment_limit,
            )
            &&& replies.len() < 3
        },
        target_view(target, raw, base, replies) matches Ok(result) ==> {
            let said = JsonView::Object(result.details);
            &&& !target.diff
            &&& replies.len() >= 2
            &&& target.include_comments ==> replies.len() >= 3 && replies[2] is Entries
            &&& replies[0] matches Reply::Json(bug) && result.source_url == bug@.text("web_link"@)
            &&& said.text("kind"@) == Some("bug"@)
            &&& said.text("target"@) == Some(target.path)
            &&& said.unsigned("id"@) == Some(id)
        },
{
    reveal_strlit("kind");
    reveal_strlit("target");
    reveal_strlit("id");
    assert("kind"@.len() == 4 && "target"@.len() == 6 && "id"@.len() == 2);
    lemma_bug_at(base, id, ""@);
    lemma_bug_at(base, id, "/bug_tasks"@);
    lemma_bug_at(base, id, "/messages"@);
    if let Ok(result) = target_view(target, raw, base, replies) {
        lemma_member_at(result.details, 0);
        lemma_member_at(result.details, 1);
        lemma_member_at(result.details, 2);
    }
}

/// A view of a merge proposal asks for the one with that number in that repository, and one by
/// number alone for what the target resolves to.
pub proof fn lemma_proposal_is_viewed(
    target: TargetView,
    raw: Seq<char>,
    base: Seq<char>,
    replies: Seq<Reply>,
)
    requires
        base.len() > 0 && base.last() != '/',
        replies.len() == 0,
    ensures
        target.kind matches KindView::MergeProposal { repository, id } ==> (repository.len() > 0
            && repository[0] != '/' ==> target_view(target, raw, base, replies) == Err::<
            ResultView,
            ActionView,
        >(get(base + "/"@ + (repository + "/+merge/"@ + decimal(id as nat))))),
        target.kind is MergeProposalId ==> target_view(target, raw, base, replies) == Err::<
            ResultView,
            ActionView,
        >(ActionView::Proposal { target: raw }),
        target.kind is Repository ==> (repository_lookup_url(base, target.path) matches Ok(url)
            ==> target_view(target, raw, base, replies) == Err::<ResultView, ActionView>(get(url))),
        target.kind is Generic && !target.diff && target.path.len() > 0 && target.path[0] != '/'
            ==> target_view(target, raw, base, replies) == Err::<ResultView, ActionView>(
            get(base + "/"@ + target.path),
        ),
{
    if let KindView::MergeProposal { repository, id } = target.kind {
        if repository.len() > 0 && repository[0] != '/' {
            let path = repository + "/+merge/"@ + decimal(id as nat);
            reveal_strlit("/");
            assert(path[0] == repository[0]);
            assert("/"@ + repository + "/+merge/"@ + decimal(id as nat) =~= "/"@ + path);
            lemma_service_url(base, path);
        }
    }
    if target.kind is Generic && target.path.len() > 0 && target.path[0] != '/' {
        lemma_service_url(base, target.path);
    }
}

/// The diff of a merge proposal is that of the snapshot that is asked for, which must be one of the
/// proposal, or of the current one where none is asked for. It is given as it is, or cut off with
/// a note where it has more than two mebibytes.
pub proof fn lemma_diff_is_that_of_snapshot(
    target: TargetView,
    proposal: JsonView,
    replies: Seq<Reply>,
)
    requires
        target.diff,
        replies.len() >= 1,
    ensures
        proposal_view(target, proposal, replies) matches Err(action) ==> action !is Fail ==> {
            &&& replies.len() == 1 ==> match target.preview_diff_id {
                Some(_) => proposal.text("preview_diffs_collection_link"@) matches Some(link)
                    && action == get_all(link),
                None => proposal.text("preview_diff_link"@) matches Some(link) && action == get(link),
            }
            &&& replies.len() == 2 ==> (action matches ActionView::DiffText { link }
                && is_link_of_snapshot(link, target.preview_diff_id, replies[1]))
            &&& replies.len() < 3
        },
        proposal_view(target, proposal, replies) matches Ok(result) ==> {
            let said = JsonView::Object(result.details);
            &&& replies.len() >= 3
            &&& replies[2] matches Reply::Text(diff) && {
                &&& crate::size::byte_size(diff@) <= 2_097_152 ==> result.text == diff@
                &&& said.flag("truncated"@) == Some(crate::size::byte_size(diff@) > 2_097_152)
            }
            &&& target.preview_diff_id matches Some(id) ==> said.unsigned("preview_diff_id"@) == Some(
                id,
            )
            &&& target.preview_diff_id is None ==> (replies[1] matches Reply::Json(current)
                && said.unsigned("preview_diff_id"@) == current@.unsigned("id"@) && said.flag(
                "stale"@,
            ) == Some(current@.flag("stale"@) == Some(true)))
            &&& said.flag("diff"@) == Some(true)
            &&& result.source_url == proposal.text("web_link"@)
        },
{
    reveal_strlit("kind");
    reveal_strlit("diff");
    reveal_strlit("preview_diff_id");
    reveal_strlit("stale");
    reveal_strlit("truncated");
    assert("kind"@.len() == 4 && "diff"@.len() == 4 && "preview_diff_id"@.len() == 15
        && "stale"@.len() == 5 && "truncated"@.len() == 9);
    assert("kind"@[0] == 'k');
    assert("diff"@[0] == 'd');
    if let Some(id) = target.preview_diff_id {
        if replies.len() > 1 {
            if let Reply::Entries(entries) = replies[1] {
                lemma_snapshot_with_number(items_view(entries@), id);
                if let Some(found) = preview_with_id(items_view(entries@), id) {
                    let k = choose|k: int|
                        0 <= k < items_view(entries@).len() && items_view(entries@)[k] == found;
                    assert(entries@[k]@ == found);
                }
            }
        }
    }
    if let Ok(result) = proposal_view(target, proposal, replies) {
        lemma_member_at(result.details, 0);
        lemma_member_at(result.details, 1);
        lemma_member_at(result.details, 2);
        lemma_member_at(result.details, 3);
        lemma_member_at(result.details, 4);
    }
}

/// Whether a link is that to the text of the snapshot that is asked for.
pub open spec fn is_link_of_snapshot(link: Seq<char>, id: Option<u64>, reply: Reply) -> bool {
    match id {
        Some(id) => reply matches Reply::Entries(entries) && exists|k: int|
            {
                &&& 0 <= k < entries@.len()
                &&& (#[trigger] entries@[k])@.unsigned("id"@) == Some(id)
                &&& entries@[k]@.text("diff_text_link"@) == Some(link)
            },
        None => reply matches Reply::Json(current) && current@.text("diff_text_link"@) == Some(link),
    }
}

pub(crate) proof fn lemma_snapshot_with_number(preview_diffs: Seq<JsonView>, id: u64)
    ensures
        preview_with_id(preview_diffs, id) matches Some(found) ==> found.unsigned("id"@) == Some(id)
            && preview_diffs.contains(found),
        preview_with_id(preview_diffs, id) is None ==> forall|k: int|
            0 <= k < preview_diffs.len() ==> (#[trigger] preview_diffs[k]).unsigned("id"@) != Some(
                id,
            ),
    decreases preview_diffs.len(),
{
    if preview_diffs.len() > 0 && preview_diffs[0].unsigned("id"@) != Some(id) {
        let rest = preview_diffs.skip(1);
        lemma_snapshot_with_number(rest, id);
        if let Some(found) = preview_with_id(rest, id) {
            let k = choose|k: int| 0 <= k < rest.len() && rest[k] == found;
            assert(preview_diffs[k + 1] == found);
        } else {
            assert forall|k: int| 0 <= k < preview_diffs.len() implies (
            #[trigger] preview_diffs[k]).unsigned("id"@) != Some(id) by {
                if k > 0 {
                    assert(rest[k - 1] == preview_diffs[k]);
                }
            }
        }
    }
}

/// A snapshot is refused exactly where the proposal has none with its number.
pub proof fn lemma_unknown_snapshot_is_refused(proposal: JsonView, id: u64, replies: Seq<Reply>, at: int)
    requires
        0 <= at < replies.len(),
        proposal.text("preview_diffs_collection_link"@) is Some,
    ensures
        replies[at] matches Reply::Entries(entries) ==> match preview_at(
            proposal,
            Some(id),
            replies,
            at,
        ) {
            Ok(found) => found.unsigned("id"@) == Some(id) && items_view(entries@).contains(found),
            Err(action) => action is Fail && forall|k: int|
                0 <= k < entries@.len() ==> (#[trigger] entries@[k])@.unsigned("id"@) != Some(id),
        },
{
    if let Reply::Entries(entries) = replies[at] {
        let all = items_view(entries@);
        lemma_snapshot_with_number(all, id);
        assert forall|k: int| 0 <= k < entries@.len() implies (#[trigger] entries@[k])@ == all[k] by {}
    }
}

/// A view of a merge proposal without its diff asks for as many of its comments as are wanted, if
/// any, for its votes, and for its source and target repositories, by the links that it has for
/// them.
pub proof fn lemma_proposal_parts_are_asked(target: TargetView, proposal: JsonView, replies: Seq<Reply>)
    requires
        !target.diff,
        replies.len() >= 1,
    ensures
        proposal_view(target, proposal, replies) matches Err(action) ==> action !is Fail ==> {
            let skipped: int = if target.include_comments {
                1
            } else {
                0
            };
            &&& target.include_comments && replies.len() == 1 ==> (proposal.text(
                "all_comments_collection_link"@,
            ) matches Some(link) && action == get_some(link, target.comment_limit))
            &&& replies.len() == 1 + skipped ==> (proposal.text(
                "votes_collection_link"@,
            ) matches Some(link) && action == get_some(link, 50))
            &&& replies.len() == 2 + skipped ==> (proposal.text(
                "source_git_repository_link"@,
            ) matches Some(link) && action == get(link))
            &&& replies.len() == 3 + skipped ==> (proposal.text(
                "target_git_repository_link"@,
            ) matches Some(link) && action == get(link))
        },
        proposal_view(target, proposal, replies) matches Ok(result) ==> result.source_url
            == proposal.text("web_link"@),
{
}

/// A resource is viewed at the target of the request; a snapshot that the request names is that of
/// the diff that is shown.
pub proof fn lemma_resource_is_that_of_request(request: Request, base: Seq<char>, replies: Seq<Reply>)
    requires
        request.op == Operation::ResourceView,
    ensures
        executed(request, base, replies) is Ok || !(executed(request, base, replies)->Err_0 is Fail)
            ==> {
            &&& parsed_target(text_of(request.target)) matches Ok(target)
            &&& requested_target(request) matches Ok(shown) && {
                &&& shown.path == target.path && shown.kind == target.kind
                &&& shown.include_comments == target.include_comments && shown.comment_limit
                    == target.comment_limit
                &&& request.preview_diff_id matches Some(id) ==> shown.diff && shown.preview_diff_id
                    == Some(id) && id > 0 && (target.kind is MergeProposal
                    || target.kind is MergeProposalId)
                &&& request.preview_diff_id is None ==> shown == target
                &&& executed(request, base, replies) == target_view(
                    shown,
                    text_of(request.target),
                    base,
                    replies,
                )
            }
        },
{
}

/// The history of the snapshots of a merge proposal is what it links to, and the current one is
/// said by its number.
pub proof fn lemma_snapshot_history(request: Request, base: Seq<char>, replies: Seq<Reply>)
    requires
        request.op == Operation::PreviewDiffs,
    ensures
        executed(request, base, replies) matches Err(action) ==> action !is Fail ==> {
            &&& replies.len() == 0 ==> action == (ActionView::Proposal {
                target: text_of(request.target),
            })
            &&& replies.len() == 1 ==> (replies[0] matches Reply::Json(proposal) && proposal@.text(
                "preview_diffs_collection_link"@,
            ) matches Some(link) && action == get_all(link))
            &&& replies.len() == 2 ==> (replies[0] matches Reply::Json(proposal) && proposal@.text(
                "preview_diff_link"@,
            ) matches Some(link) && action == get(link))
        },
        executed(request, base, replies) matches Ok(result) ==> {
            let said = JsonView::Object(result.details);
            &&& replies.len() >= 3
            &&& replies[1] matches Reply::Entries(entries) && said.get("preview_diffs"@) == Some(
                JsonView::Array(items_view(entries@)),
            )
            &&& replies[2] matches Reply::Json(current) && said.unsigned("current_preview_diff_id"@)
                == current@.unsigned("id"@)
            &&& said.text("kind"@) == Some("preview_diff_history"@)
        },
{
    reveal_strlit("kind");
    reveal_strlit("current_preview_diff_id");
    reveal_strlit("preview_diffs");
    assert("kind"@.len() == 4 && "current_preview_diff_id"@.len() == 23
        && "preview_diffs"@.len() == 13);
    if let Ok(result) = executed(request, base, replies) {
        lemma_member_at(result.details, 0);
        lemma_member_at(result.details, 1);
        lemma_member_at(result.details, 2);
    }
}

/// The inline comments and the drafts of a snapshot are those that the merge proposal of the
/// request gives for the snapshot that the request selects, which must be one of the proposal.
#[verifier::rlimit(80)]
pub proof fn lemma_snapshot_comments_and_drafts(request: Request, base: Seq<char>, replies: Seq<Reply>)
    requires
        request.op == Operation::InlineComments || request.op == Operation::ReviewDrafts,
    ensures
        executed(request, base, replies) matches Err(action) ==> action !is Fail ==> {
            &&& replies.len() == 0 ==> action == (ActionView::Proposal {
                target: text_of(request.target),
            })
            &&& replies.len() == 1 ==> (replies[0] matches Reply::Json(proposal) && proposal@.text(
                "preview_diffs_collection_link"@,
            ) matches Some(link) && action == get_all(link))
            &&& replies.len() == 2 ==> (replies[0] matches Reply::Json(proposal)
                && action matches ActionView::Get { place: PlaceView::Query(query) } && {
                &&& proposal@.text("self_link"@) == Some(query.base)
                &&& sends(
                    query.pairs,
                    "ws.op"@,
                    if request.op == Operation::InlineComments {
                        "getInlineComments"@
                    } else {
                        "getDraftInlineComments"@
                    },
                )
                &&& exists|id: u64|
                    selects(request, id) && sends(
                        query.pairs,
                        "previewdiff_id"@,
                        #[trigger] decimal(id as nat),
                    )
            })
        },
        executed(request, base, replies) matches Ok(result) ==> {
            let said = JsonView::Object(result.details);
            &&& replies.len() >= 3
            &&& said.unsigned("preview_diff_id"@) matches Some(id) && selects(request, id)
            &&& replies[2] matches Reply::Json(answer) && {
                &&& request.op == Operation::InlineComments ==> said.get("comments"@) == Some(answer@)
                    && answer@ is Array
                &&& request.op == Operation::ReviewDrafts ==> said.get("drafts"@) == Some(
                    if answer@ == JsonView::Null {
                        JsonView::Object(Seq::empty())
                    } else {
                        answer@
                    },
                )
            }
        },
{
    reveal_strlit("kind");
    reveal_strlit("preview_diff_id");
    reveal_strlit("comments");
    reveal_strlit("drafts");
    assert("kind"@.len() == 4 && "preview_diff_id"@.len() == 15 && "comments"@.len() == 8
        && "drafts"@.len() == 6);
    reveal_strlit("ws.op");
    reveal_strlit("previewdiff_id");
    assert("ws.op"@.len() == 5 && "previewdiff_id"@.len() == 14);
    if let Err(ActionView::Get { place: PlaceView::Query(query) }) = executed(
        request,
        base,
        replies,
    ) {
        let id = request_preview_diff(request)->Ok_0;
        assert(selects(request, id));
        assert(query.pairs[0].0 == "ws.op"@ && query.pairs[1].0 == "previewdiff_id"@);
        assert(sends(query.pairs, "previewdiff_id"@, decimal(id as nat)));
    }
    if let Ok(result) = executed(request, base, replies) {
        let id = request_preview_diff(request)->Ok_0;
        assert(selects(request, id));
        lemma_member_at(result.details, 0);
        lemma_member_at(result.details, 1);
        lemma_member_at(result.details, 2);
    }
}

/// A line of a file is mapped in the diff of the snapshot that the request selects, by the path,
/// the side and the line of the request.
#[verifier::rlimit(80)]
pub proof fn lemma_line_is_mapped_in_snapshot(request: Request, base: Seq<char>, replies: Seq<Reply>)
    requires
        request.op == Operation::DiffLineMap,
    ensures
        executed(request, base, replies) matches Err(action) ==> action !is Fail ==> {
            &&& replies.len() == 0 ==> action == (ActionView::Proposal {
                target: text_of(request.target),
            })
            &&& replies.len() == 1 ==> (replies[0] matches Reply::Json(proposal) && proposal@.text(
                "preview_diffs_collection_link"@,
            ) matches Some(link) && action == get_all(link))
            &&& replies.len() == 2 ==> (action matches ActionView::DiffText { link } && exists|id: u64|
                #[trigger] selects(request, id) && is_link_of_snapshot(link, Some(id), replies[1]))
        },
        executed(request, base, replies) matches Ok(result) ==> {
            let said = JsonView::Object(result.details);
            &&& replies.len() >= 3
            &&& said.unsigned("preview_diff_id"@) matches Some(id) && selects(request, id)
            &&& replies[2] matches Reply::Text(diff) && (crate::diff::file_line_location(
                diff@,
                text_of(request.path),
                request.side->0,
                request.file_line->0 as nat,
            ) matches Some(location) && said.get("location"@) == Some(
                crate::threads::location_object(location),
            ))
            &&& request.side is Some && request.file_line is Some
        },
{
    reveal_strlit("kind");
    reveal_strlit("preview_diff_id");
    reveal_strlit("location");
    assert("kind"@.len() == 4 && "preview_diff_id"@.len() == 15 && "location"@.len() == 8);
    if let Err(ActionView::DiffText { link }) = executed(request, base, replies) {
        let id = request_preview_diff(request)->Ok_0;
        assert(selects(request, id));
        if let Reply::Entries(entries) = replies[1] {
            lemma_snapshot_with_number(items_view(entries@), id);
            let found = preview_with_id(items_view(entries@), id)->0;
            let k = choose|k: int|
                0 <= k < items_view(entries@).len() && items_view(entries@)[k] == found;
            assert(entries@[k]@ == found);
            assert(is_link_of_snapshot(link, Some(id), replies[1]));
        }
    }
    if let Ok(result) = executed(request, base, replies) {
        let id = request_preview_diff(request)->Ok_0;
        assert(selects(request, id));
        lemma_member_at(result.details, 0);
        lemma_member_at(result.details, 1);
        lemma_member_at(result.details, 2);
    }
}

/// A draft that was saved or deleted is reported with its place and with the drafts that were
/// written down.
#[verifier::rlimit(80)]
pub proof fn lemma_draft_update_is_reported(request: Request, base: Seq<char>, replies: Seq<Reply>)
    requires
        request.op == Operation::ReviewDraftUpdate,
    ensures
        executed(request, base, replies) matches Ok(result) ==> {
            let said = JsonView::Object(result.details);
            &&& said.text("kind"@) == Some("review_draft_update"@)
            &&& said.unsigned("preview_diff_id"@) matches Some(id) && selects(request, id)
            &&& said.text("action"@) == Some(
                if request.body is Some {
                    "saved"@
                } else {
                    "deleted"@
                },
            )
            &&& replies[2] matches Reply::Text(diff) && (crate::diff::file_line_location(
                diff@,
                text_of(request.path),
                request.side->0,
                request.file_line->0 as nat,
            ) matches Some(location) && said.get("location"@) == Some(
                crate::threads::location_object(location),
            ))
            &&& executed(request, base, replies.take(4)) matches Err(ActionView::Write { value })
                && said.get("drafts"@) == Some(value)
        },
{
    reveal_strlit("kind");
    reveal_strlit("preview_diff_id");
    reveal_strlit("action");
    reveal_strlit("location");
    reveal_strlit("drafts");
    assert("kind"@.len() == 4 && "preview_diff_id"@.len() == 15 && "action"@.len() == 6
        && "location"@.len() == 8 && "drafts"@.len() == 6);
    assert("action"@[0] == 'a');
    assert("drafts"@[0] == 'd');
    if let Ok(result) = executed(request, base, replies) {
        let id = request_preview_diff(request)->Ok_0;
        assert(selects(request, id));
        let before = replies.take(4);
        assert(before[0] == replies[0] && before[1] == replies[1]);
        assert(before[2] == replies[2] && before[3] == replies[3]);
        lemma_member_at(result.details, 0);
        lemma_member_at(result.details, 1);
        lemma_member_at(result.details, 2);
        lemma_member_at(result.details, 3);
        lemma_member_at(result.details, 4);
    }
}

/// A file is read from the repository and path of the request, at its branch where it names one,
/// and given as it is.
#[verifier::rlimit(80)]
pub proof fn lemma_file_is_read(request: Request, base: Seq<char>, replies: Seq<Reply>)
    requires
        request.op == Operation::FileRead,
    ensures
        executed(request, base, replies) matches Err(action) ==> action !is Fail ==> {
            &&& replies.len() == 0
            &&& action matches ActionView::File { place, .. } && (normalised_repository(
                text_of(request.repository),
            ) matches Ok(repository) && {
                let url = "https://git.launchpad.net/"@ + crate::web::encoded_path(
                    crate::repository::without_slashes(repository),
                ) + "/plain/"@ + crate::web::encoded_path(
                    crate::text::trimmed(text_of(request.path)),
                );
                match request.branch {
                    Some(branch) => place matches PlaceView::Query(query) && query.base == url
                        && query.pairs =~= seq![("h"@, branch@)],
                    None => place matches PlaceView::Url(own) && (crate::web::parsed_url(
                        url,
                    ) matches Ok(parsed) && own == parsed.text),
                }
            })
        },
        executed(request, base, replies) matches Ok(result) ==> {
            let said = JsonView::Object(result.details);
            &&& replies.len() > 0
            &&& replies[0] matches Reply::File { url, text } && {
                &&& result.text == text@
                &&& result.source_url == Some(url@)
                &&& said.unsigned("bytes"@) == Some(crate::size::byte_size(text@) as u64)
            }
            &&& said.text("kind"@) == Some("file"@)
            &&& said.text("repository"@) == Some(text_of(request.repository))
            &&& said.text("path"@) == Some(text_of(request.path))
            &&& said.text("branch"@) == option_of(request.branch)
        },
{
    reveal_strlit("kind");
    reveal_strlit("repository");
    reveal_strlit("path");
    reveal_strlit("branch");
    reveal_strlit("bytes");
    assert("kind"@.len() == 4 && "repository"@.len() == 10 && "path"@.len() == 4
        && "branch"@.len() == 6 && "bytes"@.len() == 5);
    assert("kind"@[0] == 'k');
    assert("path"@[0] == 'p');
    if let Ok(result) = executed(request, base, replies) {
        lemma_member_at(result.details, 0);
        lemma_member_at(result.details, 1);
        lemma_member_at(result.details, 2);
        lemma_member_at(result.details, 3);
        lemma_member_at(result.details, 4);
    }
}

/// The pages of a collection follow one another: the first is at its URL and each other at the link
/// of the one before it. All entries are those of all pages, in their order, once no page links
/// to another.
pub proof fn lemma_pages_follow_links(first: Seq<char>, pages: Seq<Page>, page: Page, limit: nat, id: u64)
    ensures
        all_entries(first, Seq::empty()) == Err::<Seq<JsonView>, ActionView>(get(first)),
        limit > 0 ==> some_entries(first, limit, Seq::empty()) == Err::<Seq<JsonView>, ActionView>(
            get(first),
        ),
        found_proposal(first, id, Seq::empty()) == Err::<Option<JsonView>, ActionView>(get(first)),
        page.next matches Some(link) ==> (all_entries(first, pages.push(page)) matches Err(action)
            && (action is Fail || action == get(link@))),
        page.next matches Some(link) ==> (some_entries(first, limit, pages.push(page)) matches Err(
            action,
        ) ==> action == get(link@)),
        page.next matches Some(link) ==> (found_proposal(first, id, pages.push(page)) matches Err(
            action,
        ) ==> action is Fail || action == get(link@)),
        page.next is None ==> all_entries(first, pages.push(page)) == Ok::<Seq<JsonView>, ActionView>(
            page_entries(pages.push(page)),
        ),
        page_entries(pages.push(page)) == page_entries(pages) + items_view(page.entries@),
        page_entries(Seq::empty()).len() == 0,
        some_entries(first, limit, pages) matches Ok(entries) ==> {
            &&& entries.is_prefix_of(page_entries(pages))
            &&& entries.len() == (if page_entries(pages).len() < limit {
                page_entries(pages).len()
            } else {
                limit
            })
        },
        some_entries(first, limit, pages) is Err ==> page_entries(pages).len() < limit,
        some_entries(first, limit, pages) is Ok ==> page_entries(pages).len() >= limit || (pages.len()
            > 0 && pages.last().next is None),
        page.next matches Some(link) ==> (link@ != first && (forall|k: int|
            0 <= k < pages.len() ==> ((#[trigger] pages[k]).next matches Some(other) && other@
                != link@)) ==> {
            &&& all_entries(first, pages.push(page)) == Err::<Seq<JsonView>, ActionView>(get(link@))
            &&& found_proposal(first, id, pages.push(page)) matches Err(action) ==> action == get(
                link@,
            )
        }),
{
    assert(pages.push(page).drop_last() =~= pages);
    let none: Seq<Page> = Seq::empty();
    assert(page_entries(none) =~= Seq::empty());
    assert(crate::pages::page_urls(first, none, 0) =~= Seq::empty());
    if let Some(link) = page.next {
        if link@ != first && (forall|k: int|
            0 <= k < pages.len() ==> ((#[trigger] pages[k]).next matches Some(other) && other@
                != link@)) {
            let all = pages.push(page);
            let urls = crate::pages::page_urls(first, all, all.len());
            assert(crate::pages::page_url(first, all, all.len() as int) == link@);
            if urls.contains(link@) {
                let k = choose|k: int| 0 <= k < urls.len() && urls[k] == link@;
                assert(crate::pages::page_url(first, all, k) == link@);
                if k > 0 {
                    assert(all[k - 1] == pages[k - 1]);
                    assert(pages[k - 1].next matches Some(other) && other@ != link@);
                }
            }
        }
    }
}

/// The merge proposal that is found in a collection has the number that is looked for, and none is
/// said to be found only where all pages are there and none of their proposals has it.
pub proof fn lemma_found_proposal_has_number(first: Seq<char>, pages: Seq<Page>, id: u64, k: int)
    ensures
        found_proposal(first, id, pages) matches Ok(found) ==> match found {
            Some(proposal) => page_entries(pages).contains(proposal) && has_id(proposal, id),
            None => {
                &&& pages.len() > 0 && pages.last().next is None
                &&& 0 <= k < page_entries(pages).len() ==> !has_id(page_entries(pages)[k], id)
            },
        },
{
    lemma_number_in(page_entries(pages), id);
}

proof fn lemma_number_in(proposals: Seq<JsonView>, id: u64)
    ensures
        crate::pages::proposal_with_id(proposals, id) matches Some(found) ==> proposals.contains(found)
            && has_id(found, id),
        crate::pages::proposal_with_id(proposals, id) is None ==> forall|k: int|
            0 <= k < proposals.len() ==> !has_id(#[trigger] proposals[k], id),
    decreases proposals.len(),
{
    if proposals.len() > 0 && !has_id(proposals[0], id) {
        let rest = proposals.skip(1);
        lemma_number_in(rest, id);
        if let Some(found) = crate::pages::proposal_with_id(rest, id) {
            let k = choose|k: int| 0 <= k < rest.len() && rest[k] == found;
            assert(proposals[k + 1] == found);
        } else {
            assert forall|k: int| 0 <= k < proposals.len() implies !has_id(
                #[trigger] proposals[k],
                id,
            ) by {
                if k > 0 {
                    assert(rest[k - 1] == proposals[k]);
                }
            }
        }
    }
}

/// A number is that of a proposal whose own link ends with it.
pub proof fn lemma_number_is_last_segment(proposal: JsonView, front: Seq<char>, id: u64, other: u64)
    requires
        proposal.text("self_link"@) == Some(front + seq!['/'] + decimal(id as nat)),
    ensures
        has_id(proposal, other) <==> other == id,
{
    crate::number::lemma_decimal_digits(id as nat);
    crate::number::lemma_decimal_unsigned(id as nat);
    let digits = decimal(id as nat);
    assert(!digits.contains('/')) by {
        if digits.contains('/') {
            let i = choose|i: int| 0 <= i < digits.len() && digits[i] == '/';
            assert(crate::number::is_digit(digits[i]));
        }
    }
    crate::laws::terms::lemma_id_is_last_segment(proposal, front, digits);
}

/// A merge proposal by number alone is looked for in the repositories of the remotes of the
/// checkout, in those that it comes from and then in those that it goes to, and is what was found
/// there.
pub proof fn lemma_number_is_looked_for(id: u64, base: Seq<char>, replies: Seq<Reply>)
    ensures
        proposal_of_id(id, base, replies) matches Ok(proposal) ==> replies.len() > 0 && exists|k: int|
            0 < k < replies.len() && found_at(#[trigger] replies[k], proposal),
        proposal_of_id(id, base, replies) matches Err(ActionView::Find { url, id: own }) ==> own == id
            && exists|k: int|
            0 < k < replies.len() && links_collection(#[trigger] replies[k], url),
        replies.len() == 0 ==> proposal_of_id(id, base, replies) == Err::<JsonView, ActionView>(
            ActionView::Checkout,
        ),
{
    if replies.len() > 0 {
        if let Reply::Checkout(checkout) = replies[0] {
            lemma_search(remote_paths(checkout@.remotes), id, base, replies, 1, Seq::empty());
        }
    }
}

/// Whether an answer is a merge proposal that was found.
pub open spec fn found_at(reply: Reply, proposal: JsonView) -> bool {
    reply matches Reply::Found(Some(found)) && found@ == proposal
}

/// Whether an answer is a repository with a collection of merge proposals at a URL.
pub open spec fn links_collection(reply: Reply, url: Seq<char>) -> bool {
    reply matches Reply::Json(repository) && (repository@.text("landing_targets_collection_link"@)
        == Some(url) || repository@.text("landing_candidates_collection_link"@) == Some(url))
}

proof fn lemma_search(
    paths: Seq<Seq<char>>,
    id: u64,
    base: Seq<char>,
    replies: Seq<Reply>,
    at: int,
    inspected: Seq<Seq<char>>,
)
    requires
        0 < at,
    ensures
        crate::resolving::search_from(paths, id, base, replies, at, inspected) matches Ok(
            Ok(proposal),
        ) ==> exists|k: int|
            0 < k < replies.len() && found_at(#[trigger] replies[k], proposal),
        crate::resolving::search_from(paths, id, base, replies, at, inspected) matches Err(
            ActionView::Find { url, id: own },
        ) ==> own == id && exists|k: int|
            0 < k < replies.len() && links_collection(#[trigger] replies[k], url),
    decreases paths.len(),
{
    if paths.len() > 0 {
        let rest = paths.skip(1);
        lemma_search(rest, id, base, replies, at, inspected);
        lemma_search(rest, id, base, replies, at + 1, inspected);
        if at < replies.len() {
            if let Reply::Json(repository) = replies[at] {
                match crate::resolving::repository_search(repository@, id, replies, at + 1) {
                    Ok(Err(next)) => {
                        let name = crate::fields::value_or(
                            repository@.text("unique_name"@),
                            paths[0],
                        );
                        lemma_search(rest, id, base, replies, next, inspected.push(name));
                    },
                    Ok(Ok(proposal)) => {
                        assert(found_at(replies[at + 1], proposal) || found_at(
                            replies[at + 2],
                            proposal,
                        ));
                    },
                    Err(action) => {
                        if let ActionView::Find { url, .. } = action {
                            assert(links_collection(replies[at], url));
                        }
                    },
                }
            }
        }
    }
}

/// The repositories of the remotes are those that their URLs name, each once, in their order.
pub proof fn lemma_remote_repositories(remotes: Seq<(Seq<char>, Seq<char>)>, i: int)
    ensures
        remote_paths(remotes).no_duplicates(),
        0 <= i < remotes.len() ==> (normalised_repository(remotes[i].1) matches Ok(path)
            ==> remote_paths(remotes).contains(path)),
        0 <= i < remote_paths(remotes).len() ==> exists|k: int|
            0 <= k < remotes.len() && normalised_repository((#[trigger] remotes[k]).1) == Ok::<
                Seq<char>,
                ErrorView,
            >(remote_paths(remotes)[i]),
    decreases remotes.len(),
{
    if remotes.len() > 0 {
        let front = remotes.drop_last();
        lemma_remote_repositories(front, i);
        let before = remote_paths(front);
        let paths = remote_paths(remotes);
        assert(remotes.last() == remotes[remotes.len() - 1]);
        assert forall|x: Seq<char>| before.contains(x) implies paths.contains(x) by {
            let k = choose|k: int| 0 <= k < before.len() && before[k] == x;
            assert(paths[k] == x);
        }
        if 0 <= i < front.len() {
            assert(front[i] == remotes[i]);
        }
        if 0 <= i < before.len() {
            let k = choose|k: int|
                0 <= k < front.len() && normalised_repository((#[trigger] front[k]).1) == Ok::<
                    Seq<char>,
                    ErrorView,
                >(before[i]);
            assert(remotes[k] == front[k]);
        }
        if let Ok(path) = normalised_repository(remotes.last().1) {
            if !before.contains(path) {
                assert(paths[before.len() as int] == path);
                assert forall|p: int, q: int|
                    0 <= p < paths.len() && 0 <= q < paths.len() && p != q implies paths[p]
                    != paths[q] by {
                    if p < before.len() && q < before.len() {
                        assert(before[p] != before[q]);
                    } else if p < before.len() {
                        assert(before.contains(before[p]));
                    } else {
                        assert(before.contains(before[q]));
                    }
                }
            }
        }
    }
}

} // verus!
