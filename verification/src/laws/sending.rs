//! What the operations that write send, and that they report nothing as sent that was not.
use vstd::prelude::*;
use crate::json::{member_in, JsonView};
use crate::laws::terms::{lemma_member_at, sends, sends_option};
use crate::launchpad::executed;
use crate::number::decimal;
use crate::request::{request_preview_diff, validated, Operation, Request};
use crate::reviewing::{drafts_form, lemma_draft_changes_one_line, review_form};
use crate::steps::{ActionView, Reply};
use crate::text::trimmed;
use crate::web::parsed_url;

verus! {

/// The text of an optional text, empty for none.
pub open spec fn text_of(text: Option<String>) -> Seq<char> {
    match text {
        Some(text) => text@,
        None => Seq::empty(),
    }
}

/// What an optional text holds.
pub open spec fn option_of(text: Option<String>) -> Option<Seq<char>> {
    match text {
        Some(text) => Some(text@),
        None => None,
    }
}

/// Whether a URL is the one that a resource says is its own.
pub open spec fn is_own_url(url: Seq<char>, resource: JsonView) -> bool {
    resource.text("self_link"@) matches Some(link) && (parsed_url(link) matches Ok(parsed)
        && parsed.text == url)
}

/// Whether a request selects a snapshot: by its parameter, or else by its target.
pub open spec fn selects(request: Request, id: u64) -> bool {
    request.preview_diff_id == Some(id) || (request.preview_diff_id is None && (
    request.target matches Some(target) && (crate::target::parsed_target(target@) matches Ok(parsed)
        && parsed.preview_diff_id == Some(id))))
}

proof fn lemma_review_form(request: Request, id: u64, written: Seq<char>)
    ensures
        ({
            let pairs = review_form(request, id, written);
            &&& sends(pairs, "ws.op"@, "createComment"@)
            &&& sends(pairs, "content"@, text_of(request.body))
            &&& sends(pairs, "previewdiff_id"@, decimal(id as nat))
            &&& sends(pairs, "inline_comments"@, written)
            &&& sends_option(pairs, "vote"@, option_of(request.vote))
        }),
{
    reveal_strlit("ws.op");
    reveal_strlit("content");
    reveal_strlit("previewdiff_id");
    reveal_strlit("inline_comments");
    reveal_strlit("vote");
    assert("ws.op"@.len() == 5 && "content"@.len() == 7 && "previewdiff_id"@.len() == 14
        && "inline_comments"@.len() == 15 && "vote"@.len() == 4);
    let pairs = review_form(request, id, written);
    assert(pairs[0].0 == "ws.op"@ && pairs[1].0 == "content"@);
    assert(pairs[2].0 == "previewdiff_id"@ && pairs[3].0 == "inline_comments"@);
    if request.vote is Some {
        assert(pairs[4].0 == "vote"@);
    }
}

/// A review is sent with the body of the request as its content, empty only where there is none,
/// with its vote exactly where it has one, with the snapshot that it selects, and with the drafts
/// as they were written.
#[verifier::rlimit(80)]
pub proof fn lemma_review_is_sent_whole(request: Request, base: Seq<char>, replies: Seq<Reply>)
    requires
        request.op == Operation::ReviewSubmit,
    ensures
        executed(request, base, replies) matches Err(ActionView::Post { url, pairs }) ==> {
            &&& replies.len() == 6
            &&& sends(pairs, "ws.op"@, "createComment"@)
            &&& sends(pairs, "content"@, text_of(request.body))
            &&& sends_option(pairs, "vote"@, option_of(request.vote))
            &&& exists|id: u64|
                selects(request, id) && sends(pairs, "previewdiff_id"@, #[trigger] decimal(id as nat))
            &&& replies[3] matches Reply::Text(written) && sends(pairs, "inline_comments"@, written@)
            &&& replies[4] matches Reply::Json(proposal) && is_own_url(url, proposal@)
        },
{
    if let Err(ActionView::Post { url, pairs }) = executed(request, base, replies) {
        let id = request_preview_diff(request)->Ok_0;
        let written = replies[3]->Text_0@;
        lemma_review_form(request, id, written);
        assert(selects(request, id));
    }
}

/// A review is reported as submitted only once its form was asked for and answered, and the
/// report says the snapshot, how many inline comments there were, and the vote.
#[verifier::rlimit(80)]
pub proof fn lemma_review_is_reported_once_sent(request: Request, base: Seq<char>, replies: Seq<Reply>)
    requires
        request.op == Operation::ReviewSubmit,
    ensures
        executed(request, base, replies) matches Ok(result) ==> {
            &&& replies.len() >= 7 && replies[6] is Done
            &&& executed(request, base, replies.take(6)) is Err
            &&& executed(request, base, replies.take(6))->Err_0 is Post
            &&& JsonView::Object(result.details).text("kind"@) == Some("inline_review"@)
            &&& JsonView::Object(result.details).text("vote"@) == option_of(request.vote)
            &&& JsonView::Object(result.details).unsigned("preview_diff_id"@) matches Some(id)
                && selects(request, id)
            &&& replies[2] matches Reply::Json(drafts) && JsonView::Object(result.details).unsigned(
                "inline_comment_count"@,
            ) == Some(
                (match drafts@ {
                    JsonView::Object(drafts) => drafts.len(),
                    _ => 0,
                }) as u64,
            )
            &&& replies[0] matches Reply::Json(proposal) && result.source_url == Some(
                match proposal@.text("web_link"@) {
                    Some(page) => page,
                    None => text_of(request.target),
                },
            )
        },
{
    if let Ok(result) = executed(request, base, replies) {
        reveal_strlit("kind");
        reveal_strlit("preview_diff_id");
        reveal_strlit("inline_comment_count");
        reveal_strlit("vote");
        assert("kind"@.len() == 4 && "preview_diff_id"@.len() == 15
            && "inline_comment_count"@.len() == 20 && "vote"@.len() == 4);
        assert("kind"@[0] == 'k');
        assert("vote"@[0] == 'v');
        let id = request_preview_diff(request)->Ok_0;
        assert(selects(request, id));
        lemma_member_at(result.details, 0);
        lemma_member_at(result.details, 1);
        lemma_member_at(result.details, 2);
        lemma_member_at(result.details, 3);
    }
}

/// A review that says anything is sent: where the merge proposal, its current snapshot, the drafts
/// and the proposal and snapshot once more are answered, and the snapshot is the one that is
/// selected and not stale, the next step sends the form.
pub proof fn lemma_review_is_sent(
    request: Request,
    base: Seq<char>,
    replies: Seq<Reply>,
    proposal: JsonView,
    current: JsonView,
    drafts: JsonView,
    id: u64,
)
    requires
        request.op == Operation::ReviewSubmit,
        validated(request) is Ok,
        request_preview_diff(request) == Ok::<u64, crate::error::ErrorView>(id),
        crate::request::required_text(request.op, option_of(request.target), "target"@) is Ok,
        id > 0,
        replies.len() == 6,
        replies[0] matches Reply::Json(value) && value@ == proposal,
        replies[1] matches Reply::Json(value) && value@ == current,
        replies[2] matches Reply::Json(value) && value@ == drafts,
        replies[3] is Text,
        replies[4] matches Reply::Json(value) && value@ == proposal,
        replies[5] matches Reply::Json(value) && value@ == current,
        proposal.text("preview_diff_link"@) is Some,
        proposal.text("self_link"@) matches Some(link) && parsed_url(link) is Ok,
        current.unsigned("id"@) == Some(id),
        current.flag("stale"@) != Some(true),
        drafts == JsonView::Null,
        request.vote is Some || !crate::text::is_blank(text_of(request.body)),
    ensures
        executed(request, base, replies) matches Err(ActionView::Post { .. }),
{
}

/// What is written down as the drafts of a review are those that the proposal was found to have.
pub proof fn lemma_review_writes_its_drafts(request: Request, base: Seq<char>, replies: Seq<Reply>)
    requires
        request.op == Operation::ReviewSubmit,
    ensures
        executed(request, base, replies) matches Err(ActionView::Write { value }) ==> {
            &&& replies.len() == 3
            &&& replies[2] matches Reply::Json(drafts) && (if drafts@ == JsonView::Null {
                value == JsonView::Object(Seq::empty())
            } else {
                value == drafts@
            })
        },
{
}

proof fn lemma_drafts_form(id: u64, written: Seq<char>)
    ensures
        ({
            let pairs = drafts_form(id, written);
            &&& sends(pairs, "ws.op"@, "saveDraftInlineComment"@)
            &&& sends(pairs, "previewdiff_id"@, decimal(id as nat))
            &&& sends(pairs, "comments"@, written)
        }),
{
    reveal_strlit("ws.op");
    reveal_strlit("previewdiff_id");
    reveal_strlit("comments");
    assert("ws.op"@.len() == 5 && "previewdiff_id"@.len() == 14 && "comments"@.len() == 8);
    let pairs = drafts_form(id, written);
    assert(pairs[0].0 == "ws.op"@ && pairs[1].0 == "previewdiff_id"@ && pairs[2].0 == "comments"@);
}

/// The drafts of a snapshot are sent as they were written down, to the merge proposal.
#[verifier::rlimit(80)]
pub proof fn lemma_drafts_are_sent(request: Request, base: Seq<char>, replies: Seq<Reply>)
    requires
        request.op == Operation::ReviewDraftUpdate,
    ensures
        executed(request, base, replies) matches Err(ActionView::Post { url, pairs }) ==> {
            &&& replies.len() == 7
            &&& sends(pairs, "ws.op"@, "saveDraftInlineComment"@)
            &&& exists|id: u64|
                selects(request, id) && sends(pairs, "previewdiff_id"@, #[trigger] decimal(id as nat))
            &&& replies[4] matches Reply::Text(written) && sends(pairs, "comments"@, written@)
            &&& replies[5] matches Reply::Json(proposal) && is_own_url(url, proposal@)
        },
        executed(request, base, replies) is Ok ==> {
            &&& replies.len() >= 8 && replies[7] is Done
            &&& executed(request, base, replies.take(7)) is Err
            &&& executed(request, base, replies.take(7))->Err_0 is Post
        },
{
    if let Err(ActionView::Post { url, pairs }) = executed(request, base, replies) {
        let id = request_preview_diff(request)->Ok_0;
        lemma_drafts_form(id, replies[4]->Text_0@);
        assert(selects(request, id));
    }
}

/// The drafts that are written down are those that the proposal was found to have, with the body
/// of the request, without the blanks around it, on the line of the diff that the file line is
/// mapped to, or with nothing there where the request has no body. The line is one that a comment
/// can stand on: a line of the modified file, or a removed one.
#[verifier::rlimit(80)]
pub proof fn lemma_draft_is_written_on_its_line(
    request: Request,
    base: Seq<char>,
    replies: Seq<Reply>,
    other: Seq<char>,
)
    requires
        request.op == Operation::ReviewDraftUpdate,
    ensures
        executed(request, base, replies) matches Err(ActionView::Write { value }) ==> {
            &&& replies.len() == 4
            &&& replies[2] matches Reply::Text(diff) && replies[3] matches Reply::Json(before) && (
            crate::diff::file_line_location(
                diff@,
                text_of(request.path),
                request.side->0,
                request.file_line->0 as nat,
            ) matches Some(location) && {
                &&& location.side == crate::diff::DiffSide::Modified || location.kind
                    == crate::diff::DiffLineKind::Removed
                &&& value.get(other) == (if other == decimal(location.diff_line) {
                    match request.body {
                        Some(body) => Some(JsonView::Text(trimmed(body@))),
                        None => None,
                    }
                } else {
                    before@.get(other)
                })
            })
        },
{
    if let Err(ActionView::Write { value }) = executed(request, base, replies) {
        let diff = replies[2]->Text_0@;
        let before = replies[3]->Json_0@;
        let drafts = crate::preview::checked_drafts(before)->Ok_0;
        let location = crate::diff::file_line_location(
            diff,
            text_of(request.path),
            request.side->0,
            request.file_line->0 as nat,
        )->0;
        lemma_draft_changes_one_line(drafts, location.diff_line, option_of(request.body), other);
        assert(before.get(other) == member_in(drafts, other));
    }
}

/// The drafts of a review are taken only where each stands on the number of a line and is a text.
/// None at all are none, and anything else is refused.
pub proof fn lemma_drafts_are_checked(answer: JsonView)
    ensures
        answer == JsonView::Null ==> crate::preview::checked_drafts(answer) == Ok::<
            Seq<(Seq<char>, JsonView)>,
            crate::error::ErrorView,
        >(Seq::empty()),
        answer matches JsonView::Object(drafts) ==> {
            &&& crate::preview::checked_drafts(answer) matches Ok(kept) ==> kept == drafts
            &&& crate::preview::checked_drafts(answer) is Ok <==> forall|i: int|
                0 <= i < drafts.len() ==> (#[trigger] drafts[i]).1 is Text
                    && crate::number::unsigned_within(drafts[i].0, usize::MAX as nat) is Some
        },
        answer !is Object && answer !is Null ==> crate::preview::checked_drafts(answer) is Err,
{
    if let JsonView::Object(drafts) = answer {
        if forall|i: int|
            0 <= i < drafts.len() ==> (#[trigger] drafts[i]).1 is Text
                && crate::number::unsigned_within(drafts[i].0, usize::MAX as nat) is Some {
            assert forall|i: int| 0 <= i < drafts.len() implies crate::preview::is_draft(
                #[trigger] drafts[i],
            ) by {}
        }
        if crate::preview::checked_drafts(answer) is Ok {
            assert forall|i: int| 0 <= i < drafts.len() implies (#[trigger] drafts[i]).1 is Text
                && crate::number::unsigned_within(drafts[i].0, usize::MAX as nat) is Some by {
                assert(crate::preview::is_draft(drafts[i]));
            }
        }
    }
}

/// A review without a body, a vote and drafts is refused, and sent to no one.
pub proof fn lemma_empty_review_is_refused(request: Request, base: Seq<char>, replies: Seq<Reply>)
    requires
        request.op == Operation::ReviewSubmit,
        crate::text::is_blank(text_of(request.body)),
        request.vote is None,
        replies.len() >= 3,
        replies[2] matches Reply::Json(drafts) && (drafts@ == JsonView::Null || drafts@
            == JsonView::Object(Seq::empty())),
    ensures
        executed(request, base, replies) is Err,
        executed(request, base, replies)->Err_0 is Fail,
{
}

} // verus!
