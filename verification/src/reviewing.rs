//! The operations that write reviews: drafts of inline comments, and their submission.
//!
//! Each of them fetches the merge proposal and its current snapshot again right before it writes.
use vstd::prelude::*;
use crate::creating::{page_of_proposal, proposal_page, push_value, with_value};
use crate::diff::{DiffLocation, LocationView};
use crate::error::{invalid, Error, ErrorView};
use crate::format::{cat10, cat2, cat6};
use crate::inspecting::{map_requested_line, mapped_line, proposal_at, request_merge_proposal};
use crate::items::{copy_members, put_member, remove_member, with_member, without_member};
use crate::json::{
    member_in, members_view, no_members, number_view, push_member, text_or_null, Json, JsonView,
};
use crate::lines::{or_empty, text_or_empty};
use crate::number::{decimal, decimal_size, decimal_text};
use crate::preview::{
    diff_text_at, enforce_current_preview_diff, enforced_preview, get_diff_text, proposal_api_url,
    proposal_url, review_drafts, review_drafts_at,
};
use crate::report::{name_of_side, side_name};
use crate::request::{request_file_line, request_preview_diff, request_side, Request};
use crate::response::{OperationResult, ResultView};
use crate::steps::{
    done_at, done_reply, fail, or_fail, refuse, result_step, text_at, text_reply, Action,
    ActionView, Reply,
};
use crate::text::{blank, borrow_option, copy, is_blank, opt_view, trim, trimmed};
use crate::threads::{location_json, location_object};
use crate::web::{no_pairs, push_pair};

verus! {

/// The drafts once the body of a request is put on a line, or the draft on the line is removed.
pub open spec fn changed_drafts(
    drafts: Seq<(Seq<char>, JsonView)>,
    line: nat,
    body: Option<Seq<char>>,
) -> Result<Seq<(Seq<char>, JsonView)>, ErrorView> {
    match body {
        Some(body) => if trimmed(body).len() == 0 {
            Err(invalid("draft body cannot be empty"@))
        } else {
            Ok(with_member(drafts, decimal(line), JsonView::Text(trimmed(body))))
        },
        None => Ok(without_member(drafts, decimal(line))),
    }
}

/// What an update does to a draft.
pub open spec fn draft_action(body: Option<Seq<char>>) -> Seq<char> {
    if body is Some {
        "saved"@
    } else {
        "deleted"@
    }
}

/// The drafts once the body of a request is put on a line, or the draft on the line is removed.
pub fn change_drafts(drafts: &Vec<(String, Json)>, line: usize, body: Option<&str>) -> (r: Result<
    Vec<(String, Json)>,
    Error,
>)
    ensures
        crate::preview::drafts_outcome(r) == changed_drafts(
            members_view(drafts@),
            line as nat,
            crate::text::opt_str_view(body),
        ),
{
    match body {
        Some(body) => {
            let body = trim(body);
            if body.as_str().is_empty() {
                return Err(Error::invalid("draft body cannot be empty"));
            }
            Ok(put_member(drafts, decimal_size(line).as_str(), Json::Text(body)))
        },
        None => Ok(remove_member(drafts, decimal_size(line).as_str())),
    }
}

/// The line that a draft stands on, once the proposal, its current snapshot and its text are
/// answered.
pub open spec fn draft_place(request: Request, id: u64, replies: Seq<Reply>) -> Result<
    (JsonView, LocationView),
    ActionView,
> {
    match proposal_at(request, replies, 0) {
        Err(stop) => Err(stop),
        Ok(proposal) => match enforced_preview(proposal, id, replies, 1) {
            Err(stop) => Err(stop),
            Ok(preview_diff) => match diff_text_at(preview_diff, replies, 2) {
                Err(stop) => Err(stop),
                Ok(diff) => match mapped_line(request, diff) {
                    Err(stop) => Err(stop),
                    Ok(location) => if location.is_commentable() {
                        Ok((proposal, location))
                    } else {
                        Err(fail(invalid("original-side comments require a removed line"@)))
                    },
                },
            },
        },
    }
}

/// The URL of the merge proposal that is written to: it is fetched again, and its current
/// snapshot must still be the one that was asked for.
pub open spec fn write_url(request: Request, id: u64, replies: Seq<Reply>, at: int) -> Result<
    Seq<char>,
    ActionView,
> {
    match proposal_at(request, replies, at) {
        Err(stop) => Err(stop),
        Ok(proposal) => match enforced_preview(proposal, id, replies, at + 1) {
            Err(stop) => Err(stop),
            Ok(_) => or_fail(proposal_url(proposal)),
        },
    }
}

fn confirm_write(request: &Request, id: u64, replies: &Vec<Reply>, at: usize) -> (r: Result<
    String,
    Action,
>)
    ensures
        crate::steps::text_step(r) == write_url(*request, id, replies@, at as int),
{
    let proposal = request_merge_proposal(request, replies, at)?;
    assert(at < replies.len());
    enforce_current_preview_diff(proposal, id, replies, at + 1)?;
    match proposal_api_url(proposal) {
        Ok(url) => Ok(url),
        Err(error) => Err(Action::Fail { error }),
    }
}

/// The form that saves drafts.
pub open spec fn drafts_form(id: u64, written: Seq<char>) -> Seq<(Seq<char>, Seq<char>)> {
    Seq::empty().push(("ws.op"@, "saveDraftInlineComment"@)).push(
        ("previewdiff_id"@, decimal(id as nat)),
    ).push(("comments"@, written))
}

/// The report of an update of a draft.
pub open spec fn draft_result(
    request: Request,
    id: u64,
    proposal: JsonView,
    location: LocationView,
    drafts: Seq<(Seq<char>, JsonView)>,
) -> ResultView {
    let action = draft_action(opt_view(request.body));
    ResultView {
        text: "Review draft "@ + action + " on "@ + location.path + ":"@ + decimal(
            location.file_line,
        ) + " ("@ + side_name(location.side) + ", global diff line "@ + (decimal(location.diff_line)
            + ")"@),
        source_url: Some(proposal_page(proposal, request.target->0@)),
        details: Seq::empty().push(("kind"@, JsonView::Text("review_draft_update"@))).push(
            ("preview_diff_id"@, number_view(id)),
        ).push(("action"@, JsonView::Text(action))).push(
            ("location"@, location_object(location)),
        ).push(("drafts"@, JsonView::Object(drafts))),
    }
}

/// Saves or deletes a draft, from where its line is known.
pub open spec fn draft_update_at(
    request: Request,
    id: u64,
    proposal: JsonView,
    location: LocationView,
    replies: Seq<Reply>,
) -> Result<ResultView, ActionView> {
    match review_drafts_at(proposal, id, replies, 3) {
        Err(stop) => Err(stop),
        Ok(drafts) => match or_fail(
            changed_drafts(drafts, location.diff_line, opt_view(request.body)),
        ) {
            Err(stop) => Err(stop),
            Ok(drafts) => match text_at(
                replies,
                4,
                ActionView::Write { value: JsonView::Object(drafts) },
            ) {
                Err(stop) => Err(stop),
                Ok(written) => match write_url(request, id, replies, 5) {
                    Err(stop) => Err(stop),
                    Ok(url) => match done_at(
                        replies,
                        7,
                        ActionView::Post { url, pairs: drafts_form(id, written) },
                    ) {
                        Err(stop) => Err(stop),
                        Ok(_) => Ok(draft_result(request, id, proposal, location, drafts)),
                    },
                },
            },
        },
    }
}

/// Saves or deletes a draft of an inline comment.
pub open spec fn draft_update(request: Request, replies: Seq<Reply>) -> Result<
    ResultView,
    ActionView,
> {
    match or_fail(request_preview_diff(request)) {
        Err(stop) => Err(stop),
        Ok(id) => match or_fail(request_file_line(request)) {
            Err(stop) => Err(stop),
            Ok(_) => match or_fail(request_side(request)) {
                Err(stop) => Err(stop),
                Ok(_) => match draft_place(request, id, replies) {
                    Err(stop) => Err(stop),
                    Ok((proposal, location)) => draft_update_at(
                        request,
                        id,
                        proposal,
                        location,
                        replies,
                    ),
                },
            },
        },
    }
}

fn find_draft_place<'reply>(request: &Request, id: u64, replies: &'reply Vec<Reply>) -> (r: Result<
    (&'reply Json, DiffLocation),
    Action,
>)
    ensures
        (r matches Ok(place) ==> draft_place(*request, id, replies@) == Ok::<
            (JsonView, LocationView),
            ActionView,
        >((place.0@, place.1@))),
        r matches Err(action) ==> draft_place(*request, id, replies@) == Err::<
            (JsonView, LocationView),
            ActionView,
        >(action@),
{
    let proposal = request_merge_proposal(request, replies, 0)?;
    let preview_diff = enforce_current_preview_diff(proposal, id, replies, 1)?;
    let diff = get_diff_text(preview_diff, replies, 2)?;
    let location = map_requested_line(request, diff)?;
    if !location.is_commentable() {
        return Err(refuse("original-side comments require a removed line"));
    }
    Ok((proposal, location))
}

fn report_draft(
    request: &Request,
    id: u64,
    proposal: &Json,
    location: &DiffLocation,
    drafts: Vec<(String, Json)>,
) -> (r: OperationResult)
    requires
        request.target is Some,
    ensures
        r@ == draft_result(*request, id, proposal@, location@, members_view(drafts@)),
{
    let action = match &request.body {
        Some(_) => "saved",
        None => "deleted",
    };
    let target = match &request.target {
        Some(target) => copy(target.as_str()),
        None => or_empty(None),
    };
    let place = cat2(decimal_size(location.diff_line).as_str(), ")");
    let text = cat10(
        "Review draft ",
        action,
        " on ",
        location.path.as_str(),
        ":",
        decimal_text(location.file_line).as_str(),
        " (",
        name_of_side(location.side),
        ", global diff line ",
        place.as_str(),
    );
    let mut details = no_members();
    push_member(&mut details, "kind", Json::of_text("review_draft_update"));
    push_member(&mut details, "preview_diff_id", Json::of_number(id));
    push_member(&mut details, "action", Json::of_text(action));
    push_member(&mut details, "location", location_json(location));
    push_member(&mut details, "drafts", Json::Object(drafts));
    OperationResult { text, source_url: Some(page_of_proposal(proposal, target.as_str())), details }
}

/// Saves or deletes a draft of an inline comment.
pub fn update_review_draft(request: &Request, replies: &Vec<Reply>) -> (r: Result<
    OperationResult,
    Action,
>)
    ensures
        result_step(r) == draft_update(*request, replies@),
{
    let id = match request.preview_diff_id() {
        Ok(id) => id,
        Err(error) => return Err(Action::Fail { error }),
    };
    match request.file_line() {
        Ok(_) => {},
        Err(error) => return Err(Action::Fail { error }),
    }
    match request.side() {
        Ok(_) => {},
        Err(error) => return Err(Action::Fail { error }),
    }
    let (proposal, location) = find_draft_place(request, id, replies)?;
    assert(request.target is Some);
    let drafts = review_drafts(proposal, id, replies, 3)?;
    let drafts = match change_drafts(&drafts, location.diff_line, borrow_option(&request.body)) {
        Ok(drafts) => drafts,
        Err(error) => return Err(Action::Fail { error }),
    };
    let written = text_reply(
        replies,
        4,
        Action::Write { value: Json::Object(copy_members(&drafts)) },
    )?;
    let url = confirm_write(request, id, replies, 5)?;
    let mut pairs = no_pairs();
    push_pair(&mut pairs, "ws.op", "saveDraftInlineComment");
    push_pair(&mut pairs, "previewdiff_id", decimal_text(id).as_str());
    push_pair(&mut pairs, "comments", written);
    done_reply(replies, 7, Action::Post { url, pairs })?;
    Ok(report_draft(request, id, proposal, &location, drafts))
}

/// The form that submits a review.
pub open spec fn review_form(request: Request, id: u64, written: Seq<char>) -> Seq<
    (Seq<char>, Seq<char>),
> {
    with_value(
        Seq::empty().push(("ws.op"@, "createComment"@)).push(
            ("content"@, text_or_empty(opt_view(request.body))),
        ).push(("previewdiff_id"@, decimal(id as nat))).push(("inline_comments"@, written)),
        "vote"@,
        opt_view(request.vote),
    )
}

/// Whether a review says anything.
pub open spec fn has_content(request: Request, drafts: Seq<(Seq<char>, JsonView)>) -> bool {
    !is_blank(text_or_empty(opt_view(request.body))) || request.vote is Some || drafts.len() > 0
}

/// The report of a review that was submitted.
pub open spec fn review_result(request: Request, id: u64, proposal: JsonView, count: nat) -> ResultView {
    let page = proposal_page(proposal, request.target->0@);
    let plural = if count == 1 {
        Seq::empty()
    } else {
        "s"@
    };
    ResultView {
        text: "Review submitted with "@ + decimal(count) + " inline comment"@ + plural + ": "@ + page,
        source_url: Some(page),
        details: Seq::empty().push(("kind"@, JsonView::Text("inline_review"@))).push(
            ("preview_diff_id"@, number_view(id)),
        ).push(("inline_comment_count"@, number_view(count as u64))).push(
            ("vote"@, text_or_null(opt_view(request.vote))),
        ),
    }
}

/// Submits a review, from where its drafts are known.
pub open spec fn submission_at(
    request: Request,
    id: u64,
    proposal: JsonView,
    drafts: Seq<(Seq<char>, JsonView)>,
    replies: Seq<Reply>,
) -> Result<ResultView, ActionView> {
    if !has_content(request, drafts) {
        Err(fail(invalid("review must include content, a vote, or inline drafts"@)))
    } else {
        match text_at(replies, 3, ActionView::Write { value: JsonView::Object(drafts) }) {
            Err(stop) => Err(stop),
            Ok(written) => match write_url(request, id, replies, 4) {
                Err(stop) => Err(stop),
                Ok(url) => match done_at(
                    replies,
                    6,
                    ActionView::Post { url, pairs: review_form(request, id, written) },
                ) {
                    Err(stop) => Err(stop),
                    Ok(_) => Ok(review_result(request, id, proposal, drafts.len())),
                },
            },
        }
    }
}

/// Submits a review with the drafts of its inline comments.
pub open spec fn submission(request: Request, replies: Seq<Reply>) -> Result<
    ResultView,
    ActionView,
> {
    match or_fail(request_preview_diff(request)) {
        Err(stop) => Err(stop),
        Ok(id) => match proposal_at(request, replies, 0) {
            Err(stop) => Err(stop),
            Ok(proposal) => match enforced_preview(proposal, id, replies, 1) {
                Err(stop) => Err(stop),
                Ok(_) => match review_drafts_at(proposal, id, replies, 2) {
                    Err(stop) => Err(stop),
                    Ok(drafts) => submission_at(request, id, proposal, drafts, replies),
                },
            },
        },
    }
}

fn report_review(request: &Request, id: u64, proposal: &Json, count: usize) -> (r: OperationResult)
    requires
        request.target is Some,
    ensures
        r@ == review_result(*request, id, proposal@, count as nat),
{
    let target = match &request.target {
        Some(target) => copy(target.as_str()),
        None => or_empty(None),
    };
    let page = page_of_proposal(proposal, target.as_str());
    let plural = if count == 1 {
        or_empty(None)
    } else {
        copy("s")
    };
    let text = cat6(
        "Review submitted with ",
        decimal_size(count).as_str(),
        " inline comment",
        plural.as_str(),
        ": ",
        page.as_str(),
    );
    let mut details = no_members();
    push_member(&mut details, "kind", Json::of_text("inline_review"));
    push_member(&mut details, "preview_diff_id", Json::of_number(id));
    push_member(&mut details, "inline_comment_count", Json::of_number(count as u64));
    push_member(&mut details, "vote", Json::of_option(borrow_option(&request.vote)));
    OperationResult { text, source_url: Some(page), details }
}

/// Submits a review with the drafts of its inline comments.
pub fn submit_review(request: &Request, replies: &Vec<Reply>) -> (r: Result<OperationResult, Action>)
    ensures
        result_step(r) == submission(*request, replies@),
{
    let id = match request.preview_diff_id() {
        Ok(id) => id,
        Err(error) => return Err(Action::Fail { error }),
    };
    let proposal = request_merge_proposal(request, replies, 0)?;
    assert(request.target is Some);
    enforce_current_preview_diff(proposal, id, replies, 1)?;
    let drafts = review_drafts(proposal, id, replies, 2)?;
    let count = drafts.len();
    assert(members_view(drafts@).len() == drafts@.len());
    let content = or_empty(borrow_option(&request.body));
    if blank(content.as_str()) && request.vote.is_none() && count == 0 {
        return Err(refuse("review must include content, a vote, or inline drafts"));
    }
    let written = text_reply(
        replies,
        3,
        Action::Write { value: Json::Object(copy_members(&drafts)) },
    )?;
    let url = confirm_write(request, id, replies, 4)?;
    let mut pairs = no_pairs();
    push_pair(&mut pairs, "ws.op", "createComment");
    push_pair(&mut pairs, "content", content.as_str());
    push_pair(&mut pairs, "previewdiff_id", decimal_text(id).as_str());
    push_pair(&mut pairs, "inline_comments", written);
    push_value(&mut pairs, "vote", &request.vote);
    done_reply(replies, 6, Action::Post { url, pairs })?;
    Ok(report_review(request, id, proposal, count))
}

/// Whether the last two answers are the merge proposal of a request and its current snapshot,
/// which is the one that was asked for and is not marked stale.
pub open spec fn just_confirmed(replies: Seq<Reply>, id: u64) -> bool {
    let last = replies.len() - 1;
    last >= 1 && match (replies[last - 1], replies[last]) {
        (Reply::Json(proposal), Reply::Json(current)) => current@.unsigned("id"@) == Some(id)
            && current@.flag("stale"@) != Some(true),
        _ => false,
    }
}

/// A draft is saved or deleted only right after the merge proposal and its current snapshot were
/// fetched again and the snapshot was found to be the requested one and not stale. The form goes
/// to that proposal and names that snapshot.
pub proof fn lemma_draft_write_is_confirmed(request: Request, replies: Seq<Reply>)
    ensures
        draft_update(request, replies) matches Err(ActionView::Post { url, pairs }) ==> {
            &&& request_preview_diff(request) matches Ok(id) && just_confirmed(replies, id)
            &&& replies[replies.len() - 2] matches Reply::Json(proposal) && proposal_url(proposal@)
                == Ok::<Seq<char>, ErrorView>(url)
            &&& pairs.len() == 3 && pairs[1] == ("previewdiff_id"@, decimal(
                request_preview_diff(request)->Ok_0 as nat,
            ))
        },
{
}

/// A review is submitted only right after the merge proposal and its current snapshot were
/// fetched again and the snapshot was found to be the requested one and not stale. The form goes
/// to that proposal and names that snapshot.
pub proof fn lemma_review_write_is_confirmed(request: Request, replies: Seq<Reply>)
    ensures
        submission(request, replies) matches Err(ActionView::Post { url, pairs }) ==> {
            &&& request_preview_diff(request) matches Ok(id) && just_confirmed(replies, id)
            &&& replies[replies.len() - 2] matches Reply::Json(proposal) && proposal_url(proposal@)
                == Ok::<Seq<char>, ErrorView>(url)
            &&& pairs.len() >= 4 && pairs[2] == ("previewdiff_id"@, decimal(
                request_preview_diff(request)->Ok_0 as nat,
            ))
        },
{
}

/// A saved draft is found again on its line, a deleted one is not, and the drafts on all other
/// lines stay.
pub proof fn lemma_draft_changes_one_line(
    drafts: Seq<(Seq<char>, JsonView)>,
    line: nat,
    body: Option<Seq<char>>,
    other: Seq<char>,
)
    ensures
        changed_drafts(drafts, line, body) matches Ok(changed) ==> member_in(changed, other) == (
        if other == decimal(line) {
            match body {
                Some(body) => Some(JsonView::Text(trimmed(body))),
                None => None,
            }
        } else {
            member_in(drafts, other)
        }),
{
    if let Some(body) = body {
        crate::items::lemma_put_member_found(
            drafts,
            decimal(line),
            JsonView::Text(trimmed(body)),
            other,
        );
    } else {
        crate::items::lemma_removed_member_missing(drafts, decimal(line), other);
    }
}

} // verus!
