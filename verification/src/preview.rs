//! The snapshots of a merge proposal's diff, and the drafts of its review.
use vstd::prelude::*;
use crate::error::{invalid, number_outcome, text_outcome, unit_outcome, Error, ErrorView};
use crate::fields::{owned_field, text_field};
use crate::format::{cat3, cat4};
use crate::json::{items_view, members_view, no_members, Json, JsonView};
use crate::number::{decimal, decimal_text, parse_usize, unsigned_within};
use crate::steps::{
    entries_at, entries_reply, fail, get, get_all, get_all_url, get_url, json_at, json_reply,
    json_step, or_fail, refuse, Action, ActionView, Place, PlaceView, Reply,
};
use crate::text::copy;
use crate::web::{no_pairs, parse_url, parsed_url, push_pair, UrlQuery, UrlQueryView};

verus! {

/// The identifier of a snapshot of a diff.
pub open spec fn preview_id(preview_diff: JsonView) -> Result<u64, ErrorView> {
    match preview_diff.unsigned("id"@) {
        Some(id) => if id > 0 {
            Ok(id)
        } else {
            Err(invalid("Launchpad returned a preview diff without an ID"@))
        },
        None => Err(invalid("Launchpad returned a preview diff without an ID"@)),
    }
}

/// The identifier of a snapshot of a diff.
pub fn preview_diff_id(preview_diff: &Json) -> (r: Result<u64, Error>)
    ensures
        number_outcome(r) == preview_id(preview_diff@),
{
    match preview_diff.unsigned("id") {
        Some(id) => if id > 0 {
            Ok(id)
        } else {
            Err(Error::invalid("Launchpad returned a preview diff without an ID"))
        },
        None => Err(Error::invalid("Launchpad returned a preview diff without an ID")),
    }
}

/// The first snapshot with an identifier.
pub open spec fn preview_with_id(preview_diffs: Seq<JsonView>, id: u64) -> Option<JsonView>
    decreases preview_diffs.len(),
{
    if preview_diffs.len() == 0 {
        None
    } else if preview_diffs[0].unsigned("id"@) == Some(id) {
        Some(preview_diffs[0])
    } else {
        preview_with_id(preview_diffs.skip(1), id)
    }
}

/// The snapshot with an identifier, or the error where the proposal has none.
pub open spec fn owned_preview(preview_diffs: Seq<JsonView>, id: u64) -> Result<JsonView, ErrorView> {
    match preview_with_id(preview_diffs, id) {
        Some(preview_diff) => Ok(preview_diff),
        None => Err(
            invalid(
                "preview diff "@ + decimal(id as nat) + " does not belong to this merge proposal"@,
            ),
        ),
    }
}

/// What an outcome with a borrowed value holds.
pub open spec fn value_outcome(r: Result<&Json, Error>) -> Result<JsonView, ErrorView> {
    match r {
        Ok(value) => Ok(value@),
        Err(error) => Err(error@),
    }
}

/// The snapshot with an identifier, or the error where the proposal has none.
pub fn find_preview_diff<'value>(preview_diffs: &'value Vec<Json>, id: u64) -> (r: Result<
    &'value Json,
    Error,
>)
    ensures
        value_outcome(r) == owned_preview(items_view(preview_diffs@), id),
{
    let ghost all = items_view(preview_diffs@);
    assert(all.skip(0) =~= all);
    for i in 0..preview_diffs.len()
        invariant
            all == items_view(preview_diffs@),
            preview_with_id(all, id) == preview_with_id(all.skip(i as int), id),
    {
        assert(all.skip(i as int)[0] == preview_diffs@[i as int]@);
        assert(all.skip(i as int).skip(1) =~= all.skip(i + 1));
        if let Some(found) = preview_diffs[i].unsigned("id") {
            if found == id {
                return Ok(&preview_diffs[i]);
            }
        }
    }
    Err(
        Error::invalid(
            cat3(
                "preview diff ",
                decimal_text(id).as_str(),
                " does not belong to this merge proposal",
            ).as_str(),
        ),
    )
}

/// Whether a snapshot is the current one and not stale.
pub open spec fn current_checked(current: JsonView, requested: u64) -> Result<(), ErrorView> {
    match preview_id(current) {
        Err(error) => Err(error),
        Ok(id) => if requested != id {
            Err(
                invalid(
                    "preview diff "@ + decimal(requested as nat)
                        + " is stale; current preview diff is "@ + decimal(id as nat),
                ),
            )
        } else if current.flag("stale"@) == Some(true) {
            Err(invalid("preview diff "@ + decimal(requested as nat) + " is marked stale"@))
        } else {
            Ok(())
        },
    }
}

/// Refuses a snapshot that is not the current one, or is marked stale.
pub fn validate_current_preview_diff(current: &Json, requested: u64) -> (r: Result<(), Error>)
    ensures
        unit_outcome(r) == current_checked(current@, requested),
{
    let id = match preview_diff_id(current) {
        Ok(id) => id,
        Err(error) => return Err(error),
    };
    if requested != id {
        return Err(
            Error::invalid(
                cat4(
                    "preview diff ",
                    decimal_text(requested).as_str(),
                    " is stale; current preview diff is ",
                    decimal_text(id).as_str(),
                ).as_str(),
            ),
        );
    }
    let stale = match current.flag("stale") {
        Some(stale) => stale,
        None => false,
    };
    if stale {
        return Err(
            Error::invalid(
                cat3("preview diff ", decimal_text(requested).as_str(), " is marked stale").as_str(),
            ),
        );
    }
    Ok(())
}

/// A link of a resource, or the failure where it has none.
pub open spec fn link_in(resource: JsonView, name: Seq<char>, reason: Seq<char>) -> Result<
    Seq<char>,
    ActionView,
> {
    match resource.text(name) {
        Some(link) => Ok(link),
        None => Err(fail(invalid(reason))),
    }
}

/// A link of a resource, or the failure where it has none.
pub fn find_link<'value>(resource: &'value Json, name: &str, reason: &str) -> (r: Result<
    &'value str,
    Action,
>)
    ensures
        crate::steps::str_step(r) == link_in(resource@, name@, reason@),
{
    match text_field(resource, name) {
        Some(link) => Ok(link),
        None => Err(refuse(reason)),
    }
}

/// The current snapshot of a merge proposal's diff, as an answer.
pub open spec fn current_preview(proposal: JsonView, replies: Seq<Reply>, at: int) -> Result<
    JsonView,
    ActionView,
> {
    match link_in(
        proposal,
        "preview_diff_link"@,
        "merge proposal has no current preview diff"@,
    ) {
        Err(stop) => Err(stop),
        Ok(link) => json_at(replies, at, get(link)),
    }
}

/// The current snapshot of a merge proposal's diff, as an answer.
pub fn current_preview_diff<'reply>(
    proposal: &Json,
    replies: &'reply Vec<Reply>,
    at: usize,
) -> (r: Result<&'reply Json, Action>)
    ensures
        json_step(r) == current_preview(proposal@, replies@, at as int),
{
    match find_link(
        proposal,
        "preview_diff_link",
        "merge proposal has no current preview diff",
    ) {
        Err(stop) => Err(stop),
        Ok(link) => json_reply(replies, at, get_url(link)),
    }
}

/// All snapshots of a merge proposal's diff, as an answer.
pub open spec fn preview_history(proposal: JsonView, replies: Seq<Reply>, at: int) -> Result<
    Seq<JsonView>,
    ActionView,
> {
    match link_in(
        proposal,
        "preview_diffs_collection_link"@,
        "merge proposal has no preview diff history"@,
    ) {
        Err(stop) => Err(stop),
        Ok(link) => entries_at(replies, at, get_all(link)),
    }
}

/// All snapshots of a merge proposal's diff, as an answer.
pub fn preview_diff_history<'reply>(
    proposal: &Json,
    replies: &'reply Vec<Reply>,
    at: usize,
) -> (r: Result<&'reply Vec<Json>, Action>)
    ensures
        crate::steps::entries_step(r) == preview_history(proposal@, replies@, at as int),
{
    match find_link(
        proposal,
        "preview_diffs_collection_link",
        "merge proposal has no preview diff history",
    ) {
        Err(stop) => Err(stop),
        Ok(link) => entries_reply(replies, at, get_all_url(link)),
    }
}

/// The snapshot with an identifier, or the current one where none is asked for.
pub open spec fn preview_at(
    proposal: JsonView,
    requested: Option<u64>,
    replies: Seq<Reply>,
    at: int,
) -> Result<JsonView, ActionView> {
    match requested {
        Some(id) => match preview_history(proposal, replies, at) {
            Err(stop) => Err(stop),
            Ok(preview_diffs) => or_fail(owned_preview(preview_diffs, id)),
        },
        None => current_preview(proposal, replies, at),
    }
}

/// The snapshot with an identifier, or the current one where none is asked for.
pub fn get_preview_diff<'reply>(
    proposal: &Json,
    requested: Option<u64>,
    replies: &'reply Vec<Reply>,
    at: usize,
) -> (r: Result<&'reply Json, Action>)
    ensures
        json_step(r) == preview_at(proposal@, requested, replies@, at as int),
{
    match requested {
        Some(id) => match preview_diff_history(proposal, replies, at) {
            Err(stop) => Err(stop),
            Ok(preview_diffs) => match find_preview_diff(preview_diffs, id) {
                Ok(preview_diff) => Ok(preview_diff),
                Err(error) => Err(Action::Fail { error }),
            },
        },
        None => current_preview_diff(proposal, replies, at),
    }
}

/// The current snapshot of a merge proposal's diff, which must be the one that was asked for.
pub open spec fn enforced_preview(
    proposal: JsonView,
    requested: u64,
    replies: Seq<Reply>,
    at: int,
) -> Result<JsonView, ActionView> {
    match current_preview(proposal, replies, at) {
        Err(stop) => Err(stop),
        Ok(current) => match current_checked(current, requested) {
            Ok(_) => Ok(current),
            Err(error) => Err(fail(error)),
        },
    }
}

/// The current snapshot of a merge proposal's diff, which must be the one that was asked for.
pub fn enforce_current_preview_diff<'reply>(
    proposal: &Json,
    requested: u64,
    replies: &'reply Vec<Reply>,
    at: usize,
) -> (r: Result<&'reply Json, Action>)
    ensures
        json_step(r) == enforced_preview(proposal@, requested, replies@, at as int),
{
    match current_preview_diff(proposal, replies, at) {
        Err(stop) => Err(stop),
        Ok(current) => match validate_current_preview_diff(current, requested) {
            Ok(_) => Ok(current),
            Err(error) => Err(Action::Fail { error }),
        },
    }
}

/// The text of a snapshot, as an answer.
pub open spec fn diff_text_at(preview_diff: JsonView, replies: Seq<Reply>, at: int) -> Result<
    Seq<char>,
    ActionView,
> {
    match link_in(preview_diff, "diff_text_link"@, "preview diff has no diff text"@) {
        Err(stop) => Err(stop),
        Ok(link) => crate::steps::text_at(replies, at, ActionView::DiffText { link }),
    }
}

/// The text of a snapshot, as an answer.
pub fn get_diff_text<'reply>(
    preview_diff: &Json,
    replies: &'reply Vec<Reply>,
    at: usize,
) -> (r: Result<&'reply str, Action>)
    ensures
        crate::steps::str_step(r) == diff_text_at(preview_diff@, replies@, at as int),
{
    match find_link(preview_diff, "diff_text_link", "preview diff has no diff text") {
        Err(stop) => Err(stop),
        Ok(link) => crate::steps::text_reply(replies, at, Action::DiffText { link: copy(link) }),
    }
}

/// The URL of a merge proposal in the web service, given what its link parses to.
pub open spec fn parsed_link(link: Seq<char>, parsed: Result<crate::web::UrlView, Seq<char>>) -> Result<
    Seq<char>,
    ErrorView,
> {
    match parsed {
        Ok(url) => Ok(url.text),
        Err(source) => Err(ErrorView::Url { url: link, source }),
    }
}

/// The URL of a merge proposal in the web service.
pub open spec fn proposal_url(proposal: JsonView) -> Result<Seq<char>, ErrorView> {
    match proposal.text("self_link"@) {
        Some(link) => parsed_link(link, parsed_url(link)),
        None => Err(invalid("merge proposal has no API link"@)),
    }
}

/// The URL of a merge proposal in the web service.
pub fn proposal_api_url(proposal: &Json) -> (r: Result<String, Error>)
    ensures
        text_outcome(r) == proposal_url(proposal@),
{
    match text_field(proposal, "self_link") {
        Some(link) => match parse_url(link) {
            Ok(url) => Ok(url.text),
            Err(source) => Err(Error::Url { url: copy(link), source }),
        },
        None => Err(Error::invalid("merge proposal has no API link")),
    }
}

/// The pairs that ask a merge proposal for an operation on a snapshot of its diff.
pub open spec fn review_pairs(operation: Seq<char>, preview_diff_id: u64) -> Seq<
    (Seq<char>, Seq<char>),
> {
    Seq::empty().push(("ws.op"@, operation)).push(
        ("previewdiff_id"@, decimal(preview_diff_id as nat)),
    )
}

/// The action of asking a merge proposal for an operation on a snapshot of its diff.
pub open spec fn review_operation(
    proposal: JsonView,
    operation: Seq<char>,
    preview_diff_id: u64,
) -> ActionView {
    match proposal.text("self_link"@) {
        Some(base) => ActionView::Get {
            place: PlaceView::Query(
                UrlQueryView { base, pairs: review_pairs(operation, preview_diff_id) },
            ),
        },
        None => fail(invalid("merge proposal has no API link"@)),
    }
}

/// The action of asking a merge proposal for an operation on a snapshot of its diff.
pub fn review_operation_url(proposal: &Json, operation: &str, preview_diff_id: u64) -> (r: Action)
    ensures
        r@ == review_operation(proposal@, operation@, preview_diff_id),
{
    match owned_field(proposal, "self_link") {
        Some(base) => {
            let mut pairs = no_pairs();
            push_pair(&mut pairs, "ws.op", operation);
            push_pair(&mut pairs, "previewdiff_id", decimal_text(preview_diff_id).as_str());
            Action::Get { place: Place::Query(UrlQuery { base, pairs }) }
        },
        None => refuse("merge proposal has no API link"),
    }
}

/// What a request to a merge proposal that has no link stops with comes before any answer.
pub open spec fn review_reply(
    proposal: JsonView,
    operation: Seq<char>,
    preview_diff_id: u64,
    replies: Seq<Reply>,
    at: int,
) -> Result<JsonView, ActionView> {
    match review_operation(proposal, operation, preview_diff_id) {
        ActionView::Fail { error } => Err(ActionView::Fail { error }),
        ask => json_at(replies, at, ask),
    }
}

fn review_answer<'reply>(
    proposal: &Json,
    operation: &str,
    preview_diff_id: u64,
    replies: &'reply Vec<Reply>,
    at: usize,
) -> (r: Result<&'reply Json, Action>)
    ensures
        json_step(r) == review_reply(proposal@, operation@, preview_diff_id, replies@, at as int),
{
    match review_operation_url(proposal, operation, preview_diff_id) {
        Action::Fail { error } => Err(Action::Fail { error }),
        ask => json_reply(replies, at, ask),
    }
}

/// The published inline comments on a snapshot, as an answer.
pub open spec fn inline_comments_at(
    proposal: JsonView,
    preview_diff_id: u64,
    replies: Seq<Reply>,
    at: int,
) -> Result<Seq<JsonView>, ActionView> {
    match review_reply(proposal, "getInlineComments"@, preview_diff_id, replies, at) {
        Err(stop) => Err(stop),
        Ok(JsonView::Array(comments)) => Ok(comments),
        Ok(_) => Err(fail(invalid("Launchpad returned invalid inline comments"@))),
    }
}

/// The published inline comments on a snapshot, as an answer.
pub fn inline_comments<'reply>(
    proposal: &Json,
    preview_diff_id: u64,
    replies: &'reply Vec<Reply>,
    at: usize,
) -> (r: Result<&'reply Vec<Json>, Action>)
    ensures
        crate::steps::entries_step(r) == inline_comments_at(
            proposal@,
            preview_diff_id,
            replies@,
            at as int,
        ),
{
    match review_answer(proposal, "getInlineComments", preview_diff_id, replies, at) {
        Err(stop) => Err(stop),
        Ok(Json::Array(comments)) => Ok(comments),
        Ok(_) => Err(refuse("Launchpad returned invalid inline comments")),
    }
}

/// Whether a draft stands on a line of the diff and is a text.
pub open spec fn is_draft(draft: (Seq<char>, JsonView)) -> bool {
    unsigned_within(draft.0, usize::MAX as nat) is Some && draft.1 is Text
}

/// The drafts of a review in an answer of Launchpad.
pub open spec fn checked_drafts(answer: JsonView) -> Result<Seq<(Seq<char>, JsonView)>, ErrorView> {
    match answer {
        JsonView::Null => Ok(Seq::empty()),
        JsonView::Object(drafts) => if forall|i: int|
            0 <= i < drafts.len() ==> is_draft(#[trigger] drafts[i]) {
            Ok(drafts)
        } else {
            Err(invalid("Launchpad returned invalid review drafts"@))
        },
        _ => Err(invalid("Launchpad returned invalid review drafts"@)),
    }
}

/// What an outcome with drafts holds.
pub open spec fn drafts_outcome(r: Result<Vec<(String, Json)>, Error>) -> Result<
    Seq<(Seq<char>, JsonView)>,
    ErrorView,
> {
    match r {
        Ok(drafts) => Ok(members_view(drafts@)),
        Err(error) => Err(error@),
    }
}

/// The drafts of a review in an answer of Launchpad. Null stands for none; every draft must
/// stand on a line of the diff and be a text.
pub fn check_drafts(answer: &Json) -> (r: Result<Vec<(String, Json)>, Error>)
    ensures
        drafts_outcome(r) == checked_drafts(answer@),
{
    match answer {
        Json::Null => Ok(no_members()),
        Json::Object(drafts) => {
            let ghost all = members_view(drafts@);
            for i in 0..drafts.len()
                invariant
                    all == members_view(drafts@),
                    answer@ == JsonView::Object(all),
                    forall|j: int| 0 <= j < i ==> is_draft(#[trigger] all[j]),
            {
                assert(all[i as int] == (drafts@[i as int].0@, drafts@[i as int].1@));
                let valid = parse_usize(drafts[i].0.as_str()).is_some() && drafts[i].1.as_str().is_some();
                if !valid {
                    assert(!is_draft(all[i as int]));
                    return Err(Error::invalid("Launchpad returned invalid review drafts"));
                }
            }
            Ok(crate::items::copy_members(drafts))
        },
        _ => Err(Error::invalid("Launchpad returned invalid review drafts")),
    }
}

/// The drafts of a review of a snapshot, as an answer.
pub open spec fn review_drafts_at(
    proposal: JsonView,
    preview_diff_id: u64,
    replies: Seq<Reply>,
    at: int,
) -> Result<Seq<(Seq<char>, JsonView)>, ActionView> {
    match review_reply(proposal, "getDraftInlineComments"@, preview_diff_id, replies, at) {
        Err(stop) => Err(stop),
        Ok(answer) => or_fail(checked_drafts(answer)),
    }
}

/// What a step to drafts holds.
pub open spec fn drafts_step(r: Result<Vec<(String, Json)>, Action>) -> Result<
    Seq<(Seq<char>, JsonView)>,
    ActionView,
> {
    match r {
        Ok(drafts) => Ok(members_view(drafts@)),
        Err(action) => Err(action@),
    }
}

/// The drafts of a review of a snapshot, as an answer.
pub fn review_drafts(
    proposal: &Json,
    preview_diff_id: u64,
    replies: &Vec<Reply>,
    at: usize,
) -> (r: Result<Vec<(String, Json)>, Action>)
    ensures
        drafts_step(r) == review_drafts_at(proposal@, preview_diff_id, replies@, at as int),
{
    match review_answer(proposal, "getDraftInlineComments", preview_diff_id, replies, at) {
        Err(stop) => Err(stop),
        Ok(answer) => match check_drafts(answer) {
            Ok(drafts) => Ok(drafts),
            Err(error) => Err(Action::Fail { error }),
        },
    }
}

/// A snapshot that passes is the one that was asked for, and is not marked stale.
pub proof fn lemma_checked_is_current(current: JsonView, requested: u64)
    requires
        current_checked(current, requested) is Ok,
    ensures
        current.unsigned("id"@) == Some(requested),
        requested > 0,
        current.flag("stale"@) != Some(true),
{
}

/// A snapshot that is found has the identifier that was asked for, and is one of those of the
/// proposal.
pub proof fn lemma_found_preview(preview_diffs: Seq<JsonView>, id: u64)
    ensures
        owned_preview(preview_diffs, id) matches Ok(found) ==> preview_diffs.contains(found)
            && found.unsigned("id"@) == Some(id),
        owned_preview(preview_diffs, id) is Err ==> forall|i: int|
            0 <= i < preview_diffs.len() ==> (#[trigger] preview_diffs[i]).unsigned("id"@) != Some(id),
    decreases preview_diffs.len(),
{
    if preview_diffs.len() > 0 {
        let rest = preview_diffs.skip(1);
        lemma_found_preview(rest, id);
        if preview_diffs[0].unsigned("id"@) == Some(id) {
            assert(preview_diffs[0] == preview_diffs[0]);
        } else {
            match preview_with_id(rest, id) {
                Some(found) => {
                    let i = choose|i: int| 0 <= i < rest.len() && rest[i] == found;
                    assert(preview_diffs[i + 1] == found);
                },
                None => {
                    assert forall|i: int| 0 <= i < preview_diffs.len() implies (
                    #[trigger] preview_diffs[i]).unsigned("id"@) != Some(id) by {
                        if i > 0 {
                            assert(rest[i - 1] == preview_diffs[i]);
                        }
                    }
                },
            }
        }
    }
}

} // verus!
