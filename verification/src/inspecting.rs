//! The operations that inspect the diff of a merge proposal and search Launchpad.
use vstd::prelude::*;
use crate::diff::{file_line_location, map_file_line, LocationView};
use crate::error::invalid;
use crate::fields::{id_of, owned_field, resource_id, text_field};
use crate::format::cat2;
use crate::items::{copy_items, first_items, take_items};
use crate::json::{
    items_view, no_members, number_or_null, number_view, push_member, text_or_null, Json, JsonView,
};
use crate::number::{decimal, decimal_size};
use crate::preview::{
    current_preview, current_preview_diff, diff_text_at, get_diff_text, get_preview_diff,
    inline_comments, inline_comments_at, link_in, find_link, preview_at, preview_diff_history,
    preview_diff_id, preview_history, preview_id, review_drafts, review_drafts_at,
};
use crate::render::render_repository;
use crate::report::{
    bug_search_document, diff_location_document, inline_comments_document, preview_diffs_document,
    proposal_search_document, render_bug_search, render_diff_location, render_inline_comments,
    render_preview_diffs, render_proposal_search, render_review_drafts, review_drafts_document,
};
use crate::repository::{api_url, normalise_repository, normalised_repository, service_url};
use crate::request::{
    filter_values, named_pairs, push_pairs, request_file_line, request_limit, request_preview_diff,
    request_side, required_text, OneOrMany, Request,
};
use crate::response::{OperationResult, ResultView};
use crate::steps::{
    entries_at, entries_reply, fail, json_at, json_reply, json_step, or_fail, refuse, result_step,
    Action, ActionView, Place, PlaceView, Reply,
};
use crate::text::{borrow_option, copy, opt_view, views};
use crate::threads::{location_json, location_object};
use crate::viewing::{get_repository, repository_at, repository_result};
use crate::web::{no_pairs, pairs_view, push_pair, UrlQuery, UrlQueryView};

verus! {

/// The merge proposal that a request is about, as an answer.
pub open spec fn proposal_at(request: Request, replies: Seq<Reply>, at: int) -> Result<
    JsonView,
    ActionView,
> {
    match or_fail(required_text(request.op, opt_view(request.target), "target"@)) {
        Err(stop) => Err(stop),
        Ok(target) => json_at(replies, at, ActionView::Proposal { target }),
    }
}

/// The merge proposal that a request is about, as an answer.
pub fn request_merge_proposal<'reply>(
    request: &Request,
    replies: &'reply Vec<Reply>,
    at: usize,
) -> (r: Result<&'reply Json, Action>)
    ensures
        json_step(r) == proposal_at(*request, replies@, at as int),
{
    match request.target() {
        Ok(target) => json_reply(replies, at, Action::Proposal { target: copy(target) }),
        Err(error) => Err(Action::Fail { error }),
    }
}

/// The identifier of a merge proposal, or the failure where it has none.
pub open spec fn required_id(proposal: JsonView) -> Result<Seq<char>, ActionView> {
    match id_of(proposal) {
        Some(id) => Ok(id),
        None => Err(fail(invalid("merge proposal has no ID"@))),
    }
}

/// The identifier of a merge proposal, or the failure where it has none.
pub fn require_id(proposal: &Json) -> (r: Result<String, Action>)
    ensures
        crate::steps::text_step(r) == required_id(proposal@),
{
    match resource_id(proposal) {
        Some(id) => Ok(id),
        None => Err(refuse("merge proposal has no ID")),
    }
}

/// The snapshots of the diff of a merge proposal.
pub open spec fn preview_diffs_view(request: Request, replies: Seq<Reply>) -> Result<
    ResultView,
    ActionView,
> {
    match proposal_at(request, replies, 0) {
        Err(stop) => Err(stop),
        Ok(proposal) => match preview_history(proposal, replies, 1) {
            Err(stop) => Err(stop),
            Ok(preview_diffs) => match current_preview(proposal, replies, 2) {
                Err(stop) => Err(stop),
                Ok(current) => match or_fail(preview_id(current)) {
                    Err(stop) => Err(stop),
                    Ok(current_id) => match required_id(proposal) {
                        Err(stop) => Err(stop),
                        Ok(id) => Ok(
                            ResultView {
                                text: preview_diffs_document(preview_diffs, current_id, id),
                                source_url: proposal.text("web_link"@),
                                details: Seq::empty().push(
                                    ("kind"@, JsonView::Text("preview_diff_history"@)),
                                ).push(("current_preview_diff_id"@, number_view(current_id))).push(
                                    ("preview_diffs"@, JsonView::Array(preview_diffs)),
                                ),
                            },
                        ),
                    },
                },
            },
        },
    }
}

/// The snapshots of the diff of a merge proposal.
pub fn view_preview_diffs(request: &Request, replies: &Vec<Reply>) -> (r: Result<
    OperationResult,
    Action,
>)
    ensures
        result_step(r) == preview_diffs_view(*request, replies@),
{
    let proposal = request_merge_proposal(request, replies, 0)?;
    let preview_diffs = preview_diff_history(proposal, replies, 1)?;
    let current = current_preview_diff(proposal, replies, 2)?;
    let current_id = match preview_diff_id(current) {
        Ok(id) => id,
        Err(error) => return Err(Action::Fail { error }),
    };
    let id = require_id(proposal)?;
    let mut details = no_members();
    push_member(&mut details, "kind", Json::of_text("preview_diff_history"));
    push_member(&mut details, "current_preview_diff_id", Json::of_number(current_id));
    push_member(&mut details, "preview_diffs", Json::Array(copy_items(preview_diffs)));
    Ok(
        OperationResult {
            text: render_preview_diffs(preview_diffs, current_id, id.as_str()),
            source_url: owned_field(proposal, "web_link"),
            details,
        },
    )
}

/// The merge proposal of a request and the snapshot that it selects, which must be one of the
/// proposal's.
pub open spec fn selected_snapshot_at(request: Request, replies: Seq<Reply>) -> Result<
    (u64, JsonView, JsonView),
    ActionView,
> {
    match or_fail(request_preview_diff(request)) {
        Err(stop) => Err(stop),
        Ok(id) => match proposal_at(request, replies, 0) {
            Err(stop) => Err(stop),
            Ok(proposal) => match preview_at(proposal, Some(id), replies, 1) {
                Err(stop) => Err(stop),
                Ok(preview_diff) => Ok((id, proposal, preview_diff)),
            },
        },
    }
}

fn select_snapshot<'reply>(request: &Request, replies: &'reply Vec<Reply>) -> (r: Result<
    (u64, &'reply Json, &'reply Json),
    Action,
>)
    ensures
        (r matches Ok(selected) ==> selected_snapshot_at(*request, replies@) == Ok::<
            (u64, JsonView, JsonView),
            ActionView,
        >((selected.0, selected.1@, selected.2@))),
        r matches Err(action) ==> selected_snapshot_at(*request, replies@) == Err::<
            (u64, JsonView, JsonView),
            ActionView,
        >(action@),
{
    let id = match request.preview_diff_id() {
        Ok(id) => id,
        Err(error) => return Err(Action::Fail { error }),
    };
    let proposal = request_merge_proposal(request, replies, 0)?;
    let preview_diff = get_preview_diff(proposal, Some(id), replies, 1)?;
    Ok((id, proposal, preview_diff))
}

/// The published inline comments on a snapshot of a diff.
pub open spec fn inline_comments_view(request: Request, replies: Seq<Reply>) -> Result<
    ResultView,
    ActionView,
> {
    match selected_snapshot_at(request, replies) {
        Err(stop) => Err(stop),
        Ok((preview_diff_id, proposal, _)) => match inline_comments_at(
            proposal,
            preview_diff_id,
            replies,
            2,
        ) {
            Err(stop) => Err(stop),
            Ok(comments) => match required_id(proposal) {
                Err(stop) => Err(stop),
                Ok(id) => Ok(
                    ResultView {
                        text: inline_comments_document(comments, preview_diff_id, id),
                        source_url: proposal.text("web_link"@),
                        details: Seq::empty().push(
                            ("kind"@, JsonView::Text("inline_comments"@)),
                        ).push(("preview_diff_id"@, number_view(preview_diff_id))).push(
                            ("comments"@, JsonView::Array(comments)),
                        ),
                    },
                ),
            },
        },
    }
}

/// The published inline comments on a snapshot of a diff.
pub fn view_inline_comments(request: &Request, replies: &Vec<Reply>) -> (r: Result<
    OperationResult,
    Action,
>)
    ensures
        result_step(r) == inline_comments_view(*request, replies@),
{
    let (preview_diff_id, proposal, _) = select_snapshot(request, replies)?;
    let comments = inline_comments(proposal, preview_diff_id, replies, 2)?;
    let id = require_id(proposal)?;
    let mut details = no_members();
    push_member(&mut details, "kind", Json::of_text("inline_comments"));
    push_member(&mut details, "preview_diff_id", Json::of_number(preview_diff_id));
    push_member(&mut details, "comments", Json::Array(copy_items(comments)));
    Ok(
        OperationResult {
            text: render_inline_comments(comments, preview_diff_id, id.as_str()),
            source_url: owned_field(proposal, "web_link"),
            details,
        },
    )
}

/// The drafts of a review of a snapshot of a diff.
pub open spec fn review_drafts_view(request: Request, replies: Seq<Reply>) -> Result<
    ResultView,
    ActionView,
> {
    match selected_snapshot_at(request, replies) {
        Err(stop) => Err(stop),
        Ok((preview_diff_id, proposal, _)) => match review_drafts_at(
            proposal,
            preview_diff_id,
            replies,
            2,
        ) {
            Err(stop) => Err(stop),
            Ok(drafts) => match required_id(proposal) {
                Err(stop) => Err(stop),
                Ok(id) => Ok(
                    ResultView {
                        text: review_drafts_document(JsonView::Object(drafts), preview_diff_id, id),
                        source_url: proposal.text("web_link"@),
                        details: Seq::empty().push(("kind"@, JsonView::Text("review_drafts"@))).push(
                            ("preview_diff_id"@, number_view(preview_diff_id)),
                        ).push(("drafts"@, JsonView::Object(drafts))),
                    },
                ),
            },
        },
    }
}

/// The drafts of a review of a snapshot of a diff.
pub fn view_review_drafts(request: &Request, replies: &Vec<Reply>) -> (r: Result<
    OperationResult,
    Action,
>)
    ensures
        result_step(r) == review_drafts_view(*request, replies@),
{
    let (preview_diff_id, proposal, _) = select_snapshot(request, replies)?;
    let drafts = Json::Object(review_drafts(proposal, preview_diff_id, replies, 2)?);
    let id = require_id(proposal)?;
    let text = render_review_drafts(&drafts, preview_diff_id, id.as_str());
    let mut details = no_members();
    push_member(&mut details, "kind", Json::of_text("review_drafts"));
    push_member(&mut details, "preview_diff_id", Json::of_number(preview_diff_id));
    push_member(&mut details, "drafts", drafts);
    Ok(OperationResult { text, source_url: owned_field(proposal, "web_link"), details })
}

/// The location in a diff of the line that a request names.
pub open spec fn mapped_line(request: Request, diff: Seq<char>) -> Result<LocationView, ActionView> {
    match or_fail(request_file_line(request)) {
        Err(stop) => Err(stop),
        Ok(line) => match or_fail(request_side(request)) {
            Err(stop) => Err(stop),
            Ok(side) => match or_fail(
                required_text(request.op, opt_view(request.path), "path"@),
            ) {
                Err(stop) => Err(stop),
                Ok(path) => match file_line_location(diff, path, side, line as nat) {
                    Some(location) => Ok(location),
                    None => Err(
                        fail(
                            invalid("file line is not present in the selected preview diff"@),
                        ),
                    ),
                },
            },
        },
    }
}

/// The location in a diff of the line that a request names.
pub fn map_requested_line(request: &Request, diff: &str) -> (r: Result<
    crate::diff::DiffLocation,
    Action,
>)
    ensures
        (r matches Ok(location) ==> mapped_line(*request, diff@) == Ok::<LocationView, ActionView>(
            location@,
        )),
        r matches Err(action) ==> mapped_line(*request, diff@) == Err::<LocationView, ActionView>(
            action@,
        ),
{
    let line = match request.file_line() {
        Ok(line) => line,
        Err(error) => return Err(Action::Fail { error }),
    };
    let side = match request.side() {
        Ok(side) => side,
        Err(error) => return Err(Action::Fail { error }),
    };
    let path = match request.path("path") {
        Ok(path) => path,
        Err(error) => return Err(Action::Fail { error }),
    };
    match map_file_line(diff, path, side, line) {
        Some(location) => Ok(location),
        None => Err(refuse("file line is not present in the selected preview diff")),
    }
}

/// Where the diff shows a line of a file. The line and the side are checked before anything is
/// asked for.
pub open spec fn diff_line_view(request: Request, replies: Seq<Reply>) -> Result<
    ResultView,
    ActionView,
> {
    match or_fail(request_preview_diff(request)) {
        Err(stop) => Err(stop),
        Ok(_) => match or_fail(request_file_line(request)) {
            Err(stop) => Err(stop),
            Ok(_) => match or_fail(request_side(request)) {
                Err(stop) => Err(stop),
                Ok(_) => match selected_snapshot_at(request, replies) {
                    Err(stop) => Err(stop),
                    Ok((preview_diff_id, proposal, preview_diff)) => match diff_text_at(
                        preview_diff,
                        replies,
                        2,
                    ) {
                        Err(stop) => Err(stop),
                        Ok(diff) => match mapped_line(request, diff) {
                            Err(stop) => Err(stop),
                            Ok(location) => match required_id(proposal) {
                                Err(stop) => Err(stop),
                                Ok(id) => Ok(
                                    ResultView {
                                        text: diff_location_document(location, preview_diff_id, id),
                                        source_url: proposal.text("web_link"@),
                                        details: Seq::empty().push(
                                            ("kind"@, JsonView::Text("diff_line_mapping"@)),
                                        ).push(
                                            ("preview_diff_id"@, number_view(preview_diff_id)),
                                        ).push(("location"@, location_object(location))),
                                    },
                                ),
                            },
                        },
                    },
                },
            },
        },
    }
}

/// Where the diff shows a line of a file.
pub fn map_diff_line(request: &Request, replies: &Vec<Reply>) -> (r: Result<OperationResult, Action>)
    ensures
        result_step(r) == diff_line_view(*request, replies@),
{
    match request.preview_diff_id() {
        Ok(_) => {},
        Err(error) => return Err(Action::Fail { error }),
    }
    match request.file_line() {
        Ok(_) => {},
        Err(error) => return Err(Action::Fail { error }),
    }
    match request.side() {
        Ok(_) => {},
        Err(error) => return Err(Action::Fail { error }),
    }
    let (preview_diff_id, proposal, preview_diff) = select_snapshot(request, replies)?;
    let diff = get_diff_text(preview_diff, replies, 2)?;
    let location = map_requested_line(request, diff)?;
    let id = require_id(proposal)?;
    let mut details = no_members();
    push_member(&mut details, "kind", Json::of_text("diff_line_mapping"));
    push_member(&mut details, "preview_diff_id", Json::of_number(preview_diff_id));
    push_member(&mut details, "location", location_json(&location));
    Ok(
        OperationResult {
            text: render_diff_location(&location, preview_diff_id, id.as_str()),
            source_url: owned_field(proposal, "web_link"),
            details,
        },
    )
}

/// A view of the repository of a request.
pub open spec fn repository_view(request: Request, base: Seq<char>, replies: Seq<Reply>) -> Result<
    ResultView,
    ActionView,
> {
    match or_fail(required_text(request.op, opt_view(request.repository), "repository"@)) {
        Err(stop) => Err(stop),
        Ok(path) => match repository_at(path, base, replies, 0) {
            Err(stop) => Err(stop),
            Ok(repository) => Ok(
                repository_result(
                    repository,
                    Seq::empty().push(("kind"@, JsonView::Text("git_repository"@))),
                ),
            ),
        },
    }
}

/// A view of the repository of a request.
pub fn view_repository(request: &Request, base: &str, replies: &Vec<Reply>) -> (r: Result<
    OperationResult,
    Action,
>)
    ensures
        result_step(r) == repository_view(*request, base@, replies@),
{
    let path = match request.repository() {
        Ok(path) => path,
        Err(error) => return Err(Action::Fail { error }),
    };
    let repository = get_repository(path, base, replies, 0)?;
    let mut details = no_members();
    push_member(&mut details, "kind", Json::of_text("git_repository"));
    Ok(
        OperationResult {
            text: render_repository(repository),
            source_url: owned_field(repository, "web_link"),
            details,
        },
    )
}

/// Pairs with one for each value of a filter behind them.
pub open spec fn with_values(
    pairs: Seq<(Seq<char>, Seq<char>)>,
    name: Seq<char>,
    values: Option<Seq<Seq<char>>>,
) -> Seq<(Seq<char>, Seq<char>)> {
    match values {
        Some(values) => pairs + named_pairs(name, values),
        None => pairs,
    }
}

/// Appends a pair for each value of a filter.
pub fn append_values(query: &mut Vec<(String, String)>, name: &str, values: &Option<OneOrMany>)
    ensures
        pairs_view(final(query)@) == with_values(
            pairs_view(old(query)@),
            name@,
            filter_values(*values),
        ),
{
    if let Some(values) = values {
        values.append_to(query, name);
    }
}

/// The tags of a request.
pub open spec fn tag_values(request: Request) -> Option<Seq<Seq<char>>> {
    match request.tags {
        Some(tags) => Some(views(tags@)),
        None => None,
    }
}

/// The query of a search for bugs.
pub open spec fn bug_search_pairs(request: Request) -> Seq<(Seq<char>, Seq<char>)> {
    let pairs = Seq::empty().push(("ws.op"@, "searchTasks"@)).push(
        ("omit_duplicates"@, "true"@),
    ).push(("ws.size"@, decimal(request_limit(request) as nat)));
    let pairs = with_values(pairs, "status"@, filter_values(request.status));
    let pairs = with_values(pairs, "importance"@, filter_values(request.importance));
    let pairs = match opt_view(request.query) {
        Some(text) => pairs.push(("search_text"@, text)),
        None => pairs,
    };
    with_values(pairs, "tags"@, tag_values(request))
}

/// A search for bugs.
pub open spec fn bug_search(request: Request, base: Seq<char>, replies: Seq<Reply>) -> Result<
    ResultView,
    ActionView,
> {
    match or_fail(required_text(request.op, opt_view(request.target), "target"@)) {
        Err(stop) => Err(stop),
        Ok(target) => match entries_at(
            replies,
            0,
            ActionView::GetSome {
                place: PlaceView::Query(
                    UrlQueryView {
                        base: service_url(base, "/"@ + target),
                        pairs: bug_search_pairs(request),
                    },
                ),
                limit: request_limit(request),
            },
        ) {
            Err(stop) => Err(stop),
            Ok(tasks) => Ok(
                ResultView {
                    text: bug_search_document(target, opt_view(request.query), tasks),
                    source_url: None,
                    details: Seq::empty().push(("count"@, number_view(tasks.len() as u64))).push(
                        ("target"@, JsonView::Text(target)),
                    ),
                },
            ),
        },
    }
}

fn bug_search_query(request: &Request) -> (r: Vec<(String, String)>)
    ensures
        pairs_view(r@) == bug_search_pairs(*request),
{
    let mut pairs = no_pairs();
    push_pair(&mut pairs, "ws.op", "searchTasks");
    push_pair(&mut pairs, "omit_duplicates", "true");
    push_pair(&mut pairs, "ws.size", decimal_size(request.limit()).as_str());
    append_values(&mut pairs, "status", &request.status);
    append_values(&mut pairs, "importance", &request.importance);
    if let Some(text) = &request.query {
        push_pair(&mut pairs, "search_text", text.as_str());
    }
    if let Some(tags) = &request.tags {
        push_pairs(&mut pairs, "tags", tags);
    }
    pairs
}

/// A search for bugs.
pub fn search_bugs(request: &Request, base: &str, replies: &Vec<Reply>) -> (r: Result<
    OperationResult,
    Action,
>)
    ensures
        result_step(r) == bug_search(*request, base@, replies@),
{
    let target = match request.target() {
        Ok(target) => target,
        Err(error) => return Err(Action::Fail { error }),
    };
    let query = UrlQuery {
        base: api_url(base, cat2("/", target).as_str()),
        pairs: bug_search_query(request),
    };
    let tasks = entries_reply(
        replies,
        0,
        Action::GetSome { place: Place::Query(query), limit: request.limit() },
    )?;
    let mut details = no_members();
    push_member(&mut details, "count", Json::of_number(tasks.len() as u64));
    push_member(&mut details, "target", Json::of_text(target));
    assert(items_view(tasks@).len() == tasks@.len());
    Ok(
        OperationResult {
            text: render_bug_search(target, borrow_option(&request.query), tasks),
            source_url: None,
            details,
        },
    )
}

/// The query of a search for merge proposals. One more than is asked for shows whether there are
/// more.
pub open spec fn proposal_search_pairs(request: Request) -> Seq<(Seq<char>, Seq<char>)> {
    with_values(
        Seq::empty().push(("ws.op"@, "getMergeProposals"@)).push(
            ("ws.size"@, decimal(request_limit(request) as nat + 1)),
        ),
        "status"@,
        filter_values(request.status),
    )
}

/// What a search for merge proposals found.
pub open spec fn proposal_search_result(
    request: Request,
    repository: JsonView,
    found: Seq<JsonView>,
) -> ResultView {
    let limit = request_limit(request) as nat;
    let proposals = first_items(found, limit);
    let truncated = found.len() > limit;
    ResultView {
        text: proposal_search_document(proposals, request.limit, truncated),
        source_url: None,
        details: Seq::empty().push(("count"@, number_view(proposals.len() as u64))).push(
            (
                "limit"@,
                number_or_null(
                    match request.limit {
                        Some(limit) => Some(limit as u64),
                        None => None,
                    },
                ),
            ),
        ).push(("truncated"@, JsonView::Bool(truncated))).push(
            ("repository"@, text_or_null(repository.text("unique_name"@))),
        ),
    }
}

/// A search for merge proposals.
pub open spec fn proposal_search(request: Request, base: Seq<char>, replies: Seq<Reply>) -> Result<
    ResultView,
    ActionView,
> {
    match or_fail(required_text(request.op, opt_view(request.repository), "repository"@)) {
        Err(stop) => Err(stop),
        Ok(raw) => match or_fail(normalised_repository(raw)) {
            Err(stop) => Err(stop),
            Ok(path) => match repository_at(path, base, replies, 0) {
                Err(stop) => Err(stop),
                Ok(repository) => match link_in(
                    repository,
                    "self_link"@,
                    "Launchpad repository has no API link"@,
                ) {
                    Err(stop) => Err(stop),
                    Ok(link) => match entries_at(
                        replies,
                        1,
                        ActionView::GetSome {
                            place: PlaceView::Query(
                                UrlQueryView { base: link, pairs: proposal_search_pairs(request) },
                            ),
                            limit: (request_limit(request) + 1) as usize,
                        },
                    ) {
                        Err(stop) => Err(stop),
                        Ok(found) => Ok(proposal_search_result(request, repository, found)),
                    },
                },
            },
        },
    }
}

fn report_proposal_search(request: &Request, repository: &Json, found: &Vec<Json>) -> (r:
    OperationResult)
    ensures
        r@ == proposal_search_result(*request, repository@, items_view(found@)),
{
    let limit = request.limit();
    let truncated = found.len() > limit;
    let proposals = take_items(found, limit);
    assert(items_view(proposals@).len() == proposals@.len());
    assert(items_view(found@).len() == found@.len());
    let text = render_proposal_search(repository, &proposals, request.limit, truncated);
    let mut details = no_members();
    push_member(&mut details, "count", Json::of_number(proposals.len() as u64));
    let requested: Option<u64> = match request.limit {
        Some(limit) => Some(limit as u64),
        None => None,
    };
    push_member(&mut details, "limit", Json::of_number_option(requested));
    push_member(&mut details, "truncated", Json::Bool(truncated));
    push_member(&mut details, "repository", Json::of_option(text_field(repository, "unique_name")));
    OperationResult { text, source_url: None, details }
}

/// A search for merge proposals.
pub fn search_merge_proposals(request: &Request, base: &str, replies: &Vec<Reply>) -> (r: Result<
    OperationResult,
    Action,
>)
    requires
        request_limit(*request) < usize::MAX,
    ensures
        result_step(r) == proposal_search(*request, base@, replies@),
{
    let raw = match request.repository() {
        Ok(raw) => raw,
        Err(error) => return Err(Action::Fail { error }),
    };
    let path = match normalise_repository(raw) {
        Ok(path) => path,
        Err(error) => return Err(Action::Fail { error }),
    };
    let repository = get_repository(path.as_str(), base, replies, 0)?;
    let link = find_link(repository, "self_link", "Launchpad repository has no API link")?;
    let fetch_limit: usize = request.limit() + 1;
    let mut pairs = no_pairs();
    push_pair(&mut pairs, "ws.op", "getMergeProposals");
    push_pair(&mut pairs, "ws.size", decimal_size(fetch_limit).as_str());
    append_values(&mut pairs, "status", &request.status);
    let found = entries_reply(
        replies,
        1,
        Action::GetSome {
            place: Place::Query(UrlQuery { base: copy(link), pairs }),
            limit: fetch_limit,
        },
    )?;
    Ok(report_proposal_search(request, repository, found))
}

/// A search never reports more merge proposals than were asked for, and says so exactly where
/// there are more.
pub proof fn lemma_search_within_limit(request: Request, found: Seq<JsonView>)
    ensures
        first_items(found, request_limit(request) as nat).len() <= request_limit(request),
        found.len() <= request_limit(request) ==> first_items(found, request_limit(request) as nat)
            == found,
{
}

} // verus!
