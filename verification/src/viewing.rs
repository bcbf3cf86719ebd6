//! The operations that show resources: bugs, merge proposals and their diffs, repositories.
use vstd::prelude::*;
use crate::details::{proposal_details, proposal_details_at};
use crate::error::{invalid, Error, ErrorView};
use crate::fields::{kind_of, owned_field, resource_kind};
use crate::format::{cat2, cat3, cat4};
use crate::json::{
    items_view, members_view, no_items, no_members, number_view, push_member, Json, JsonView,
};
use crate::number::{decimal, decimal_text};
use crate::preview::{
    diff_text_at, find_link, get_diff_text, get_preview_diff, link_in, preview_at, preview_diff_id,
    preview_id,
};
use crate::render::{
    bug_document, generic_document, proposal_document, render_bug, render_generic, render_proposal,
    render_repository, repository_document,
};
use crate::repository::{api_url, repository_lookup_url, repository_url, service_url};
use crate::request::{required_text, Request};
use crate::response::{OperationResult, ResultView};
use crate::size::{byte_size, show_diff, shown_diff, MAX_FILE_BYTES};
use crate::steps::{
    entries_at, entries_reply, fail, get, get_some, get_some_url, get_url, json_at, json_reply,
    or_fail, refuse, result_step, Action, ActionView, Reply,
};
use crate::target::{
    parsed_target, select_preview_diff, with_preview_diff, KindView, ResourceKind, ResourceTarget,
    TargetView,
};
use crate::text::{copy, opt_view};

verus! {

/// How many tasks of a bug, or votes on a merge proposal, are shown.
pub const MAX_ITEMS: usize = 50;

/// The path of a bug, or of something of it.
pub open spec fn bug_resource(id: u64, rest: Seq<char>) -> Seq<char> {
    "/bugs/"@ + decimal(id as nat) + rest
}

/// The path of a bug, or of something of it.
pub fn path_of_bug(id: u64, rest: &str) -> (r: String)
    ensures
        r@ == bug_resource(id, rest@),
{
    cat3("/bugs/", decimal_text(id).as_str(), rest)
}

/// The comments of a bug, where they are shown.
pub open spec fn bug_comments_at(
    target: TargetView,
    id: u64,
    base: Seq<char>,
    replies: Seq<Reply>,
    at: int,
) -> Result<Seq<JsonView>, ActionView> {
    if target.include_comments {
        entries_at(
            replies,
            at,
            get_some(service_url(base, bug_resource(id, "/messages"@)), target.comment_limit),
        )
    } else {
        Ok(Seq::empty())
    }
}

/// A view of a bug.
pub open spec fn bug_view(
    target: TargetView,
    id: u64,
    base: Seq<char>,
    replies: Seq<Reply>,
) -> Result<ResultView, ActionView> {
    if target.diff {
        Err(fail(invalid("/diff is only valid for a merge proposal"@)))
    } else {
        match json_at(replies, 0, get(service_url(base, bug_resource(id, ""@)))) {
            Err(stop) => Err(stop),
            Ok(bug) => match entries_at(
                replies,
                1,
                get_some(service_url(base, bug_resource(id, "/bug_tasks"@)), MAX_ITEMS),
            ) {
                Err(stop) => Err(stop),
                Ok(tasks) => match bug_comments_at(target, id, base, replies, 2) {
                    Err(stop) => Err(stop),
                    Ok(comments) => Ok(
                        ResultView {
                            text: bug_document(
                                bug,
                                tasks,
                                comments,
                                target.include_comments,
                                target.comment_limit as nat,
                            ),
                            source_url: bug.text("web_link"@),
                            details: Seq::empty().push(("kind"@, JsonView::Text("bug"@))).push(
                                ("target"@, JsonView::Text(target.path)),
                            ).push(("id"@, number_view(id))),
                        },
                    ),
                },
            },
        }
    }
}

fn view_bug(target: &ResourceTarget, id: u64, base: &str, replies: &Vec<Reply>) -> (r: Result<
    OperationResult,
    Action,
>)
    ensures
        result_step(r) == bug_view(target@, id, base@, replies@),
{
    if target.diff {
        return Err(refuse("/diff is only valid for a merge proposal"));
    }
    let bug = json_reply(
        replies,
        0,
        get_url(api_url(base, path_of_bug(id, "").as_str()).as_str()),
    )?;
    let tasks = entries_reply(
        replies,
        1,
        get_some_url(api_url(base, path_of_bug(id, "/bug_tasks").as_str()).as_str(), MAX_ITEMS),
    )?;
    let none: Vec<Json> = no_items();
    let comments = if target.include_comments {
        entries_reply(
            replies,
            2,
            get_some_url(
                api_url(base, path_of_bug(id, "/messages").as_str()).as_str(),
                target.comment_limit,
            ),
        )?
    } else {
        &none
    };
    let text = render_bug(bug, tasks, comments, target.include_comments, target.comment_limit);
    let mut details = no_members();
    push_member(&mut details, "kind", Json::of_text("bug"));
    push_member(&mut details, "target", Json::of_text(target.path.as_str()));
    push_member(&mut details, "id", Json::of_number(id));
    Ok(OperationResult { text, source_url: owned_field(bug, "web_link"), details })
}

/// A view of the diff of a merge proposal.
pub open spec fn proposal_diff_view(
    proposal: JsonView,
    requested: Option<u64>,
    replies: Seq<Reply>,
    at: int,
) -> Result<ResultView, ActionView> {
    match preview_at(proposal, requested, replies, at) {
        Err(stop) => Err(stop),
        Ok(preview_diff) => match or_fail(preview_id(preview_diff)) {
            Err(stop) => Err(stop),
            Ok(id) => match diff_text_at(preview_diff, replies, at + 1) {
                Err(stop) => Err(stop),
                Ok(diff) => Ok(
                    ResultView {
                        text: shown_diff(diff),
                        source_url: proposal.text("web_link"@),
                        details: Seq::empty().push(
                            ("kind"@, JsonView::Text("branch_merge_proposal"@)),
                        ).push(("diff"@, JsonView::Bool(true))).push(
                            ("preview_diff_id"@, number_view(id)),
                        ).push(
                            (
                                "stale"@,
                                JsonView::Bool(preview_diff.flag("stale"@) == Some(true)),
                            ),
                        ).push(("truncated"@, JsonView::Bool(byte_size(diff) > MAX_FILE_BYTES))),
                    },
                ),
            },
        },
    }
}

/// A flag of a resource that is off where the resource does not say.
pub fn is_flagged(value: &Json, name: &str) -> (r: bool)
    ensures
        r == (value@.flag(name@) == Some(true)),
{
    match value.flag(name) {
        Some(flag) => flag,
        None => false,
    }
}

fn number_or_fail(r: Result<u64, Error>) -> (s: Result<u64, Action>)
    ensures
        crate::steps::number_step(s) == or_fail(crate::error::number_outcome(r)),
{
    match r {
        Ok(value) => Ok(value),
        Err(error) => Err(Action::Fail { error }),
    }
}

fn view_proposal_diff(
    proposal: &Json,
    requested: Option<u64>,
    replies: &Vec<Reply>,
    at: usize,
) -> (r: Result<OperationResult, Action>)
    ensures
        result_step(r) == proposal_diff_view(proposal@, requested, replies@, at as int),
{
    let preview_diff = get_preview_diff(proposal, requested, replies, at)?;
    assert(at < replies.len());
    let id = number_or_fail(preview_diff_id(preview_diff))?;
    let diff = get_diff_text(preview_diff, replies, at + 1)?;
    let (text, truncated) = show_diff(diff);
    let mut details = no_members();
    push_member(&mut details, "kind", Json::of_text("branch_merge_proposal"));
    push_member(&mut details, "diff", Json::Bool(true));
    push_member(&mut details, "preview_diff_id", Json::of_number(id));
    push_member(&mut details, "stale", Json::Bool(is_flagged(preview_diff, "stale")));
    push_member(&mut details, "truncated", Json::Bool(truncated));
    Ok(OperationResult { text, source_url: owned_field(proposal, "web_link"), details })
}

/// The comments of a merge proposal, where they are shown.
pub open spec fn proposal_comments_at(
    target: TargetView,
    link: Seq<char>,
    replies: Seq<Reply>,
    at: int,
) -> Result<Seq<JsonView>, ActionView> {
    if target.include_comments {
        entries_at(replies, at, get_some(link, target.comment_limit))
    } else {
        Ok(Seq::empty())
    }
}

/// The votes on a merge proposal. Votes that cannot be fetched are left out.
pub open spec fn votes_at(link: Seq<char>, replies: Seq<Reply>, at: int) -> Result<
    Seq<JsonView>,
    ActionView,
> {
    match (0 <= at < replies.len(), replies[at]) {
        (true, Reply::Fault(_)) => Ok(Seq::empty()),
        _ => entries_at(replies, at, get_some(link, MAX_ITEMS)),
    }
}

/// How many answers the comments of a merge proposal take.
pub open spec fn comment_steps(target: TargetView) -> int {
    if target.include_comments {
        1
    } else {
        0
    }
}

/// What is asked for beside a merge proposal: its comments, its votes and its repositories.
pub open spec fn proposal_parts(target: TargetView, proposal: JsonView, replies: Seq<Reply>) -> Result<
    (Seq<JsonView>, Seq<JsonView>, JsonView),
    ActionView,
> {
    let next = 1 + comment_steps(target);
    match link_in(
        proposal,
        "all_comments_collection_link"@,
        "merge proposal has no comments collection"@,
    ) {
        Err(stop) => Err(stop),
        Ok(comments_link) => match proposal_comments_at(target, comments_link, replies, 1) {
            Err(stop) => Err(stop),
            Ok(comments) => match link_in(
                proposal,
                "votes_collection_link"@,
                "merge proposal has no review vote collection"@,
            ) {
                Err(stop) => Err(stop),
                Ok(votes_link) => match votes_at(votes_link, replies, next) {
                    Err(stop) => Err(stop),
                    Ok(votes) => match proposal_details_at(proposal, replies, next + 1) {
                        Err(stop) => Err(stop),
                        Ok(details) => Ok((comments, votes, details)),
                    },
                },
            },
        },
    }
}

/// The members of an object.
pub open spec fn object_members(value: JsonView) -> Seq<(Seq<char>, JsonView)> {
    match value {
        JsonView::Object(members) => members,
        _ => Seq::empty(),
    }
}

/// The members of an object.
pub fn members_of_object(value: Json) -> (r: Vec<(String, Json)>)
    ensures
        members_view(r@) == object_members(value@),
{
    match value {
        Json::Object(members) => members,
        _ => no_members(),
    }
}

/// A view of a merge proposal, which is the first answer.
pub open spec fn proposal_view(target: TargetView, proposal: JsonView, replies: Seq<Reply>) -> Result<
    ResultView,
    ActionView,
> {
    if target.diff {
        proposal_diff_view(proposal, target.preview_diff_id, replies, 1)
    } else {
        match proposal_parts(target, proposal, replies) {
            Err(stop) => Err(stop),
            Ok((comments, votes, details)) => Ok(
                ResultView {
                    text: proposal_document(
                        proposal,
                        comments,
                        votes,
                        target.include_comments,
                        target.comment_limit as nat,
                        1,
                    ),
                    source_url: proposal.text("web_link"@),
                    details: object_members(details),
                },
            ),
        }
    }
}

fn fetch_votes<'reply>(
    link: &str,
    replies: &'reply Vec<Reply>,
    at: usize,
    none: &'reply Vec<Json>,
) -> (r: Result<&'reply Vec<Json>, Action>)
    requires
        items_view(none@) == Seq::<JsonView>::empty(),
    ensures
        crate::steps::entries_step(r) == votes_at(link@, replies@, at as int),
{
    if at < replies.len() {
        if let Reply::Fault(_) = &replies[at] {
            return Ok(none);
        }
    }
    entries_reply(replies, at, get_some_url(link, MAX_ITEMS))
}

fn view_proposal(target: &ResourceTarget, proposal: &Json, replies: &Vec<Reply>) -> (r: Result<
    OperationResult,
    Action,
>)
    ensures
        result_step(r) == proposal_view(target@, proposal@, replies@),
{
    if target.diff {
        return view_proposal_diff(proposal, target.preview_diff_id, replies, 1);
    }
    let none: Vec<Json> = no_items();
    let comments_link = find_link(
        proposal,
        "all_comments_collection_link",
        "merge proposal has no comments collection",
    )?;
    let mut next: usize = 1;
    let comments = if target.include_comments {
        next = 2;
        entries_reply(replies, 1, get_some_url(comments_link, target.comment_limit))?
    } else {
        &none
    };
    let votes_link = find_link(
        proposal,
        "votes_collection_link",
        "merge proposal has no review vote collection",
    )?;
    let votes = fetch_votes(votes_link, replies, next, &none)?;
    let details = proposal_details(proposal, replies, next + 1)?;
    let text = render_proposal(
        proposal,
        comments,
        votes,
        target.include_comments,
        target.comment_limit,
    );
    Ok(
        OperationResult {
            text,
            source_url: owned_field(proposal, "web_link"),
            details: members_of_object(details),
        },
    )
}

/// A view of a repository.
pub open spec fn repository_result(
    repository: JsonView,
    details: Seq<(Seq<char>, JsonView)>,
) -> ResultView {
    ResultView {
        text: repository_document(repository),
        source_url: repository.text("web_link"@),
        details,
    }
}

/// The repository of a path, as an answer.
pub open spec fn repository_at(path: Seq<char>, base: Seq<char>, replies: Seq<Reply>, at: int) -> Result<
    JsonView,
    ActionView,
> {
    match or_fail(repository_lookup_url(base, path)) {
        Err(stop) => Err(stop),
        Ok(url) => json_at(replies, at, get(url)),
    }
}

/// The repository of a path, as an answer.
pub fn get_repository<'reply>(
    path: &str,
    base: &str,
    replies: &'reply Vec<Reply>,
    at: usize,
) -> (r: Result<&'reply Json, Action>)
    ensures
        crate::steps::json_step(r) == repository_at(path@, base@, replies@, at as int),
{
    match repository_url(base, path) {
        Ok(url) => json_reply(replies, at, get_url(url.as_str())),
        Err(error) => Err(Action::Fail { error }),
    }
}

/// The merge proposal of a repository, as an answer.
pub open spec fn proposal_resource(base: Seq<char>, repository: Seq<char>, id: u64) -> Seq<char> {
    service_url(base, "/"@ + repository + "/+merge/"@ + decimal(id as nat))
}

/// The URL of a merge proposal of a repository.
pub fn merge_proposal_url(base: &str, repository: &str, id: u64) -> (r: String)
    ensures
        r@ == proposal_resource(base@, repository@, id),
{
    api_url(base, cat4("/", repository, "/+merge/", decimal_text(id).as_str()).as_str())
}

/// A view of a resource of any other type.
pub open spec fn generic_view(target: TargetView, base: Seq<char>, replies: Seq<Reply>) -> Result<
    ResultView,
    ActionView,
> {
    if target.diff {
        Err(fail(invalid("/diff is only valid for a merge proposal"@)))
    } else {
        match json_at(replies, 0, get(service_url(base, "/"@ + target.path))) {
            Err(stop) => Err(stop),
            Ok(resource) => Ok(
                ResultView {
                    text: generic_document(resource),
                    source_url: resource.text("web_link"@),
                    details: Seq::empty().push(("kind"@, JsonView::Text(kind_of(resource)))).push(
                        ("target"@, JsonView::Text(target.path)),
                    ),
                },
            ),
        }
    }
}

fn view_generic(target: &ResourceTarget, base: &str, replies: &Vec<Reply>) -> (r: Result<
    OperationResult,
    Action,
>)
    ensures
        result_step(r) == generic_view(target@, base@, replies@),
{
    if target.diff {
        return Err(refuse("/diff is only valid for a merge proposal"));
    }
    let resource = json_reply(
        replies,
        0,
        get_url(api_url(base, cat2("/", target.path.as_str()).as_str()).as_str()),
    )?;
    let mut details = no_members();
    push_member(&mut details, "kind", Json::Text(resource_kind(resource)));
    push_member(&mut details, "target", Json::of_text(target.path.as_str()));
    Ok(
        OperationResult {
            text: render_generic(resource),
            source_url: owned_field(resource, "web_link"),
            details,
        },
    )
}

/// A view of the resource that a target names. The raw target stands for the same.
pub open spec fn target_view(
    target: TargetView,
    raw: Seq<char>,
    base: Seq<char>,
    replies: Seq<Reply>,
) -> Result<ResultView, ActionView> {
    match target.kind {
        KindView::Bug { id } => bug_view(target, id, base, replies),
        KindView::MergeProposal { repository, id } => match json_at(
            replies,
            0,
            get(proposal_resource(base, repository, id)),
        ) {
            Err(stop) => Err(stop),
            Ok(proposal) => proposal_view(target, proposal, replies),
        },
        KindView::MergeProposalId { .. } => match json_at(
            replies,
            0,
            ActionView::Proposal { target: raw },
        ) {
            Err(stop) => Err(stop),
            Ok(proposal) => proposal_view(target, proposal, replies),
        },
        KindView::Repository => match repository_at(target.path, base, replies, 0) {
            Err(stop) => Err(stop),
            Ok(repository) => Ok(
                repository_result(
                    repository,
                    Seq::empty().push(("kind"@, JsonView::Text("git_repository"@))).push(
                        ("target"@, JsonView::Text(target.path)),
                    ),
                ),
            ),
        },
        KindView::Generic => generic_view(target, base, replies),
    }
}

/// A view of the resource that a target names.
pub fn view_target(target: &ResourceTarget, raw: &str, base: &str, replies: &Vec<Reply>) -> (r: Result<
    OperationResult,
    Action,
>)
    ensures
        result_step(r) == target_view(target@, raw@, base@, replies@),
{
    match &target.kind {
        ResourceKind::Bug { id } => view_bug(target, *id, base, replies),
        ResourceKind::MergeProposal { repository, id } => {
            let url = merge_proposal_url(base, repository.as_str(), *id);
            let proposal = json_reply(replies, 0, get_url(url.as_str()))?;
            view_proposal(target, proposal, replies)
        },
        ResourceKind::MergeProposalId { .. } => {
            let proposal = json_reply(replies, 0, Action::Proposal { target: copy(raw) })?;
            view_proposal(target, proposal, replies)
        },
        ResourceKind::Repository => {
            let repository = get_repository(target.path.as_str(), base, replies, 0)?;
            let mut details = no_members();
            push_member(&mut details, "kind", Json::of_text("git_repository"));
            push_member(&mut details, "target", Json::of_text(target.path.as_str()));
            Ok(
                OperationResult {
                    text: render_repository(repository),
                    source_url: owned_field(repository, "web_link"),
                    details,
                },
            )
        },
        ResourceKind::Generic => view_generic(target, base, replies),
    }
}

/// The target of a request, with the snapshot that the request selects.
pub open spec fn requested_target(request: Request) -> Result<TargetView, ErrorView> {
    match required_text(request.op, opt_view(request.target), "target"@) {
        Err(error) => Err(error),
        Ok(raw) => match parsed_target(raw) {
            Err(error) => Err(error),
            Ok(target) => with_preview_diff(target, request.preview_diff_id),
        },
    }
}

/// The view that a request asks for.
pub open spec fn resource_view(request: Request, base: Seq<char>, replies: Seq<Reply>) -> Result<
    ResultView,
    ActionView,
> {
    match requested_target(request) {
        Err(error) => Err(fail(error)),
        Ok(target) => target_view(target, request.target->0@, base, replies),
    }
}

/// The view that a request asks for.
pub fn view_resource(request: &Request, base: &str, replies: &Vec<Reply>) -> (r: Result<
    OperationResult,
    Action,
>)
    ensures
        result_step(r) == resource_view(*request, base@, replies@),
{
    let raw = match request.target() {
        Ok(raw) => raw,
        Err(error) => return Err(Action::Fail { error }),
    };
    let mut target = match ResourceTarget::parse(raw) {
        Ok(target) => target,
        Err(error) => return Err(Action::Fail { error }),
    };
    match select_preview_diff(&mut target, request.preview_diff_id) {
        Ok(_) => {},
        Err(error) => return Err(Action::Fail { error }),
    }
    view_target(&target, raw, base, replies)
}

} // verus!
