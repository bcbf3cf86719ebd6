//! The operations that create bugs and merge proposals, comment on them, and set their status.
use vstd::prelude::*;
use crate::details::{proposal_details, proposal_details_at};
use crate::error::{invalid, ErrorView};
use crate::fields::{owned_field, text_field, value_or};
use crate::format::{cat2, cat4, cat6, cat8};
use crate::inspecting::{proposal_at, request_merge_proposal, tag_values, with_values};
use crate::json::{no_items, no_members, number_view, push_member, Json, JsonView};
use crate::lines::{or_empty, text_or_empty};
use crate::lookup::{find_ref, ref_with_path};
use crate::preview::{proposal_api_url, proposal_url};
use crate::render::{bug_document, proposal_document, render_bug, render_proposal};
use crate::repository::{
    api_url, normalise_ref, normalise_repository, normalised_ref, normalised_repository,
    service_url,
};
use crate::request::{push_pairs, request_status, required_text, Request};
use crate::response::{OperationResult, ResultView};
use crate::steps::{
    contextual, done_at, done_reply, entries_at, entries_reply, fail, get, get_some, get_some_url,
    get_url, json_at, json_reply, or_fail, refs_at, refs_reply, refuse, result_step, text_at,
    text_reply, with_context, Action, ActionView, GitRef, RefView, Reply,
};
use crate::target::{parsed_target, KindView, ResourceKind, ResourceTarget};
use crate::text::{blank, borrow_option, copy, is_blank, opt_view};
use crate::viewing::{
    bug_resource, get_repository, members_of_object, object_members, path_of_bug, repository_at,
    MAX_ITEMS,
};
use crate::web::{no_pairs, pairs_view, push_pair};

verus! {

/// A text that a request needs, or the failure where it is missing or blank.
pub open spec fn needed(request: Request, value: Option<String>, name: Seq<char>) -> Result<
    Seq<char>,
    ActionView,
> {
    or_fail(required_text(request.op, opt_view(value), name))
}

/// A text that a request needs, or the failure where it is missing or blank.
pub fn need<'value>(request: &Request, value: &'value Option<String>, name: &str) -> (r: Result<
    &'value str,
    Action,
>)
    ensures
        crate::steps::str_step(r) == needed(*request, *value, name@),
{
    match request.string(value, name) {
        Ok(text) => Ok(text),
        Err(error) => Err(Action::Fail { error }),
    }
}

/// Pairs with one more behind them, where there is a value.
pub open spec fn with_value(
    pairs: Seq<(Seq<char>, Seq<char>)>,
    name: Seq<char>,
    value: Option<Seq<char>>,
) -> Seq<(Seq<char>, Seq<char>)> {
    match value {
        Some(value) => pairs.push((name, value)),
        None => pairs,
    }
}

/// Appends a pair, where there is a value.
pub fn push_value(pairs: &mut Vec<(String, String)>, name: &str, value: &Option<String>)
    ensures
        pairs_view(final(pairs)@) == with_value(pairs_view(old(pairs)@), name@, opt_view(*value)),
{
    if let Some(value) = value {
        push_pair(pairs, name, value.as_str());
    }
}

/// The form that creates a bug.
pub open spec fn bug_form(
    request: Request,
    title: Seq<char>,
    description: Seq<char>,
    target_url: Seq<char>,
) -> Seq<(Seq<char>, Seq<char>)> {
    let pairs = Seq::empty().push(("ws.op"@, "createBug"@)).push(("title"@, title)).push(
        ("description"@, description),
    ).push(("target"@, target_url));
    let pairs = with_value(pairs, "information_type"@, opt_view(request.information_type));
    with_values(pairs, "tags"@, tag_values(request))
}

/// The report of a bug that was created, once the bug and its tasks are answered.
pub open spec fn created_bug(base: Seq<char>, location: Seq<char>, replies: Seq<Reply>) -> Result<
    ResultView,
    ActionView,
> {
    match json_at(replies, 1, get(location)) {
        Err(stop) => Err(stop),
        Ok(bug) => match bug.unsigned("id"@) {
            None => Err(fail(invalid("Launchpad returned a bug without an ID"@))),
            Some(id) => match entries_at(
                replies,
                2,
                get_some(service_url(base, bug_resource(id, "/bug_tasks"@)), MAX_ITEMS),
            ) {
                Err(stop) => Err(stop),
                Ok(tasks) => Ok(
                    ResultView {
                        text: "# Created Launchpad bug\n\n"@ + bug_document(
                            bug,
                            tasks,
                            Seq::empty(),
                            false,
                            1,
                        ),
                        source_url: bug.text("web_link"@),
                        details: Seq::empty().push(("kind"@, JsonView::Text("bug"@))).push(
                            ("id"@, number_view(id)),
                        ),
                    },
                ),
            },
        },
    }
}

/// Creates a bug.
pub open spec fn bug_creation(request: Request, base: Seq<char>, replies: Seq<Reply>) -> Result<
    ResultView,
    ActionView,
> {
    match needed(request, request.target, "target"@) {
        Err(stop) => Err(stop),
        Ok(target) => match needed(request, request.title, "title"@) {
            Err(stop) => Err(stop),
            Ok(title) => match needed(request, request.description, "description"@) {
                Err(stop) => Err(stop),
                Ok(description) => match text_at(
                    replies,
                    0,
                    ActionView::Create {
                        url: service_url(base, "/bugs"@),
                        pairs: bug_form(
                            request,
                            title,
                            description,
                            service_url(base, "/"@ + target),
                        ),
                    },
                ) {
                    Err(stop) => Err(stop),
                    Ok(location) => created_bug(base, location, replies),
                },
            },
        },
    }
}

fn report_created_bug(base: &str, location: &str, replies: &Vec<Reply>) -> (r: Result<
    OperationResult,
    Action,
>)
    ensures
        result_step(r) == created_bug(base@, location@, replies@),
{
    let bug = json_reply(replies, 1, get_url(location))?;
    let id = match bug.unsigned("id") {
        Some(id) => id,
        None => return Err(refuse("Launchpad returned a bug without an ID")),
    };
    let tasks = entries_reply(
        replies,
        2,
        get_some_url(api_url(base, path_of_bug(id, "/bug_tasks").as_str()).as_str(), MAX_ITEMS),
    )?;
    let none: Vec<Json> = no_items();
    let text = cat2(
        "# Created Launchpad bug\n\n",
        render_bug(bug, tasks, &none, false, 1).as_str(),
    );
    let mut details = no_members();
    push_member(&mut details, "kind", Json::of_text("bug"));
    push_member(&mut details, "id", Json::of_number(id));
    Ok(OperationResult { text, source_url: owned_field(bug, "web_link"), details })
}

/// Creates a bug.
pub fn create_bug(request: &Request, base: &str, replies: &Vec<Reply>) -> (r: Result<
    OperationResult,
    Action,
>)
    ensures
        result_step(r) == bug_creation(*request, base@, replies@),
{
    let target = need(request, &request.target, "target")?;
    let title = need(request, &request.title, "title")?;
    let description = need(request, &request.description, "description")?;
    let target_url = api_url(base, cat2("/", target).as_str());
    let mut pairs = no_pairs();
    push_pair(&mut pairs, "ws.op", "createBug");
    push_pair(&mut pairs, "title", title);
    push_pair(&mut pairs, "description", description);
    push_pair(&mut pairs, "target", target_url.as_str());
    push_value(&mut pairs, "information_type", &request.information_type);
    if let Some(tags) = &request.tags {
        push_pairs(&mut pairs, "tags", tags);
    }
    let location = text_reply(replies, 0, Action::Create { url: api_url(base, "/bugs"), pairs })?;
    report_created_bug(base, location, replies)
}

/// What is being done when a ref is resolved.
pub open spec fn ref_context(role: Seq<char>, path: Seq<char>, repository: Seq<char>) -> Seq<char> {
    "cannot resolve "@ + role + " ref "@ + path + " in repository "@ + repository
}

/// The name of a repository that is there and not blank.
pub open spec fn usable_name(resource: JsonView) -> Option<Seq<char>> {
    match resource.text("unique_name"@) {
        Some(name) => if is_blank(name) {
            None
        } else {
            Some(name)
        },
        None => None,
    }
}

/// A ref of a repository, once the repository and its refs are answered.
pub open spec fn git_ref_at(
    role: Seq<char>,
    repository: Seq<char>,
    requested: Seq<char>,
    base: Seq<char>,
    replies: Seq<Reply>,
    at: int,
) -> Result<RefView, ActionView> {
    let path = normalised_ref(requested);
    let context = ref_context(role, path, repository);
    match contextual(
        repository_at(repository, base, replies, at),
        "cannot resolve "@ + role + " repository "@ + repository + " for ref "@ + path,
    ) {
        Err(stop) => Err(stop),
        Ok(resource) => match usable_name(resource) {
            None => Err(fail(invalid(context + "; Launchpad repository has no unique name"@))),
            Some(canonical) => match contextual(
                refs_at(replies, at + 1, ActionView::Refs { repository: canonical }),
                context + " (canonical repository "@ + canonical + ")"@,
            ) {
                Err(stop) => Err(stop),
                Ok(refs) => match ref_with_path(refs, path) {
                    Some(git_ref) => Ok(git_ref),
                    None => Err(
                        fail(
                            invalid(
                                context + " (canonical repository "@ + canonical
                                    + "); ref was not found"@,
                            ),
                        ),
                    ),
                },
            },
        },
    }
}

/// What a step to a borrowed ref holds.
pub open spec fn ref_step(r: Result<&GitRef, Action>) -> Result<RefView, ActionView> {
    match r {
        Ok(git_ref) => Ok(git_ref@),
        Err(action) => Err(action@),
    }
}

/// A ref of a repository, once the repository and its refs are answered.
pub fn find_git_ref<'reply>(
    role: &str,
    repository: &str,
    requested: &str,
    base: &str,
    replies: &'reply Vec<Reply>,
    at: usize,
) -> (r: Result<&'reply GitRef, Action>)
    ensures
        ref_step(r) == git_ref_at(role@, repository@, requested@, base@, replies@, at as int),
{
    let path = normalise_ref(requested);
    let context = cat6(
        "cannot resolve ",
        role,
        " ref ",
        path.as_str(),
        " in repository ",
        repository,
    );
    let lookup = cat6(
        "cannot resolve ",
        role,
        " repository ",
        repository,
        " for ref ",
        path.as_str(),
    );
    let resource = with_context(get_repository(repository, base, replies, at), lookup.as_str())?;
    assert(at < replies.len());
    let canonical = match text_field(resource, "unique_name") {
        Some(name) => if blank(name) {
            return Err(
                refuse(
                    cat2(
                        context.as_str(),
                        "; Launchpad repository has no unique name",
                    ).as_str(),
                ),
            );
        } else {
            name
        },
        None => return Err(
            refuse(
                cat2(context.as_str(), "; Launchpad repository has no unique name").as_str(),
            ),
        ),
    };
    let listing = cat4(context.as_str(), " (canonical repository ", canonical, ")");
    let refs = with_context(
        refs_reply(replies, at + 1, Action::Refs { repository: copy(canonical) }),
        listing.as_str(),
    )?;
    match find_ref(refs, path.as_str()) {
        Some(git_ref) => Ok(git_ref),
        None => Err(
            refuse(
                cat4(
                    context.as_str(),
                    " (canonical repository ",
                    canonical,
                    "); ref was not found",
                ).as_str(),
            ),
        ),
    }
}

/// The link of a ref, or the failure where it has none.
pub open spec fn ref_link(
    git_ref: RefView,
    role: Seq<char>,
    requested: Seq<char>,
    repository: Seq<char>,
) -> Result<Seq<char>, ActionView> {
    match git_ref.self_link {
        Some(link) => Ok(link),
        None => Err(
            fail(
                invalid(
                    role + " ref "@ + normalised_ref(requested) + " in repository "@ + repository
                        + " has no API link"@,
                ),
            ),
        ),
    }
}

fn find_ref_link<'value>(
    git_ref: &'value GitRef,
    role: &str,
    requested: &str,
    repository: &str,
) -> (r: Result<&'value str, Action>)
    ensures
        crate::steps::str_step(r) == ref_link(git_ref@, role@, requested@, repository@),
{
    match &git_ref.self_link {
        Some(link) => Ok(link.as_str()),
        None => Err(
            refuse(
                cat6(
                    role,
                    " ref ",
                    normalise_ref(requested).as_str(),
                    " in repository ",
                    repository,
                    " has no API link",
                ).as_str(),
            ),
        ),
    }
}

/// A merge proposal to be created: its repositories and refs.
#[verifier::ext_equal]
pub struct MergeView {
    pub source_repository: Seq<char>,
    pub target_repository: Seq<char>,
    pub source_ref: Seq<char>,
    pub target_ref: Seq<char>,
}

/// A merge proposal to be created: its repositories and refs.
pub struct Merge {
    pub source_repository: String,
    pub target_repository: String,
    pub source_ref: String,
    pub target_ref: String,
}

impl View for Merge {
    type V = MergeView;

    open spec fn view(&self) -> MergeView {
        MergeView {
            source_repository: self.source_repository@,
            target_repository: self.target_repository@,
            source_ref: self.source_ref@,
            target_ref: self.target_ref@,
        }
    }
}

/// The repository that a merge proposal goes to: the one that is named, or that of the source.
pub open spec fn merge_target(request: Request, source: Seq<char>) -> Result<Seq<char>, ErrorView> {
    match opt_view(request.target_repository) {
        Some(raw) => normalised_repository(raw),
        None => Ok(source),
    }
}

/// The merge proposal that a request wants created.
pub open spec fn requested_merge(request: Request) -> Result<MergeView, ActionView> {
    match needed(request, request.repository, "repository"@) {
        Err(stop) => Err(stop),
        Ok(raw) => match or_fail(normalised_repository(raw)) {
            Err(stop) => Err(stop),
            Ok(source_repository) => match or_fail(merge_target(request, source_repository)) {
                Err(stop) => Err(stop),
                Ok(target_repository) => match needed(request, request.source_ref, "source_ref"@) {
                    Err(stop) => Err(stop),
                    Ok(source_ref) => match needed(request, request.target_ref, "target_ref"@) {
                        Err(stop) => Err(stop),
                        Ok(target_ref) => Ok(
                            MergeView {
                                source_repository,
                                target_repository,
                                source_ref,
                                target_ref,
                            },
                        ),
                    },
                },
            },
        },
    }
}

fn read_merge(request: &Request) -> (r: Result<Merge, Action>)
    ensures
        (r matches Ok(merge) ==> requested_merge(*request) == Ok::<MergeView, ActionView>(merge@)),
        r matches Err(action) ==> requested_merge(*request) == Err::<MergeView, ActionView>(action@),
{
    let raw = need(request, &request.repository, "repository")?;
    let source_repository = match normalise_repository(raw) {
        Ok(repository) => repository,
        Err(error) => return Err(Action::Fail { error }),
    };
    let target_repository = match &request.target_repository {
        Some(raw) => match normalise_repository(raw.as_str()) {
            Ok(repository) => repository,
            Err(error) => return Err(Action::Fail { error }),
        },
        None => copy(source_repository.as_str()),
    };
    let source_ref = copy(need(request, &request.source_ref, "source_ref")?);
    let target_ref = copy(need(request, &request.target_ref, "target_ref")?);
    Ok(Merge { source_repository, target_repository, source_ref, target_ref })
}

/// The form that creates a merge proposal.
pub open spec fn merge_form(request: Request, target_link: Seq<char>) -> Seq<(Seq<char>, Seq<char>)> {
    let needs_review = if request.needs_review == Some(false) {
        "false"@
    } else {
        "true"@
    };
    with_value(
        Seq::empty().push(("ws.op"@, "createMergeProposal"@)).push(
            ("merge_target"@, target_link),
        ).push(("initial_comment"@, text_or_empty(opt_view(request.description)))).push(
            ("needs_review"@, needs_review),
        ),
        "commit_message"@,
        opt_view(request.commit_message),
    )
}

/// What messages call a merge proposal between its refs.
pub open spec fn merge_name(merge: MergeView) -> Seq<char> {
    "from source "@ + merge.source_repository + ":"@ + normalised_ref(merge.source_ref)
        + " to target "@ + merge.target_repository + ":"@ + normalised_ref(merge.target_ref)
}

fn name_merge(merge: &Merge) -> (r: String)
    ensures
        r@ == merge_name(merge@),
{
    cat8(
        "from source ",
        merge.source_repository.as_str(),
        ":",
        normalise_ref(merge.source_ref.as_str()).as_str(),
        " to target ",
        merge.target_repository.as_str(),
        ":",
        normalise_ref(merge.target_ref.as_str()).as_str(),
    )
}

/// The links of the refs of a merge proposal, once they are answered.
pub open spec fn merge_links(merge: MergeView, base: Seq<char>, replies: Seq<Reply>) -> Result<
    (Seq<char>, Seq<char>),
    ActionView,
> {
    match git_ref_at("source"@, merge.source_repository, merge.source_ref, base, replies, 0) {
        Err(stop) => Err(stop),
        Ok(source) => match git_ref_at(
            "target"@,
            merge.target_repository,
            merge.target_ref,
            base,
            replies,
            2,
        ) {
            Err(stop) => Err(stop),
            Ok(target) => match ref_link(
                source,
                "source"@,
                merge.source_ref,
                merge.source_repository,
            ) {
                Err(stop) => Err(stop),
                Ok(source_link) => match ref_link(
                    target,
                    "target"@,
                    merge.target_ref,
                    merge.target_repository,
                ) {
                    Err(stop) => Err(stop),
                    Ok(target_link) => Ok((source_link, target_link)),
                },
            },
        },
    }
}

/// The report of a merge proposal that was created, once it is answered.
pub open spec fn created_merge(merge: MergeView, location: Seq<char>, replies: Seq<Reply>) -> Result<
    ResultView,
    ActionView,
> {
    match contextual(
        json_at(replies, 5, get(location)),
        "cannot load merge proposal created "@ + merge_name(merge),
    ) {
        Err(stop) => Err(stop),
        Ok(proposal) => match proposal_details_at(proposal, replies, 6) {
            Err(stop) => Err(stop),
            Ok(details) => Ok(
                ResultView {
                    text: "# Created Launchpad merge proposal\n\n"@ + proposal_document(
                        proposal,
                        Seq::empty(),
                        Seq::empty(),
                        false,
                        1,
                        1,
                    ),
                    source_url: proposal.text("web_link"@),
                    details: object_members(details),
                },
            ),
        },
    }
}

/// Creates a merge proposal.
pub open spec fn merge_creation(request: Request, base: Seq<char>, replies: Seq<Reply>) -> Result<
    ResultView,
    ActionView,
> {
    match requested_merge(request) {
        Err(stop) => Err(stop),
        Ok(merge) => match merge_links(merge, base, replies) {
            Err(stop) => Err(stop),
            Ok((source_link, target_link)) => match contextual(
                text_at(
                    replies,
                    4,
                    ActionView::Create {
                        url: source_link,
                        pairs: merge_form(request, target_link),
                    },
                ),
                "cannot create merge proposal "@ + merge_name(merge),
            ) {
                Err(stop) => Err(stop),
                Ok(location) => created_merge(merge, location, replies),
            },
        },
    }
}

fn build_merge_form(request: &Request, target_link: &str) -> (r: Vec<(String, String)>)
    ensures
        pairs_view(r@) == merge_form(*request, target_link@),
{
    let mut pairs = no_pairs();
    push_pair(&mut pairs, "ws.op", "createMergeProposal");
    push_pair(&mut pairs, "merge_target", target_link);
    push_pair(
        &mut pairs,
        "initial_comment",
        or_empty(borrow_option(&request.description)).as_str(),
    );
    let needs_review = match request.needs_review {
        Some(needs_review) => needs_review,
        None => true,
    };
    if needs_review {
        push_pair(&mut pairs, "needs_review", "true");
    } else {
        push_pair(&mut pairs, "needs_review", "false");
    }
    push_value(&mut pairs, "commit_message", &request.commit_message);
    pairs
}

fn report_created_merge(merge: &Merge, location: &str, replies: &Vec<Reply>) -> (r: Result<
    OperationResult,
    Action,
>)
    ensures
        result_step(r) == created_merge(merge@, location@, replies@),
{
    let context = cat2("cannot load merge proposal created ", name_merge(merge).as_str());
    let proposal = with_context(json_reply(replies, 5, get_url(location)), context.as_str())?;
    let details = proposal_details(proposal, replies, 6)?;
    let none: Vec<Json> = no_items();
    let text = cat2(
        "# Created Launchpad merge proposal\n\n",
        render_proposal(proposal, &none, &none, false, 1).as_str(),
    );
    Ok(
        OperationResult {
            text,
            source_url: owned_field(proposal, "web_link"),
            details: members_of_object(details),
        },
    )
}

/// Creates a merge proposal.
pub fn create_merge_proposal(request: &Request, base: &str, replies: &Vec<Reply>) -> (r: Result<
    OperationResult,
    Action,
>)
    ensures
        result_step(r) == merge_creation(*request, base@, replies@),
{
    let merge = read_merge(request)?;
    let source = find_git_ref(
        "source",
        merge.source_repository.as_str(),
        merge.source_ref.as_str(),
        base,
        replies,
        0,
    )?;
    let target = find_git_ref(
        "target",
        merge.target_repository.as_str(),
        merge.target_ref.as_str(),
        base,
        replies,
        2,
    )?;
    let source_link = find_ref_link(
        source,
        "source",
        merge.source_ref.as_str(),
        merge.source_repository.as_str(),
    )?;
    let target_link = find_ref_link(
        target,
        "target",
        merge.target_ref.as_str(),
        merge.target_repository.as_str(),
    )?;
    let context = cat2("cannot create merge proposal ", name_merge(&merge).as_str());
    let location = with_context(
        text_reply(
            replies,
            4,
            Action::Create {
                url: copy(source_link),
                pairs: build_merge_form(request, target_link),
            },
        ),
        context.as_str(),
    )?;
    report_created_merge(&merge, location, replies)
}

/// The page of a resource.
pub open spec fn web_url(path: Seq<char>, kind: Seq<char>) -> Seq<char> {
    if kind == "bug"@ {
        "https://bugs.launchpad.net"@ + "/"@ + path
    } else {
        "https://code.launchpad.net"@ + "/"@ + path
    }
}

/// The page of a resource.
pub fn launchpad_web_url(path: &str, kind: &str) -> (r: String)
    ensures
        r@ == web_url(path@, kind@),
{
    if crate::text::same(kind, "bug") {
        crate::format::cat3("https://bugs.launchpad.net", "/", path)
    } else {
        crate::format::cat3("https://code.launchpad.net", "/", path)
    }
}

/// The report of a comment that was added.
pub open spec fn comment_result(kind: Seq<char>, url: Seq<char>) -> ResultView {
    ResultView {
        text: "Comment added to "@ + url,
        source_url: Some(url),
        details: Seq::empty().push(("kind"@, JsonView::Text(kind))),
    }
}

fn report_comment(kind: &str, url: String) -> (r: OperationResult)
    ensures
        r@ == comment_result(kind@, url@),
{
    let text = cat2("Comment added to ", url.as_str());
    let mut details = no_members();
    push_member(&mut details, "kind", Json::of_text(kind));
    OperationResult { text, source_url: Some(url), details }
}

/// Adds a comment to a bug.
pub open spec fn bug_comment(
    request: Request,
    id: u64,
    path: Seq<char>,
    body: Seq<char>,
    base: Seq<char>,
    replies: Seq<Reply>,
) -> Result<ResultView, ActionView> {
    match done_at(
        replies,
        0,
        ActionView::Post {
            url: service_url(base, bug_resource(id, ""@)),
            pairs: with_value(
                Seq::empty().push(("ws.op"@, "newMessage"@)).push(("content"@, body)),
                "subject"@,
                opt_view(request.subject),
            ),
        },
    ) {
        Err(stop) => Err(stop),
        Ok(_) => Ok(comment_result("bug"@, web_url(path, "bug"@))),
    }
}

/// The page of a merge proposal, or the target of the request where the proposal does not say.
pub open spec fn proposal_page(proposal: JsonView, target: Seq<char>) -> Seq<char> {
    value_or(proposal.text("web_link"@), target)
}

/// The page of a merge proposal, or the target of the request where the proposal does not say.
pub fn page_of_proposal(proposal: &Json, target: &str) -> (r: String)
    ensures
        r@ == proposal_page(proposal@, target@),
{
    match text_field(proposal, "web_link") {
        Some(link) => copy(link),
        None => copy(target),
    }
}

/// Adds a comment, and a vote where there is one, to a merge proposal.
pub open spec fn proposal_comment(
    request: Request,
    target: Seq<char>,
    body: Seq<char>,
    replies: Seq<Reply>,
) -> Result<ResultView, ActionView> {
    match json_at(replies, 0, ActionView::Proposal { target }) {
        Err(stop) => Err(stop),
        Ok(proposal) => match or_fail(proposal_url(proposal)) {
            Err(stop) => Err(stop),
            Ok(url) => match done_at(
                replies,
                1,
                ActionView::Post {
                    url,
                    pairs: with_value(
                        with_value(
                            Seq::empty().push(("ws.op"@, "createComment"@)).push(
                                ("content"@, body),
                            ),
                            "subject"@,
                            opt_view(request.subject),
                        ),
                        "vote"@,
                        opt_view(request.vote),
                    ),
                },
            ) {
                Err(stop) => Err(stop),
                Ok(_) => Ok(
                    comment_result("branch_merge_proposal"@, proposal_page(proposal, target)),
                ),
            },
        },
    }
}

/// Adds a comment to a bug or a merge proposal.
pub open spec fn comment_addition(request: Request, base: Seq<char>, replies: Seq<Reply>) -> Result<
    ResultView,
    ActionView,
> {
    match needed(request, request.target, "target"@) {
        Err(stop) => Err(stop),
        Ok(raw) => match or_fail(parsed_target(raw)) {
            Err(stop) => Err(stop),
            Ok(target) => match needed(request, request.body, "body"@) {
                Err(stop) => Err(stop),
                Ok(body) => match target.kind {
                    KindView::Bug { id } => bug_comment(
                        request,
                        id,
                        target.path,
                        body,
                        base,
                        replies,
                    ),
                    KindView::MergeProposal { .. } => proposal_comment(request, raw, body, replies),
                    KindView::MergeProposalId { .. } => proposal_comment(
                        request,
                        raw,
                        body,
                        replies,
                    ),
                    _ => Err(
                        fail(
                            invalid("comments are supported only for bugs and merge proposals"@),
                        ),
                    ),
                },
            },
        },
    }
}

fn comment_on_bug(
    request: &Request,
    id: u64,
    path: &str,
    body: &str,
    base: &str,
    replies: &Vec<Reply>,
) -> (r: Result<OperationResult, Action>)
    ensures
        result_step(r) == bug_comment(*request, id, path@, body@, base@, replies@),
{
    let mut pairs = no_pairs();
    push_pair(&mut pairs, "ws.op", "newMessage");
    push_pair(&mut pairs, "content", body);
    push_value(&mut pairs, "subject", &request.subject);
    let url = api_url(base, path_of_bug(id, "").as_str());
    done_reply(replies, 0, Action::Post { url, pairs })?;
    Ok(report_comment("bug", launchpad_web_url(path, "bug")))
}

fn comment_on_proposal(request: &Request, target: &str, body: &str, replies: &Vec<Reply>) -> (r: Result<
    OperationResult,
    Action,
>)
    ensures
        result_step(r) == proposal_comment(*request, target@, body@, replies@),
{
    let proposal = json_reply(replies, 0, Action::Proposal { target: copy(target) })?;
    let url = match proposal_api_url(proposal) {
        Ok(url) => url,
        Err(error) => return Err(Action::Fail { error }),
    };
    let mut pairs = no_pairs();
    push_pair(&mut pairs, "ws.op", "createComment");
    push_pair(&mut pairs, "content", body);
    push_value(&mut pairs, "subject", &request.subject);
    push_value(&mut pairs, "vote", &request.vote);
    done_reply(replies, 1, Action::Post { url, pairs })?;
    Ok(report_comment("branch_merge_proposal", page_of_proposal(proposal, target)))
}

/// Adds a comment to a bug or a merge proposal.
pub fn add_comment(request: &Request, base: &str, replies: &Vec<Reply>) -> (r: Result<
    OperationResult,
    Action,
>)
    ensures
        result_step(r) == comment_addition(*request, base@, replies@),
{
    let raw = need(request, &request.target, "target")?;
    let target = match ResourceTarget::parse(raw) {
        Ok(target) => target,
        Err(error) => return Err(Action::Fail { error }),
    };
    let body = need(request, &request.body, "body")?;
    match &target.kind {
        ResourceKind::Bug { id } => comment_on_bug(
            request,
            *id,
            target.path.as_str(),
            body,
            base,
            replies,
        ),
        ResourceKind::MergeProposal { .. } => comment_on_proposal(request, raw, body, replies),
        ResourceKind::MergeProposalId { .. } => comment_on_proposal(request, raw, body, replies),
        _ => Err(refuse("comments are supported only for bugs and merge proposals")),
    }
}

/// Sets the status of a merge proposal.
pub open spec fn status_change(request: Request, replies: Seq<Reply>) -> Result<
    ResultView,
    ActionView,
> {
    match proposal_at(request, replies, 0) {
        Err(stop) => Err(stop),
        Ok(proposal) => match or_fail(request_status(request)) {
            Err(stop) => Err(stop),
            Ok(status) => match or_fail(proposal_url(proposal)) {
                Err(stop) => Err(stop),
                Ok(url) => match done_at(
                    replies,
                    1,
                    ActionView::Post {
                        url,
                        pairs: Seq::empty().push(("ws.op"@, "setStatus"@)).push(
                            ("status"@, status),
                        ),
                    },
                ) {
                    Err(stop) => Err(stop),
                    Ok(_) => {
                        let page = proposal_page(proposal, request.target->0@);
                        Ok(
                            ResultView {
                                text: "Merge proposal status set to "@ + status + ": "@ + page,
                                source_url: Some(page),
                                details: Seq::empty().push(("status"@, JsonView::Text(status))),
                            },
                        )
                    },
                },
            },
        },
    }
}

/// Sets the status of a merge proposal.
pub fn set_merge_proposal_status(request: &Request, replies: &Vec<Reply>) -> (r: Result<
    OperationResult,
    Action,
>)
    ensures
        result_step(r) == status_change(*request, replies@),
{
    let proposal = request_merge_proposal(request, replies, 0)?;
    let target = need(request, &request.target, "target")?;
    let status = match request.status() {
        Ok(status) => status,
        Err(error) => return Err(Action::Fail { error }),
    };
    let url = match proposal_api_url(proposal) {
        Ok(url) => url,
        Err(error) => return Err(Action::Fail { error }),
    };
    let mut pairs = no_pairs();
    push_pair(&mut pairs, "ws.op", "setStatus");
    push_pair(&mut pairs, "status", status);
    done_reply(replies, 1, Action::Post { url, pairs })?;
    let page = page_of_proposal(proposal, target);
    let text = cat4("Merge proposal status set to ", status, ": ", page.as_str());
    let mut details = no_members();
    push_member(&mut details, "status", Json::of_text(status));
    Ok(OperationResult { text, source_url: Some(page), details })
}

} // verus!
