//! The operations that find the merge proposal of a branch, named or checked out.
use vstd::prelude::*;
use crate::details::{proposal_details, proposal_details_at};
use crate::fields::{owned_field, text_field, value_or};
use crate::format::cat4;
use crate::json::{
    items_view, no_items, no_members, number_view, push_item, push_member, texts_view,
    value_or_null, Json, JsonView,
};
use crate::lookup::{identifier_of, repository_identifier};
use crate::number::{one_more, plus_one};
use crate::people::identity_view;
use crate::proposals::{
    proposal_selection_filters, proposal_summary, proposal_summary_of, selection_filters,
};
use crate::report::{proposal_lookup_document, render_proposal_lookup};
use crate::repository::{normalise_ref, normalise_repository, normalised_ref, normalised_repository};
use crate::request::Request;
use crate::response::{OperationResult, ResultView};
use crate::steps::{
    checkout_at, checkout_reply, lookup_at, lookup_reply, or_fail, remotes_view, result_step,
    Action, ActionView, Checkout, CheckoutView, LookupView, ProposalLookup, ProposalSelection,
    Remote, Reply,
};
use crate::text::{blank, copy, is_blank, trim, trimmed, views};

verus! {

/// What a lookup was asked for, and where that came from.
pub struct LookupContext<'value> {
    pub requested_repository: &'value str,
    pub branch: &'value str,
    pub inferred: bool,
    pub kind: &'value str,
    pub metadata: Option<Json>,
}

/// What the context of a lookup holds.
#[verifier::ext_equal]
pub struct LookupContextView {
    pub requested_repository: Seq<char>,
    pub branch: Seq<char>,
    pub inferred: bool,
    pub kind: Seq<char>,
    pub metadata: Option<JsonView>,
}

impl<'value> View for LookupContext<'value> {
    type V = LookupContextView;

    open spec fn view(&self) -> LookupContextView {
        LookupContextView {
            requested_repository: self.requested_repository@,
            branch: self.branch@,
            inferred: self.inferred,
            kind: self.kind@,
            metadata: identity_view(self.metadata),
        }
    }
}

/// The report that a branch has no merge proposal.
pub open spec fn missing_result(
    request: Request,
    repository: Seq<char>,
    inspected: Seq<Seq<char>>,
    context: LookupContextView,
) -> ResultView {
    let branch = normalised_ref(context.branch);
    ResultView {
        text: "# No merge proposal found for "@ + repository + ":"@ + branch,
        source_url: None,
        details: Seq::empty().push(("kind"@, JsonView::Text(context.kind))).push(
            ("found"@, JsonView::Bool(false)),
        ).push(("repository"@, JsonView::Text(repository))).push(
            ("requested_repository"@, JsonView::Text(context.requested_repository)),
        ).push(("inspected_repositories"@, texts_view(inspected))).push(
            ("branch"@, JsonView::Text(branch)),
        ).push(("inferred"@, JsonView::Bool(context.inferred))).push(
            ("selection_filters"@, selection_filters(request)),
        ).push(("context"@, value_or_null(context.metadata))),
    }
}

/// Where the repository and branch of a lookup came from.
pub open spec fn resolution_text(inferred: bool, related: bool) -> Seq<char> {
    if inferred {
        "current Git checkout"@
    } else if related {
        "related target repository"@
    } else {
        "explicit repository and branch"@
    }
}

/// What a lookup calls the repository that it found a proposal in.
pub open spec fn found_repository(repository: JsonView) -> Seq<char> {
    value_or(repository.text("unique_name"@), identifier_of(repository))
}

/// The report of the merge proposal that a lookup selected.
pub open spec fn found_result(
    request: Request,
    lookup: LookupView,
    details: JsonView,
    context: LookupContextView,
) -> ResultView {
    let repository = found_repository(lookup->Found_repository);
    let branch = normalised_ref(context.branch);
    ResultView {
        text: proposal_lookup_document(
            lookup->proposal,
            lookup->alternatives,
            repository,
            branch,
            resolution_text(context.inferred, lookup->related_repository),
            lookup->reason,
        ),
        source_url: lookup->proposal.text("web_link"@),
        details: Seq::empty().push(("kind"@, JsonView::Text(context.kind))).push(
            ("found"@, JsonView::Bool(true)),
        ).push(("repository"@, JsonView::Text(repository))).push(
            ("requested_repository"@, JsonView::Text(context.requested_repository)),
        ).push(("branch"@, JsonView::Text(branch))).push(
            ("inferred"@, JsonView::Bool(context.inferred)),
        ).push(("related_repository"@, JsonView::Bool(lookup->related_repository))).push(
            ("candidate_count"@, number_view(lookup->candidate_count as u64)),
        ).push(("matching_proposals"@, number_view(one_more(lookup->alternatives.len())))).push(
            ("selected_proposal"@, details),
        ).push(("selection_reason"@, JsonView::Text(lookup->reason))).push(
            ("selection_filters"@, selection_filters(request)),
        ).push(
            (
                "other_proposals"@,
                JsonView::Array(
                    lookup->alternatives.map_values(
                        |proposal: JsonView| proposal_summary_of(proposal),
                    ),
                ),
            ),
        ).push(("context"@, value_or_null(context.metadata))),
    }
}

/// The report of a lookup, once the repositories of the selected proposal are answered.
pub open spec fn lookup_result(
    request: Request,
    lookup: LookupView,
    context: LookupContextView,
    replies: Seq<Reply>,
    at: int,
) -> Result<ResultView, ActionView> {
    match lookup {
        LookupView::Missing { repository, inspected_repositories } => Ok(
            missing_result(request, repository, inspected_repositories, context),
        ),
        LookupView::Found { proposal, .. } => match proposal_details_at(proposal, replies, at) {
            Err(stop) => Err(stop),
            Ok(details) => Ok(found_result(request, lookup, details, context)),
        },
    }
}

fn metadata_json(metadata: &Option<Json>) -> (r: Json)
    ensures
        r@ == value_or_null(identity_view(*metadata)),
{
    match metadata {
        Some(metadata) => metadata.copy(),
        None => Json::Null,
    }
}

fn report_missing(
    request: &Request,
    repository: &str,
    inspected: &Vec<String>,
    context: &LookupContext,
) -> (r: OperationResult)
    ensures
        r@ == missing_result(*request, repository@, views(inspected@), context@),
{
    let branch = normalise_ref(context.branch);
    let text = cat4("# No merge proposal found for ", repository, ":", branch.as_str());
    let mut details = no_members();
    push_member(&mut details, "kind", Json::of_text(context.kind));
    push_member(&mut details, "found", Json::Bool(false));
    push_member(&mut details, "repository", Json::of_text(repository));
    push_member(
        &mut details,
        "requested_repository",
        Json::of_text(context.requested_repository),
    );
    push_member(&mut details, "inspected_repositories", Json::of_texts(inspected));
    push_member(&mut details, "branch", Json::Text(branch));
    push_member(&mut details, "inferred", Json::Bool(context.inferred));
    push_member(&mut details, "selection_filters", proposal_selection_filters(request));
    push_member(&mut details, "context", metadata_json(&context.metadata));
    OperationResult { text, source_url: None, details }
}

fn summarise_alternatives(alternatives: &Vec<Json>) -> (r: Vec<Json>)
    ensures
        items_view(r@) == items_view(alternatives@).map_values(
            |proposal: JsonView| proposal_summary_of(proposal),
        ),
{
    let ghost all = items_view(alternatives@).map_values(
        |proposal: JsonView| proposal_summary_of(proposal),
    );
    let mut out = no_items();
    assert(all.take(0) =~= Seq::empty());
    for i in 0..alternatives.len()
        invariant
            all == items_view(alternatives@).map_values(
                |proposal: JsonView| proposal_summary_of(proposal),
            ),
            items_view(out@) == all.take(i as int),
    {
        push_item(&mut out, proposal_summary(&alternatives[i]));
        assert(all.take(i + 1) =~= all.take(i as int).push(
            proposal_summary_of(alternatives@[i as int]@),
        ));
    }
    assert(all.take(all.len() as int) =~= all);
    out
}

fn find_repository_name<'value>(repository: &'value Json) -> (r: &'value str)
    ensures
        r@ == found_repository(repository@),
{
    match text_field(repository, "unique_name") {
        Some(name) => name,
        None => repository_identifier(repository),
    }
}

fn report_found(
    request: &Request,
    selection: &ProposalSelection,
    selected: Json,
    context: &LookupContext,
) -> (r: OperationResult)
    ensures
        r@ == found_result(
            *request,
            LookupView::Found {
                repository: selection.repository@,
                proposal: selection.proposal@,
                alternatives: items_view(selection.alternatives@),
                related_repository: selection.related_repository,
                reason: selection.reason@,
                candidate_count: selection.candidate_count,
            },
            selected@,
            context@,
        ),
{
    let repository = find_repository_name(&selection.repository);
    let branch = normalise_ref(context.branch);
    let resolution = if context.inferred {
        "current Git checkout"
    } else if selection.related_repository {
        "related target repository"
    } else {
        "explicit repository and branch"
    };
    let text = render_proposal_lookup(
        &selection.proposal,
        &selection.alternatives,
        repository,
        branch.as_str(),
        resolution,
        selection.reason.as_str(),
    );
    assert(items_view(selection.alternatives@).len() == selection.alternatives@.len());
    let mut details = no_members();
    push_member(&mut details, "kind", Json::of_text(context.kind));
    push_member(&mut details, "found", Json::Bool(true));
    push_member(&mut details, "repository", Json::of_text(repository));
    push_member(
        &mut details,
        "requested_repository",
        Json::of_text(context.requested_repository),
    );
    push_member(&mut details, "branch", Json::Text(branch));
    push_member(&mut details, "inferred", Json::Bool(context.inferred));
    push_member(&mut details, "related_repository", Json::Bool(selection.related_repository));
    push_member(
        &mut details,
        "candidate_count",
        Json::of_number(selection.candidate_count as u64),
    );
    push_member(
        &mut details,
        "matching_proposals",
        Json::of_number(plus_one(selection.alternatives.len())),
    );
    push_member(&mut details, "selected_proposal", selected);
    push_member(&mut details, "selection_reason", Json::of_text(selection.reason.as_str()));
    push_member(&mut details, "selection_filters", proposal_selection_filters(request));
    push_member(
        &mut details,
        "other_proposals",
        Json::Array(summarise_alternatives(&selection.alternatives)),
    );
    push_member(&mut details, "context", metadata_json(&context.metadata));
    OperationResult { text, source_url: owned_field(&selection.proposal, "web_link"), details }
}

/// The report of a lookup, once the repositories of the selected proposal are answered.
pub fn proposal_lookup_result(
    request: &Request,
    lookup: &ProposalLookup,
    context: &LookupContext,
    replies: &Vec<Reply>,
    at: usize,
) -> (r: Result<OperationResult, Action>)
    ensures
        result_step(r) == lookup_result(*request, lookup@, context@, replies@, at as int),
{
    match lookup {
        ProposalLookup::Missing { repository, inspected_repositories } => Ok(
            report_missing(request, repository.as_str(), inspected_repositories, context),
        ),
        ProposalLookup::Found(selection) => {
            let details = proposal_details(&selection.proposal, replies, at)?;
            Ok(report_found(request, selection, details, context))
        },
    }
}

/// A repository and branch to look up, and whether they were inferred from the checkout.
pub struct BranchSelector {
    pub repository: String,
    pub branch: String,
    pub inferred: bool,
    pub requested_repository: String,
}

/// What a selector of a branch holds.
#[verifier::ext_equal]
pub struct SelectorView {
    pub repository: Seq<char>,
    pub branch: Seq<char>,
    pub inferred: bool,
    pub requested_repository: Seq<char>,
}

impl View for BranchSelector {
    type V = SelectorView;

    open spec fn view(&self) -> SelectorView {
        SelectorView {
            repository: self.repository@,
            branch: self.branch@,
            inferred: self.inferred,
            requested_repository: self.requested_repository@,
        }
    }
}

/// Whether a request names both a repository and a branch.
pub open spec fn names_branch(request: Request) -> bool {
    &&& request.repository is Some
    &&& request.branch is Some
    &&& !is_blank(request.repository->0@)
    &&& !is_blank(request.branch->0@)
}

/// How many answers the selection of a branch takes.
pub open spec fn selector_steps(request: Request) -> int {
    if names_branch(request) {
        0
    } else {
        1
    }
}

/// The repository and branch that a request names, or else those of the checkout.
pub open spec fn selector_at(request: Request, replies: Seq<Reply>) -> Result<
    SelectorView,
    ActionView,
> {
    if names_branch(request) {
        let raw = request.repository->0@;
        match or_fail(normalised_repository(raw)) {
            Err(stop) => Err(stop),
            Ok(repository) => Ok(
                SelectorView {
                    repository,
                    branch: trimmed(request.branch->0@),
                    inferred: false,
                    requested_repository: raw,
                },
            ),
        }
    } else {
        match checkout_at(replies, 0) {
            Err(stop) => Err(stop),
            Ok(checkout) => match or_fail(normalised_repository(checkout.selected.1)) {
                Err(stop) => Err(stop),
                Ok(repository) => Ok(
                    SelectorView {
                        repository,
                        branch: checkout.branch,
                        inferred: true,
                        requested_repository: checkout.selected.1,
                    },
                ),
            },
        }
    }
}

/// What a step to a selector of a branch holds.
pub open spec fn selector_step(r: Result<BranchSelector, Action>) -> Result<SelectorView, ActionView> {
    match r {
        Ok(selector) => Ok(selector@),
        Err(action) => Err(action@),
    }
}

/// Whether a request names both a repository and a branch.
pub fn has_branch(request: &Request) -> (r: bool)
    ensures
        r == names_branch(*request),
{
    match (&request.repository, &request.branch) {
        (Some(repository), Some(branch)) => !blank(repository.as_str()) && !blank(branch.as_str()),
        _ => false,
    }
}

/// The repository and branch that a request names, or else those of the checkout.
pub fn branch_selector(request: &Request, replies: &Vec<Reply>) -> (r: Result<
    BranchSelector,
    Action,
>)
    ensures
        selector_step(r) == selector_at(*request, replies@),
{
    if has_branch(request) {
        if let (Some(raw), Some(branch)) = (&request.repository, &request.branch) {
            return match normalise_repository(raw.as_str()) {
                Err(error) => Err(Action::Fail { error }),
                Ok(repository) => Ok(
                    BranchSelector {
                        repository,
                        branch: trim(branch.as_str()),
                        inferred: false,
                        requested_repository: copy(raw.as_str()),
                    },
                ),
            };
        }
    }
    let checkout = checkout_reply(replies, 0)?;
    match normalise_repository(checkout.selected.url.as_str()) {
        Err(error) => Err(Action::Fail { error }),
        Ok(repository) => Ok(
            BranchSelector {
                repository,
                branch: copy(checkout.branch.as_str()),
                inferred: true,
                requested_repository: copy(checkout.selected.url.as_str()),
            },
        ),
    }
}

/// The action of looking up the proposal of a selected branch.
pub open spec fn lookup_action(selector: SelectorView) -> ActionView {
    ActionView::Lookup { repository: selector.repository, branch: selector.branch }
}

/// The action of looking up the proposal of a selected branch.
pub fn ask_lookup(selector: &BranchSelector) -> (r: Action)
    ensures
        r@ == lookup_action(selector@),
{
    Action::Lookup {
        repository: copy(selector.repository.as_str()),
        branch: copy(selector.branch.as_str()),
    }
}

/// What a lookup by a selector was asked for.
pub open spec fn selector_context(selector: SelectorView, kind: Seq<char>) -> LookupContextView {
    LookupContextView {
        requested_repository: selector.requested_repository,
        branch: selector.branch,
        inferred: selector.inferred,
        kind,
        metadata: None,
    }
}

/// The merge proposal of the branch that a request names, or of the one that is checked out.
pub open spec fn branch_view(request: Request, replies: Seq<Reply>) -> Result<
    ResultView,
    ActionView,
> {
    let next = selector_steps(request);
    match selector_at(request, replies) {
        Err(stop) => Err(stop),
        Ok(selector) => match lookup_at(replies, next, lookup_action(selector)) {
            Err(stop) => Err(stop),
            Ok(lookup) => lookup_result(
                request,
                lookup,
                selector_context(selector, "merge_proposal_for_branch"@),
                replies,
                next + 1,
            ),
        },
    }
}

/// The merge proposal of the branch that a request names, or of the one that is checked out.
pub fn view_merge_proposal_for_branch(request: &Request, replies: &Vec<Reply>) -> (r: Result<
    OperationResult,
    Action,
>)
    ensures
        result_step(r) == branch_view(*request, replies@),
{
    let next: usize = if has_branch(request) {
        0
    } else {
        1
    };
    let selector = branch_selector(request, replies)?;
    let lookup = lookup_reply(replies, next, ask_lookup(&selector))?;
    let context = LookupContext {
        requested_repository: selector.requested_repository.as_str(),
        branch: selector.branch.as_str(),
        inferred: selector.inferred,
        kind: "merge_proposal_for_branch",
        metadata: None,
    };
    proposal_lookup_result(request, lookup, &context, replies, next + 1)
}

/// A remote as JSON.
pub open spec fn remote_object(remote: (Seq<char>, Seq<char>)) -> JsonView {
    JsonView::Object(
        Seq::empty().push(("name"@, JsonView::Text(remote.0))).push(
            ("url"@, JsonView::Text(remote.1)),
        ),
    )
}

/// A checkout as JSON.
pub open spec fn checkout_object(checkout: CheckoutView) -> JsonView {
    JsonView::Object(
        Seq::empty().push(
            ("working_directory"@, JsonView::Text(checkout.working_directory)),
        ).push(("selected_remote"@, remote_object(checkout.selected))).push(
            (
                "inspected_remotes"@,
                JsonView::Array(
                    checkout.remotes.map_values(
                        |remote: (Seq<char>, Seq<char>)| remote_object(remote),
                    ),
                ),
            ),
        ),
    )
}

fn remote_json(remote: &Remote) -> (r: Json)
    ensures
        r@ == remote_object((remote.name@, remote.url@)),
{
    let mut members = no_members();
    push_member(&mut members, "name", Json::of_text(remote.name.as_str()));
    push_member(&mut members, "url", Json::of_text(remote.url.as_str()));
    Json::Object(members)
}

fn checkout_json(checkout: &Checkout) -> (r: Json)
    ensures
        r@ == checkout_object(checkout@),
{
    let ghost all = remotes_view(checkout.remotes@).map_values(
        |remote: (Seq<char>, Seq<char>)| remote_object(remote),
    );
    let mut remotes = no_items();
    assert(all.take(0) =~= Seq::empty());
    for i in 0..checkout.remotes.len()
        invariant
            all == remotes_view(checkout.remotes@).map_values(
                |remote: (Seq<char>, Seq<char>)| remote_object(remote),
            ),
            items_view(remotes@) == all.take(i as int),
    {
        push_item(&mut remotes, remote_json(&checkout.remotes[i]));
        assert(all.take(i + 1) =~= all.take(i as int).push(all[i as int]));
    }
    assert(all.take(all.len() as int) =~= all);
    let mut members = no_members();
    push_member(
        &mut members,
        "working_directory",
        Json::of_text(checkout.working_directory.as_str()),
    );
    push_member(&mut members, "selected_remote", remote_json(&checkout.selected));
    push_member(&mut members, "inspected_remotes", Json::Array(remotes));
    Json::Object(members)
}

/// The merge proposal of the branch that is checked out.
pub open spec fn current_view(request: Request, replies: Seq<Reply>) -> Result<
    ResultView,
    ActionView,
> {
    match checkout_at(replies, 0) {
        Err(stop) => Err(stop),
        Ok(checkout) => match or_fail(normalised_repository(checkout.selected.1)) {
            Err(stop) => Err(stop),
            Ok(repository) => match lookup_at(
                replies,
                1,
                ActionView::Lookup { repository, branch: checkout.branch },
            ) {
                Err(stop) => Err(stop),
                Ok(lookup) => lookup_result(
                    request,
                    lookup,
                    LookupContextView {
                        requested_repository: checkout.selected.1,
                        branch: checkout.branch,
                        inferred: true,
                        kind: "current_merge_proposal"@,
                        metadata: Some(checkout_object(checkout)),
                    },
                    replies,
                    2,
                ),
            },
        },
    }
}

/// The merge proposal of the branch that is checked out.
pub fn view_current_merge_proposal(request: &Request, replies: &Vec<Reply>) -> (r: Result<
    OperationResult,
    Action,
>)
    ensures
        result_step(r) == current_view(*request, replies@),
{
    let checkout = checkout_reply(replies, 0)?;
    let repository = match normalise_repository(checkout.selected.url.as_str()) {
        Ok(repository) => repository,
        Err(error) => return Err(Action::Fail { error }),
    };
    let lookup = lookup_reply(
        replies,
        1,
        Action::Lookup { repository, branch: copy(checkout.branch.as_str()) },
    )?;
    let context = LookupContext {
        requested_repository: checkout.selected.url.as_str(),
        branch: checkout.branch.as_str(),
        inferred: true,
        kind: "current_merge_proposal",
        metadata: Some(checkout_json(checkout)),
    };
    proposal_lookup_result(request, lookup, &context, replies, 2)
}

/// Whether a result says that a merge proposal was found.
pub open spec fn says_found(result: ResultView) -> Option<bool> {
    match crate::json::member_in(result.details, "found"@) {
        Some(JsonView::Bool(found)) => Some(found),
        _ => None,
    }
}

/// The report of a lookup says exactly whether a proposal was found.
pub proof fn lemma_result_says_found(
    request: Request,
    lookup: LookupView,
    context: LookupContextView,
    replies: Seq<Reply>,
    at: int,
)
    ensures
        lookup_result(request, lookup, context, replies, at) matches Ok(result) ==> says_found(result)
            == Some(lookup is Found),
{
    if let Ok(result) = lookup_result(request, lookup, context, replies, at) {
        reveal_strlit("kind");
        reveal_strlit("found");
        assert("kind"@.len() == 4 && "found"@.len() == 5);
        let members = result.details;
        assert(members[0].0 == "kind"@);
        assert(members.skip(1)[0] == ("found"@, JsonView::Bool(lookup is Found)));
        reveal_with_fuel(crate::json::member_in, 3);
    }
}

} // verus!
