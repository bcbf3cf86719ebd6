//! The merge proposal of a branch: in its own repository first, and then in related ones.
use vstd::prelude::*;
use crate::error::{in_context, invalid, Error, ErrorView};
use crate::fields::{id_of, resource_id, text_field, value_or};
use crate::format::{cat10, cat2, cat3, cat4, cat6, cat7};
use crate::items::{first_items, keep, take_items};
use crate::json::{items_view, no_items, Json, JsonView};
use crate::lines::{no_lines, or_empty};
use crate::number::{add_counts, decimal, decimal_size, together};
use crate::order::{arranged, lemma_order_is_permutation, order_of};
use crate::preview::{find_link, link_in};
use crate::proposals::{
    eligibility, eligible_proposals, is_eligible, is_set, proposal_selection_filters,
    select_proposal, selection, selection_filters, selection_keys, Selected, SelectedView,
};
use crate::repository::{api_url, normalise_ref, normalised_ref, service_url};
use crate::request::Request;
use crate::split::{holds_text, join, join_parts, push_part};
use crate::steps::{
    contextual, entries_at, entries_reply, fail, get_all, get_all_url, get_some, get_some_url,
    json_at, json_reply, or_fail, refs_at, refs_reply, refs_view, refuse, stop_at, text_at,
    text_reply, with_context, Action, ActionView, GitRef, LookupView, Place, PlaceView,
    ProposalLookup, ProposalSelection, RefView, RelatedProposals, Reply,
};
use crate::text::{copy, opt_str_view, same, trim_end_matches, trim_end_of, views};
use crate::viewing::{get_repository, is_flagged, repository_at};
use crate::web::{no_pairs, push_pair, UrlQuery, UrlQueryView};

verus! {

/// How many proposals are looked through where the branch is gone.
pub const MAX_BRANCH_FALLBACK_ITEMS: usize = 250;

/// How many repositories of a target are looked through.
pub const MAX_REPOSITORY_CANDIDATES: usize = 100;

/// What messages call a repository.
pub open spec fn identifier_of(repository: JsonView) -> Seq<char> {
    value_or(repository.text("web_link"@), "repository"@)
}

/// What messages call a repository.
pub fn repository_identifier(repository: &Json) -> (r: &str)
    ensures
        r@ == identifier_of(repository@),
{
    match text_field(repository, "web_link") {
        Some(link) => link,
        None => "repository",
    }
}

/// The first ref with a path.
pub open spec fn ref_with_path(refs: Seq<RefView>, path: Seq<char>) -> Option<RefView>
    decreases refs.len(),
{
    if refs.len() == 0 {
        None
    } else if refs[0].path == Some(path) {
        Some(refs[0])
    } else {
        ref_with_path(refs.skip(1), path)
    }
}

/// What an optional ref holds.
pub open spec fn opt_ref_view(git_ref: Option<&GitRef>) -> Option<RefView> {
    match git_ref {
        Some(git_ref) => Some(git_ref@),
        None => None,
    }
}

/// The first ref with a path.
pub fn find_ref<'value>(refs: &'value Vec<GitRef>, path: &str) -> (r: Option<&'value GitRef>)
    ensures
        opt_ref_view(r) == ref_with_path(refs_view(refs@), path@),
{
    let ghost all = refs_view(refs@);
    assert(all.skip(0) =~= all);
    for i in 0..refs.len()
        invariant
            all == refs_view(refs@),
            ref_with_path(all, path@) == ref_with_path(all.skip(i as int), path@),
    {
        assert(all.skip(i as int)[0] == refs@[i as int]@);
        assert(all.skip(i as int).skip(1) =~= all.skip(i + 1));
        if let Some(found) = &refs[i].path {
            if same(found.as_str(), path) {
                return Some(&refs[i]);
            }
        }
    }
    None
}

/// The collection of the proposals from a ref, or of those of its repository where the ref is
/// gone or has no link.
pub open spec fn branch_collection(repository: JsonView, git_ref: Option<RefView>) -> Result<
    Seq<char>,
    ActionView,
> {
    let own = match git_ref {
        Some(git_ref) => git_ref.self_link,
        None => None,
    };
    match own {
        Some(link) => Ok(trim_end_of(link, '/') + "/landing_targets"@),
        None => link_in(
            repository,
            "landing_targets_collection_link"@,
            "Launchpad repository has no merge proposal collection"@,
        ),
    }
}

fn find_collection(repository: &Json, git_ref: Option<&GitRef>) -> (r: Result<String, Action>)
    ensures
        crate::steps::text_step(r) == branch_collection(repository@, opt_ref_view(git_ref)),
{
    if let Some(git_ref) = git_ref {
        if let Some(link) = &git_ref.self_link {
            return Ok(cat2(trim_end_matches(link.as_str(), '/').as_str(), "/landing_targets"));
        }
    }
    let link = find_link(
        repository,
        "landing_targets_collection_link",
        "Launchpad repository has no merge proposal collection",
    )?;
    Ok(copy(link))
}

/// The test that a proposal comes from a branch.
pub open spec fn from_branch(branch: Seq<char>) -> spec_fn(JsonView) -> bool {
    |proposal: JsonView| proposal.text("source_git_path"@) == Some(branch)
}

/// The proposals that come from a branch.
pub fn keep_from_branch(proposals: &Vec<Json>, branch: &str) -> (r: Vec<Json>)
    ensures
        items_view(r@) == items_view(proposals@).filter(from_branch(branch@)),
{
    let test = |proposal: &Json| -> (passed: bool)
        ensures
            passed == (proposal@.text("source_git_path"@) == Some(branch@)),
        {
            match text_field(proposal, "source_git_path") {
                Some(path) => same(path, branch),
                None => false,
            }
        };
    keep(proposals, test, Ghost(from_branch(branch@)))
}

/// The proposals from a branch among the entries of its collection, and whether there were more
/// entries than are looked through. Where the ref is there, all of them are.
pub open spec fn branch_matches(entries: Seq<JsonView>, branch: Seq<char>, ref_exists: bool) -> (
    Seq<JsonView>,
    bool,
) {
    let capped = !ref_exists && entries.len() > MAX_BRANCH_FALLBACK_ITEMS;
    let searched = if capped {
        first_items(entries, MAX_BRANCH_FALLBACK_ITEMS as nat)
    } else {
        entries
    };
    (searched.filter(from_branch(branch)), capped)
}

/// The proposals from a branch among the entries of its collection, and whether there were more
/// entries than are looked through.
pub fn match_branch(entries: &Vec<Json>, branch: &str, ref_exists: bool) -> (r: (Vec<Json>, bool))
    ensures
        (items_view(r.0@), r.1) == branch_matches(items_view(entries@), branch@, ref_exists),
{
    assert(items_view(entries@).len() == entries@.len());
    let capped = !ref_exists && entries.len() > MAX_BRANCH_FALLBACK_ITEMS;
    if capped {
        (keep_from_branch(&take_items(entries, MAX_BRANCH_FALLBACK_ITEMS), branch), true)
    } else {
        (keep_from_branch(entries, branch), false)
    }
}

/// The action of fetching the collection of a branch.
pub open spec fn collection_action(url: Seq<char>, ref_exists: bool) -> ActionView {
    if ref_exists {
        get_all(url)
    } else {
        get_some(url, (MAX_BRANCH_FALLBACK_ITEMS + 1) as usize)
    }
}

/// The canonical name of a repository, or the failure where Launchpad omits it.
pub open spec fn canonical_name(repository: JsonView) -> Result<Seq<char>, ActionView> {
    match repository.text("unique_name"@) {
        Some(name) => Ok(name),
        None => Err(
            fail(
                invalid(
                    "cannot inspect repository "@ + identifier_of(repository)
                        + "; Launchpad omitted its unique name; accepted syntax: lp:<project>, lp://~owner/project/+git/repository, or a git.launchpad.net URL; retry with the canonical repository path"@,
                ),
            ),
        ),
    }
}

fn find_canonical_name<'value>(repository: &'value Json) -> (r: Result<&'value str, Action>)
    ensures
        crate::steps::str_step(r) == canonical_name(repository@),
{
    match text_field(repository, "unique_name") {
        Some(name) => Ok(name),
        None => Err(
            refuse(
                cat3(
                    "cannot inspect repository ",
                    repository_identifier(repository),
                    "; Launchpad omitted its unique name; accepted syntax: lp:<project>, lp://~owner/project/+git/repository, or a git.launchpad.net URL; retry with the canonical repository path",
                ).as_str(),
            ),
        ),
    }
}

/// The proposals from a branch of a repository, once the refs and the collection are answered.
pub open spec fn branch_proposals_at(
    repository: JsonView,
    branch: Seq<char>,
    replies: Seq<Reply>,
    at: int,
) -> Result<(Seq<JsonView>, bool), ActionView> {
    match canonical_name(repository) {
        Err(stop) => Err(stop),
        Ok(name) => match refs_at(replies, at, ActionView::Refs { repository: name }) {
            Err(stop) => Err(stop),
            Ok(refs) => {
                let git_ref = ref_with_path(refs, branch);
                match branch_collection(repository, git_ref) {
                    Err(stop) => Err(stop),
                    Ok(url) => match entries_at(
                        replies,
                        at + 1,
                        collection_action(url, git_ref is Some),
                    ) {
                        Err(stop) => Err(stop),
                        Ok(entries) => Ok(branch_matches(entries, branch, git_ref is Some)),
                    },
                }
            },
        },
    }
}

/// The proposals from a branch of a repository, once the refs and the collection are answered.
pub fn repository_branch_proposals(
    repository: &Json,
    branch: &str,
    replies: &Vec<Reply>,
    at: usize,
) -> (r: Result<(Vec<Json>, bool), Action>)
    ensures
        (r matches Ok(found) ==> branch_proposals_at(repository@, branch@, replies@, at as int)
            == Ok::<(Seq<JsonView>, bool), ActionView>((items_view(found.0@), found.1))),
        r matches Err(action) ==> branch_proposals_at(repository@, branch@, replies@, at as int)
            == Err::<(Seq<JsonView>, bool), ActionView>(action@),
{
    let name = find_canonical_name(repository)?;
    let refs = refs_reply(replies, at, Action::Refs { repository: copy(name) })?;
    assert(at < replies.len());
    let git_ref = find_ref(refs, branch);
    let ref_exists = git_ref.is_some();
    let url = find_collection(repository, git_ref)?;
    let ask = if ref_exists {
        get_all_url(url.as_str())
    } else {
        get_some_url(url.as_str(), MAX_BRANCH_FALLBACK_ITEMS + 1)
    };
    let entries = entries_reply(replies, at + 1, ask)?;
    Ok(match_branch(entries, branch, ref_exists))
}

/// The query for the ref of a branch.
pub open spec fn ref_query(link: Seq<char>, branch: Seq<char>) -> ActionView {
    ActionView::Get {
        place: PlaceView::Query(
            UrlQueryView {
                base: link,
                pairs: Seq::empty().push(("ws.op"@, "getRefByPath"@)).push(("path"@, branch)),
            },
        ),
    }
}

/// Whether an answer says that there is nothing.
pub open spec fn is_nothing(reply: Reply) -> bool {
    match reply {
        Reply::Json(value) => value@ == JsonView::Null,
        Reply::Fault(error) => match error@ {
            ErrorView::Launchpad { kind: crate::error::FaultKind::NotFound, text } => true,
            _ => false,
        },
        _ => false,
    }
}

/// The proposals from a branch of a related repository, from the answer at an index on. Where it
/// has no such branch there are none.
pub open spec fn related_from(
    repository: JsonView,
    branch: Seq<char>,
    replies: Seq<Reply>,
    at: int,
) -> Result<Seq<JsonView>, ActionView> {
    match link_in(repository, "self_link"@, "Launchpad repository has no API link"@) {
        Err(stop) => Err(stop),
        Ok(link) => if 0 <= at < replies.len() && is_nothing(replies[at]) {
            Ok(Seq::empty())
        } else {
            match json_at(replies, at, ref_query(link, branch)) {
                Err(stop) => Err(stop),
                Ok(git_ref) => match link_in(
                    git_ref,
                    "self_link"@,
                    "Launchpad Git reference has no API link"@,
                ) {
                    Err(stop) => Err(stop),
                    Ok(ref_link) => match entries_at(
                        replies,
                        at + 1,
                        get_all(trim_end_of(ref_link, '/') + "/landing_targets"@),
                    ) {
                        Err(stop) => Err(stop),
                        Ok(entries) => Ok(entries.filter(from_branch(branch))),
                    },
                },
            }
        },
    }
}

/// The proposals from a branch of a related repository. Where it has no such branch there are
/// none.
pub open spec fn related_branch_proposals(
    repository: JsonView,
    branch: Seq<char>,
    replies: Seq<Reply>,
) -> Result<Seq<JsonView>, ActionView> {
    related_from(repository, branch, replies, 0)
}

fn says_nothing(reply: &Reply) -> (r: bool)
    ensures
        r == is_nothing(*reply),
{
    match reply {
        Reply::Json(value) => match value {
            Json::Null => true,
            _ => false,
        },
        Reply::Fault(error) => match error {
            Error::Launchpad { source } => match source.kind {
                crate::error::FaultKind::NotFound => true,
                _ => false,
            },
            _ => false,
        },
        _ => false,
    }
}

/// What a step to values holds.
pub open spec fn values_step(r: Result<Vec<Json>, Action>) -> Result<Seq<JsonView>, ActionView> {
    match r {
        Ok(values) => Ok(items_view(values@)),
        Err(action) => Err(action@),
    }
}

/// The proposals from a branch of a related repository, from the answer at an index on.
pub fn find_related(repository: &Json, branch: &str, replies: &Vec<Reply>, at: usize) -> (r: Result<
    Vec<Json>,
    Action,
>)
    ensures
        values_step(r) == related_from(repository@, branch@, replies@, at as int),
{
    let link = find_link(repository, "self_link", "Launchpad repository has no API link")?;
    if at < replies.len() && says_nothing(&replies[at]) {
        return Ok(no_items());
    }
    let mut pairs = no_pairs();
    push_pair(&mut pairs, "ws.op", "getRefByPath");
    push_pair(&mut pairs, "path", branch);
    let git_ref = json_reply(
        replies,
        at,
        Action::Get { place: Place::Query(UrlQuery { base: copy(link), pairs }) },
    )?;
    assert(at < replies.len());
    let ref_link = find_link(git_ref, "self_link", "Launchpad Git reference has no API link")?;
    let url = cat2(trim_end_matches(ref_link, '/').as_str(), "/landing_targets");
    let entries = entries_reply(replies, at + 1, get_all_url(url.as_str()))?;
    Ok(keep_from_branch(entries, branch))
}

/// The proposals from a branch of a related repository.
pub fn related_repository_branch_proposals(
    repository: &Json,
    branch: &str,
    replies: &Vec<Reply>,
) -> (r: Result<Vec<Json>, Action>)
    ensures
        values_step(r) == related_branch_proposals(repository@, branch@, replies@),
{
    find_related(repository, branch, replies, 0)
}

/// The query for the repositories of a target. One more than are looked through shows whether
/// there are more.
pub open spec fn repositories_action(base: Seq<char>, target_link: Seq<char>) -> ActionView {
    ActionView::GetSome {
        place: PlaceView::Query(
            UrlQueryView {
                base: service_url(base, "/+git"@),
                pairs: Seq::empty().push(("ws.op"@, "getRepositories"@)).push(
                    ("target"@, target_link),
                ).push(("order_by"@, "most recently changed first"@)).push(
                    ("ws.size"@, decimal(MAX_REPOSITORY_CANDIDATES as nat + 1)),
                ),
            },
        ),
        limit: (MAX_REPOSITORY_CANDIDATES + 1) as usize,
    }
}

fn ask_repositories(base: &str, target_link: &str) -> (r: Action)
    ensures
        r@ == repositories_action(base@, target_link@),
{
    let mut pairs = no_pairs();
    push_pair(&mut pairs, "ws.op", "getRepositories");
    push_pair(&mut pairs, "target", target_link);
    push_pair(&mut pairs, "order_by", "most recently changed first");
    push_pair(&mut pairs, "ws.size", decimal_size(MAX_REPOSITORY_CANDIDATES + 1).as_str());
    Action::GetSome {
        place: Place::Query(UrlQuery { base: api_url(base, "/+git"), pairs }),
        limit: MAX_REPOSITORY_CANDIDATES + 1,
    }
}

/// The test that a repository has a name, or is the default one of its target.
pub open spec fn is_candidate(name: Option<Seq<char>>) -> spec_fn(JsonView) -> bool {
    |repository: JsonView|
        repository.text("name"@) == name || repository.flag("target_default"@) == Some(true)
}

/// The repositories of a target that may have the branch, and whether there were more than are
/// looked through.
pub open spec fn candidate_repositories(
    repositories: Seq<JsonView>,
    name: Option<Seq<char>>,
) -> (Seq<JsonView>, bool) {
    (
        first_items(repositories, MAX_REPOSITORY_CANDIDATES as nat).filter(is_candidate(name)),
        repositories.len() > MAX_REPOSITORY_CANDIDATES,
    )
}

/// The repositories of a target that may have the branch, and whether there were more than are
/// looked through.
pub fn target_repositories(repositories: &Vec<Json>, name: Option<&str>) -> (r: (Vec<Json>, bool))
    ensures
        (items_view(r.0@), r.1) == candidate_repositories(
            items_view(repositories@),
            opt_str_view(name),
        ),
{
    assert(items_view(repositories@).len() == repositories@.len());
    let truncated = repositories.len() > MAX_REPOSITORY_CANDIDATES;
    let test = |repository: &Json| -> (passed: bool)
        ensures
            passed == (repository@.text("name"@) == opt_str_view(name) || repository@.flag(
                "target_default"@,
            ) == Some(true)),
        {
            let named = match (text_field(repository, "name"), name) {
                (Some(own), Some(name)) => same(own, name),
                (None, None) => true,
                _ => false,
            };
            named || is_flagged(repository, "target_default")
        };
    let first = take_items(repositories, MAX_REPOSITORY_CANDIDATES);
    (keep(&first, test, Ghost(is_candidate(opt_str_view(name)))), truncated)
}

/// The test that a repository is not the one with a name.
pub open spec fn is_other_repository(canonical: Seq<char>) -> spec_fn(JsonView) -> bool {
    |repository: JsonView| repository.text("unique_name"@) != Some(canonical)
}

fn other_repositories(repositories: &Vec<Json>, canonical: &str) -> (r: Vec<Json>)
    ensures
        items_view(r@) == items_view(repositories@).filter(is_other_repository(canonical@)),
{
    let test = |repository: &Json| -> (passed: bool)
        ensures
            passed == (repository@.text("unique_name"@) != Some(canonical@)),
        {
            match text_field(repository, "unique_name") {
                Some(name) => !same(name, canonical),
                None => true,
            }
        };
    keep(repositories, test, Ghost(is_other_repository(canonical@)))
}

/// The names of the repositories beside the one with a name, each once.
pub open spec fn inspected_names(repositories: Seq<JsonView>, canonical: Seq<char>) -> Seq<Seq<char>>
    decreases repositories.len(),
{
    if repositories.len() == 0 {
        Seq::empty()
    } else {
        let front = inspected_names(repositories.drop_last(), canonical);
        match repositories.last().text("unique_name"@) {
            Some(name) => if name != canonical && !front.contains(name) {
                front.push(name)
            } else {
                front
            },
            None => front,
        }
    }
}

fn list_inspected(repositories: &Vec<Json>, canonical: &str) -> (r: Vec<String>)
    ensures
        views(r@) == inspected_names(items_view(repositories@), canonical@),
{
    let ghost all = items_view(repositories@);
    let mut names = no_lines();
    assert(all.take(0) =~= Seq::empty());
    for i in 0..repositories.len()
        invariant
            all == items_view(repositories@),
            views(names@) == inspected_names(all.take(i as int), canonical@),
    {
        assert(all.take(i + 1).drop_last() =~= all.take(i as int));
        assert(all.take(i + 1).last() == repositories@[i as int]@);
        if let Some(name) = text_field(&repositories[i], "unique_name") {
            if !same(name, canonical) && !holds_text(&names, name) {
                push_part(&mut names, copy(name));
            }
        }
    }
    assert(all.take(all.len() as int) =~= all);
    names
}

/// A related repository with proposals that match, and how many proposals its branch has.
pub struct RelatedMatch {
    pub repository: Json,
    pub proposals: Vec<Json>,
    pub candidate_count: usize,
}

/// What a match in a related repository holds.
#[verifier::ext_equal]
pub struct MatchView {
    pub repository: JsonView,
    pub proposals: Seq<JsonView>,
    pub candidate_count: nat,
}

impl View for RelatedMatch {
    type V = MatchView;

    open spec fn view(&self) -> MatchView {
        MatchView {
            repository: self.repository@,
            proposals: items_view(self.proposals@),
            candidate_count: self.candidate_count as nat,
        }
    }
}

/// What a list of matches holds.
pub open spec fn matches_view(matches: Seq<RelatedMatch>) -> Seq<MatchView> {
    matches.map_values(|found: RelatedMatch| found@)
}

/// What was being done when the proposals of a related repository were fetched.
pub open spec fn related_context(repository: JsonView, branch: Seq<char>) -> Seq<char> {
    "cannot inspect related repository "@ + identifier_of(repository) + " for "@ + branch
}

/// The related repositories with proposals that pass the filters of a request, or the first
/// error among their answers.
pub open spec fn related_matches(
    related: Seq<RelatedProposals>,
    request: Request,
    branch: Seq<char>,
) -> Result<Seq<MatchView>, ErrorView>
    decreases related.len(),
{
    if related.len() == 0 {
        Ok(Seq::empty())
    } else {
        match related_matches(related.drop_last(), request, branch) {
            Err(error) => Err(error),
            Ok(front) => {
                let repository = related.last().repository@;
                match related.last().proposals {
                    Err(error) => Err(in_context(related_context(repository, branch), error@)),
                    Ok(proposals) => {
                        let eligible = items_view(proposals@).filter(eligibility(request));
                        if eligible.len() == 0 {
                            Ok(front)
                        } else {
                            Ok(
                                front.push(
                                    MatchView {
                                        repository,
                                        proposals: eligible,
                                        candidate_count: proposals@.len(),
                                    },
                                ),
                            )
                        }
                    },
                }
            },
        }
    }
}

/// The related repositories with proposals that pass the filters of a request, or the first
/// error among their answers.
pub fn match_related(related: &Vec<RelatedProposals>, request: &Request, branch: &str) -> (r: Result<
    Vec<RelatedMatch>,
    Error,
>)
    ensures
        (r matches Ok(matches) ==> related_matches(related@, *request, branch@) == Ok::<
            Seq<MatchView>,
            ErrorView,
        >(matches_view(matches@))),
        r matches Err(error) ==> related_matches(related@, *request, branch@) == Err::<
            Seq<MatchView>,
            ErrorView,
        >(error@),
{
    let mut matches: Vec<RelatedMatch> = Vec::new();
    assert(related@.take(0) =~= Seq::empty());
    assert(matches_view(matches@) =~= Seq::empty());
    for i in 0..related.len()
        invariant
            related_matches(related@.take(i as int), *request, branch@) == Ok::<
                Seq<MatchView>,
                ErrorView,
            >(matches_view(matches@)),
    {
        assert(related@.take(i + 1).drop_last() =~= related@.take(i as int));
        assert(related@.take(i + 1).last() == related@[i as int]);
        match &related[i].proposals {
            Err(error) => {
                let context = cat4(
                    "cannot inspect related repository ",
                    repository_identifier(&related[i].repository),
                    " for ",
                    branch,
                );
                let failure = Error::context(context.as_str(), error.copy());
                proof {
                    lemma_related_error_stays(related@, *request, branch@, i + 1);
                }
                return Err(failure);
            },
            Ok(proposals) => {
                let eligible = eligible_proposals(proposals, request);
                assert(items_view(eligible@).len() == eligible@.len());
                if eligible.len() > 0 {
                    let ghost before = matches_view(matches@);
                    let found = RelatedMatch {
                        repository: related[i].repository.copy(),
                        proposals: eligible,
                        candidate_count: proposals.len(),
                    };
                    let ghost view = found@;
                    matches.push(found);
                    assert(matches_view(matches@) =~= before.push(view));
                }
            },
        }
    }
    assert(related@.take(related@.len() as int) =~= related@);
    Ok(matches)
}

proof fn lemma_related_error_stays(
    related: Seq<RelatedProposals>,
    request: Request,
    branch: Seq<char>,
    count: int,
)
    requires
        0 <= count <= related.len(),
        related_matches(related.take(count), request, branch) is Err,
    ensures
        related_matches(related, request, branch) == related_matches(
            related.take(count),
            request,
            branch,
        ),
    decreases related.len() - count,
{
    if count == related.len() {
        assert(related.take(count) =~= related);
    } else {
        assert(related.take(count + 1).drop_last() =~= related.take(count));
        lemma_related_error_stays(related, request, branch, count + 1);
    }
}

/// The identifiers of proposals that have one.
pub open spec fn ids_of(proposals: Seq<JsonView>) -> Seq<Seq<char>>
    decreases proposals.len(),
{
    if proposals.len() == 0 {
        Seq::empty()
    } else {
        match id_of(proposals.last()) {
            Some(id) => ids_of(proposals.drop_last()).push(id),
            None => ids_of(proposals.drop_last()),
        }
    }
}

fn list_ids(proposals: &Vec<Json>) -> (r: Vec<String>)
    ensures
        views(r@) == ids_of(items_view(proposals@)),
{
    let ghost all = items_view(proposals@);
    let mut ids = no_lines();
    assert(all.take(0) =~= Seq::empty());
    for i in 0..proposals.len()
        invariant
            all == items_view(proposals@),
            views(ids@) == ids_of(all.take(i as int)),
    {
        assert(all.take(i + 1).drop_last() =~= all.take(i as int));
        assert(all.take(i + 1).last() == proposals@[i as int]@);
        if let Some(id) = resource_id(&proposals[i]) {
            push_part(&mut ids, id);
        }
    }
    assert(all.take(all.len() as int) =~= all);
    ids
}

/// A match as an ambiguous lookup lists it.
pub open spec fn match_text(found: MatchView, branch: Seq<char>) -> Seq<char> {
    value_or(found.repository.text("unique_name"@), "unknown repository"@) + ":"@ + branch + " (MP "@
        + join(ids_of(found.proposals), ", "@) + ")"@
}

/// The error where several related repositories match.
pub open spec fn ambiguous(matches: Seq<MatchView>, canonical: Seq<char>, branch: Seq<char>) -> ErrorView {
    invalid(
        "cannot select a merge proposal for "@ + canonical + ":"@ + branch
            + "; matching repositories: "@ + join(
            matches.map_values(|found: MatchView| match_text(found, branch)),
            "; "@,
        )
            + "; retry with a full merge proposal target or narrow with status and target_branch"@,
    )
}

fn ambiguity(matches: &Vec<RelatedMatch>, canonical: &str, branch: &str) -> (r: Error)
    ensures
        r@ == ambiguous(matches_view(matches@), canonical@, branch@),
{
    let mut texts = no_lines();
    let ghost all = matches_view(matches@).map_values(
        |found: MatchView| match_text(found, branch@),
    );
    assert(all.take(0) =~= Seq::empty());
    for i in 0..matches.len()
        invariant
            all == matches_view(matches@).map_values(
                |found: MatchView| match_text(found, branch@),
            ),
            views(texts@) == all.take(i as int),
    {
        let name = match text_field(&matches[i].repository, "unique_name") {
            Some(name) => name,
            None => "unknown repository",
        };
        let ids = join_parts(&list_ids(&matches[i].proposals), ", ");
        push_part(&mut texts, cat6(name, ":", branch, " (MP ", ids.as_str(), ")"));
        assert(all.take(i + 1) =~= all.take(i as int).push(match_text(matches@[i as int]@, branch@)));
    }
    assert(all.take(all.len() as int) =~= all);
    Error::invalid(
        cat7(
            "cannot select a merge proposal for ",
            canonical,
            ":",
            branch,
            "; matching repositories: ",
            join_parts(&texts, "; ").as_str(),
            "; retry with a full merge proposal target or narrow with status and target_branch",
        ).as_str(),
    )
}

/// The error where a lookup that found nothing did not look through everything.
pub open spec fn incomplete(
    canonical: Seq<char>,
    branch: Seq<char>,
    inspected: Seq<Seq<char>>,
    filters: Seq<char>,
    requested_capped: bool,
    related_capped: bool,
) -> ErrorView {
    let requested_cap = if requested_capped {
        "; requested repository search was limited to its newest "@ + decimal(
            MAX_BRANCH_FALLBACK_ITEMS as nat,
        ) + " proposals"@
    } else {
        Seq::empty()
    };
    let related_cap = if related_capped {
        "; related lookup was limited to the first "@ + decimal(MAX_REPOSITORY_CANDIDATES as nat)
            + " likely repositories"@
    } else {
        Seq::empty()
    };
    let names = if inspected.len() == 0 {
        "none"@
    } else {
        join(inspected, ", "@)
    };
    invalid(
        "cannot establish whether a merge proposal exists for "@ + canonical + ":"@ + branch
            + "; inspected repositories: "@ + canonical + ", "@ + names + "; filters: "@ + (filters
            + "; retry with a full merge proposal target or narrow the search"@ + requested_cap
            + related_cap),
    )
}

fn incompleteness(
    canonical: &str,
    branch: &str,
    inspected: &Vec<String>,
    filters: &str,
    requested_capped: bool,
    related_capped: bool,
) -> (r: Error)
    ensures
        r@ == incomplete(
            canonical@,
            branch@,
            views(inspected@),
            filters@,
            requested_capped,
            related_capped,
        ),
{
    let requested_cap = if requested_capped {
        cat3(
            "; requested repository search was limited to its newest ",
            decimal_size(MAX_BRANCH_FALLBACK_ITEMS).as_str(),
            " proposals",
        )
    } else {
        or_empty(None)
    };
    let related_cap = if related_capped {
        cat3(
            "; related lookup was limited to the first ",
            decimal_size(MAX_REPOSITORY_CANDIDATES).as_str(),
            " likely repositories",
        )
    } else {
        or_empty(None)
    };
    assert(views(inspected@).len() == inspected@.len());
    let names = if inspected.len() == 0 {
        copy("none")
    } else {
        join_parts(inspected, ", ")
    };
    let advice = cat4(
        filters,
        "; retry with a full merge proposal target or narrow the search",
        requested_cap.as_str(),
        related_cap.as_str(),
    );
    Error::invalid(
        cat10(
            "cannot establish whether a merge proposal exists for ",
            canonical,
            ":",
            branch,
            "; inspected repositories: ",
            canonical,
            ", ",
            names.as_str(),
            "; filters: ",
            advice.as_str(),
        ).as_str(),
    )
}

/// The proposal that was selected in a repository.
pub open spec fn found_in(
    repository: JsonView,
    selected: SelectedView,
    related: bool,
    candidate_count: usize,
) -> LookupView {
    LookupView::Found {
        repository,
        proposal: selected.proposal,
        alternatives: selected.alternatives,
        related_repository: related,
        reason: selected.reason,
        candidate_count,
    }
}

/// What the related repositories come to, once they are answered.
pub open spec fn related_lookup(
    request: Request,
    canonical: Seq<char>,
    branch: Seq<char>,
    inspected: Seq<Seq<char>>,
    matches: Seq<MatchView>,
    requested_count: nat,
    requested_capped: bool,
    related_capped: bool,
    replies: Seq<Reply>,
    at: int,
) -> Result<LookupView, ActionView> {
    if matches.len() > 1 {
        Err(fail(ambiguous(matches, canonical, branch)))
    } else if matches.len() == 1 {
        let found = matches[0];
        match or_fail(selection(found.proposals, is_set(request.latest))) {
            Err(stop) => Err(stop),
            Ok(selected) => Ok(
                found_in(
                    found.repository,
                    selected,
                    true,
                    together(requested_count, found.candidate_count),
                ),
            ),
        }
    } else if requested_capped || related_capped {
        match text_at(replies, at, ActionView::Write { value: selection_filters(request) }) {
            Err(stop) => Err(stop),
            Ok(filters) => Err(
                fail(
                    incomplete(
                        canonical,
                        branch,
                        inspected,
                        filters,
                        requested_capped,
                        related_capped,
                    ),
                ),
            ),
        }
    } else {
        Ok(LookupView::Missing { repository: canonical, inspected_repositories: inspected })
    }
}

/// What a step to a lookup holds.
pub open spec fn found_step(r: Result<ProposalLookup, Action>) -> Result<LookupView, ActionView> {
    match r {
        Ok(lookup) => Ok(lookup@),
        Err(action) => Err(action@),
    }
}

fn found(repository: &Json, selected: Selected, related: bool, candidate_count: usize) -> (r:
    ProposalLookup)
    ensures
        r@ == found_in(repository@, selected@, related, candidate_count),
{
    ProposalLookup::Found(
        ProposalSelection {
            repository: repository.copy(),
            proposal: selected.proposal,
            alternatives: selected.alternatives,
            related_repository: related,
            reason: selected.reason,
            candidate_count,
        },
    )
}

fn conclude(
    request: &Request,
    canonical: &str,
    branch: &str,
    inspected: Vec<String>,
    matches: &Vec<RelatedMatch>,
    requested_count: usize,
    requested_capped: bool,
    related_capped: bool,
    replies: &Vec<Reply>,
    at: usize,
) -> (r: Result<ProposalLookup, Action>)
    ensures
        found_step(r) == related_lookup(
            *request,
            canonical@,
            branch@,
            views(inspected@),
            matches_view(matches@),
            requested_count as nat,
            requested_capped,
            related_capped,
            replies@,
            at as int,
        ),
{
    assert(matches_view(matches@).len() == matches@.len());
    if matches.len() > 1 {
        return Err(Action::Fail { error: ambiguity(matches, canonical, branch) });
    }
    if matches.len() == 1 {
        assert(matches_view(matches@)[0] == matches@[0]@);
        return match select_proposal(&matches[0].proposals, request) {
            Err(error) => Err(Action::Fail { error }),
            Ok(selected) => Ok(
                found(
                    &matches[0].repository,
                    selected,
                    true,
                    add_counts(requested_count, matches[0].candidate_count),
                ),
            ),
        };
    }
    if requested_capped || related_capped {
        let filters = text_reply(
            replies,
            at,
            Action::Write { value: proposal_selection_filters(request) },
        )?;
        return Err(
            Action::Fail {
                error: incompleteness(
                    canonical,
                    branch,
                    &inspected,
                    filters,
                    requested_capped,
                    related_capped,
                ),
            },
        );
    }
    Ok(
        ProposalLookup::Missing {
            repository: copy(canonical),
            inspected_repositories: inspected,
        },
    )
}

/// The proposals in related repositories, as an answer.
pub open spec fn related_at(replies: Seq<Reply>, at: int, ask: ActionView) -> Result<
    Seq<RelatedProposals>,
    ActionView,
> {
    match (0 <= at < replies.len(), replies[at]) {
        (true, Reply::Related(related)) => Ok(related@),
        _ => Err(stop_at(replies, at, ask)),
    }
}

fn related_reply<'reply>(replies: &'reply Vec<Reply>, at: usize, ask: Action) -> (r: Result<
    &'reply Vec<RelatedProposals>,
    Action,
>)
    ensures
        (r matches Ok(related) ==> related_at(replies@, at as int, ask@) == Ok::<
            Seq<RelatedProposals>,
            ActionView,
        >(related@)),
        r matches Err(action) ==> related_at(replies@, at as int, ask@) == Err::<
            Seq<RelatedProposals>,
            ActionView,
        >(action@),
{
    if at < replies.len() {
        if let Reply::Related(related) = &replies[at] {
            return Ok(related);
        }
    }
    Err(crate::steps::stop(replies, at, ask))
}

/// The lookup in related repositories, from the fourth answer on.
pub open spec fn widened_lookup(
    request: Request,
    repository: JsonView,
    repository_path: Seq<char>,
    branch: Seq<char>,
    requested_count: nat,
    requested_capped: bool,
    base: Seq<char>,
    replies: Seq<Reply>,
) -> Result<LookupView, ActionView> {
    match link_in(repository, "target_link"@, "Launchpad repository has no target"@) {
        Err(stop) => Err(stop),
        Ok(target_link) => {
            let canonical = value_or(repository.text("unique_name"@), repository_path);
            match entries_at(replies, 3, repositories_action(base, target_link)) {
                Err(stop) => Err(stop),
                Ok(entries) => {
                    let (candidates, truncated) = candidate_repositories(
                        entries,
                        repository.text("name"@),
                    );
                    let ask = ActionView::Related {
                        repositories: candidates.filter(is_other_repository(canonical)),
                        branch,
                    };
                    match related_at(replies, 4, ask) {
                        Err(stop) => Err(stop),
                        Ok(related) => match or_fail(related_matches(related, request, branch)) {
                            Err(stop) => Err(stop),
                            Ok(matches) => related_lookup(
                                request,
                                canonical,
                                branch,
                                inspected_names(candidates, canonical),
                                matches,
                                requested_count,
                                requested_capped,
                                truncated,
                                replies,
                                5,
                            ),
                        },
                    }
                },
            }
        },
    }
}

fn widen_lookup(
    request: &Request,
    repository: &Json,
    repository_path: &str,
    branch: &str,
    requested_count: usize,
    requested_capped: bool,
    base: &str,
    replies: &Vec<Reply>,
) -> (r: Result<ProposalLookup, Action>)
    ensures
        found_step(r) == widened_lookup(
            *request,
            repository@,
            repository_path@,
            branch@,
            requested_count as nat,
            requested_capped,
            base@,
            replies@,
        ),
{
    let target_link = find_link(repository, "target_link", "Launchpad repository has no target")?;
    let canonical = match text_field(repository, "unique_name") {
        Some(name) => name,
        None => repository_path,
    };
    let entries = entries_reply(replies, 3, ask_repositories(base, target_link))?;
    let (candidates, truncated) = target_repositories(entries, text_field(repository, "name"));
    let ask = Action::Related {
        repositories: other_repositories(&candidates, canonical),
        branch: copy(branch),
    };
    let related = related_reply(replies, 4, ask)?;
    let matches = match match_related(related, request, branch) {
        Ok(matches) => matches,
        Err(error) => return Err(Action::Fail { error }),
    };
    let inspected = list_inspected(&candidates, canonical);
    conclude(
        request,
        canonical,
        branch,
        inspected,
        &matches,
        requested_count,
        requested_capped,
        truncated,
        replies,
        5,
    )
}

/// The merge proposal of a branch: one that passes the filters of the request in the repository
/// itself, or else in exactly one of the related repositories of the same target.
pub open spec fn branch_lookup(
    request: Request,
    repository_path: Seq<char>,
    raw_branch: Seq<char>,
    base: Seq<char>,
    replies: Seq<Reply>,
) -> Result<LookupView, ActionView> {
    let branch = normalised_ref(raw_branch);
    match contextual(
        repository_at(repository_path, base, replies, 0),
        "cannot look up repository "@ + repository_path + " for branch "@ + raw_branch,
    ) {
        Err(stop) => Err(stop),
        Ok(repository) => match branch_proposals_at(repository, branch, replies, 1) {
            Err(stop) => Err(stop),
            Ok((proposals, capped)) => {
                let eligible = proposals.filter(eligibility(request));
                if eligible.len() > 0 {
                    match or_fail(selection(eligible, is_set(request.latest))) {
                        Err(stop) => Err(stop),
                        Ok(selected) => Ok(
                            found_in(repository, selected, false, proposals.len() as usize),
                        ),
                    }
                } else {
                    widened_lookup(
                        request,
                        repository,
                        repository_path,
                        branch,
                        proposals.len(),
                        capped,
                        base,
                        replies,
                    )
                }
            },
        },
    }
}

/// The merge proposal of a branch: one that passes the filters of the request in the repository
/// itself, or else in exactly one of the related repositories of the same target.
pub fn merge_proposal_for_branch(
    request: &Request,
    repository_path: &str,
    raw_branch: &str,
    base: &str,
    replies: &Vec<Reply>,
) -> (r: Result<ProposalLookup, Action>)
    ensures
        found_step(r) == branch_lookup(*request, repository_path@, raw_branch@, base@, replies@),
{
    let context = cat4(
        "cannot look up repository ",
        repository_path,
        " for branch ",
        raw_branch,
    );
    let repository = with_context(
        get_repository(repository_path, base, replies, 0),
        context.as_str(),
    )?;
    let branch = normalise_ref(raw_branch);
    let (proposals, capped) = repository_branch_proposals(
        repository,
        branch.as_str(),
        replies,
        1,
    )?;
    let count = proposals.len();
    assert(items_view(proposals@).len() == proposals@.len());
    let eligible = eligible_proposals(&proposals, request);
    assert(items_view(eligible@).len() == eligible@.len());
    if eligible.len() > 0 {
        return match select_proposal(&eligible, request) {
            Err(error) => Err(Action::Fail { error }),
            Ok(selected) => Ok(found(repository, selected, false, count)),
        };
    }
    widen_lookup(
        request,
        repository,
        repository_path,
        branch.as_str(),
        count,
        capped,
        base,
        replies,
    )
}

/// Where the repository itself has a proposal that passes the filters, no other repository is
/// asked for.
pub proof fn lemma_own_repository_first(
    request: Request,
    repository_path: Seq<char>,
    raw_branch: Seq<char>,
    base: Seq<char>,
    replies: Seq<Reply>,
    repository: JsonView,
    proposals: Seq<JsonView>,
    capped: bool,
)
    requires
        repository_at(repository_path, base, replies, 0) == Ok::<JsonView, ActionView>(repository),
        branch_proposals_at(repository, normalised_ref(raw_branch), replies, 1) == Ok::<
            (Seq<JsonView>, bool),
            ActionView,
        >((proposals, capped)),
        proposals.filter(eligibility(request)).len() > 0,
    ensures
        branch_lookup(request, repository_path, raw_branch, base, replies) matches Ok(
            LookupView::Found { repository: at, related_repository, .. },
        ) && at == repository && !related_repository,
{
}

/// Whether no related repository has a proposal that passes the filters of a request, all of
/// them being known.
pub open spec fn none_related(related: Seq<RelatedProposals>, request: Request) -> bool {
    forall|i: int|
        0 <= i < related.len() ==> {
            &&& (#[trigger] related[i]).proposals is Ok
            &&& items_view(related[i].proposals->Ok_0@).filter(eligibility(request)).len() == 0
        }
}

proof fn lemma_no_matches(related: Seq<RelatedProposals>, request: Request, branch: Seq<char>)
    requires
        related_matches(related, request, branch) matches Ok(matches) && matches.len() == 0,
    ensures
        none_related(related, request),
    decreases related.len(),
{
    if related.len() > 0 {
        let front = related.drop_last();
        lemma_no_matches(front, request, branch);
        assert forall|i: int| 0 <= i < related.len() implies {
            &&& (#[trigger] related[i]).proposals is Ok
            &&& items_view(related[i].proposals->Ok_0@).filter(eligibility(request)).len() == 0
        } by {
            if i < front.len() {
                assert(front[i] == related[i]);
            } else {
                assert(related[i] == related.last());
            }
        }
    }
}

/// A lookup reports that there is no proposal only after a complete search: the proposals of the
/// repository and the list of related repositories were not cut off, and none of all these
/// proposals passes the filters.
pub proof fn lemma_missing_is_exhaustive(
    request: Request,
    repository_path: Seq<char>,
    raw_branch: Seq<char>,
    base: Seq<char>,
    replies: Seq<Reply>,
)
    requires
        branch_lookup(request, repository_path, raw_branch, base, replies) matches Ok(
            LookupView::Missing { .. },
        ),
    ensures
        repository_at(repository_path, base, replies, 0) matches Ok(repository) && {
            &&& branch_proposals_at(repository, normalised_ref(raw_branch), replies, 1) matches Ok(
                (proposals, capped),
            ) && !capped && proposals.filter(eligibility(request)).len() == 0
            &&& replies[3] matches Reply::Entries(entries) && entries@.len()
                <= MAX_REPOSITORY_CANDIDATES
            &&& replies[4] matches Reply::Related(related) && none_related(related@, request)
        },
{
    let repository = repository_at(repository_path, base, replies, 0)->Ok_0;
    let branch = normalised_ref(raw_branch);
    let related = replies[4]->Related_0@;
    lemma_no_matches(related, request, branch);
    assert(items_view(replies[3]->Entries_0@).len() == replies[3]->Entries_0@.len());
}

proof fn lemma_selection_among(proposals: Seq<JsonView>, latest: bool)
    requires
        selection(proposals, latest) is Ok,
    ensures
        proposals.contains(selection(proposals, latest)->Ok_0.proposal),
        forall|i: int|
            0 <= i < selection(proposals, latest)->Ok_0.alternatives.len() ==> proposals.contains(
                #[trigger] selection(proposals, latest)->Ok_0.alternatives[i],
            ),
        selection(proposals, latest)->Ok_0.alternatives.len() + 1 == proposals.len(),
{
    let keys = selection_keys(proposals, latest);
    let sorted = arranged(proposals, order_of(keys));
    lemma_order_is_permutation(keys);
    assert forall|i: int| 0 <= i < sorted.len() implies proposals.contains(#[trigger] sorted[i]) by {
        assert(sorted[i] == proposals[order_of(keys)[i]]);
    }
    assert(sorted.last() == sorted[sorted.len() - 1]);
    assert forall|i: int| 0 <= i < sorted.drop_last().len() implies proposals.contains(
        #[trigger] sorted.drop_last()[i],
    ) by {
        assert(sorted.drop_last()[i] == sorted[i]);
    }
}

proof fn lemma_selection_eligible(proposals: Seq<JsonView>, request: Request, latest: bool)
    requires
        selection(proposals.filter(eligibility(request)), latest) is Ok,
    ensures
        ({
            let selected = selection(proposals.filter(eligibility(request)), latest)->Ok_0;
            &&& is_eligible(selected.proposal, request)
            &&& forall|i: int|
                0 <= i < selected.alternatives.len() ==> is_eligible(
                    #[trigger] selected.alternatives[i],
                    request,
                )
        }),
{
    let eligible = proposals.filter(eligibility(request));
    lemma_selection_among(eligible, latest);
    let selected = selection(eligible, latest)->Ok_0;
    assert forall|i: int| 0 <= i < eligible.len() implies is_eligible(
        #[trigger] eligible[i],
        request,
    ) by {
        proposals.lemma_filter_pred(eligibility(request), i);
        assert(eligibility(request)(eligible[i]));
    }
}

proof fn lemma_matches_eligible(related: Seq<RelatedProposals>, request: Request, branch: Seq<char>)
    requires
        related_matches(related, request, branch) is Ok,
    ensures
        forall|i: int|
            0 <= i < related_matches(related, request, branch)->Ok_0.len() ==> exists|
                all: Seq<JsonView>,
            |
                (#[trigger] related_matches(related, request, branch)->Ok_0[i]).proposals
                    == #[trigger] all.filter(eligibility(request)),
    decreases related.len(),
{
    if related.len() > 0 {
        let front = related.drop_last();
        lemma_matches_eligible(front, request, branch);
        let before = related_matches(front, request, branch)->Ok_0;
        let matches = related_matches(related, request, branch)->Ok_0;
        let all = items_view(related.last().proposals->Ok_0@);
        assert forall|i: int| 0 <= i < matches.len() implies exists|all: Seq<JsonView>|
            (#[trigger] matches[i]).proposals == #[trigger] all.filter(eligibility(request)) by {
            if i < before.len() {
                assert(matches[i] == before[i]);
            } else {
                assert(matches[i].proposals == all.filter(eligibility(request)));
            }
        }
    }
}

/// The proposal that a lookup finds passes the filters of the request, and so do all the others
/// that it lists.
pub proof fn lemma_found_is_eligible(
    request: Request,
    repository_path: Seq<char>,
    raw_branch: Seq<char>,
    base: Seq<char>,
    replies: Seq<Reply>,
)
    ensures
        branch_lookup(request, repository_path, raw_branch, base, replies) matches Ok(
            LookupView::Found { proposal, alternatives, .. },
        ) ==> {
            &&& is_eligible(proposal, request)
            &&& forall|i: int|
                0 <= i < alternatives.len() ==> is_eligible(#[trigger] alternatives[i], request)
        },
{
    let branch = normalised_ref(raw_branch);
    let latest = is_set(request.latest);
    if branch_lookup(request, repository_path, raw_branch, base, replies) matches Ok(
        LookupView::Found { related_repository, .. },
    ) {
        let repository = repository_at(repository_path, base, replies, 0)->Ok_0;
        let proposals = branch_proposals_at(repository, branch, replies, 1)->Ok_0.0;
        if proposals.filter(eligibility(request)).len() > 0 {
            lemma_selection_eligible(proposals, request, latest);
        } else {
            let related = replies[4]->Related_0@;
            lemma_matches_eligible(related, request, branch);
            let matches = related_matches(related, request, branch)->Ok_0;
            let all = choose|all: Seq<JsonView>|
                matches[0].proposals == #[trigger] all.filter(eligibility(request));
            lemma_selection_eligible(all, request, latest);
        }
    }
}

/// The collection of a branch whose ref is gone is cut off exactly where it has more than two
/// hundred and fifty proposals.
pub proof fn lemma_fallback_cap(entries: Seq<JsonView>, branch: Seq<char>)
    ensures
        branch_matches(entries, branch, false).1 <==> entries.len() > 250,
        !branch_matches(entries, branch, true).1,
{
}

/// Of the repositories that a lookup inspected none is listed twice, and the requested one is
/// not listed.
pub proof fn lemma_inspected_names(repositories: Seq<JsonView>, canonical: Seq<char>)
    ensures
        inspected_names(repositories, canonical).no_duplicates(),
        !inspected_names(repositories, canonical).contains(canonical),
    decreases repositories.len(),
{
    if repositories.len() > 0 {
        let front = inspected_names(repositories.drop_last(), canonical);
        lemma_inspected_names(repositories.drop_last(), canonical);
        let names = inspected_names(repositories, canonical);
        if names != front {
            assert forall|i: int, j: int| 0 <= i < names.len() && 0 <= j < names.len() && i != j implies names[i] != names[j] by {
                if i < front.len() && j < front.len() {
                    assert(front[i] != front[j]);
                } else if i < front.len() {
                    assert(front.contains(front[i]));
                } else if j < front.len() {
                    assert(front.contains(front[j]));
                }
            }
            if names.contains(canonical) {
                let i = choose|i: int| 0 <= i < names.len() && names[i] == canonical;
                if i < front.len() {
                    assert(front[i] == canonical);
                }
            }
        }
    }
}

} // verus!
