//! The merge proposal that a target names.
use vstd::prelude::*;
use crate::error::{invalid, Error, ErrorView};
use crate::fields::text_field;
use crate::format::{cat10, cat3, cat6};
use crate::json::{Json, JsonView};
use crate::lines::no_lines;
use crate::number::{decimal, decimal_text};
use crate::repository::{
    normalise_repository, normalised_repository, repository_lookup_url, repository_url,
};
use crate::split::{holds_text, join, join_parts, push_part};
use crate::steps::{
    fail, get, get_url, json_at, json_reply, refuse, remotes_view, stop, stop_at, value_step,
    Action, ActionView, Checkout, CheckoutView, Remote, Reply,
};
use crate::target::{parsed_target, KindView, ResourceKind, ResourceTarget};
use crate::text::{copy, views};
use crate::viewing::{merge_proposal_url, proposal_resource};

verus! {

/// The repositories that remotes name, each once.
pub open spec fn remote_paths(remotes: Seq<(Seq<char>, Seq<char>)>) -> Seq<Seq<char>>
    decreases remotes.len(),
{
    if remotes.len() == 0 {
        Seq::empty()
    } else {
        let front = remote_paths(remotes.drop_last());
        match normalised_repository(remotes.last().1) {
            Ok(path) => if front.contains(path) {
                front
            } else {
                front.push(path)
            },
            Err(_) => front,
        }
    }
}

fn list_paths(remotes: &Vec<Remote>) -> (r: Vec<String>)
    ensures
        views(r@) == remote_paths(remotes_view(remotes@)),
{
    let ghost all = remotes_view(remotes@);
    let mut paths = no_lines();
    assert(all.take(0) =~= Seq::empty());
    for i in 0..remotes.len()
        invariant
            all == remotes_view(remotes@),
            views(paths@) == remote_paths(all.take(i as int)),
    {
        assert(all.take(i + 1).drop_last() =~= all.take(i as int));
        assert(all.take(i + 1).last() == (remotes@[i as int].name@, remotes@[i as int].url@));
        match normalise_repository(remotes[i].url.as_str()) {
            Ok(path) => if !holds_text(&paths, path.as_str()) {
                push_part(&mut paths, path);
            },
            Err(_) => {},
        }
    }
    assert(all.take(all.len() as int) =~= all);
    paths
}

/// A search through one collection of a repository, where it has it: the proposal that was
/// found, or where the next answer stands.
pub open spec fn collection_search(
    repository: JsonView,
    field: Seq<char>,
    id: u64,
    replies: Seq<Reply>,
    at: int,
) -> Result<Result<JsonView, int>, ActionView> {
    match repository.text(field) {
        None => Ok(Err(at)),
        Some(url) => match (0 <= at < replies.len(), replies[at]) {
            (true, Reply::Found(Some(proposal))) => Ok(Ok(proposal@)),
            (true, Reply::Found(None)) => Ok(Err(at + 1)),
            _ => Err(stop_at(replies, at, ActionView::Find { url, id })),
        },
    }
}

/// A search through both collections of a repository.
pub open spec fn repository_search(repository: JsonView, id: u64, replies: Seq<Reply>, at: int) -> Result<
    Result<JsonView, int>,
    ActionView,
> {
    match collection_search(repository, "landing_targets_collection_link"@, id, replies, at) {
        Err(stop) => Err(stop),
        Ok(Ok(proposal)) => Ok(Ok(proposal)),
        Ok(Err(next)) => collection_search(
            repository,
            "landing_candidates_collection_link"@,
            id,
            replies,
            next,
        ),
    }
}

/// What a search leaves behind that found nothing: the repositories that it looked through.
pub open spec fn search_from(
    paths: Seq<Seq<char>>,
    id: u64,
    base: Seq<char>,
    replies: Seq<Reply>,
    at: int,
    inspected: Seq<Seq<char>>,
) -> Result<Result<JsonView, Seq<Seq<char>>>, ActionView>
    decreases paths.len(),
{
    if paths.len() == 0 {
        Ok(Err(inspected))
    } else {
        match repository_lookup_url(base, paths[0]) {
            Err(_) => search_from(paths.skip(1), id, base, replies, at, inspected),
            Ok(url) => match (0 <= at < replies.len(), replies[at]) {
                (true, Reply::Fault(_)) => search_from(
                    paths.skip(1),
                    id,
                    base,
                    replies,
                    at + 1,
                    inspected,
                ),
                (true, Reply::Json(repository)) => match repository_search(
                    repository@,
                    id,
                    replies,
                    at + 1,
                ) {
                    Err(stop) => Err(stop),
                    Ok(Ok(proposal)) => Ok(Ok(proposal)),
                    Ok(Err(next)) => search_from(
                        paths.skip(1),
                        id,
                        base,
                        replies,
                        next,
                        inspected.push(
                            crate::fields::value_or(repository@.text("unique_name"@), paths[0]),
                        ),
                    ),
                },
                _ => Err(stop_at(replies, at, get(url))),
            },
        }
    }
}

/// What a borrowed proposal or a place for the next answer holds.
pub open spec fn search_view(found: Result<&Json, usize>) -> Result<JsonView, int> {
    match found {
        Ok(proposal) => Ok(proposal@),
        Err(next) => Err(next as int),
    }
}

fn search_collection<'reply>(
    repository: &Json,
    field: &str,
    id: u64,
    replies: &'reply Vec<Reply>,
    at: usize,
) -> (r: Result<Result<&'reply Json, usize>, Action>)
    requires
        at <= replies.len(),
    ensures
        (r matches Ok(found) ==> collection_search(repository@, field@, id, replies@, at as int)
            == Ok::<Result<JsonView, int>, ActionView>(search_view(found)) && (found matches Err(
            next,
        ) ==> next <= replies.len())),
        r matches Err(action) ==> collection_search(repository@, field@, id, replies@, at as int)
            == Err::<Result<JsonView, int>, ActionView>(action@),
{
    let url = match text_field(repository, field) {
        Some(url) => url,
        None => return Ok(Err(at)),
    };
    if at < replies.len() {
        if let Reply::Found(found) = &replies[at] {
            return match found {
                Some(proposal) => Ok(Ok(proposal)),
                None => Ok(Err(at + 1)),
            };
        }
    }
    Err(stop(replies, at, Action::Find { url: copy(url), id }))
}

fn search_repository<'reply>(
    repository: &Json,
    id: u64,
    replies: &'reply Vec<Reply>,
    at: usize,
) -> (r: Result<Result<&'reply Json, usize>, Action>)
    requires
        at <= replies.len(),
    ensures
        (r matches Ok(found) ==> repository_search(repository@, id, replies@, at as int) == Ok::<
            Result<JsonView, int>,
            ActionView,
        >(search_view(found)) && (found matches Err(next) ==> next <= replies.len())),
        r matches Err(action) ==> repository_search(repository@, id, replies@, at as int) == Err::<
            Result<JsonView, int>,
            ActionView,
        >(action@),
{
    match search_collection(repository, "landing_targets_collection_link", id, replies, at)? {
        Ok(proposal) => Ok(Ok(proposal)),
        Err(next) => search_collection(
            repository,
            "landing_candidates_collection_link",
            id,
            replies,
            next,
        ),
    }
}

/// What a proposal or a list of names holds.
pub open spec fn names_view(found: Result<Json, Vec<String>>) -> Result<JsonView, Seq<Seq<char>>> {
    match found {
        Ok(proposal) => Ok(proposal@),
        Err(names) => Err(views(names@)),
    }
}

fn search(paths: &Vec<String>, id: u64, base: &str, replies: &Vec<Reply>, start: usize) -> (r: Result<
    Result<Json, Vec<String>>,
    Action,
>)
    requires
        start <= replies.len(),
    ensures
        (r matches Ok(found) ==> search_from(
            views(paths@),
            id,
            base@,
            replies@,
            start as int,
            Seq::empty(),
        ) == Ok::<Result<JsonView, Seq<Seq<char>>>, ActionView>(names_view(found))),
        r matches Err(action) ==> search_from(
            views(paths@),
            id,
            base@,
            replies@,
            start as int,
            Seq::empty(),
        ) == Err::<Result<JsonView, Seq<Seq<char>>>, ActionView>(action@),
{
    let ghost all = views(paths@);
    let ghost whole = search_from(all, id, base@, replies@, start as int, Seq::empty());
    let mut inspected = no_lines();
    let mut at: usize = start;
    assert(all.skip(0) =~= all);
    for i in 0..paths.len()
        invariant
            all == views(paths@),
            whole == search_from(all, id, base@, replies@, start as int, Seq::empty()),
            at <= replies.len(),
            whole == search_from(
                all.skip(i as int),
                id,
                base@,
                replies@,
                at as int,
                views(inspected@),
            ),
    {
        proof {
            assert(all.skip(i as int)[0] == paths@[i as int]@);
            assert(all.skip(i as int).skip(1) =~= all.skip(i + 1));
        }
        if let Ok(url) = repository_url(base, paths[i].as_str()) {
            if at >= replies.len() {
                return Err(stop(replies, at, get_url(url.as_str())));
            }
            match &replies[at] {
                Reply::Fault(_) => {
                    at = at + 1;
                },
                Reply::Json(repository) => match search_repository(
                    repository,
                    id,
                    replies,
                    at + 1,
                )? {
                    Ok(proposal) => return Ok(Ok(proposal.copy())),
                    Err(next) => {
                        let name = match text_field(repository, "unique_name") {
                            Some(name) => name,
                            None => paths[i].as_str(),
                        };
                        push_part(&mut inspected, copy(name));
                        at = next;
                    },
                },
                _ => return Err(stop(replies, at, get_url(url.as_str()))),
            }
        }
    }
    assert(all.skip(all.len() as int) =~= Seq::empty());
    Ok(Err(inspected))
}

/// The names and URLs of remotes as an error lists them.
pub open spec fn remote_texts(remotes: Seq<(Seq<char>, Seq<char>)>) -> Seq<Seq<char>> {
    remotes.map_values(|remote: (Seq<char>, Seq<char>)| remote.0 + "="@ + remote.1)
}

/// A list in one line, or the word for an empty one.
pub open spec fn listed(texts: Seq<Seq<char>>) -> Seq<char> {
    if texts.len() == 0 {
        "none"@
    } else {
        join(texts, ", "@)
    }
}

fn list(texts: &Vec<String>) -> (r: String)
    ensures
        r@ == listed(views(texts@)),
{
    assert(views(texts@).len() == texts@.len());
    if texts.len() == 0 {
        copy("none")
    } else {
        join_parts(texts, ", ")
    }
}

fn list_remotes(remotes: &Vec<Remote>) -> (r: Vec<String>)
    ensures
        views(r@) == remote_texts(remotes_view(remotes@)),
{
    let ghost all = remote_texts(remotes_view(remotes@));
    let mut texts = no_lines();
    assert(all.take(0) =~= Seq::empty());
    for i in 0..remotes.len()
        invariant
            all == remote_texts(remotes_view(remotes@)),
            views(texts@) == all.take(i as int),
    {
        push_part(&mut texts, cat3(remotes[i].name.as_str(), "=", remotes[i].url.as_str()));
        assert(all.take(i + 1) =~= all.take(i as int).push(
            remotes@[i as int].name@ + "="@ + remotes@[i as int].url@,
        ));
    }
    assert(all.take(all.len() as int) =~= all);
    texts
}

/// The error where no repository of a checkout has a merge proposal with a number.
pub open spec fn unresolved(id: u64, checkout: CheckoutView, inspected: Seq<Seq<char>>) -> ErrorView {
    invalid(
        "cannot resolve merge proposal ID "@ + decimal(id as nat) + "; working directory: "@
            + checkout.working_directory + "; inspected remotes: "@ + listed(
            remote_texts(checkout.remotes),
        ) + "; inspected Launchpad repositories: "@ + listed(inspected)
            + "; accepted syntax: numeric ID in a related Launchpad checkout or lp://~owner/project/+git/repository/+merge/"@
            + (decimal(id as nat) + "; retry with the full merge proposal target"@),
    )
}

fn report_unresolved(id: u64, checkout: &Checkout, inspected: &Vec<String>) -> (r: Error)
    ensures
        r@ == unresolved(id, checkout@, views(inspected@)),
{
    let advice = crate::format::cat2(
        decimal_text(id).as_str(),
        "; retry with the full merge proposal target",
    );
    Error::invalid(
        cat10(
            "cannot resolve merge proposal ID ",
            decimal_text(id).as_str(),
            "; working directory: ",
            checkout.working_directory.as_str(),
            "; inspected remotes: ",
            list(&list_remotes(&checkout.remotes)).as_str(),
            "; inspected Launchpad repositories: ",
            list(inspected).as_str(),
            "; accepted syntax: numeric ID in a related Launchpad checkout or lp://~owner/project/+git/repository/+merge/",
            advice.as_str(),
        ).as_str(),
    )
}

/// The error where a merge proposal is named by its number alone and there is no checkout.
pub open spec fn without_checkout(id: u64, error: ErrorView) -> ErrorView {
    invalid(
        "cannot resolve merge proposal ID "@ + decimal(id as nat)
            + " without a Launchpad checkout: "@ + error.message()
            + "; accepted syntax: numeric ID in a checkout with a Launchpad remote, or lp://~owner/project/+git/repository/+merge/"@
            + decimal(id as nat),
    )
}

/// The merge proposal with a number, in the repositories that the checkout names.
pub open spec fn proposal_of_id(id: u64, base: Seq<char>, replies: Seq<Reply>) -> Result<
    JsonView,
    ActionView,
> {
    match (replies.len() > 0, replies[0]) {
        (true, Reply::Fault(error)) => Err(fail(without_checkout(id, error@))),
        (true, Reply::Checkout(checkout)) => match search_from(
            remote_paths(checkout@.remotes),
            id,
            base,
            replies,
            1,
            Seq::empty(),
        ) {
            Err(stop) => Err(stop),
            Ok(Ok(proposal)) => Ok(proposal),
            Ok(Err(inspected)) => Err(fail(unresolved(id, checkout@, inspected))),
        },
        _ => Err(stop_at(replies, 0, ActionView::Checkout)),
    }
}

/// The merge proposal with a number, in the repositories that the checkout names.
pub fn resolve_merge_proposal_id(id: u64, base: &str, replies: &Vec<Reply>) -> (r: Result<
    Json,
    Action,
>)
    ensures
        value_step(r) == proposal_of_id(id, base@, replies@),
{
    if replies.len() > 0 {
        match &replies[0] {
            Reply::Fault(error) => {
                let number = decimal_text(id);
                return Err(
                    refuse(
                        cat6(
                            "cannot resolve merge proposal ID ",
                            number.as_str(),
                            " without a Launchpad checkout: ",
                            error.message().as_str(),
                            "; accepted syntax: numeric ID in a checkout with a Launchpad remote, or lp://~owner/project/+git/repository/+merge/",
                            number.as_str(),
                        ).as_str(),
                    ),
                );
            },
            Reply::Checkout(checkout) => {
                let paths = list_paths(&checkout.remotes);
                return match search(&paths, id, base, replies, 1)? {
                    Ok(proposal) => Ok(proposal),
                    Err(inspected) => Err(
                        Action::Fail { error: report_unresolved(id, checkout, &inspected) },
                    ),
                };
            },
            _ => {},
        }
    }
    Err(stop(replies, 0, Action::Checkout))
}

/// The merge proposal that a target names: by repository and number, or by number alone.
pub open spec fn resolved_target(raw: Seq<char>, base: Seq<char>, replies: Seq<Reply>) -> Result<
    JsonView,
    ActionView,
> {
    match parsed_target(raw) {
        Err(error) => Err(fail(error)),
        Ok(target) => match target.kind {
            KindView::MergeProposal { repository, id } => json_at(
                replies,
                0,
                get(proposal_resource(base, repository, id)),
            ),
            KindView::MergeProposalId { id } => proposal_of_id(id, base, replies),
            _ => Err(
                fail(
                    invalid(
                        "operation requires a merge proposal target; accepted syntax: numeric ID or lp://~owner/project/+git/repository/+merge/ID"@,
                    ),
                ),
            ),
        },
    }
}

/// The merge proposal that a target names: by repository and number, or by number alone.
pub fn resolve_merge_proposal_target(raw: &str, base: &str, replies: &Vec<Reply>) -> (r: Result<
    Json,
    Action,
>)
    ensures
        value_step(r) == resolved_target(raw@, base@, replies@),
{
    let target = match ResourceTarget::parse(raw) {
        Ok(target) => target,
        Err(error) => return Err(Action::Fail { error }),
    };
    match &target.kind {
        ResourceKind::MergeProposal { repository, id } => {
            let url = merge_proposal_url(base, repository.as_str(), *id);
            let proposal = json_reply(replies, 0, get_url(url.as_str()))?;
            Ok(proposal.copy())
        },
        ResourceKind::MergeProposalId { id } => resolve_merge_proposal_id(*id, base, replies),
        _ => Err(
            refuse(
                "operation requires a merge proposal target; accepted syntax: numeric ID or lp://~owner/project/+git/repository/+merge/ID",
            ),
        ),
    }
}

} // verus!
