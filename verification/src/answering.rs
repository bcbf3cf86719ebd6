//! The answers to actions that are themselves carried out in steps.
//!
//! Some actions are answered by what other steps come to: a target by the merge proposal that it
//! resolves to, a branch by the lookup of its proposal, related repositories by the proposals in
//! each of them, and the working directory by the checkout in it. A collection is answered by the
//! pages that are fetched of it. Every other action is carried out as it is.
use vstd::prelude::*;
use crate::fields::value_or;
use crate::json::{items_view, Json, JsonView};
use crate::launchpad::{changes, only_reads};
use crate::local_git::{
    branch_arguments, checkout_from, inspect_checkout, named_remotes, remote_arguments,
    remotes_arguments, stdout_at,
};
use crate::lookup::{
    branch_lookup, find_related, is_nothing, merge_proposal_for_branch, related_from,
};
use crate::pages::{
    all_entries, are_linked, fetch_all_entries, fetch_entries, find_proposal_by_id, found_proposal,
    some_entries, Page,
};
use crate::preview::{find_link, link_in};
use crate::request::Request;
use crate::resolving::{
    remote_paths, repository_search, resolve_merge_proposal_target, resolved_target, search_from,
};
use crate::split::lines_of;
use crate::steps::{
    fail, related_view, reply_step, text_at, text_reply, Action, ActionView, RelatedProposals,
    RelatedView, Reply, ReplyView,
};
use crate::target::{parsed_target, KindView};

verus! {

/// How many answers were used for the proposals of a branch in a related repository.
pub open spec fn related_used(repository: JsonView, replies: Seq<Reply>, at: int) -> int {
    if link_in(repository, "self_link"@, "Launchpad repository has no API link"@) is Err {
        0
    } else if is_nothing(replies[at]) {
        1
    } else {
        match replies[at] {
            Reply::Json(git_ref) => if link_in(
                git_ref@,
                "self_link"@,
                "Launchpad Git reference has no API link"@,
            ) is Ok {
                2
            } else {
                1
            },
            _ => 1,
        }
    }
}

/// The proposals of a branch in a related repository, or why they could not be fetched, and how
/// far the answers were used.
pub open spec fn related_outcome(
    repository: JsonView,
    branch: Seq<char>,
    replies: Seq<Reply>,
    at: int,
) -> Result<(RelatedView, int), ActionView> {
    let next = at + related_used(repository, replies, at);
    match related_from(repository, branch, replies, at) {
        Ok(proposals) => Ok((RelatedView { repository, proposals: Ok(proposals) }, next)),
        Err(ActionView::Fail { error }) => Ok(
            (RelatedView { repository, proposals: Err(error) }, next),
        ),
        Err(action) => Err(action),
    }
}

/// The proposals of a branch in each of some repositories, one after the other, and how far the
/// answers were used.
pub open spec fn related_outcomes(
    repositories: Seq<JsonView>,
    branch: Seq<char>,
    replies: Seq<Reply>,
) -> Result<(Seq<RelatedView>, int), ActionView>
    decreases repositories.len(),
{
    if repositories.len() == 0 {
        Ok((Seq::empty(), 0))
    } else {
        match related_outcomes(repositories.drop_last(), branch, replies) {
            Err(action) => Err(action),
            Ok((front, at)) => match related_outcome(repositories.last(), branch, replies, at) {
                Err(action) => Err(action),
                Ok((last, next)) => Ok((front.push(last), next)),
            },
        }
    }
}

/// What an action is answered with, given the answers to its own steps so far. An action without
/// steps of its own is handed back.
pub open spec fn answered(
    request: Request,
    base: Seq<char>,
    action: ActionView,
    replies: Seq<Reply>,
) -> Result<ReplyView, ActionView> {
    match action {
        ActionView::Proposal { target } => match resolved_target(target, base, replies) {
            Ok(proposal) => Ok(ReplyView::Json(proposal)),
            Err(action) => Err(action),
        },
        ActionView::Lookup { repository, branch } => match branch_lookup(
            request,
            repository,
            branch,
            base,
            replies,
        ) {
            Ok(lookup) => Ok(ReplyView::Lookup(lookup)),
            Err(action) => Err(action),
        },
        ActionView::Related { repositories, branch } => match related_outcomes(
            repositories,
            branch,
            replies,
        ) {
            Ok((related, _)) => Ok(ReplyView::Related(related)),
            Err(action) => Err(action),
        },
        ActionView::Checkout => match text_at(replies, 0, ActionView::Directory { path: None }) {
            Err(stop) => Err(stop),
            Ok(directory) => match checkout_from(directory, replies, 1) {
                Ok(checkout) => Ok(ReplyView::Checkout(checkout)),
                Err(action) => Err(action),
            },
        },
        _ => Err(action),
    }
}

proof fn lemma_related_stop_stays(
    repositories: Seq<JsonView>,
    branch: Seq<char>,
    replies: Seq<Reply>,
    count: int,
)
    requires
        0 <= count <= repositories.len(),
        related_outcomes(repositories.take(count), branch, replies) is Err,
    ensures
        related_outcomes(repositories, branch, replies) == related_outcomes(
            repositories.take(count),
            branch,
            replies,
        ),
    decreases repositories.len(),
{
    if count < repositories.len() {
        assert(repositories.drop_last().take(count) =~= repositories.take(count));
        lemma_related_stop_stays(repositories.drop_last(), branch, replies, count);
    } else {
        assert(repositories.take(count) =~= repositories);
    }
}

fn used(repository: &Json, replies: &Vec<Reply>, at: usize) -> (r: usize)
    requires
        at < replies.len() || link_in(
            repository@,
            "self_link"@,
            "Launchpad repository has no API link"@,
        ) is Err,
    ensures
        r == related_used(repository@, replies@, at as int),
{
    if find_link(
        repository,
        "self_link",
        "Launchpad repository has no API link",
    ).is_err() {
        return 0;
    }
    match &replies[at] {
        Reply::Json(git_ref) => match git_ref {
            Json::Null => 1,
            _ => if find_link(
                git_ref,
                "self_link",
                "Launchpad Git reference has no API link",
            ).is_ok() {
                2
            } else {
                1
            },
        },
        _ => 1,
    }
}

fn gather_related(repositories: &Vec<Json>, branch: &str, replies: &Vec<Reply>) -> (r: Result<
    Vec<RelatedProposals>,
    Action,
>)
    ensures
        match r {
            Ok(related) => related_outcomes(items_view(repositories@), branch@, replies@) matches Ok(
                found,
            ) && found.0 == related_view(related@),
            Err(action) => related_outcomes(items_view(repositories@), branch@, replies@) == Err::<
                (Seq<RelatedView>, int),
                ActionView,
            >(action@),
        },
{
    let ghost all = items_view(repositories@);
    let mut related: Vec<RelatedProposals> = Vec::new();
    let mut at: usize = 0;
    assert(all.take(0) =~= Seq::empty());
    assert(related_view(related@) =~= Seq::empty());
    for i in 0..repositories.len()
        invariant
            all == items_view(repositories@),
            at <= replies.len(),
            related_outcomes(all.take(i as int), branch@, replies@) == Ok::<
                (Seq<RelatedView>, int),
                ActionView,
            >((related_view(related@), at as int)),
    {
        let repository = &repositories[i];
        assert(all.take(i + 1).drop_last() =~= all.take(i as int));
        assert(all.take(i + 1).last() == repository@);
        assert(all.take(all.len() as int) =~= all);
        let proposals = match find_related(repository, branch, replies, at) {
            Ok(proposals) => Ok(proposals),
            Err(Action::Fail { error }) => Err(error),
            Err(action) => {
                proof {
                    lemma_related_stop_stays(all, branch@, replies@, i + 1);
                }
                return Err(action);
            },
        };
        let count = used(repository, replies, at);
        let found = RelatedProposals { repository: repository.copy(), proposals };
        let ghost before = related_view(related@);
        let ghost view = found@;
        related.push(found);
        assert(related_view(related@) =~= before.push(view));
        at = at + count;
    }
    assert(all.take(all.len() as int) =~= all);
    Ok(related)
}

/// What an action is answered with, given the answers to its own steps so far: the merge proposal
/// that a target names, the lookup of a branch, the proposals of a branch in each of some
/// repositories, or the checkout in the working directory. Any other action has no steps of its
/// own and is handed back.
pub fn answer(request: &Request, base: &str, action: &Action, replies: &Vec<Reply>) -> (r: Result<
    Reply,
    Action,
>)
    ensures
        reply_step(r) == answered(*request, base@, action@, replies@),
{
    match action {
        Action::Proposal { target } => Ok(
            Reply::Json(resolve_merge_proposal_target(target.as_str(), base, replies)?),
        ),
        Action::Lookup { repository, branch } => Ok(
            Reply::Lookup(
                merge_proposal_for_branch(
                    request,
                    repository.as_str(),
                    branch.as_str(),
                    base,
                    replies,
                )?,
            ),
        ),
        Action::Related { repositories, branch } => Ok(
            Reply::Related(gather_related(repositories, branch.as_str(), replies)?),
        ),
        Action::Checkout => {
            let directory = text_reply(replies, 0, Action::Directory { path: None })?;
            Ok(Reply::Checkout(inspect_checkout(directory, replies, 1)?))
        },
        _ => Err(action.copy()),
    }
}

/// What fetching a collection is answered with, given the pages so far. An action that fetches no
/// collection is handed back.
pub open spec fn collected(action: ActionView, pages: Seq<Page>) -> Result<ReplyView, ActionView> {
    match action {
        ActionView::GetAll { place } => match place.address() {
            Err(error) => Err(fail(error)),
            Ok(url) => match all_entries(url, pages) {
                Ok(entries) => Ok(ReplyView::Entries(entries)),
                Err(action) => Err(action),
            },
        },
        ActionView::GetSome { place, limit } => match place.address() {
            Err(error) => Err(fail(error)),
            Ok(url) => match some_entries(url, limit as nat, pages) {
                Ok(entries) => Ok(ReplyView::Entries(entries)),
                Err(action) => Err(action),
            },
        },
        ActionView::Find { url, id } => match found_proposal(url, id, pages) {
            Ok(proposal) => Ok(ReplyView::Found(proposal)),
            Err(action) => Err(action),
        },
        _ => Err(action),
    }
}

/// Whether the URL of a collection stays within what can be represented.
pub open spec fn collection_fits(action: ActionView) -> bool {
    match action {
        ActionView::GetAll { place } => place.fits(),
        ActionView::GetSome { place, .. } => place.fits(),
        _ => true,
    }
}

/// What fetching a collection is answered with, given the pages so far: all its entries, the
/// first of them, or the merge proposal with an identifier. Any other action is handed back.
pub fn collect(action: &Action, pages: &Vec<Page>) -> (r: Result<Reply, Action>)
    requires
        are_linked(pages@),
        collection_fits(action@),
    ensures
        reply_step(r) == collected(action@, pages@),
{
    match action {
        Action::GetAll { place } => match place.address() {
            Err(error) => Err(Action::Fail { error }),
            Ok(url) => Ok(Reply::Entries(fetch_all_entries(url.as_str(), pages)?)),
        },
        Action::GetSome { place, limit } => match place.address() {
            Err(error) => Err(Action::Fail { error }),
            Ok(url) => Ok(Reply::Entries(fetch_entries(url.as_str(), *limit, pages)?)),
        },
        Action::Find { url, id } => Ok(Reply::Found(find_proposal_by_id(url.as_str(), *id, pages)?)),
        _ => Err(action.copy()),
    }
}

proof fn lemma_outcome_elsewhere(
    repository: JsonView,
    branch: Seq<char>,
    own: Seq<Reply>,
    replies: Seq<Reply>,
    at: int,
    start: int,
)
    requires
        0 <= at <= own.len(),
        0 <= start,
        start + own.len() <= replies.len(),
        forall|i: int| 0 <= i < own.len() ==> #[trigger] replies[start + i] == own[i],
        related_outcome(repository, branch, own, at) is Ok,
    ensures
        ({
            let (found, next) = related_outcome(repository, branch, own, at)->Ok_0;
            &&& at <= next <= own.len()
            &&& related_outcome(repository, branch, replies, start + at) == Ok::<
                (RelatedView, int),
                ActionView,
            >((found, start + next))
        }),
{
    if at < own.len() {
        assert(replies[start + at] == own[at]);
    }
    if at + 1 < own.len() {
        assert(replies[start + (at + 1)] == own[at + 1]);
    }
}

proof fn lemma_more_replies(
    repositories: Seq<JsonView>,
    branch: Seq<char>,
    replies: Seq<Reply>,
    more: Seq<Reply>,
)
    requires
        related_outcomes(repositories, branch, replies) is Ok,
    ensures
        0 <= related_outcomes(repositories, branch, replies)->Ok_0.1 <= replies.len(),
        related_outcomes(repositories, branch, replies + more) == related_outcomes(
            repositories,
            branch,
            replies,
        ),
    decreases repositories.len(),
{
    if repositories.len() > 0 {
        let front = repositories.drop_last();
        lemma_more_replies(front, branch, replies, more);
        let at = related_outcomes(front, branch, replies)->Ok_0.1;
        lemma_outcome_elsewhere(repositories.last(), branch, replies, replies + more, at, 0);
    }
}

/// Related repositories may be looked through each for itself: what each comes to with its own
/// answers is what it comes to among all of them, with the answers one after the other.
pub proof fn lemma_related_each_for_itself(
    repositories: Seq<JsonView>,
    branch: Seq<char>,
    parts: Seq<Seq<Reply>>,
    found: Seq<RelatedView>,
)
    requires
        parts.len() == repositories.len(),
        found.len() == repositories.len(),
        forall|i: int|
            0 <= i < repositories.len() ==> related_outcome(
                #[trigger] repositories[i],
                branch,
                parts[i],
                0,
            ) == Ok::<(RelatedView, int), ActionView>((found[i], parts[i].len() as int)),
    ensures
        related_outcomes(repositories, branch, parts.flatten_alt()) == Ok::<
            (Seq<RelatedView>, int),
            ActionView,
        >((found, parts.flatten_alt().len() as int)),
    decreases repositories.len(),
{
    if repositories.len() == 0 {
        assert(found =~= Seq::empty());
    } else {
        let front = repositories.drop_last();
        let before = parts.drop_last();
        let known = found.drop_last();
        assert forall|i: int| 0 <= i < front.len() implies related_outcome(
            #[trigger] front[i],
            branch,
            before[i],
            0,
        ) == Ok::<(RelatedView, int), ActionView>((known[i], before[i].len() as int)) by {
            assert(front[i] == repositories[i]);
        }
        lemma_related_each_for_itself(front, branch, before, known);
        let earlier = before.flatten_alt();
        let own = parts.last();
        let all = parts.flatten_alt();
        assert(all == earlier + own);
        lemma_more_replies(front, branch, earlier, own);
        assert(repositories.last() == repositories[repositories.len() - 1]);
        lemma_outcome_elsewhere(
            repositories.last(),
            branch,
            own,
            all,
            0,
            earlier.len() as int,
        );
        assert(known.push(found.last()) =~= found);
    }
}

/// The answer for related repositories has each of them in its place.
pub proof fn lemma_related_in_place(
    repositories: Seq<JsonView>,
    branch: Seq<char>,
    replies: Seq<Reply>,
)
    ensures
        related_outcomes(repositories, branch, replies) matches Ok((related, _)) ==> {
            &&& related.len() == repositories.len()
            &&& forall|i: int|
                0 <= i < related.len() ==> (#[trigger] related[i]).repository == repositories[i]
        },
    decreases repositories.len(),
{
    if repositories.len() > 0 {
        lemma_related_in_place(repositories.drop_last(), branch, replies);
    }
}

/// Whether an action asks Git for the branch, the remotes or the URL of a remote.
pub open spec fn asks_git(action: ActionView) -> bool {
    action matches ActionView::Git { arguments } && (arguments == branch_arguments() || arguments
        == remotes_arguments() || exists|name: Seq<char>|
        arguments == #[trigger] remote_arguments(name))
}

/// Answering changes nothing: the steps of an action fetch or fail, and the only commands are
/// those that print the branch and the remotes of the checkout.
pub proof fn lemma_answers_change_nothing(
    request: Request,
    base: Seq<char>,
    action: ActionView,
    replies: Seq<Reply>,
)
    requires
        action is Proposal || action is Lookup || action is Related || action is Checkout,
    ensures
        answered(request, base, action, replies) matches Err(step) ==> !changes(step) && (
        step is Git ==> asks_git(step)),
{
    match action {
        ActionView::Related { repositories, branch } => {
            lemma_related_reads(repositories, branch, replies);
        },
        ActionView::Proposal { target } => lemma_target_reads(target, base, replies),
        ActionView::Lookup { repository, branch } => {
            lemma_lookup_reads(request, repository, branch, base, replies);
        },
        _ => lemma_checkout_reads(replies),
    }
}

proof fn lemma_related_reads(repositories: Seq<JsonView>, branch: Seq<char>, replies: Seq<Reply>)
    ensures
        only_reads(related_outcomes(repositories, branch, replies)),
    decreases repositories.len(),
{
    if repositories.len() > 0 {
        lemma_related_reads(repositories.drop_last(), branch, replies);
    }
}

proof fn lemma_target_reads(target: Seq<char>, base: Seq<char>, replies: Seq<Reply>)
    ensures
        only_reads(resolved_target(target, base, replies)),
{
    if replies.len() > 0 {
        if let Reply::Checkout(checkout) = replies[0] {
            if let Ok(found) = parsed_target(target) {
                if let KindView::MergeProposalId { id } = found.kind {
                    lemma_search_reads(
                        remote_paths(checkout@.remotes),
                        id,
                        base,
                        replies,
                        1,
                        Seq::empty(),
                    );
                }
            }
        }
    }
}

proof fn lemma_search_reads(
    paths: Seq<Seq<char>>,
    id: u64,
    base: Seq<char>,
    replies: Seq<Reply>,
    at: int,
    inspected: Seq<Seq<char>>,
)
    ensures
        only_reads(search_from(paths, id, base, replies, at, inspected)),
    decreases paths.len(),
{
    if paths.len() > 0 {
        let rest = paths.skip(1);
        lemma_search_reads(rest, id, base, replies, at, inspected);
        lemma_search_reads(rest, id, base, replies, at + 1, inspected);
        if let Reply::Json(repository) = replies[at] {
            if let Ok(Err(next)) = repository_search(repository@, id, replies, at + 1) {
                let name = value_or(repository@.text("unique_name"@), paths[0]);
                lemma_search_reads(rest, id, base, replies, next, inspected.push(name));
            }
        }
    }
}

proof fn lemma_lookup_reads(
    request: Request,
    repository: Seq<char>,
    branch: Seq<char>,
    base: Seq<char>,
    replies: Seq<Reply>,
)
    ensures
        only_reads(branch_lookup(request, repository, branch, base, replies)),
{
}

proof fn lemma_checkout_reads(replies: Seq<Reply>)
    ensures
        text_at(replies, 0, ActionView::Directory { path: None }) matches Ok(directory)
            ==> checkout_from(directory, replies, 1) matches Err(step) ==> !changes(step) && (
        step is Git ==> asks_git(step)),
{
    if let Ok(names) = stdout_at(remotes_arguments(), replies, 2) {
        lemma_remotes_read(lines_of(names), replies, 3);
    }
}

proof fn lemma_remotes_read(names: Seq<Seq<char>>, replies: Seq<Reply>, at: int)
    ensures
        named_remotes(names, replies, at) matches Err(step) ==> !changes(step) && (step is Git
            ==> asks_git(step)),
    decreases names.len(),
{
    if names.len() > 0 {
        lemma_remotes_read(names.drop_last(), replies, at);
        assert(remote_arguments(names.last()) == remote_arguments(names.last()));
    }
}

} // verus!
