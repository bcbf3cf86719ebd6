//! Where the merge proposal of a branch is looked for, and which one is found.
use vstd::prelude::*;
use crate::branches::{found_result, lookup_result, missing_result, LookupContextView};
use crate::details::proposal_object;
use crate::json::{items_view, JsonView};
use crate::launchpad::executed;
use crate::laws::creating::{filtered, full_ref, links_ref};
use crate::laws::selecting::{
    lemma_filters_are_applied, lemma_newest_of_best_class_is_selected, may_precede, passes,
};
use crate::laws::sending::text_of;
use crate::laws::terms::{lemma_member_at, lemma_service_url, sends};
use crate::lookup::{
    branch_lookup, branch_matches, from_branch, is_candidate, is_other_repository, related_from,
    related_matches, ref_with_path,
};
use crate::proposals::{eligibility, selection, selection_filters};
use crate::repository::repository_lookup_url;
use crate::request::{Operation, Request};
use crate::steps::{
    get, get_all, get_some, refs_view, ActionView, GitRef, LookupView, PlaceView, RelatedProposals,
    Reply,
};
use crate::text::{is_blank, trim_end_of, trimmed};

verus! {

/// Whether a proposal comes from a branch and is one that a request asks for.
pub open spec fn is_match(proposal: JsonView, request: Request, branch: Seq<char>) -> bool {
    proposal.text("source_git_path"@) == Some(full_ref(branch)) && passes(proposal, request)
}

/// Whether a ref has a path.
pub open spec fn has_path(git_ref: GitRef, path: Seq<char>) -> bool {
    git_ref.path matches Some(own) && own@ == path
}

/// Whether a list of refs has one with a path.
pub open spec fn has_ref(refs: Seq<GitRef>, path: Seq<char>) -> bool {
    exists|i: int| 0 <= i < refs.len() && has_path(#[trigger] refs[i], path)
}

/// The proposals that a repository was asked for, as far as they are looked through: all of the
/// branch, or the first two hundred and fifty of the repository where the branch is gone.
pub open spec fn searched(refs: Seq<GitRef>, entries: Seq<JsonView>, branch: Seq<char>) -> Seq<JsonView> {
    if !has_ref(refs, full_ref(branch)) && entries.len() > 250 {
        entries.take(250)
    } else {
        entries
    }
}

pub(crate) proof fn lemma_has_ref(refs: Seq<GitRef>, path: Seq<char>)
    ensures
        ref_with_path(refs_view(refs), path) is Some <==> has_ref(refs, path),
    decreases refs.len(),
{
    let all = refs_view(refs);
    if refs.len() > 0 {
        let rest = refs.skip(1);
        assert(all[0] == refs[0]@);
        assert(all.skip(1) =~= refs_view(rest));
        lemma_has_ref(rest, path);
        if has_ref(rest, path) {
            let i = choose|i: int|
                0 <= i < rest.len() && has_path(#[trigger] rest[i], path);
            assert(refs[i + 1] == rest[i]);
        }
        if has_ref(refs, path) && all[0].path != Some(path) {
            let i = choose|i: int|
                0 <= i < refs.len() && has_path(#[trigger] refs[i], path);
            assert(i > 0);
            assert(rest[i - 1] == refs[i]);
        }
    }
}

pub(crate) proof fn lemma_ref_link(refs: Seq<GitRef>, path: Seq<char>, link: Seq<char>)
    requires
        links_ref(refs, path, link),
    ensures
        ref_with_path(refs_view(refs), path) matches Some(found) && found.self_link == Some(link),
    decreases refs.len(),
{
    let all = refs_view(refs);
    let i = choose|i: int|
        {
            &&& 0 <= i < refs.len()
            &&& (#[trigger] refs[i]).path matches Some(own) && own@ == path
            &&& refs[i].self_link matches Some(own) && own@ == link
            &&& forall|j: int|
                0 <= j < i ==> ((#[trigger] refs[j]).path matches Some(own) ==> own@ != path)
        };
    assert(all[0] == refs[0]@);
    if i > 0 {
        let rest = refs.skip(1);
        assert(all.skip(1) =~= refs_view(rest));
        assert(refs[0].path matches Some(own) ==> own@ != path);
        assert(rest[i - 1] == refs[i]);
        assert forall|j: int| 0 <= j < i - 1 implies ((#[trigger] rest[j]).path matches Some(own)
            ==> own@ != path) by {
            assert(rest[j] == refs[j + 1]);
        }
        assert(links_ref(rest, path, link));
        lemma_ref_link(rest, path, link);
    }
}

pub(crate) proof fn lemma_eligible(proposals: Seq<JsonView>, request: Request, branch: Seq<char>)
    ensures
        ({
            let kept = proposals.filter(from_branch(full_ref(branch))).filter(eligibility(request));
            forall|proposal: JsonView|
                kept.contains(proposal) <==> proposals.contains(proposal) && is_match(
                    proposal,
                    request,
                    branch,
                )
        }),
{
    let own = proposals.filter(from_branch(full_ref(branch)));
    let kept = own.filter(eligibility(request));
    assert forall|proposal: JsonView|
        kept.contains(proposal) <==> proposals.contains(proposal) && is_match(
            proposal,
            request,
            branch,
        ) by {
        lemma_filters_are_applied(own, request, proposal);
        let test = from_branch(full_ref(branch));
        if own.contains(proposal) {
            proposals.lemma_filter_contains_rev(test, proposal);
            let i = choose|i: int| 0 <= i < own.len() && own[i] == proposal;
            proposals.lemma_filter_pred(test, i);
            assert(test(proposal));
        }
        if proposals.contains(proposal) && test(proposal) {
            let i = choose|i: int| 0 <= i < proposals.len() && proposals[i] == proposal;
            proposals.lemma_filter_contains(test, i);
        }
    }
}

proof fn lemma_filtered_twice(proposals: Seq<JsonView>, request: Request, branch: Seq<char>)
    ensures
        proposals.filter(from_branch(full_ref(branch))).filter(eligibility(request)) =~= proposals.filter(
            |proposal: JsonView| is_match(proposal, request, branch),
        ),
    decreases proposals.len(),
{
    reveal(Seq::filter);
    if proposals.len() > 0 {
        let front = proposals.drop_last();
        let last = proposals.last();
        lemma_filtered_twice(front, request, branch);
        lemma_filters_are_applied(front, request, last);
        let own = front.filter(from_branch(full_ref(branch)));
        if from_branch(full_ref(branch))(last) {
            assert(own.push(last).drop_last() =~= own);
            assert(own.push(last).last() == last);
        }
    }
}

/// What is found in the repository itself is the best of the proposals that come from the branch
/// and are asked for. Only where there is none of these is anything found elsewhere, or said to be
/// missing.
#[verifier::rlimit(80)]
pub proof fn lemma_best_match_of_branch_is_found(
    request: Request,
    path: Seq<char>,
    branch: Seq<char>,
    base: Seq<char>,
    replies: Seq<Reply>,
)
    ensures
        branch_lookup(request, path, branch, base, replies) matches Ok(lookup) ==> {
            &&& replies.len() >= 3
            &&& replies[1] matches Reply::Refs(refs) && replies[2] matches Reply::Entries(entries) && {
                let proposals = searched(refs@, items_view(entries@), branch);
                &&& (lookup matches LookupView::Found {
                    repository,
                    proposal,
                    related_repository,
                    candidate_count,
                    ..
                } && !related_repository) ==> {
                    &&& replies[0] matches Reply::Json(own) && lookup->Found_repository == own@
                    &&& proposals.contains(lookup->proposal) && is_match(
                        lookup->proposal,
                        request,
                        branch,
                    )
                    &&& forall|i: int|
                        0 <= i < proposals.len() && is_match(#[trigger] proposals[i], request, branch)
                            ==> may_precede(
                            lookup->proposal,
                            proposals[i],
                            request.latest == Some(true),
                        )
                    &&& lookup->candidate_count == proposals.filter(
                        |proposal: JsonView|
                            proposal.text("source_git_path"@) == Some(full_ref(branch)),
                    ).len()
                    &&& lookup->alternatives.push(lookup->proposal).to_multiset()
                        =~= proposals.filter(
                        |proposal: JsonView| is_match(proposal, request, branch),
                    ).to_multiset()
                }
                &&& (lookup is Missing || lookup->related_repository) ==> forall|i: int|
                    0 <= i < proposals.len() ==> !is_match(#[trigger] proposals[i], request, branch)
                &&& lookup is Missing ==> has_ref(refs@, full_ref(branch)) || entries@.len() <= 250
            }
        },
{
    if let Ok(lookup) = branch_lookup(request, path, branch, base, replies) {
        let refs = replies[1]->Refs_0@;
        let entries = items_view(replies[2]->Entries_0@);
        let listed = replies[2]->Entries_0;
        assert(listed.len() == listed@.len());
        assert(entries.len() == listed@.len());
        let full = full_ref(branch);
        lemma_has_ref(refs, full);
        let proposals = searched(refs, entries, branch);
        let own = proposals.filter(from_branch(full));
        assert(own == branch_matches(entries, full, has_ref(refs, full)).0);
        assert(from_branch(full) =~= (|proposal: JsonView|
            proposal.text("source_git_path"@) == Some(full_ref(branch))));
        let kept = own.filter(eligibility(request));
        lemma_eligible(proposals, request, branch);
        proposals.lemma_filter_len(from_branch(full));
        lemma_filtered_twice(proposals, request, branch);
        if kept.len() > 0 {
            lemma_newest_of_best_class_is_selected(kept, request.latest == Some(true));
            let best = selection(kept, request.latest == Some(true))->Ok_0.proposal;
            assert(kept.contains(best));
            assert forall|i: int|
                0 <= i < proposals.len() && is_match(#[trigger] proposals[i], request, branch) implies may_precede(
                best,
                proposals[i],
                request.latest == Some(true),
            ) by {
                assert(proposals.contains(proposals[i]));
                assert(kept.contains(proposals[i]));
                let k = choose|k: int| 0 <= k < kept.len() && kept[k] == proposals[i];
                assert(may_precede(best, kept[k], request.latest == Some(true)));
            }
        } else {
            assert forall|i: int| 0 <= i < proposals.len() implies !is_match(
                #[trigger] proposals[i],
                request,
                branch,
            ) by {
                if is_match(proposals[i], request, branch) {
                    assert(proposals.contains(proposals[i]));
                    assert(kept.contains(proposals[i]));
                }
            }
        }
    }
}

/// Whether a related repository has a proposal that a request asks for.
pub open spec fn has_match(related: RelatedProposals, request: Request) -> bool {
    related.proposals matches Ok(proposals) && exists|i: int|
        0 <= i < proposals@.len() && passes((#[trigger] proposals@[i])@, request)
}

proof fn lemma_has_match(related: RelatedProposals, request: Request)
    requires
        related.proposals is Ok,
    ensures
        has_match(related, request) <==> items_view(related.proposals->Ok_0@).filter(
            eligibility(request),
        ).len() > 0,
{
    let proposals = related.proposals->Ok_0@;
    let all = items_view(proposals);
    let test = eligibility(request);
    let kept = all.filter(test);
    if kept.len() > 0 {
        lemma_filters_are_applied(all, request, kept[0]);
        assert(kept.contains(kept[0]));
        let i = choose|i: int| 0 <= i < all.len() && all[i] == kept[0];
        assert(proposals[i]@ == all[i]);
        assert(passes(proposals[i]@, request));
    }
    if has_match(related, request) {
        let i = choose|i: int|
            0 <= i < proposals.len() && passes((#[trigger] proposals[i])@, request);
        lemma_filters_are_applied(all, request, all[i]);
        assert(all.contains(all[i]));
        assert(kept.contains(all[i]));
    }
}

proof fn lemma_matches(related: Seq<RelatedProposals>, request: Request, branch: Seq<char>) -> (at:
    Seq<int>)
    requires
        related_matches(related, request, branch) is Ok,
    ensures
        ({
            let matches = related_matches(related, request, branch)->Ok_0;
            &&& at.len() == matches.len()
            &&& forall|k: int|
                0 <= k < at.len() ==> {
                    &&& 0 <= #[trigger] at[k] < related.len()
                    &&& has_match(related[at[k]], request)
                    &&& matches[k].repository == related[at[k]].repository@
                    &&& matches[k].proposals == items_view(
                        related[at[k]].proposals->Ok_0@,
                    ).filter(eligibility(request))
                    &&& matches[k].candidate_count == related[at[k]].proposals->Ok_0@.len()
                }
            &&& forall|i: int|
                0 <= i < related.len() && has_match(#[trigger] related[i], request) ==> at.contains(i)
            &&& at.no_duplicates()
            &&& forall|i: int| 0 <= i < related.len() ==> (#[trigger] related[i]).proposals is Ok
        }),
    decreases related.len(),
{
    if related.len() == 0 {
        Seq::empty()
    } else {
        let front = related.drop_last();
        let before = lemma_matches(front, request, branch);
        let last = related.len() - 1;
        lemma_has_match(related.last(), request);
        let at = if has_match(related.last(), request) {
            before.push(last)
        } else {
            before
        };
        let matches = related_matches(related, request, branch)->Ok_0;
        assert forall|k: int| 0 <= k < at.len() implies {
            &&& 0 <= #[trigger] at[k] < related.len()
            &&& has_match(related[at[k]], request)
            &&& matches[k].repository == related[at[k]].repository@
            &&& matches[k].proposals == items_view(related[at[k]].proposals->Ok_0@).filter(
                eligibility(request),
            )
            &&& matches[k].candidate_count == related[at[k]].proposals->Ok_0@.len()
        } by {
            if k < before.len() {
                assert(front[before[k]] == related[before[k]]);
            }
        }
        assert forall|i: int| 0 <= i < related.len() && has_match(#[trigger] related[i], request) implies at.contains(
            i,
        ) by {
            if i < last {
                assert(front[i] == related[i]);
                let k = choose|k: int| 0 <= k < before.len() && before[k] == i;
                assert(at[k] == i);
            } else {
                assert(at[before.len() as int] == i);
            }
        }
        assert forall|i: int| 0 <= i < related.len() implies (#[trigger] related[i]).proposals is Ok by {
            if i < last {
                assert(front[i] == related[i]);
            }
        }
        at
    }
}

/// Whether a lookup found the best proposal that is asked for in the only related repository that
/// has any.
pub open spec fn is_only_match(
    related: Seq<RelatedProposals>,
    i: int,
    lookup: LookupView,
    request: Request,
) -> bool {
    &&& 0 <= i < related.len() && has_match(related[i], request)
    &&& forall|j: int| 0 <= j < related.len() && has_match(#[trigger] related[j], request) ==> j == i
    &&& lookup->Found_repository == related[i].repository@
    &&& items_view(related[i].proposals->Ok_0@).contains(lookup->proposal)
    &&& lookup->alternatives.push(lookup->proposal).to_multiset() =~= items_view(
        related[i].proposals->Ok_0@,
    ).filter(|proposal: JsonView| passes(proposal, request)).to_multiset()
    &&& passes(lookup->proposal, request)
    &&& forall|k: int|
        0 <= k < related[i].proposals->Ok_0@.len() && passes(
            (#[trigger] related[i].proposals->Ok_0@[k])@,
            request,
        ) ==> may_precede(
            lookup->proposal,
            related[i].proposals->Ok_0@[k]@,
            request.latest == Some(true),
        )
}

/// What is found in a related repository is the best of its proposals that are asked for, and it
/// is the only related repository that has any. Nothing is said to be missing where a related
/// repository has one, and several with one are refused.
#[verifier::rlimit(80)]
pub proof fn lemma_only_match_of_related_is_found(
    request: Request,
    path: Seq<char>,
    branch: Seq<char>,
    base: Seq<char>,
    replies: Seq<Reply>,
)
    ensures
        branch_lookup(request, path, branch, base, replies) matches Ok(lookup) ==> {
            &&& lookup is Missing || lookup->related_repository ==> replies.len() >= 5 && replies[4] is Related
                && replies[3] is Entries
            &&& lookup is Missing ==> forall|i: int|
                0 <= i < replies[4]->Related_0@.len() ==> !has_match(
                    #[trigger] replies[4]->Related_0@[i],
                    request,
                )
            &&& lookup is Missing ==> replies[3]->Entries_0@.len() <= 100
            &&& lookup is Found && lookup->related_repository ==> exists|i: int|
                #[trigger] is_only_match(replies[4]->Related_0@, i, lookup, request)
        },
{
    if let Ok(lookup) = branch_lookup(request, path, branch, base, replies) {
        if lookup is Missing || lookup->related_repository {
            let related = replies[4]->Related_0@;
            assert(items_view(replies[3]->Entries_0@).len() == replies[3]->Entries_0@.len());
            let at = lemma_matches(related, request, full_ref(branch));
            let matches = related_matches(related, request, full_ref(branch))->Ok_0;
            if lookup is Found {
                let i = at[0];
                assert(has_match(related[i], request));
                assert forall|j: int| 0 <= j < related.len() && has_match(#[trigger] related[j], request) implies j
                    == i by {
                    let k = choose|k: int| 0 <= k < at.len() && at[k] == j;
                }
                let all = items_view(related[i].proposals->Ok_0@);
                let kept = all.filter(eligibility(request));
                assert(matches[0].proposals == kept);
                lemma_has_match(related[i], request);
                lemma_newest_of_best_class_is_selected(kept, request.latest == Some(true));
                lemma_filters_are_applied(all, request, lookup->proposal);
                assert forall|k: int|
                    0 <= k < related[i].proposals->Ok_0@.len() && passes(
                        (#[trigger] related[i].proposals->Ok_0@[k])@,
                        request,
                    ) implies may_precede(
                    lookup->proposal,
                    related[i].proposals->Ok_0@[k]@,
                    request.latest == Some(true),
                ) by {
                    lemma_filters_are_applied(all, request, all[k]);
                    assert(all.contains(all[k]));
                    let m = choose|m: int| 0 <= m < kept.len() && kept[m] == all[k];
                    assert(may_precede(lookup->proposal, kept[m], request.latest == Some(true)));
                }
                assert(eligibility(request) =~= (|proposal: JsonView| passes(proposal, request)))
                    by {
                    assert forall|proposal: JsonView| #[trigger]
                        eligibility(request)(proposal) == passes(proposal, request) by {
                        lemma_filters_are_applied(all, request, proposal);
                    }
                }
                assert(is_only_match(related, i, lookup, request));
            } else {
                assert forall|i: int| 0 <= i < related.len() implies !has_match(
                    #[trigger] related[i],
                    request,
                ) by {
                    if has_match(related[i], request) {
                        assert(at.contains(i));
                    }
                }
            }
        }
    }
}

/// A lookup goes on as far as it has to: where the answers are there, none of the proposals of the
/// branch is asked for, and of the related repositories exactly one has one that is, it is found
/// there; where none has and nothing was cut off, it is said to be missing; and where several
/// have, the lookup fails.
pub proof fn lemma_related_lookup_comes_to_an_end(
    request: Request,
    path: Seq<char>,
    branch: Seq<char>,
    base: Seq<char>,
    replies: Seq<Reply>,
    i: int,
    j: int,
)
    requires
        crate::lookup::related_at(replies, 4, ActionView::Checkout) is Ok,
        replies.len() == 5,
        branch_lookup(request, path, branch, base, replies.take(4)) matches Err(
            ActionView::Related { .. },
        ),
        forall|k: int|
            0 <= k < replies[4]->Related_0@.len() ==> (
            #[trigger] replies[4]->Related_0@[k]).proposals is Ok,
    ensures
        ({
            let related = replies[4]->Related_0@;
            let lookup = branch_lookup(request, path, branch, base, replies);
            &&& 0 <= i < related.len() && has_match(related[i], request) && (forall|k: int|
                0 <= k < related.len() && has_match(#[trigger] related[k], request) ==> k == i)
                ==> lookup is Ok && lookup->Ok_0 is Found
            &&& (forall|k: int| 0 <= k < related.len() ==> !has_match(#[trigger] related[k], request))
                ==> (lookup is Ok && lookup->Ok_0 is Missing) || (lookup is Err
                && lookup->Err_0 is Write)
            &&& 0 <= i < j < related.len() && has_match(related[i], request) && has_match(
                related[j],
                request,
            ) ==> lookup is Err && lookup->Err_0 is Fail
        }),
{
    let before = replies.take(4);
    let related = replies[4]->Related_0@;
    assert forall|k: int| 0 <= k < 4 implies before[k] == replies[k] by {}
    lemma_all_known(related, request, full_ref(branch));
    let at = lemma_matches(related, request, full_ref(branch));
    let matches = related_matches(related, request, full_ref(branch))->Ok_0;
    if 0 <= i < related.len() && has_match(related[i], request) && (forall|k: int|
        0 <= k < related.len() && has_match(#[trigger] related[k], request) ==> k == i) {
        assert(at.contains(i));
        if at.len() > 1 {
            assert(at[0] != at[1]);
            assert(has_match(related[at[0]], request) && has_match(related[at[1]], request));
        }
        lemma_has_match(related[i], request);
    }
    if forall|k: int| 0 <= k < related.len() ==> !has_match(#[trigger] related[k], request) {
        if at.len() > 0 {
            assert(has_match(related[at[0]], request));
        }
    }
    if 0 <= i < j < related.len() && has_match(related[i], request) && has_match(
        related[j],
        request,
    ) {
        assert(at.contains(i) && at.contains(j));
        let p = choose|p: int| 0 <= p < at.len() && at[p] == i;
        let q = choose|q: int| 0 <= q < at.len() && at[q] == j;
        assert(p != q);
    }
}

proof fn lemma_all_known(related: Seq<RelatedProposals>, request: Request, branch: Seq<char>)
    requires
        forall|k: int| 0 <= k < related.len() ==> (#[trigger] related[k]).proposals is Ok,
    ensures
        related_matches(related, request, branch) is Ok,
    decreases related.len(),
{
    if related.len() > 0 {
        let front = related.drop_last();
        assert forall|k: int| 0 <= k < front.len() implies (#[trigger] front[k]).proposals is Ok by {
            assert(front[k] == related[k]);
        }
        assert(related[related.len() - 1].proposals is Ok);
        lemma_all_known(front, request, branch);
    }
}

/// A lookup asks for the repository, then for its refs by its name, then for the proposals of the
/// branch, or of the whole repository where the branch is gone. Where these do not do, it asks for
/// the repositories of the same target, and then for the proposals of the branch in those of them
/// that have the same name or are the default ones, other than the repository itself.
#[verifier::rlimit(80)]
pub proof fn lemma_lookup_asks(
    request: Request,
    path: Seq<char>,
    branch: Seq<char>,
    base: Seq<char>,
    replies: Seq<Reply>,
)
    requires
        base.len() > 0 && base.last() != '/',
    ensures
        branch_lookup(request, path, branch, base, replies) matches Err(action) ==> action !is Fail ==> {
            &&& replies.len() == 0 ==> (repository_lookup_url(base, path) matches Ok(url) && action
                == get(url))
            &&& replies.len() == 1 ==> (replies[0] matches Reply::Json(own) && own@.text(
                "unique_name"@,
            ) matches Some(name) && action == (ActionView::Refs { repository: name }))
            &&& replies.len() == 2 ==> (replies[0] matches Reply::Json(own)
                && replies[1] matches Reply::Refs(refs) && {
                &&& forall|link: Seq<char>| #[trigger]
                    links_ref(refs@, full_ref(branch), link) ==> action == get_all(
                        trim_end_of(link, '/') + "/landing_targets"@,
                    )
                &&& has_ref(refs@, full_ref(branch)) <==> action is GetAll
                &&& !has_ref(refs@, full_ref(branch)) ==> (own@.text(
                    "landing_targets_collection_link"@,
                ) matches Some(url) && action == get_some(url, 251))
            })
            &&& replies.len() == 3 ==> (replies[0] matches Reply::Json(own)
                && action matches ActionView::GetSome { place: PlaceView::Query(query), limit } && {
                &&& query.base == base + "/"@ + "+git"@
                &&& limit == 101
                &&& sends(query.pairs, "ws.op"@, "getRepositories"@)
                &&& own@.text("target_link"@) matches Some(target) && sends(
                    query.pairs,
                    "target"@,
                    target,
                )
                &&& sends(query.pairs, "order_by"@, "most recently changed first"@)
            })
            &&& replies.len() == 4 ==> (action matches ActionView::Related { branch: full, .. }
                && full == full_ref(branch))
        },
{
    reveal_strlit("ws.op");
    reveal_strlit("target");
    reveal_strlit("order_by");
    reveal_strlit("ws.size");
    assert("ws.op"@.len() == 5 && "target"@.len() == 6 && "order_by"@.len() == 8
        && "ws.size"@.len() == 7);
    reveal_strlit("/+git");
    reveal_strlit("+git");
    reveal_strlit("/");
    assert("/+git"@ =~= "/"@ + "+git"@);
    lemma_service_url(base, "+git"@);
    if let Err(action) = branch_lookup(request, path, branch, base, replies) {
        if action !is Fail {
            if replies.len() == 2 {
                let refs = replies[1]->Refs_0@;
                lemma_has_ref(refs, full_ref(branch));
                assert forall|link: Seq<char>| #[trigger]
                    links_ref(refs, full_ref(branch), link) implies action == get_all(
                    trim_end_of(link, '/') + "/landing_targets"@,
                ) by {
                    lemma_ref_link(refs, full_ref(branch), link);
                }
            }
            if replies.len() == 3 {
                let pairs = action->GetSome_place->Query_0.pairs;
                assert(pairs[0].0 == "ws.op"@ && pairs[1].0 == "target"@ && pairs[2].0
                    == "order_by"@ && pairs[3].0 == "ws.size"@);
            }
        }
    }
}

/// The related repositories that are looked through are those among the first hundred of the same
/// target that have the name of the repository or are the default ones, and are not the repository
/// itself.
pub proof fn lemma_related_repositories(
    request: Request,
    path: Seq<char>,
    branch: Seq<char>,
    base: Seq<char>,
    replies: Seq<Reply>,
    candidate: JsonView,
)
    ensures
        branch_lookup(request, path, branch, base, replies) matches Err(
            ActionView::Related { repositories, .. },
        ) ==> (replies[0] matches Reply::Json(own) && replies[3] matches Reply::Entries(entries) && {
            let all = items_view(entries@);
            let listed = if all.len() > 100 {
                all.take(100)
            } else {
                all
            };
            repositories.contains(candidate) <==> {
                &&& listed.contains(candidate)
                &&& candidate.text("name"@) == own@.text("name"@) || candidate.flag(
                    "target_default"@,
                ) == Some(true)
                &&& candidate.text("unique_name"@) != own@.text("unique_name"@)
            }
        }),
{
    if let Err(ActionView::Related { repositories, .. }) = branch_lookup(
        request,
        path,
        branch,
        base,
        replies,
    ) {
        let own = replies[0]->Json_0@;
        let all = items_view(replies[3]->Entries_0@);
        let listed = if all.len() > 100 {
            all.take(100)
        } else {
            all
        };
        let first = is_candidate(own.text("name"@));
        let second = is_other_repository(own.text("unique_name"@)->0);
        let named = listed.filter(first);
        assert(repositories == named.filter(second));
        lemma_kept(listed, first, candidate);
        lemma_kept(named, second, candidate);
    }
}

pub(crate) proof fn lemma_kept(items: Seq<JsonView>, test: spec_fn(JsonView) -> bool, item: JsonView)
    ensures
        items.filter(test).contains(item) <==> items.contains(item) && test(item),
{
    let kept = items.filter(test);
    if kept.contains(item) {
        items.lemma_filter_contains_rev(test, item);
        let i = choose|i: int| 0 <= i < kept.len() && kept[i] == item;
        items.lemma_filter_pred(test, i);
    }
    if items.contains(item) && test(item) {
        let i = choose|i: int| 0 <= i < items.len() && items[i] == item;
        items.lemma_filter_contains(test, i);
    }
}

/// The proposals of a branch in a related repository are those that come from it, of the ref that
/// the repository gives for it. Where it gives none there are none.
pub proof fn lemma_related_proposals_come_from_branch(
    repository: JsonView,
    branch: Seq<char>,
    replies: Seq<Reply>,
    proposal: JsonView,
)
    ensures
        related_from(repository, branch, replies, 0) matches Err(action) ==> action !is Fail ==> {
            &&& replies.len() == 0 ==> (action matches ActionView::Get { place: PlaceView::Query(query) } && {
                &&& repository.text("self_link"@) == Some(query.base)
                &&& sends(query.pairs, "ws.op"@, "getRefByPath"@)
                &&& sends(query.pairs, "path"@, branch)
            })
            &&& replies.len() == 1 ==> (replies[0] matches Reply::Json(found) && found@.text(
                "self_link"@,
            ) matches Some(link) && action == get_all(trim_end_of(link, '/') + "/landing_targets"@))
            &&& replies.len() < 2
        },
        related_from(repository, branch, replies, 0) matches Ok(proposals) ==> {
            &&& replies.len() > 0
            &&& (replies[0] matches Reply::Json(found) && found@ != JsonView::Null) ==> replies.len() > 1 && (
            replies[1] matches Reply::Entries(entries) && (proposals.contains(proposal) <==> items_view(
                entries@,
            ).contains(proposal) && proposal.text("source_git_path"@) == Some(branch)))
            &&& !(replies[0] matches Reply::Json(found) && found@ != JsonView::Null) ==> proposals.len()
                == 0
        },
{
    reveal_strlit("ws.op");
    reveal_strlit("path");
    assert("ws.op"@.len() == 5 && "path"@.len() == 4);
    match related_from(repository, branch, replies, 0) {
        Err(ActionView::Get { place: PlaceView::Query(query) }) => {
            assert(query.pairs[0].0 == "ws.op"@ && query.pairs[1].0 == "path"@);
        },
        Ok(proposals) => {
            if replies.len() > 1 {
                if let Reply::Entries(entries) = replies[1] {
                    lemma_kept(items_view(entries@), from_branch(branch), proposal);
                }
            }
        },
        _ => {},
    }
}

/// The filters of a lookup are reported by name, as the request has them.
pub proof fn lemma_filters_are_reported(request: Request)
    ensures
        ({
            let filters = selection_filters(request);
            &&& filters.flag("latest"@) == Some(request.latest == Some(true))
            &&& filters.flag("include_superseded"@) == Some(request.include_superseded == Some(true))
            &&& filters.text("target_branch"@) == (match request.target_branch {
                Some(branch) => Some(full_ref(branch@)),
                None => None,
            })
            &&& request.status is None ==> filters.get("status"@) == Some(JsonView::Null)
            &&& request.status is Some ==> (filters.get("status"@) matches Some(
                JsonView::Array(statuses),
            ) && statuses =~= filtered(request.status).map_values(
                |status: Seq<char>| JsonView::Text(status),
            ))
        }),
{
    reveal_strlit("status");
    reveal_strlit("target_branch");
    reveal_strlit("latest");
    reveal_strlit("include_superseded");
    assert("status"@.len() == 6 && "target_branch"@.len() == 13 && "latest"@.len() == 6
        && "include_superseded"@.len() == 18);
    assert("status"@[0] == 's');
    assert("latest"@[0] == 'l');
    let members = selection_filters(request)->Object_0;
    lemma_member_at(members, 0);
    lemma_member_at(members, 1);
    lemma_member_at(members, 2);
    lemma_member_at(members, 3);
    crate::laws::creating::lemma_filter_texts(request.status);
}

/// What is reported of a merge proposal is read off by name: its own number, page, status and
/// refs, and the names and URLs of its source and of its target.
pub proof fn lemma_proposal_details(proposal: JsonView, source: JsonView, target: JsonView)
    ensures
        ({
            let details = proposal_object(proposal, source, target);
            let same = |name: Seq<char>, resource: JsonView, field: Seq<char>|
                resource.text(field) matches Some(text) ==> text.len() > 0 ==> details.text(name) == Some(
                    text,
                );
            &&& details.text("kind"@) == Some("branch_merge_proposal"@)
            &&& details.text("id"@) == crate::fields::id_of(proposal)
            &&& same("url"@, proposal, "web_link"@)
            &&& same("status"@, proposal, "queue_status"@)
            &&& same("source_ref"@, proposal, "source_git_path"@)
            &&& same("target_ref"@, proposal, "target_git_path"@)
            &&& same("source_repository"@, source, "unique_name"@)
            &&& same("target_repository"@, target, "unique_name"@)
            &&& same("source_https_url"@, source, "git_https_url"@)
            &&& same("source_ssh_url"@, source, "git_ssh_url"@)
            &&& same("target_https_url"@, target, "git_https_url"@)
            &&& same("target_ssh_url"@, target, "git_ssh_url"@)
        }),
{
    reveal_strlit("kind");
    reveal_strlit("id");
    reveal_strlit("url");
    reveal_strlit("status");
    reveal_strlit("source_ref");
    reveal_strlit("target_ref");
    reveal_strlit("source_repository");
    reveal_strlit("target_repository");
    reveal_strlit("source_https_url");
    reveal_strlit("source_ssh_url");
    reveal_strlit("target_https_url");
    reveal_strlit("target_ssh_url");
    assert("kind"@.len() == 4 && "id"@.len() == 2 && "url"@.len() == 3 && "status"@.len() == 6
        && "source_ref"@.len() == 10 && "target_ref"@.len() == 10
        && "source_repository"@.len() == 17 && "target_repository"@.len() == 17
        && "source_https_url"@.len() == 16 && "source_ssh_url"@.len() == 14
        && "target_https_url"@.len() == 16 && "target_ssh_url"@.len() == 14);
    assert("source_ref"@[0] == 's');
    assert("target_ref"@[0] == 't');
    assert("source_repository"@[0] == 's');
    assert("target_repository"@[0] == 't');
    assert("source_https_url"@[0] == 's');
    assert("target_https_url"@[0] == 't');
    assert("source_ssh_url"@[0] == 's');
    assert("target_ssh_url"@[0] == 't');
    let members = proposal_object(proposal, source, target)->Object_0;
    lemma_member_at(members, 0);
    lemma_member_at(members, 1);
    lemma_member_at(members, 2);
    lemma_member_at(members, 3);
    lemma_member_at(members, 4);
    lemma_member_at(members, 5);
    lemma_member_at(members, 6);
    lemma_member_at(members, 7);
    lemma_member_at(members, 8);
    lemma_member_at(members, 9);
    lemma_member_at(members, 10);
    lemma_member_at(members, 11);
}

/// A proposal that was found is reported by name: that it was found, where, for which branch, and
/// of how many candidates and matches, with the proposal itself, the reason, the filters, and the
/// others in their order. Its page is the page of the result.
#[verifier::rlimit(80)]
pub proof fn lemma_found_proposal_is_reported(
    request: Request,
    lookup: LookupView,
    details: JsonView,
    context: LookupContextView,
    i: int,
)
    requires
        lookup is Found,
    ensures
        ({
            let result = found_result(request, lookup, details, context);
            let said = JsonView::Object(result.details);
            &&& said.text("kind"@) == Some(context.kind)
            &&& said.flag("found"@) == Some(true)
            &&& said.text("requested_repository"@) == Some(context.requested_repository)
            &&& lookup->Found_repository.text("unique_name"@) matches Some(name) ==> said.text(
                "repository"@,
            ) == Some(name)
            &&& said.text("branch"@) == Some(full_ref(context.branch))
            &&& said.flag("inferred"@) == Some(context.inferred)
            &&& said.flag("related_repository"@) == Some(lookup->related_repository)
            &&& said.unsigned("candidate_count"@) == Some(lookup->candidate_count as u64)
            &&& lookup->alternatives.len() < u64::MAX ==> said.unsigned("matching_proposals"@) == Some(
                (lookup->alternatives.len() + 1) as u64,
            )
            &&& said.get("selected_proposal"@) == Some(details)
            &&& said.text("selection_reason"@) == Some(lookup->reason)
            &&& said.get("selection_filters"@) == Some(selection_filters(request))
            &&& said.get("other_proposals"@) matches Some(JsonView::Array(others)) && {
                &&& others.len() == lookup->alternatives.len()
                &&& 0 <= i < others.len() ==> {
                    let other = lookup->alternatives[i];
                    &&& others[i].text("id"@) == crate::fields::id_of(other)
                    &&& others[i].text("status"@) == other.text("queue_status"@)
                    &&& others[i].text("url"@) == other.text("web_link"@)
                }
            }
            &&& result.source_url == lookup->proposal.text("web_link"@)
        }),
{
    reveal_strlit("kind");
    reveal_strlit("found");
    reveal_strlit("repository");
    reveal_strlit("requested_repository");
    reveal_strlit("branch");
    reveal_strlit("inferred");
    reveal_strlit("related_repository");
    reveal_strlit("candidate_count");
    reveal_strlit("matching_proposals");
    reveal_strlit("selected_proposal");
    reveal_strlit("selection_reason");
    reveal_strlit("selection_filters");
    reveal_strlit("other_proposals");
    reveal_strlit("context");
    assert("kind"@.len() == 4 && "found"@.len() == 5 && "repository"@.len() == 10
        && "requested_repository"@.len() == 20 && "branch"@.len() == 6 && "inferred"@.len() == 8
        && "related_repository"@.len() == 18 && "candidate_count"@.len() == 15
        && "matching_proposals"@.len() == 18 && "selected_proposal"@.len() == 17
        && "selection_reason"@.len() == 16 && "selection_filters"@.len() == 17
        && "other_proposals"@.len() == 15 && "context"@.len() == 7);
    assert("related_repository"@[0] == 'r');
    assert("matching_proposals"@[0] == 'm');
    assert("candidate_count"@[0] == 'c');
    assert("other_proposals"@[0] == 'o');
    assert("selected_proposal"@[6] == 'e');
    assert("selection_filters"@[6] == 'i');    
    reveal_strlit("id");
    reveal_strlit("status");
    reveal_strlit("url");
    assert("id"@.len() == 2 && "status"@.len() == 6 && "url"@.len() == 3);
    let members = found_result(request, lookup, details, context).details;
    lemma_member_at(members, 0);
    lemma_member_at(members, 1);
    lemma_member_at(members, 2);
    lemma_member_at(members, 3);
    lemma_member_at(members, 4);
    lemma_member_at(members, 5);
    lemma_member_at(members, 6);
    lemma_member_at(members, 7);
    lemma_member_at(members, 8);
    lemma_member_at(members, 9);
    lemma_member_at(members, 10);
    lemma_member_at(members, 11);
    lemma_member_at(members, 12);
    lemma_member_at(members, 13);
    if 0 <= i < lookup->alternatives.len() {
        let summary = crate::proposals::proposal_summary_of(lookup->alternatives[i])->Object_0;
        lemma_member_at(summary, 0);
        lemma_member_at(summary, 1);
        lemma_member_at(summary, 2);
    }
}

/// That there is no proposal is reported by name: that none was found, in which repository, for
/// which branch, and which others were inspected.
pub proof fn lemma_missing_proposal_is_reported(
    request: Request,
    repository: Seq<char>,
    inspected: Seq<Seq<char>>,
    context: LookupContextView,
)
    ensures
        ({
            let said = JsonView::Object(
                missing_result(request, repository, inspected, context).details,
            );
            &&& said.text("kind"@) == Some(context.kind)
            &&& said.flag("found"@) == Some(false)
            &&& said.text("repository"@) == Some(repository)
            &&& said.text("requested_repository"@) == Some(context.requested_repository)
            &&& said.text("branch"@) == Some(full_ref(context.branch))
            &&& said.flag("inferred"@) == Some(context.inferred)
            &&& said.get("inspected_repositories"@) matches Some(JsonView::Array(names)) && names
                =~= inspected.map_values(|name: Seq<char>| JsonView::Text(name))
            &&& said.get("selection_filters"@) == Some(selection_filters(request))
        }),
{
    reveal_strlit("kind");
    reveal_strlit("found");
    reveal_strlit("repository");
    reveal_strlit("requested_repository");
    reveal_strlit("inspected_repositories");
    reveal_strlit("branch");
    reveal_strlit("inferred");
    reveal_strlit("selection_filters");
    reveal_strlit("context");
    assert("kind"@.len() == 4 && "found"@.len() == 5 && "repository"@.len() == 10
        && "requested_repository"@.len() == 20 && "inspected_repositories"@.len() == 22
        && "branch"@.len() == 6 && "inferred"@.len() == 8 && "selection_filters"@.len() == 17
        && "context"@.len() == 7);
    let members = missing_result(request, repository, inspected, context).details;
    lemma_member_at(members, 0);
    lemma_member_at(members, 1);
    lemma_member_at(members, 2);
    lemma_member_at(members, 3);
    lemma_member_at(members, 4);
    lemma_member_at(members, 5);
    lemma_member_at(members, 6);
    lemma_member_at(members, 7);
    lemma_member_at(members, 8);
}

/// The proposal of a branch is looked up in the repository and branch of the request, or of the
/// checkout where the request does not name both.
pub proof fn lemma_branch_is_that_of_request_or_checkout(
    request: Request,
    base: Seq<char>,
    replies: Seq<Reply>,
)
    requires
        request.op == Operation::MergeProposalForBranch,
    ensures
        ({
            let named = !is_blank(
                text_of(request.repository),
            ) && !is_blank(text_of(request.branch));
            executed(request, base, replies) matches Err(action) ==> action !is Fail ==> {
                &&& !named && replies.len() == 0 ==> action is Checkout
                &&& named && replies.len() == 0 ==> (action matches ActionView::Lookup {
                    repository,
                    branch,
                } && {
                    &&& crate::repository::normalised_repository(text_of(request.repository))
                        == Ok::<Seq<char>, crate::error::ErrorView>(repository)
                    &&& branch == trimmed(text_of(request.branch))
                })
                &&& !named && replies.len() == 1 ==> looks_up_checkout(action, replies[0])
            }
        }),
{
    let empty: Seq<char> = Seq::empty();
    assert(is_blank(empty)) by {
        assert(trimmed(empty) =~= empty);
    }
}

/// Whether an action looks up the branch of a checkout in the repository of its remote.
pub open spec fn looks_up_checkout(action: ActionView, reply: Reply) -> bool {
    action matches ActionView::Lookup { repository, branch } && (
    reply matches Reply::Checkout(checkout) && {
        &&& crate::repository::normalised_repository(checkout.selected.url@) == Ok::<
            Seq<char>,
            crate::error::ErrorView,
        >(repository)
        &&& branch == checkout.branch@
    })
}

/// The current merge proposal is that of the branch of the checkout, in the repository of its
/// remote.
pub proof fn lemma_current_proposal_is_that_of_checkout(
    request: Request,
    base: Seq<char>,
    replies: Seq<Reply>,
)
    requires
        request.op == Operation::CurrentMergeProposal,
    ensures
        executed(request, base, replies) matches Err(action) ==> action !is Fail ==> {
            &&& replies.len() == 0 ==> action is Checkout
            &&& replies.len() == 1 ==> looks_up_checkout(action, replies[0])
        },
        executed(request, base, replies) is Ok ==> replies.len() > 1 && replies[0] is Checkout
            && replies[1] is Lookup,
{
}

/// What a lookup gave is what is reported of it, once the repositories of the proposal that was
/// found are answered.
pub proof fn lemma_lookup_is_reported(
    request: Request,
    lookup: LookupView,
    context: LookupContextView,
    replies: Seq<Reply>,
    at: int,
)
    requires
        0 <= at,
    ensures
        lookup_result(request, lookup, context, replies, at) matches Ok(result) ==> match lookup {
            LookupView::Missing { repository, inspected_repositories } => result == missing_result(
                request,
                repository,
                inspected_repositories,
                context,
            ),
            LookupView::Found { proposal, .. } => {
                &&& replies.len() > at + 1
                &&& replies[at] matches Reply::Json(source) && replies[at + 1] matches Reply::Json(target)
                    && result == found_result(
                    request,
                    lookup,
                    proposal_object(proposal, source@, target@),
                    context,
                )
            },
        },
        lookup_result(request, lookup, context, replies, at) matches Err(action) ==> action !is Fail ==> {
            &&& lookup is Found
            &&& replies.len() == at ==> (lookup->proposal.text(
                "source_git_repository_link"@,
            ) matches Some(link) && action == get(link))
            &&& replies.len() == at + 1 ==> (lookup->proposal.text(
                "target_git_repository_link"@,
            ) matches Some(link) && action == get(link))
        },
{
}

} // verus!
