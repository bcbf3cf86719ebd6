//! Which merge proposal a lookup selects.
use vstd::prelude::*;
use crate::compare::{eq_ignore_ascii_case, same_letters};
use crate::error::{invalid, Error, ErrorView};
use crate::fields::{id_of, resource_id, text_field, value_or};
use crate::format::cat3;
use crate::items::{arrange, keep};
use crate::json::{items_view, no_members, push_member, text_or_null, texts_view, Json, JsonView};
use crate::lines::{or_empty, text_or_empty};
use crate::number::{parse_u64, unsigned_within};
use crate::order::{
    arranged, in_order, key_precedes, keys_view, lemma_order_is_permutation,
    lemma_order_is_sorted_and_stable, order_of, sort_order, Key, KeyView,
};
use crate::repository::{normalise_ref, normalised_ref};
use crate::request::{filter_values, OneOrMany, Request};
use crate::text::{copy, opt_view, same};

verus! {

/// Whether a list names a status, in whatever case.
pub open spec fn names_status(statuses: Seq<Seq<char>>, status: Seq<char>) -> bool {
    exists|i: int| 0 <= i < statuses.len() && same_letters(#[trigger] statuses[i], status)
}

/// A flag of a request that is off where the request does not say.
pub open spec fn is_set(flag: Option<bool>) -> bool {
    flag == Some(true)
}

/// A flag of a request that is off where the request does not say.
pub fn flag_set(flag: Option<bool>) -> (r: bool)
    ensures
        r == is_set(flag),
{
    match flag {
        Some(flag) => flag,
        None => false,
    }
}

/// The branch that a request wants the proposal to go to.
pub open spec fn wanted_target(request: Request) -> Option<Seq<char>> {
    match opt_view(request.target_branch) {
        Some(branch) => Some(normalised_ref(branch)),
        None => None,
    }
}

/// Whether a request takes superseded proposals: where it says so, or asks for that status.
pub open spec fn takes_superseded(request: Request) -> bool {
    is_set(request.include_superseded) || match filter_values(request.status) {
        Some(statuses) => names_status(statuses, "Superseded"@),
        None => false,
    }
}

/// Whether a proposal passes the filters of a request.
pub open spec fn is_eligible(proposal: JsonView, request: Request) -> bool {
    let status = text_or_empty(proposal.text("queue_status"@));
    let status_matches = match filter_values(request.status) {
        Some(statuses) => names_status(statuses, status),
        None => true,
    };
    let target_matches = match wanted_target(request) {
        Some(target) => proposal.text("target_git_path"@) == Some(target),
        None => true,
    };
    status_matches && target_matches && (takes_superseded(request) || !same_letters(
        status,
        "Superseded"@,
    ))
}

/// The test whether a proposal passes the filters of a request.
pub open spec fn eligibility(request: Request) -> spec_fn(JsonView) -> bool {
    |proposal: JsonView| is_eligible(proposal, request)
}

fn lists_status(statuses: &OneOrMany, status: &str) -> (r: bool)
    ensures
        r == names_status(statuses.texts(), status@),
{
    let values = statuses.values();
    let ghost all = values@.map_values(|value: &str| value@);
    for i in 0..values.len()
        invariant
            all == values@.map_values(|value: &str| value@),
            all == statuses.texts(),
            forall|j: int| 0 <= j < i ==> !same_letters(#[trigger] all[j], status@),
    {
        assert(all[i as int] == values@[i as int]@);
        if eq_ignore_ascii_case(values[i], status) {
            return true;
        }
    }
    assert(values@.len() == all.len());
    false
}

fn superseded_taken(request: &Request) -> (r: bool)
    ensures
        r == takes_superseded(*request),
{
    flag_set(request.include_superseded) || match &request.status {
        Some(statuses) => lists_status(statuses, "Superseded"),
        None => false,
    }
}

fn eligible(proposal: &Json, request: &Request) -> (r: bool)
    ensures
        r == is_eligible(proposal@, *request),
{
    let status = or_empty(text_field(proposal, "queue_status"));
    let status_matches = match &request.status {
        Some(statuses) => lists_status(statuses, status.as_str()),
        None => true,
    };
    let target_matches = match &request.target_branch {
        Some(branch) => match text_field(proposal, "target_git_path") {
            Some(path) => same(path, normalise_ref(branch.as_str()).as_str()),
            None => false,
        },
        None => true,
    };
    status_matches && target_matches && (superseded_taken(request) || !eq_ignore_ascii_case(
        status.as_str(),
        "Superseded",
    ))
}

/// The proposals that pass the filters of a request.
pub fn eligible_proposals(proposals: &Vec<Json>, request: &Request) -> (r: Vec<Json>)
    ensures
        items_view(r@) == items_view(proposals@).filter(eligibility(*request)),
{
    let test = |proposal: &Json| -> (passed: bool)
        ensures
            passed == is_eligible(proposal@, *request),
        {
            eligible(proposal, request)
        };
    keep(proposals, test, Ghost(eligibility(*request)))
}

/// Whether a status is none of those that end a proposal.
pub open spec fn is_active_status(status: Seq<char>) -> bool {
    !same_letters("Merged"@, status) && !same_letters("Rejected"@, status) && !same_letters(
        "Superseded"@,
        status,
    )
}

/// Whether a status is none of those that end a proposal.
pub fn is_active_proposal_status(status: &str) -> (r: bool)
    ensures
        r == is_active_status(status@),
{
    !eq_ignore_ascii_case("Merged", status) && !eq_ignore_ascii_case("Rejected", status)
        && !eq_ignore_ascii_case("Superseded", status)
}

/// How much a proposal is preferred by its status.
pub open spec fn status_rank(status: Seq<char>) -> u64 {
    if is_active_status(status) {
        3
    } else if same_letters(status, "Merged"@) {
        2
    } else if same_letters(status, "Rejected"@) {
        1
    } else {
        0
    }
}

/// What proposals are ordered by: where the latest is wanted, the date and then the identifier,
/// and otherwise the status first.
pub open spec fn selection_key(proposal: JsonView, latest: bool) -> KeyView {
    let number = match id_of(proposal) {
        Some(id) => match unsigned_within(id, u64::MAX as nat) {
            Some(id) => id as u64,
            None => 0,
        },
        None => 0,
    };
    KeyView {
        rank: if latest {
            0
        } else {
            status_rank(text_or_empty(proposal.text("queue_status"@)))
        },
        text: Some(text_or_empty(proposal.text("date_created"@))),
        number,
    }
}

/// The keys of proposals.
pub open spec fn selection_keys(proposals: Seq<JsonView>, latest: bool) -> Seq<KeyView> {
    proposals.map_values(|proposal: JsonView| selection_key(proposal, latest))
}

/// Why a proposal with a status was selected.
pub open spec fn selection_reason(status: Seq<char>, latest: bool) -> Seq<char> {
    if latest {
        "selected the latest matching proposal by creation date and ID"@
    } else if is_active_status(status) {
        "preferred an active proposal, then selected the newest by creation date and ID"@
    } else if same_letters(status, "Merged"@) {
        "selected the newest merged proposal because no active proposal matched"@
    } else {
        "selected the newest "@ + status + " proposal because no active or merged proposal matched"@
    }
}

/// A proposal that was selected, those that were not, and why.
pub struct Selected {
    pub proposal: Json,
    pub alternatives: Vec<Json>,
    pub reason: String,
}

/// What a selection holds.
#[verifier::ext_equal]
pub struct SelectedView {
    pub proposal: JsonView,
    pub alternatives: Seq<JsonView>,
    pub reason: Seq<char>,
}

impl View for Selected {
    type V = SelectedView;

    open spec fn view(&self) -> SelectedView {
        SelectedView {
            proposal: self.proposal@,
            alternatives: items_view(self.alternatives@),
            reason: self.reason@,
        }
    }
}

/// What the outcome of a selection holds.
pub open spec fn selected_outcome(r: Result<Selected, Error>) -> Result<SelectedView, ErrorView> {
    match r {
        Ok(selected) => Ok(selected@),
        Err(error) => Err(error@),
    }
}

/// The selection among proposals: the last of them in their order.
pub open spec fn selection(proposals: Seq<JsonView>, latest: bool) -> Result<
    SelectedView,
    ErrorView,
> {
    let sorted = arranged(proposals, order_of(selection_keys(proposals, latest)));
    if proposals.len() == 0 {
        Err(invalid("cannot select a merge proposal from an empty result"@))
    } else {
        Ok(
            SelectedView {
                proposal: sorted.last(),
                alternatives: sorted.drop_last(),
                reason: selection_reason(
                    value_or(sorted.last().text("queue_status"@), "unknown"@),
                    latest,
                ),
            },
        )
    }
}

fn key_of_proposal(proposal: &Json, latest: bool) -> (r: Key)
    ensures
        r@ == selection_key(proposal@, latest),
{
    let number: u64 = match resource_id(proposal) {
        Some(id) => match parse_u64(id.as_str()) {
            Some(id) => id,
            None => 0,
        },
        None => 0,
    };
    let rank: u64 = if latest {
        0
    } else {
        let status = or_empty(text_field(proposal, "queue_status"));
        if is_active_proposal_status(status.as_str()) {
            3
        } else if eq_ignore_ascii_case(status.as_str(), "Merged") {
            2
        } else if eq_ignore_ascii_case(status.as_str(), "Rejected") {
            1
        } else {
            0
        }
    };
    Key { rank, text: Some(or_empty(text_field(proposal, "date_created"))), number }
}

fn explain_selection(status: &str, latest: bool) -> (r: String)
    ensures
        r@ == selection_reason(status@, latest),
{
    if latest {
        copy("selected the latest matching proposal by creation date and ID")
    } else if is_active_proposal_status(status) {
        copy("preferred an active proposal, then selected the newest by creation date and ID")
    } else if eq_ignore_ascii_case(status, "Merged") {
        copy("selected the newest merged proposal because no active proposal matched")
    } else {
        cat3(
            "selected the newest ",
            status,
            " proposal because no active or merged proposal matched",
        )
    }
}

/// The proposal that a request selects among those that match it.
pub fn select_proposal(proposals: &Vec<Json>, request: &Request) -> (r: Result<Selected, Error>)
    ensures
        selected_outcome(r) == selection(items_view(proposals@), is_set(request.latest)),
{
    if proposals.len() == 0 {
        return Err(Error::invalid("cannot select a merge proposal from an empty result"));
    }
    let latest = flag_set(request.latest);
    let ghost all = items_view(proposals@);
    let mut keys: Vec<Key> = Vec::new();
    for i in 0..proposals.len()
        invariant
            all == items_view(proposals@),
            keys@.len() == i,
            forall|j: int| 0 <= j < i ==> (#[trigger] keys@[j])@ == selection_key(all[j], latest),
    {
        keys.push(key_of_proposal(&proposals[i], latest));
    }
    assert(keys_view(keys@) =~= selection_keys(all, latest));
    let order = sort_order(&keys);
    let mut sorted = arrange(proposals, &order);
    let ghost arrangement = items_view(sorted@);
    assert(arrangement.len() == proposals@.len());
    let last = sorted.pop();
    let proposal = last.unwrap();
    assert(arrangement.last() == proposal@);
    assert(items_view(sorted@) =~= arrangement.drop_last());
    let status = match text_field(&proposal, "queue_status") {
        Some(status) => status,
        None => "unknown",
    };
    let reason = explain_selection(status, latest);
    Ok(Selected { proposal, alternatives: sorted, reason })
}

/// The filters that a request selects a proposal by.
pub open spec fn selection_filters(request: Request) -> JsonView {
    JsonView::Object(
        Seq::empty().push(
            (
                "status"@,
                match filter_values(request.status) {
                    Some(statuses) => texts_view(statuses),
                    None => JsonView::Null,
                },
            ),
        ).push(("target_branch"@, text_or_null(wanted_target(request)))).push(
            ("latest"@, JsonView::Bool(is_set(request.latest))),
        ).push(("include_superseded"@, JsonView::Bool(is_set(request.include_superseded)))),
    )
}

fn list_of_texts(values: &OneOrMany) -> (r: Json)
    ensures
        r@ == texts_view(values.texts()),
{
    match values {
        OneOrMany::One(value) => {
            let mut texts: Vec<String> = Vec::new();
            texts.push(copy(value.as_str()));
            assert(crate::text::views(texts@) =~= values.texts());
            Json::of_texts(&texts)
        },
        OneOrMany::Many(values) => Json::of_texts(values),
    }
}

/// The filters that a request selects a proposal by.
pub fn proposal_selection_filters(request: &Request) -> (r: Json)
    ensures
        r@ == selection_filters(*request),
{
    let mut members = no_members();
    let status = match &request.status {
        Some(statuses) => list_of_texts(statuses),
        None => Json::Null,
    };
    push_member(&mut members, "status", status);
    let target = match &request.target_branch {
        Some(branch) => Json::Text(normalise_ref(branch.as_str())),
        None => Json::Null,
    };
    push_member(&mut members, "target_branch", target);
    push_member(&mut members, "latest", Json::Bool(flag_set(request.latest)));
    push_member(
        &mut members,
        "include_superseded",
        Json::Bool(flag_set(request.include_superseded)),
    );
    Json::Object(members)
}

/// What a lookup says of a proposal that it did not select.
pub open spec fn proposal_summary_of(proposal: JsonView) -> JsonView {
    JsonView::Object(
        Seq::empty().push(("id"@, text_or_null(id_of(proposal)))).push(
            ("status"@, text_or_null(proposal.text("queue_status"@))),
        ).push(("url"@, text_or_null(proposal.text("web_link"@)))),
    )
}

/// What a lookup says of a proposal that it did not select.
pub fn proposal_summary(proposal: &Json) -> (r: Json)
    ensures
        r@ == proposal_summary_of(proposal@),
{
    let mut members = no_members();
    let id = match resource_id(proposal) {
        Some(id) => Json::Text(id),
        None => Json::Null,
    };
    push_member(&mut members, "id", id);
    push_member(&mut members, "status", Json::of_option(text_field(proposal, "queue_status")));
    push_member(&mut members, "url", Json::of_option(text_field(proposal, "web_link")));
    Json::Object(members)
}

/// No proposal that passes the filters is superseded, unless the request takes superseded ones.
pub proof fn lemma_superseded_excluded(proposals: Seq<JsonView>, request: Request, i: int)
    requires
        !takes_superseded(request),
        0 <= i < proposals.filter(eligibility(request)).len(),
    ensures
        !same_letters(
            text_or_empty(proposals.filter(eligibility(request))[i].text("queue_status"@)),
            "Superseded"@,
        ),
{
    proposals.lemma_filter_pred(eligibility(request), i);
    assert(eligibility(request)(proposals.filter(eligibility(request))[i]));
}

/// The selected proposal is one of the candidates, and no candidate comes after it in their
/// order. The alternatives are all the others.
pub proof fn lemma_selected_is_greatest(proposals: Seq<JsonView>, latest: bool, i: int)
    requires
        0 <= i < proposals.len(),
    ensures
        selection(proposals, latest) matches Ok(selected) && {
            &&& proposals.contains(selected.proposal)
            &&& !key_precedes(
                selection_key(selected.proposal, latest),
                selection_key(proposals[i], latest),
            )
            &&& selected.alternatives.len() == proposals.len() - 1
            &&& proposals[i] == selected.proposal || selected.alternatives.contains(proposals[i])
        },
{
    let keys = selection_keys(proposals, latest);
    let order = order_of(keys);
    lemma_order_is_permutation(keys);
    let last = order.len() - 1;
    let sorted = arranged(proposals, order);
    assert(sorted.last() == proposals[order[last]]);
    assert(order.contains(i));
    let at = choose|at: int| 0 <= at < order.len() && order[at] == i;
    assert(sorted[at] == proposals[i]);
    if at < last {
        lemma_order_is_sorted_and_stable(keys, at, last);
        assert(in_order(keys, order[at], order[last]));
        assert(sorted.drop_last()[at] == proposals[i]);
    } else {
        crate::order::lemma_key_order_total(keys[i], keys[i]);
    }
}

/// Where a candidate is active and the latest is not asked for, the selected proposal is active.
pub proof fn lemma_active_preferred(proposals: Seq<JsonView>, i: int)
    requires
        0 <= i < proposals.len(),
        is_active_status(text_or_empty(proposals[i].text("queue_status"@))),
    ensures
        selection(proposals, false) matches Ok(selected) && is_active_status(
            text_or_empty(selected.proposal.text("queue_status"@)),
        ),
{
    lemma_selected_is_greatest(proposals, false, i);
}

/// Where the latest is asked for, no candidate was created after the selected proposal.
pub proof fn lemma_latest_is_newest(proposals: Seq<JsonView>, i: int)
    requires
        0 <= i < proposals.len(),
    ensures
        selection(proposals, true) matches Ok(selected) && !crate::compare::precedes(
            text_or_empty(selected.proposal.text("date_created"@)),
            text_or_empty(proposals[i].text("date_created"@)),
        ),
{
    lemma_selected_is_greatest(proposals, true, i);
}

} // verus!
