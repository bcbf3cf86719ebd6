//! Which merge proposal a lookup selects, by the status, the date and the number of each.
use vstd::prelude::*;
use crate::compare::{precedes, same_letters};
use crate::fields::id_of;
use crate::json::JsonView;
use crate::number::{decimal, lemma_decimal_unsigned, unsigned_within};
use crate::order::{
    arranged, in_order, lemma_order_is_permutation, lemma_order_is_sorted_and_stable, order_of,
};
use crate::proposals::{
    eligibility, is_eligible, lemma_selected_is_greatest, selection, selection_key, selection_keys,
};
use crate::request::{OneOrMany, Request};

verus! {

/// Whether the status of a proposal is one, in whatever case.
pub open spec fn has_status(proposal: JsonView, status: Seq<char>) -> bool {
    proposal.text("queue_status"@) matches Some(own) && same_letters(own, status)
}

/// Whether a proposal is done with: merged, rejected or superseded.
pub open spec fn is_done(proposal: JsonView) -> bool {
    has_status(proposal, "Merged"@) || has_status(proposal, "Rejected"@) || has_status(
        proposal,
        "Superseded"@,
    )
}

/// Whether two proposals are of one status class: both still active, or both merged, both
/// rejected or both superseded.
pub open spec fn same_class(left: JsonView, right: JsonView) -> bool {
    ||| !is_done(left) && !is_done(right)
    ||| has_status(left, "Merged"@) && has_status(right, "Merged"@)
    ||| has_status(left, "Rejected"@) && has_status(right, "Rejected"@)
    ||| has_status(left, "Superseded"@) && has_status(right, "Superseded"@)
}

/// Whether a proposal is no older than another: the other has no later date of creation, and
/// where the dates are the same, no greater number.
pub open spec fn no_older(proposal: JsonView, other: JsonView) -> bool {
    &&& other.text("date_created"@) matches Some(date) ==> date.len() > 0 ==> (proposal.text(
        "date_created"@,
    ) matches Some(own) && !precedes(own, date))
    &&& proposal.text("date_created"@) == other.text("date_created"@) ==> forall|own: u64, number: u64|
        id_of(proposal) == Some(#[trigger] decimal(own as nat)) && id_of(other) == Some(
            #[trigger] decimal(number as nat),
        ) ==> number <= own
}

/// Whether a proposal may be selected before another. Where the latest is not asked for, an
/// active one goes before all others, a merged one before a rejected or superseded one, and a
/// rejected one before a superseded one; within a class, and where the latest is asked for among
/// all, the newer goes first.
pub open spec fn may_precede(proposal: JsonView, other: JsonView, latest: bool) -> bool {
    &&& !latest && !is_done(other) ==> !is_done(proposal)
    &&& !latest && has_status(other, "Merged"@) ==> !is_done(proposal) || has_status(
        proposal,
        "Merged"@,
    )
    &&& !latest && has_status(other, "Rejected"@) ==> !has_status(proposal, "Superseded"@)
    &&& latest || same_class(proposal, other) ==> no_older(proposal, other)
}

proof fn lemma_keys_say_preference(proposal: JsonView, other: JsonView, latest: bool)
    requires
        !crate::order::key_precedes(
            selection_key(proposal, latest),
            selection_key(other, latest),
        ),
    ensures
        may_precede(proposal, other, latest),
{
    reveal_strlit("Merged");
    reveal_strlit("Rejected");
    reveal_strlit("Superseded");
    assert("Merged"@.len() == 6 && "Rejected"@.len() == 8 && "Superseded"@.len() == 10);
    assert forall|own: u64, number: u64|
        id_of(proposal) == Some(#[trigger] decimal(own as nat)) && id_of(other) == Some(
            #[trigger] decimal(number as nat),
        ) implies unsigned_within(id_of(proposal)->0, u64::MAX as nat) == Some(own as nat)
        && unsigned_within(id_of(other)->0, u64::MAX as nat) == Some(number as nat) by {
        lemma_decimal_unsigned(own as nat);
        lemma_decimal_unsigned(number as nat);
    }
    assert forall|a: Seq<char>, b: Seq<char>| same_letters(a, b) == same_letters(b, a) by {}
    if proposal.text("date_created"@) == other.text("date_created"@) {
        crate::compare::lemma_precedes_irreflexive(
            crate::lines::text_or_empty(proposal.text("date_created"@)),
        );
    }
}

/// The selected proposal is the one that goes before all candidates: where the latest is not asked
/// for, no candidate of a better status class is passed over, and none of the same class has a
/// later date of creation, or the same date and a greater number; where it is asked for, none at
/// all. The alternatives stand in the same order, the best of them last.
pub proof fn lemma_newest_of_best_class_is_selected(proposals: Seq<JsonView>, latest: bool)
    requires
        proposals.len() > 0,
    ensures
        selection(proposals, latest) matches Ok(selected) && {
            &&& proposals.contains(selected.proposal)
            &&& selected.alternatives.push(selected.proposal).to_multiset() =~= proposals.to_multiset()
            &&& forall|i: int|
                0 <= i < proposals.len() ==> may_precede(
                    selected.proposal,
                    #[trigger] proposals[i],
                    latest,
                )
            &&& forall|i: int, j: int|
                0 <= i < j < selected.alternatives.len() ==> may_precede(
                    #[trigger] selected.alternatives[j],
                    #[trigger] selected.alternatives[i],
                    latest,
                )
        },
{
    let selected = selection(proposals, latest)->Ok_0;
    assert forall|i: int| 0 <= i < proposals.len() implies may_precede(
        selected.proposal,
        #[trigger] proposals[i],
        latest,
    ) by {
        lemma_selected_is_greatest(proposals, latest, i);
        lemma_keys_say_preference(selected.proposal, proposals[i], latest);
    }
    lemma_selected_is_greatest(proposals, latest, 0);
    let keys = selection_keys(proposals, latest);
    let order = order_of(keys);
    let sorted = arranged(proposals, order);
    lemma_order_is_permutation(keys);
    assert forall|i: int, j: int| 0 <= i < j < selected.alternatives.len() implies may_precede(
        #[trigger] selected.alternatives[j],
        #[trigger] selected.alternatives[i],
        latest,
    ) by {
        lemma_order_is_sorted_and_stable(keys, i, j);
        assert(in_order(keys, order[i], order[j]));
        assert(selected.alternatives[i] == proposals[order[i]]);
        assert(selected.alternatives[j] == proposals[order[j]]);
        lemma_keys_say_preference(selected.alternatives[j], selected.alternatives[i], latest);
    }
    assert(sorted.drop_last().push(sorted.last()) =~= sorted);
    crate::laws::terms::lemma_arranged_is_same(proposals, keys);
}

/// Whether a status filter of a request takes a status.
pub open spec fn takes_status(filter: OneOrMany, status: Seq<char>) -> bool {
    match filter {
        OneOrMany::One(wanted) => same_letters(wanted@, status),
        OneOrMany::Many(wanted) => exists|i: int|
            0 <= i < wanted@.len() && same_letters((#[trigger] wanted@[i])@, status),
    }
}

/// Whether a proposal is one that a request asks for.
pub open spec fn passes(proposal: JsonView, request: Request) -> bool {
    let own = match proposal.text("queue_status"@) {
        Some(status) => status,
        None => Seq::empty(),
    };
    &&& request.status matches Some(filter) ==> takes_status(filter, own)
    &&& request.target_branch matches Some(branch) ==> {
        let target = proposal.text("target_git_path"@);
        if "refs/"@.is_prefix_of(branch@) {
            target == Some(branch@)
        } else {
            target == Some("refs/heads/"@ + branch@)
        }
    }
    &&& has_status(proposal, "Superseded"@) ==> request.include_superseded == Some(true) || (
    request.status matches Some(filter) && takes_status(filter, "Superseded"@))
}

/// A proposal passes the filters of a request exactly where its status is one of those that are
/// asked for, its target is the branch that is asked for, by its name or its full ref, and it is
/// not superseded unless that is allowed or asked for. What is not asked for filters nothing.
pub proof fn lemma_filters_are_applied(proposals: Seq<JsonView>, request: Request, proposal: JsonView)
    ensures
        proposals.filter(eligibility(request)).contains(proposal) <==> proposals.contains(proposal)
            && passes(proposal, request),
        eligibility(request)(proposal) == passes(proposal, request),
{
    reveal_strlit("Superseded");
    assert("Superseded"@.len() == 10);
    let test = eligibility(request);
    if proposals.filter(test).contains(proposal) {
        proposals.lemma_filter_contains_rev(test, proposal);
        let i = choose|i: int|
            0 <= i < proposals.filter(test).len() && proposals.filter(test)[i] == proposal;
        proposals.lemma_filter_pred(test, i);
        assert(test(proposal));
    }
    if proposals.contains(proposal) && test(proposal) {
        let i = choose|i: int| 0 <= i < proposals.len() && proposals[i] == proposal;
        proposals.lemma_filter_contains(test, i);
    }
    if let Some(filter) = request.status {
        lemma_status_listed(filter, match proposal.text("queue_status"@) {
            Some(status) => status,
            None => Seq::empty(),
        });
        lemma_status_listed(filter, "Superseded"@);
    }
    assert(is_eligible(proposal, request) == test(proposal));
}

proof fn lemma_status_listed(filter: OneOrMany, status: Seq<char>)
    ensures
        takes_status(filter, status) == crate::proposals::names_status(filter.texts(), status),
{
    let texts = filter.texts();
    match filter {
        OneOrMany::One(wanted) => {
            assert(texts[0] == wanted@);
        },
        OneOrMany::Many(wanted) => {
            assert forall|i: int| 0 <= i < wanted@.len() implies texts[i] == (#[trigger] wanted@[i])@ by {}
            if crate::proposals::names_status(texts, status) {
                let i = choose|i: int|
                    0 <= i < texts.len() && same_letters(#[trigger] texts[i], status);
                assert(same_letters(wanted@[i]@, status));
            }
            if takes_status(filter, status) {
                let i = choose|i: int|
                    0 <= i < wanted@.len() && same_letters((#[trigger] wanted@[i])@, status);
                assert(same_letters(texts[i], status));
            }
        },
    }
}

/// Whether the letters of two texts are the same says nothing of their case: a text in capitals is
/// the same as one in small letters, and texts with another letter or length differ.
pub proof fn lemma_letters_without_case(front: Seq<char>, back: Seq<char>, letter: u8, other: char)
    requires
        0x41 <= letter <= 0x5a,
    ensures
        ({
            let small = (letter + 0x20) as u8 as char;
            let text = front.push(letter as char) + back;
            &&& same_letters(text, front.push(small) + back)
            &&& same_letters(front.push(small) + back, text)
            &&& same_letters(text, front.push(other) + back) ==> other == letter as char || other
                == small
            &&& !same_letters(text, front + back)
        }),
{
    let text = front.push(letter as char) + back;
    let changed = front.push(other) + back;
    assert(text[front.len() as int] == letter as char);
    assert(changed[front.len() as int] == other);
}

/// The reason that is given says how the proposal was selected: as the latest, as an active one, as a
/// merged one for want of an active one, or by its status for want of either.
pub proof fn lemma_reason_is_given(proposals: Seq<JsonView>, latest: bool)
    requires
        proposals.len() > 0,
    ensures
        selection(proposals, latest) matches Ok(selected) && {
            &&& latest ==> selected.reason
                == "selected the latest matching proposal by creation date and ID"@
            &&& !latest && !is_done(selected.proposal) ==> selected.reason
                == "preferred an active proposal, then selected the newest by creation date and ID"@
            &&& !latest && has_status(selected.proposal, "Merged"@) ==> selected.reason
                == "selected the newest merged proposal because no active proposal matched"@
            &&& !latest && (has_status(selected.proposal, "Rejected"@) || has_status(
                selected.proposal,
                "Superseded"@,
            )) ==> selected.reason == "selected the newest "@ + selected.proposal.text(
                "queue_status"@,
            )->0 + " proposal because no active or merged proposal matched"@
        },
{
    reveal_strlit("Merged");
    reveal_strlit("Rejected");
    reveal_strlit("Superseded");
    reveal_strlit("unknown");
    assert("Merged"@.len() == 6 && "Rejected"@.len() == 8 && "Superseded"@.len() == 10);
    assert("unknown"@.len() == 7);
    assert forall|a: Seq<char>, b: Seq<char>| same_letters(a, b) == same_letters(b, a) by {}
}

} // verus!
