//! The report of a discussion, put together from what was gathered.
use vstd::prelude::*;
use crate::branches::{
    ask_lookup, branch_selector, found_repository, has_branch, lookup_action, lookup_result,
    proposal_lookup_result, selector_at, selector_context, selector_steps, BranchSelector,
    LookupContext, SelectorView,
};
use crate::comments::{ActivityView, GeneralActivity};
use crate::details::{proposal_details, proposal_details_at};
use crate::discussion::{
    collection_at, current_at, diffs_at, diffs_view, fetch_collection, fetch_current, fetch_diffs,
    fetch_general, filters_of, general_at, has_general, has_inline, lemma_only_wanted_diffs,
    lemma_threads_say_place, lemma_threads_say_state, read_filters, threads_ascend, wanted_comments,
    wanted_format, wanted_person, DiffDiscussion, DiffView, FiltersView,
};
use crate::fields::{name_of_reviewer_member, owned_field, reviewer_member, text_field, value_or};
use crate::format::cat4;
use crate::inspecting::{proposal_at, request_merge_proposal};
use crate::items::{arrange, copy_members};
use crate::json::{
    items_view, no_items, no_members, number_or_null, number_view, push_item, push_member,
    text_or_null, value_or_null, Json, JsonView,
};
use crate::lookup::repository_identifier;
use crate::number::{one_more, plus_one};
use crate::order::{
    arranged, keys_view, lemma_order_is_permutation, lemma_order_is_sorted_and_stable, order_of,
    sort_order, Key, KeyView,
};
use crate::people::{identity_view, PeopleView};
use crate::proposals::{flag_set, is_set, proposal_selection_filters, selection_filters};
use crate::report::{discussion_document, render_proposal_discussion, DiscussionSections};
use crate::repository::{normalise_ref, normalised_ref};
use crate::request::{comments_name, format_name, DiscussionComments, DiscussionFormat, Request};
use crate::response::{OperationResult, ResultView};
use crate::steps::{
    lookup_at, lookup_reply, or_fail, result_step, text_at, text_reply, Action, ActionView,
    LookupView, ProposalLookup, ProposalSelection, Reply,
};
use crate::summary::{build_review_summary, lemma_state_counts_add_up, review_summary, text_count};
use crate::text::{blank, borrow_option, copy, is_blank, opt_view, trim};
use crate::threads::state_name;

verus! {

/// The threads of all snapshots, in the order of the snapshots.
pub open spec fn threads_together(diffs: Seq<DiffView>) -> Seq<JsonView>
    decreases diffs.len(),
{
    if diffs.len() == 0 {
        Seq::empty()
    } else {
        threads_together(diffs.drop_last()) + diffs.last().threads
    }
}

/// What threads are ordered by: the snapshot, and then the line of the diff.
pub open spec fn thread_key(thread: JsonView) -> KeyView {
    KeyView {
        rank: value_or(thread.unsigned("preview_diff_id"@), 0),
        text: None,
        number: value_or(thread.unsigned("diff_line"@), 0),
    }
}

/// The threads of all snapshots by snapshot and line.
pub open spec fn ordered_threads(diffs: Seq<DiffView>) -> Seq<JsonView> {
    let threads = threads_together(diffs);
    arranged(threads, order_of(threads.map_values(|thread: JsonView| thread_key(thread))))
}

/// What a discussion says of a snapshot.
pub open spec fn diff_summary(diff: DiffView) -> JsonView {
    JsonView::Object(
        Seq::empty().push(("preview_diff_id"@, number_view(diff.id))).push(
            ("date_created"@, text_or_null(diff.date_created)),
        ).push(("current"@, JsonView::Bool(diff.current))).push(
            ("stale"@, JsonView::Bool(diff.stale)),
        ).push(("thread_count"@, number_view(diff.threads.len() as u64))),
    )
}

/// What a discussion says of its snapshots, by their identifiers.
pub open spec fn diff_summaries(diffs: Seq<DiffView>) -> Seq<JsonView> {
    arranged(
        diffs.map_values(|diff: DiffView| diff_summary(diff)),
        order_of(
            diffs.map_values(
                |diff: DiffView| KeyView { rank: diff.id, text: None, number: 0 },
            ),
        ),
    )
}

fn gather_threads(diffs: &Vec<DiffDiscussion>) -> (r: Vec<Json>)
    ensures
        items_view(r@) == threads_together(diffs_view(diffs@)),
{
    let ghost all = diffs_view(diffs@);
    let mut threads = no_items();
    assert(all.take(0) =~= Seq::empty());
    for i in 0..diffs.len()
        invariant
            all == diffs_view(diffs@),
            items_view(threads@) == threads_together(all.take(i as int)),
    {
        proof {
            assert(all.take(i + 1).drop_last() =~= all.take(i as int));
            assert(all.take(i + 1).last() == diffs@[i as int]@);
        }
        let own = &diffs[i].threads;
        let ghost before = items_view(threads@);
        let ghost added = items_view(own@);
        assert(before + added.take(0) =~= before);
        for j in 0..own.len()
            invariant
                added == items_view(own@),
                items_view(threads@) == before + added.take(j as int),
        {
            push_item(&mut threads, own[j].copy());
            assert(before + added.take(j + 1) =~= (before + added.take(j as int)).push(
                own@[j as int]@,
            ));
        }
        assert(added.take(added.len() as int) =~= added);
    }
    assert(all.take(all.len() as int) =~= all);
    threads
}

fn order_threads(diffs: &Vec<DiffDiscussion>) -> (r: Vec<Json>)
    ensures
        items_view(r@) == ordered_threads(diffs_view(diffs@)),
{
    let threads = gather_threads(diffs);
    let ghost all = items_view(threads@);
    let mut keys: Vec<Key> = Vec::new();
    for i in 0..threads.len()
        invariant
            all == items_view(threads@),
            keys@.len() == i,
            forall|j: int| 0 <= j < i ==> (#[trigger] keys@[j])@ == thread_key(all[j]),
    {
        let rank: u64 = match threads[i].unsigned("preview_diff_id") {
            Some(id) => id,
            None => 0,
        };
        let number: u64 = match threads[i].unsigned("diff_line") {
            Some(line) => line,
            None => 0,
        };
        keys.push(Key { rank, text: None, number });
    }
    assert(keys_view(keys@) =~= all.map_values(|thread: JsonView| thread_key(thread)));
    let order = sort_order(&keys);
    arrange(&threads, &order)
}

fn summarise_diff(diff: &DiffDiscussion) -> (r: Json)
    ensures
        r@ == diff_summary(diff@),
{
    assert(items_view(diff.threads@).len() == diff.threads@.len());
    let mut members = no_members();
    push_member(&mut members, "preview_diff_id", Json::of_number(diff.id));
    push_member(&mut members, "date_created", Json::of_option(borrow_option(&diff.date_created)));
    push_member(&mut members, "current", Json::Bool(diff.current));
    push_member(&mut members, "stale", Json::Bool(diff.stale));
    push_member(&mut members, "thread_count", Json::of_number(diff.threads.len() as u64));
    Json::Object(members)
}

fn summarise_diffs(diffs: &Vec<DiffDiscussion>) -> (r: Vec<Json>)
    ensures
        items_view(r@) == diff_summaries(diffs_view(diffs@)),
{
    let ghost all = diffs_view(diffs@);
    let ghost summarised = all.map_values(|diff: DiffView| diff_summary(diff));
    let mut summaries = no_items();
    let mut keys: Vec<Key> = Vec::new();
    assert(summarised.take(0) =~= Seq::empty());
    for i in 0..diffs.len()
        invariant
            all == diffs_view(diffs@),
            summarised == all.map_values(|diff: DiffView| diff_summary(diff)),
            summaries@.len() == i,
            items_view(summaries@) == summarised.take(i as int),
            keys@.len() == i,
            forall|j: int|
                0 <= j < i ==> (#[trigger] keys@[j])@ == (KeyView {
                    rank: all[j].id,
                    text: None,
                    number: 0,
                }),
    {
        push_item(&mut summaries, summarise_diff(&diffs[i]));
        assert(summarised.take(i + 1) =~= summarised.take(i as int).push(
            diff_summary(diffs@[i as int]@),
        ));
        keys.push(Key { rank: diffs[i].id, text: None, number: 0 });
    }
    assert(summarised.take(summarised.len() as int) =~= summarised);
    assert(keys_view(keys@) =~= all.map_values(
        |diff: DiffView| KeyView { rank: diff.id, text: None, number: 0 },
    ));
    let order = sort_order(&keys);
    arrange(&summaries, &order)
}

/// What was gathered of a discussion.
#[verifier::ext_equal]
pub struct GatheredView {
    pub lookup: Option<JsonView>,
    pub reason: Seq<char>,
    pub current_id: Option<u64>,
    pub current_stale: bool,
    pub activity: ActivityView,
    pub diffs: Seq<DiffView>,
    pub unknown_people: nat,
    pub selected: JsonView,
}

/// What was gathered of a discussion: how its proposal was found, the current snapshot, the
/// comments, and how many profiles could not be fetched.
pub struct Gathered {
    pub lookup: Option<Json>,
    pub reason: String,
    pub current_id: Option<u64>,
    pub current_stale: bool,
    pub activity: GeneralActivity,
    pub diffs: Vec<DiffDiscussion>,
    pub unknown_people: usize,
    pub selected: Json,
}

impl View for Gathered {
    type V = GatheredView;

    open spec fn view(&self) -> GatheredView {
        GatheredView {
            lookup: identity_view(self.lookup),
            reason: self.reason@,
            current_id: self.current_id,
            current_stale: self.current_stale,
            activity: self.activity@,
            diffs: diffs_view(self.diffs@),
            unknown_people: self.unknown_people as nat,
            selected: self.selected@,
        }
    }
}

/// Which snapshots the inline threads of a discussion come from.
pub open spec fn coverage_name(request: Request) -> Seq<char> {
    if !has_inline(wanted_comments(request)) {
        "not_requested"@
    } else if is_set(request.current_diff_only) || is_set(request.unresolved_only) {
        "current_preview_diff"@
    } else {
        "all_preview_diffs"@
    }
}

/// The filters of a discussion as JSON.
pub open spec fn filters_object(request: Request) -> JsonView {
    JsonView::Object(
        Seq::empty().push(
            ("comments"@, JsonView::Text(comments_name(wanted_comments(request)))),
        ).push(("current_diff_only"@, JsonView::Bool(is_set(request.current_diff_only)))).push(
            ("unresolved_only"@, JsonView::Bool(is_set(request.unresolved_only))),
        ).push(("since"@, text_or_null(opt_view(request.since)))).push(
            (reviewer_member(), text_or_null(wanted_person(request))),
        ),
    )
}

/// The summary of the review in a discussion.
pub open spec fn gathered_summary(gathered: GatheredView) -> JsonView {
    review_summary(
        gathered.activity.comments,
        gathered.activity.votes,
        gathered.activity.requests,
        ordered_threads(gathered.diffs),
    )
}

/// The details of a discussion.
pub open spec fn discussion_details(request: Request, gathered: GatheredView) -> Seq<
    (Seq<char>, JsonView),
> {
    Seq::empty().push(("kind"@, JsonView::Text("merge_proposal_discussion"@))).push(
        ("found"@, JsonView::Bool(true)),
    ).push(("selected_proposal"@, gathered.selected)).push(
        ("selection_reason"@, JsonView::Text(gathered.reason)),
    ).push(("lookup"@, value_or_null(gathered.lookup))).push(
        ("current_preview_diff_id"@, number_or_null(gathered.current_id)),
    ).push(("current_preview_diff_stale"@, JsonView::Bool(gathered.current_stale))).push(
        ("coverage"@, JsonView::Text(coverage_name(request))),
    ).push(("format"@, JsonView::Text(format_name(wanted_format(request))))).push(
        ("filters"@, filters_object(request)),
    ).push(("review_summary"@, gathered_summary(gathered))).push(
        ("identity_resolution_failures"@, number_view(gathered.unknown_people as u64)),
    ).push(("review_votes"@, JsonView::Array(gathered.activity.votes))).push(
        ("general_comments"@, JsonView::Array(gathered.activity.comments)),
    ).push(("review_requests"@, JsonView::Array(gathered.activity.requests))).push(
        ("inline_threads"@, JsonView::Array(ordered_threads(gathered.diffs))),
    ).push(("preview_diffs"@, JsonView::Array(diff_summaries(gathered.diffs))))
}

/// The report of a discussion in its compact form.
pub open spec fn discussion_result(request: Request, proposal: JsonView, gathered: GatheredView) -> ResultView {
    ResultView {
        text: discussion_document(
            proposal,
            gathered.current_id,
            gathered_summary(gathered),
            DiscussionSections {
                general: has_general(wanted_comments(request)),
                inline: has_inline(wanted_comments(request)),
                current_preview_diff_stale: gathered.current_stale,
                identity_resolution_failures: gathered.unknown_people as usize,
            },
        ),
        source_url: proposal.text("web_link"@),
        details: discussion_details(request, gathered),
    }
}

fn choose_comments(request: &Request) -> (r: DiscussionComments)
    ensures
        r == wanted_comments(*request),
{
    match request.comments {
        Some(comments) => comments,
        None => DiscussionComments::All,
    }
}

fn choose_format(request: &Request) -> (r: DiscussionFormat)
    ensures
        r == wanted_format(*request),
{
    match request.format {
        Some(format) => format,
        None => DiscussionFormat::Summary,
    }
}

fn filters_json(request: &Request) -> (r: Json)
    ensures
        r@ == filters_object(*request),
{
    let mut members = no_members();
    push_member(&mut members, "comments", Json::of_text(choose_comments(request).name()));
    push_member(
        &mut members,
        "current_diff_only",
        Json::Bool(flag_set(request.current_diff_only)),
    );
    push_member(&mut members, "unresolved_only", Json::Bool(flag_set(request.unresolved_only)));
    push_member(&mut members, "since", Json::of_option(borrow_option(&request.since)));
    let person = match &request.reviewer {
        Some(name) => Json::Text(trim(name.as_str())),
        None => Json::Null,
    };
    push_member(&mut members, name_of_reviewer_member().as_str(), person);
    Json::Object(members)
}

fn name_coverage(request: &Request) -> (r: &'static str)
    ensures
        r@ == coverage_name(*request),
{
    if !choose_comments(request).includes_inline() {
        "not_requested"
    } else if flag_set(request.current_diff_only) || flag_set(request.unresolved_only) {
        "current_preview_diff"
    } else {
        "all_preview_diffs"
    }
}

/// The report of a discussion in its compact form.
pub fn report_discussion(request: &Request, proposal: &Json, gathered: Gathered) -> (r:
    OperationResult)
    ensures
        r@ == discussion_result(*request, proposal@, gathered@),
{
    let comments = choose_comments(request);
    let threads = order_threads(&gathered.diffs);
    let diffs = summarise_diffs(&gathered.diffs);
    let summary = build_review_summary(
        &gathered.activity.comments,
        &gathered.activity.votes,
        &gathered.activity.requests,
        &threads,
    );
    let text = render_proposal_discussion(
        proposal,
        gathered.current_id,
        &summary,
        DiscussionSections {
            general: comments.includes_general(),
            inline: comments.includes_inline(),
            current_preview_diff_stale: gathered.current_stale,
            identity_resolution_failures: gathered.unknown_people,
        },
    );
    let mut details = no_members();
    push_member(&mut details, "kind", Json::of_text("merge_proposal_discussion"));
    push_member(&mut details, "found", Json::Bool(true));
    push_member(&mut details, "selected_proposal", gathered.selected);
    push_member(&mut details, "selection_reason", Json::Text(gathered.reason));
    let lookup = match gathered.lookup {
        Some(lookup) => lookup,
        None => Json::Null,
    };
    push_member(&mut details, "lookup", lookup);
    push_member(
        &mut details,
        "current_preview_diff_id",
        Json::of_number_option(gathered.current_id),
    );
    push_member(&mut details, "current_preview_diff_stale", Json::Bool(gathered.current_stale));
    push_member(&mut details, "coverage", Json::of_text(name_coverage(request)));
    push_member(&mut details, "format", Json::of_text(choose_format(request).name()));
    push_member(&mut details, "filters", filters_json(request));
    push_member(&mut details, "review_summary", summary);
    push_member(
        &mut details,
        "identity_resolution_failures",
        Json::of_number(gathered.unknown_people as u64),
    );
    push_member(&mut details, "review_votes", Json::Array(gathered.activity.votes));
    push_member(&mut details, "general_comments", Json::Array(gathered.activity.comments));
    push_member(&mut details, "review_requests", Json::Array(gathered.activity.requests));
    push_member(&mut details, "inline_threads", Json::Array(threads));
    push_member(&mut details, "preview_diffs", Json::Array(diffs));
    OperationResult { text, source_url: owned_field(proposal, "web_link"), details }
}

/// A result in a format, given its details as they are written.
pub open spec fn formatted(result: ResultView, format: DiscussionFormat, written: Seq<char>) -> ResultView {
    match format {
        DiscussionFormat::Summary => result,
        DiscussionFormat::Structured => ResultView { text: written, ..result },
        DiscussionFormat::Both => ResultView {
            text: result.text + "\n\n## Structured data\n\n```json\n"@ + written + "\n```"@,
            ..result
        },
    }
}

/// A result in a format, given its details as they are written in JSON.
pub fn format_discussion_result(
    result: OperationResult,
    format: DiscussionFormat,
    written: &str,
) -> (r: OperationResult)
    ensures
        r@ == formatted(result@, format, written@),
{
    match format {
        DiscussionFormat::Summary => result,
        DiscussionFormat::Structured => OperationResult { text: copy(written), ..result },
        DiscussionFormat::Both => {
            let text = cat4(
                result.text.as_str(),
                "\n\n## Structured data\n\n```json\n",
                written,
                "\n```",
            );
            OperationResult { text, ..result }
        },
    }
}

/// A result in a format, once its details are written where the format needs them.
pub open spec fn formatted_at(
    result: ResultView,
    format: DiscussionFormat,
    replies: Seq<Reply>,
    at: int,
) -> Result<ResultView, ActionView> {
    if format == DiscussionFormat::Summary {
        Ok(result)
    } else {
        match text_at(
            replies,
            at,
            ActionView::Write { value: JsonView::Object(result.details) },
        ) {
            Err(stop) => Err(stop),
            Ok(written) => Ok(formatted(result, format, written)),
        }
    }
}

fn format_result(
    result: OperationResult,
    format: DiscussionFormat,
    replies: &Vec<Reply>,
    at: usize,
) -> (r: Result<OperationResult, Action>)
    ensures
        result_step(r) == formatted_at(result@, format, replies@, at as int),
{
    if format == DiscussionFormat::Summary {
        return Ok(result);
    }
    let written = text_reply(
        replies,
        at,
        Action::Write { value: Json::Object(copy_members(&result.details)) },
    )?;
    Ok(format_discussion_result(result, format, written))
}

/// The snapshots that inline threads are looked for on, and where the next answer stands.
pub open spec fn snapshots_at(
    proposal: JsonView,
    filters: FiltersView,
    replies: Seq<Reply>,
    at: int,
) -> Result<(Seq<JsonView>, int), ActionView> {
    if has_inline(filters.comments) {
        collection_at(
            proposal,
            "preview_diffs_collection_link"@,
            "merge proposal has no preview diff history"@,
            replies,
            at,
        )
    } else {
        Ok((Seq::empty(), at))
    }
}

/// The discussion of a merge proposal, from where its first answer stands.
pub open spec fn discussion_at(
    request: Request,
    proposal: JsonView,
    lookup: Option<JsonView>,
    reason: Seq<char>,
    replies: Seq<Reply>,
    at: int,
) -> Result<ResultView, ActionView> {
    match or_fail(filters_of(request)) {
        Err(stop) => Err(stop),
        Ok(filters) => match current_at(proposal, replies, at) {
            Err(stop) => Err(stop),
            Ok((current_id, current_stale, next)) => match general_at(
                proposal,
                filters,
                replies,
                next,
            ) {
                Err(stop) => Err(stop),
                Ok((activity, people, next)) => match snapshots_at(
                    proposal,
                    filters,
                    replies,
                    next,
                ) {
                    Err(stop) => Err(stop),
                    Ok((preview_diffs, next)) => match diffs_at(
                        proposal,
                        preview_diffs,
                        current_id,
                        filters,
                        people,
                        replies,
                        next,
                    ) {
                        Err(stop) => Err(stop),
                        Ok((diffs, people, next)) => match proposal_details_at(
                            proposal,
                            replies,
                            next,
                        ) {
                            Err(stop) => Err(stop),
                            Ok(selected) => formatted_at(
                                discussion_result(
                                    request,
                                    proposal,
                                    GatheredView {
                                        lookup,
                                        reason,
                                        current_id,
                                        current_stale,
                                        activity,
                                        diffs,
                                        unknown_people: people.failed.len(),
                                        selected,
                                    },
                                ),
                                wanted_format(request),
                                replies,
                                next + 2,
                            ),
                        },
                    },
                },
            },
        },
    }
}

fn discuss(
    request: &Request,
    proposal: &Json,
    lookup: Option<Json>,
    reason: String,
    replies: &Vec<Reply>,
    at: usize,
) -> (r: Result<OperationResult, Action>)
    requires
        at <= replies.len(),
    ensures
        result_step(r) == discussion_at(
            *request,
            proposal@,
            identity_view(lookup),
            reason@,
            replies@,
            at as int,
        ),
{
    let filters = match read_filters(request) {
        Ok(filters) => filters,
        Err(error) => return Err(Action::Fail { error }),
    };
    let (current_id, current_stale, next) = fetch_current(proposal, replies, at)?;
    let (activity, mut people, next) = fetch_general(proposal, &filters, replies, next)?;
    let none: Vec<Json> = no_items();
    let mut start: usize = next;
    let preview_diffs = if filters.comments.includes_inline() {
        let preview_diffs = fetch_collection(
            proposal,
            "preview_diffs_collection_link",
            "merge proposal has no preview diff history",
            replies,
            next,
        )?;
        start = next + 1;
        preview_diffs
    } else {
        &none
    };
    let (diffs, next) = fetch_diffs(
        proposal,
        preview_diffs,
        current_id,
        &filters,
        &mut people,
        replies,
        start,
    )?;
    let selected = proposal_details(proposal, replies, next)?;
    assert(next + 1 < replies.len());
    assert(people@.failed.len() == people.failed.len());
    let gathered = Gathered {
        lookup,
        reason,
        current_id,
        current_stale,
        activity,
        diffs,
        unknown_people: people.failed.len(),
        selected,
    };
    let result = report_discussion(request, proposal, gathered);
    format_result(result, choose_format(request), replies, next + 2)
}

/// Whether a request names its merge proposal.
pub open spec fn names_target(request: Request) -> bool {
    request.target is Some && !is_blank(request.target->0@)
}

/// How the merge proposal of a discussion was found.
pub open spec fn lookup_object(request: Request, selector: SelectorView, lookup: LookupView) -> JsonView {
    JsonView::Object(
        Seq::empty().push(
            ("repository"@, JsonView::Text(found_repository(lookup->Found_repository))),
        ).push(("found"@, JsonView::Bool(true))).push(
            ("requested_repository"@, JsonView::Text(selector.requested_repository)),
        ).push(("branch"@, JsonView::Text(normalised_ref(selector.branch)))).push(
            ("inferred"@, JsonView::Bool(selector.inferred)),
        ).push(("related_repository"@, JsonView::Bool(lookup->related_repository))).push(
            ("candidate_count"@, number_view(lookup->candidate_count as u64)),
        ).push(("matching_proposals"@, number_view(one_more(lookup->alternatives.len())))).push(
            ("selection_filters"@, selection_filters(request)),
        ),
    )
}

/// The discussion of the merge proposal that a request names, or of the one of its branch.
pub open spec fn discussion_view(request: Request, replies: Seq<Reply>) -> Result<
    ResultView,
    ActionView,
> {
    if names_target(request) {
        match proposal_at(request, replies, 0) {
            Err(stop) => Err(stop),
            Ok(proposal) => discussion_at(
                request,
                proposal,
                None,
                "selected the explicitly requested merge proposal"@,
                replies,
                1,
            ),
        }
    } else {
        let next = selector_steps(request);
        match selector_at(request, replies) {
            Err(stop) => Err(stop),
            Ok(selector) => match lookup_at(replies, next, lookup_action(selector)) {
                Err(stop) => Err(stop),
                Ok(lookup) => match lookup {
                    LookupView::Missing { .. } => match lookup_result(
                        request,
                        lookup,
                        selector_context(selector, "merge_proposal_discussion"@),
                        replies,
                        next + 1,
                    ) {
                        Err(stop) => Err(stop),
                        Ok(result) => formatted_at(
                            result,
                            wanted_format(request),
                            replies,
                            next + 1,
                        ),
                    },
                    LookupView::Found { proposal, reason, .. } => discussion_at(
                        request,
                        proposal,
                        Some(lookup_object(request, selector, lookup)),
                        reason,
                        replies,
                        next + 1,
                    ),
                },
            },
        }
    }
}

fn lookup_json(request: &Request, selector: &BranchSelector, selection: &ProposalSelection) -> (r:
    Json)
    ensures
        r@ == lookup_object(
            *request,
            selector@,
            LookupView::Found {
                repository: selection.repository@,
                proposal: selection.proposal@,
                alternatives: items_view(selection.alternatives@),
                related_repository: selection.related_repository,
                reason: selection.reason@,
                candidate_count: selection.candidate_count,
            },
        ),
{
    let repository = match text_field(&selection.repository, "unique_name") {
        Some(name) => name,
        None => repository_identifier(&selection.repository),
    };
    assert(items_view(selection.alternatives@).len() == selection.alternatives@.len());
    let mut members = no_members();
    push_member(&mut members, "repository", Json::of_text(repository));
    push_member(&mut members, "found", Json::Bool(true));
    push_member(
        &mut members,
        "requested_repository",
        Json::of_text(selector.requested_repository.as_str()),
    );
    push_member(&mut members, "branch", Json::Text(normalise_ref(selector.branch.as_str())));
    push_member(&mut members, "inferred", Json::Bool(selector.inferred));
    push_member(&mut members, "related_repository", Json::Bool(selection.related_repository));
    push_member(
        &mut members,
        "candidate_count",
        Json::of_number(selection.candidate_count as u64),
    );
    push_member(
        &mut members,
        "matching_proposals",
        Json::of_number(plus_one(selection.alternatives.len())),
    );
    push_member(&mut members, "selection_filters", proposal_selection_filters(request));
    Json::Object(members)
}

fn has_target(request: &Request) -> (r: bool)
    ensures
        r == names_target(*request),
{
    match &request.target {
        Some(target) => !blank(target.as_str()),
        None => false,
    }
}

/// The discussion of the merge proposal that a request names, or of the one of its branch.
pub fn view_merge_proposal_discussion(request: &Request, replies: &Vec<Reply>) -> (r: Result<
    OperationResult,
    Action,
>)
    ensures
        result_step(r) == discussion_view(*request, replies@),
{
    if has_target(request) {
        let proposal = request_merge_proposal(request, replies, 0)?;
        assert(0 < replies.len());
        return discuss(
            request,
            proposal,
            None,
            copy("selected the explicitly requested merge proposal"),
            replies,
            1,
        );
    }
    let next: usize = if has_branch(request) {
        0
    } else {
        1
    };
    let selector = branch_selector(request, replies)?;
    let lookup = lookup_reply(replies, next, ask_lookup(&selector))?;
    assert(next < replies.len());
    match lookup {
        ProposalLookup::Missing { .. } => {
            let context = LookupContext {
                requested_repository: selector.requested_repository.as_str(),
                branch: selector.branch.as_str(),
                inferred: selector.inferred,
                kind: "merge_proposal_discussion",
                metadata: None,
            };
            let result = proposal_lookup_result(request, lookup, &context, replies, next + 1)?;
            format_result(result, choose_format(request), replies, next + 1)
        },
        ProposalLookup::Found(selection) => discuss(
            request,
            &selection.proposal,
            Some(lookup_json(request, &selector, selection)),
            copy(selection.reason.as_str()),
            replies,
            next + 1,
        ),
    }
}

/// The format of a discussion changes neither its details nor the page that it comes from, and
/// the compact form leaves its text as it is.
pub proof fn lemma_format_keeps_details(
    result: ResultView,
    format: DiscussionFormat,
    written: Seq<char>,
)
    ensures
        formatted(result, format, written).details == result.details,
        formatted(result, format, written).source_url == result.source_url,
        format == DiscussionFormat::Summary ==> formatted(result, format, written) == result,
        format == DiscussionFormat::Both ==> result.text.is_prefix_of(
            formatted(result, format, written).text,
        ),
{
    if format == DiscussionFormat::Both {
        let text = formatted(result, format, written).text;
        assert(text.take(result.text.len() as int) =~= result.text);
    }
}

proof fn lemma_gathered_threads(diffs: Seq<DiffView>, index: int) -> (place: (int, int))
    requires
        0 <= index < threads_together(diffs).len(),
    ensures
        0 <= place.0 < diffs.len(),
        0 <= place.1 < diffs[place.0].threads.len(),
        threads_together(diffs)[index] == diffs[place.0].threads[place.1],
        index == threads_together(diffs.take(place.0)).len() + place.1,
    decreases diffs.len(),
{
    let front = diffs.drop_last();
    let count = threads_together(front).len();
    if index < count {
        let place = lemma_gathered_threads(front, index);
        assert(front[place.0] == diffs[place.0]);
        assert(front.take(place.0) =~= diffs.take(place.0));
        place
    } else {
        assert(diffs.take(diffs.len() - 1) =~= front);
        (diffs.len() - 1, index - count)
    }
}

/// The inline threads of a discussion each say one of the three states, and with
/// `unresolved_only` each of them is open. So the counts of the review summary by state add up to
/// the number of threads.
pub proof fn lemma_thread_states(
    proposal: JsonView,
    preview_diffs: Seq<JsonView>,
    current_id: Option<u64>,
    filters: FiltersView,
    people: PeopleView,
    replies: Seq<Reply>,
    at: int,
)
    requires
        diffs_at(proposal, preview_diffs, current_id, filters, people, replies, at) is Ok,
    ensures
        ({
            let diffs = diffs_at(
                proposal,
                preview_diffs,
                current_id,
                filters,
                people,
                replies,
                at,
            )->Ok_0.0;
            let threads = ordered_threads(diffs);
            &&& forall|i: int|
                0 <= i < threads.len() ==> {
                    let state = (#[trigger] threads[i]).text("state"@);
                    &&& state == Some("open"@) || state == Some("outdated"@) || state == Some(
                        "superseded"@,
                    )
                    &&& filters.unresolved_only ==> state == Some("open"@)
                }
            &&& text_count(threads, "state"@, "open"@) + text_count(
                threads,
                "state"@,
                "outdated"@,
            ) + text_count(threads, "state"@, "superseded"@) == threads.len()
        }),
{
    let diffs = diffs_at(
        proposal,
        preview_diffs,
        current_id,
        filters,
        people,
        replies,
        at,
    )->Ok_0.0;
    let gathered = threads_together(diffs);
    let keys = gathered.map_values(|thread: JsonView| thread_key(thread));
    let threads = ordered_threads(diffs);
    lemma_order_is_permutation(keys);
    lemma_threads_say_state(proposal, preview_diffs, current_id, filters, people, replies, at);
    lemma_only_wanted_diffs(proposal, preview_diffs, current_id, filters, people, replies, at);
    assert forall|i: int| 0 <= i < threads.len() implies {
        let state = (#[trigger] threads[i]).text("state"@);
        &&& state == Some("open"@) || state == Some("outdated"@) || state == Some("superseded"@)
        &&& filters.unresolved_only ==> state == Some("open"@)
    } by {
        let index = order_of(keys)[i];
        assert(threads[i] == gathered[index]);
        let place = lemma_gathered_threads(diffs, index);
        let diff = diffs[place.0];
        assert(diffs[place.0].threads[place.1].text("state"@) == Some(
            state_name(diff.current, diff.stale),
        ));
    }
    lemma_state_counts_add_up(threads);
}

/// The inline threads of a discussion ascend by snapshot, and on one snapshot by line: none
/// comes after one of a later snapshot or line. Where no two snapshots have the same identifier,
/// no two threads stand on the same line of the same snapshot.
pub proof fn lemma_discussion_ascends(
    proposal: JsonView,
    preview_diffs: Seq<JsonView>,
    current_id: Option<u64>,
    filters: FiltersView,
    people: PeopleView,
    replies: Seq<Reply>,
    at: int,
    i: int,
    j: int,
)
    requires
        diffs_at(proposal, preview_diffs, current_id, filters, people, replies, at) is Ok,
        0 <= i < j < ordered_threads(
            diffs_at(
                proposal,
                preview_diffs,
                current_id,
                filters,
                people,
                replies,
                at,
            )->Ok_0.0,
        ).len(),
    ensures
        ({
            let diffs = diffs_at(
                proposal,
                preview_diffs,
                current_id,
                filters,
                people,
                replies,
                at,
            )->Ok_0.0;
            let earlier = ordered_threads(diffs)[i];
            let later = ordered_threads(diffs)[j];
            let first = earlier.unsigned("preview_diff_id"@);
            let second = later.unsigned("preview_diff_id"@);
            &&& first is Some && second is Some
            &&& earlier.unsigned("diff_line"@) is Some && later.unsigned("diff_line"@) is Some
            &&& first->0 < second->0 || (first == second && earlier.unsigned("diff_line"@)->0
                <= later.unsigned("diff_line"@)->0)
            &&& (forall|a: int, b: int|
                0 <= a < b < diffs.len() ==> (#[trigger] diffs[a]).id != (#[trigger] diffs[b]).id)
                && first == second ==> earlier.unsigned("diff_line"@)->0 < later.unsigned(
                "diff_line"@,
            )->0
        }),
{
    let diffs = diffs_at(
        proposal,
        preview_diffs,
        current_id,
        filters,
        people,
        replies,
        at,
    )->Ok_0.0;
    let gathered = threads_together(diffs);
    let keys = gathered.map_values(|thread: JsonView| thread_key(thread));
    lemma_order_is_permutation(keys);
    lemma_order_is_sorted_and_stable(keys, i, j);
    lemma_threads_say_place(proposal, preview_diffs, current_id, filters, people, replies, at);
    let (p, q) = (order_of(keys)[i], order_of(keys)[j]);
    assert(p != q);
    let first = lemma_gathered_threads(diffs, p);
    let second = lemma_gathered_threads(diffs, q);
    assert(threads_ascend(diffs[first.0]) && threads_ascend(diffs[second.0]));
    assert(ordered_threads(diffs)[i] == diffs[first.0].threads[first.1]);
    assert(ordered_threads(diffs)[j] == diffs[second.0].threads[second.1]);
    assert(keys[p] == thread_key(gathered[p]) && keys[q] == thread_key(gathered[q]));
}

} // verus!
