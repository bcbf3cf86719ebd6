//! The discussion of a merge proposal: comments, reviews and inline threads.
use vstd::prelude::*;
use crate::comments::{activity_of, general_activity, ActivityView, GeneralActivity};
use crate::error::{Error, ErrorView};
use crate::fields::{owned_field, text_field, value_or};
use crate::items::copy_items;
use crate::json::{items_view, no_items, push_item, Json, JsonView};
use crate::people::{missing_links_of, profiles_view, People, PeopleView};
use crate::preview::{
    current_preview, current_preview_diff, diff_text_at, find_link, get_diff_text, inline_comments,
    inline_comments_at, link_in, preview_diff_id, preview_id,
};
use crate::proposals::{flag_set, is_set};
use crate::request::{request_since, DiscussionComments, DiscussionFormat, Request};
use crate::steps::{
    entries_at, entries_reply, fail, get_all, get_all_url, inconsistent, or_fail, refuse, stop,
    stop_at, Action, ActionView, Reply,
};
use crate::text::{borrow_option, copy, opt_view, trim, trimmed, views};
use crate::threads::{
    diff_threads, is_thread, lemma_thread_says_place, lemma_thread_says_state, lemma_threads_ascend,
    stand_on, state_name, thread_object, threads_of_diff, Snapshot, ThreadContext,
};
use crate::viewing::is_flagged;

verus! {

/// What is known of people once the profiles of those whom entries name are answered. Profiles
/// are asked for only where there are any to ask for.
pub open spec fn people_at(
    people: PeopleView,
    entries: Seq<JsonView>,
    replies: Seq<Reply>,
    at: int,
) -> Result<(PeopleView, int), ActionView> {
    let links = missing_links_of(entries, people);
    if links.len() == 0 {
        Ok((people, at))
    } else {
        match (0 <= at < replies.len(), replies[at]) {
            (true, Reply::People(found)) => if found@.len() == links.len() {
                Ok((people.with_all(links, profiles_view(found@)), at + 1))
            } else {
                Err(fail(inconsistent()))
            },
            _ => Err(stop_at(replies, at, ActionView::People { links })),
        }
    }
}

fn load_people(people: &mut People, entries: &Vec<Json>, replies: &Vec<Reply>, at: usize) -> (r: Result<
    usize,
    Action,
>)
    requires
        at <= replies.len(),
    ensures
        (r matches Ok(next) ==> people_at(old(people)@, items_view(entries@), replies@, at as int)
            == Ok::<(PeopleView, int), ActionView>((final(people)@, next as int)) && next
            <= replies.len()),
        r matches Err(action) ==> people_at(
            old(people)@,
            items_view(entries@),
            replies@,
            at as int,
        ) == Err::<(PeopleView, int), ActionView>(action@),
{
    let links = people.missing_links(entries);
    assert(views(links@).len() == links@.len());
    if links.len() == 0 {
        return Ok(at);
    }
    if at < replies.len() {
        if let Reply::People(found) = &replies[at] {
            if found.len() != links.len() {
                return Err(refuse("operation dispatch is inconsistent"));
            }
            people.record_all(&links, found);
            return Ok(at + 1);
        }
    }
    Err(stop(replies, at, Action::People { links }))
}

/// The entries of a collection that a link names, and where the next answer stands.
pub open spec fn collection_at(
    proposal: JsonView,
    name: Seq<char>,
    reason: Seq<char>,
    replies: Seq<Reply>,
    at: int,
) -> Result<(Seq<JsonView>, int), ActionView> {
    match link_in(proposal, name, reason) {
        Err(stop) => Err(stop),
        Ok(link) => match entries_at(replies, at, get_all(link)) {
            Err(stop) => Err(stop),
            Ok(entries) => Ok((entries, at + 1)),
        },
    }
}

pub(crate) fn fetch_collection<'reply>(
    proposal: &Json,
    name: &str,
    reason: &str,
    replies: &'reply Vec<Reply>,
    at: usize,
) -> (r: Result<&'reply Vec<Json>, Action>)
    ensures
        (r matches Ok(entries) ==> collection_at(proposal@, name@, reason@, replies@, at as int)
            == Ok::<(Seq<JsonView>, int), ActionView>((items_view(entries@), at + 1)) && at
            < replies.len()),
        r matches Err(action) ==> collection_at(proposal@, name@, reason@, replies@, at as int)
            == Err::<(Seq<JsonView>, int), ActionView>(action@),
{
    let link = find_link(proposal, name, reason)?;
    entries_reply(replies, at, get_all_url(link))
}

/// Which comments a discussion is to report.
#[verifier::ext_equal]
pub struct FiltersView {
    pub comments: DiscussionComments,
    pub current_only: bool,
    pub unresolved_only: bool,
    pub since: Option<(i64, u32)>,
    pub reviewer: Option<Seq<char>>,
}

/// Which comments a discussion is to report.
pub struct Filters {
    pub comments: DiscussionComments,
    pub current_only: bool,
    pub unresolved_only: bool,
    pub since: Option<(i64, u32)>,
    pub reviewer: Option<String>,
}

impl View for Filters {
    type V = FiltersView;

    open spec fn view(&self) -> FiltersView {
        FiltersView {
            comments: self.comments,
            current_only: self.current_only,
            unresolved_only: self.unresolved_only,
            since: self.since,
            reviewer: opt_view(self.reviewer),
        }
    }
}

/// The comments that a request asks for.
pub open spec fn wanted_comments(request: Request) -> DiscussionComments {
    value_or(request.comments, DiscussionComments::All)
}

/// The format that a request asks for.
pub open spec fn wanted_format(request: Request) -> DiscussionFormat {
    value_or(request.format, DiscussionFormat::Summary)
}

/// Who is to have written what a request asks for.
pub open spec fn wanted_person(request: Request) -> Option<Seq<char>> {
    match opt_view(request.reviewer) {
        Some(name) => Some(trimmed(name)),
        None => None,
    }
}

/// The filters of a request, with the instant that its date stands for.
pub open spec fn filters_with(request: Request, since: Option<(i64, u32)>) -> FiltersView {
    FiltersView {
        comments: wanted_comments(request),
        current_only: is_set(request.current_diff_only),
        unresolved_only: is_set(request.unresolved_only),
        since,
        reviewer: wanted_person(request),
    }
}

/// The filters of a request.
pub open spec fn filters_of(request: Request) -> Result<FiltersView, ErrorView> {
    match request_since(request) {
        Ok(since) => Ok(filters_with(request, since)),
        Err(error) => Err(error),
    }
}

/// Whether general comments and reviews are reported.
pub open spec fn has_general(comments: DiscussionComments) -> bool {
    comments != DiscussionComments::Inline
}

/// Whether inline threads are reported.
pub open spec fn has_inline(comments: DiscussionComments) -> bool {
    comments != DiscussionComments::General
}

pub(crate) fn read_filters(request: &Request) -> (r: Result<Filters, Error>)
    ensures
        (r matches Ok(filters) ==> filters_of(*request) == Ok::<FiltersView, ErrorView>(filters@)),
        r matches Err(error) ==> filters_of(*request) == Err::<FiltersView, ErrorView>(error@),
{
    let since = match request.since() {
        Ok(since) => since,
        Err(error) => return Err(error),
    };
    let comments = match request.comments {
        Some(comments) => comments,
        None => DiscussionComments::All,
    };
    let reviewer = match &request.reviewer {
        Some(name) => Some(trim(name.as_str())),
        None => None,
    };
    Ok(
        Filters {
            comments,
            current_only: flag_set(request.current_diff_only),
            unresolved_only: flag_set(request.unresolved_only),
            since,
            reviewer,
        },
    )
}

/// The current snapshot of the diff and whether it is stale, where the proposal has one.
pub open spec fn current_at(proposal: JsonView, replies: Seq<Reply>, at: int) -> Result<
    (Option<u64>, bool, int),
    ActionView,
> {
    if proposal.text("preview_diff_link"@) is Some {
        match current_preview(proposal, replies, at) {
            Err(stop) => Err(stop),
            Ok(current) => match or_fail(preview_id(current)) {
                Err(stop) => Err(stop),
                Ok(id) => Ok((Some(id), current.flag("stale"@) == Some(true), at + 1)),
            },
        }
    } else {
        Ok((None, false, at))
    }
}

pub(crate) fn fetch_current(proposal: &Json, replies: &Vec<Reply>, at: usize) -> (r: Result<
    (Option<u64>, bool, usize),
    Action,
>)
    requires
        at <= replies.len(),
    ensures
        (r matches Ok(current) ==> current_at(proposal@, replies@, at as int) == Ok::<
            (Option<u64>, bool, int),
            ActionView,
        >((current.0, current.1, current.2 as int)) && current.2 <= replies.len()),
        r matches Err(action) ==> current_at(proposal@, replies@, at as int) == Err::<
            (Option<u64>, bool, int),
            ActionView,
        >(action@),
{
    if text_field(proposal, "preview_diff_link").is_none() {
        return Ok((None, false, at));
    }
    let current = current_preview_diff(proposal, replies, at)?;
    assert(at < replies.len());
    match preview_diff_id(current) {
        Err(error) => Err(Action::Fail { error }),
        Ok(id) => Ok((Some(id), is_flagged(current, "stale"), at + 1)),
    }
}

/// The general comments and reviews, what is known of people, and where the next answer stands.
pub open spec fn general_at(
    proposal: JsonView,
    filters: FiltersView,
    replies: Seq<Reply>,
    at: int,
) -> Result<(ActivityView, PeopleView, int), ActionView> {
    let nobody = PeopleView { known: Seq::empty(), failed: Seq::empty() };
    if !has_general(filters.comments) {
        Ok(
            (
                ActivityView { comments: Seq::empty(), votes: Seq::empty(), requests: Seq::empty() },
                nobody,
                at,
            ),
        )
    } else {
        match collection_at(
            proposal,
            "all_comments_collection_link"@,
            "merge proposal has no comments collection"@,
            replies,
            at,
        ) {
            Err(stop) => Err(stop),
            Ok((comments, next)) => match collection_at(
                proposal,
                "votes_collection_link"@,
                "merge proposal has no review vote collection"@,
                replies,
                next,
            ) {
                Err(stop) => Err(stop),
                Ok((requests, next)) => match people_at(
                    nobody,
                    comments + requests,
                    replies,
                    next,
                ) {
                    Err(stop) => Err(stop),
                    Ok((people, next)) => Ok(
                        (
                            activity_of(
                                comments,
                                requests,
                                people,
                                filters.since,
                                filters.reviewer,
                            ),
                            people,
                            next,
                        ),
                    ),
                },
            },
        }
    }
}

fn append_items(first: &Vec<Json>, second: &Vec<Json>) -> (r: Vec<Json>)
    ensures
        items_view(r@) == items_view(first@) + items_view(second@),
{
    let mut out = copy_items(first);
    let ghost all = items_view(second@);
    assert(items_view(first@) + all.take(0) =~= items_view(first@));
    for i in 0..second.len()
        invariant
            all == items_view(second@),
            items_view(out@) == items_view(first@) + all.take(i as int),
    {
        push_item(&mut out, second[i].copy());
        assert(items_view(first@) + all.take(i + 1) =~= (items_view(first@) + all.take(
            i as int,
        )).push(second@[i as int]@));
    }
    assert(all.take(all.len() as int) =~= all);
    out
}

pub(crate) fn fetch_general(proposal: &Json, filters: &Filters, replies: &Vec<Reply>, at: usize) -> (r: Result<
    (GeneralActivity, People, usize),
    Action,
>)
    requires
        at <= replies.len(),
    ensures
        (r matches Ok(general) ==> general_at(proposal@, filters@, replies@, at as int) == Ok::<
            (ActivityView, PeopleView, int),
            ActionView,
        >((general.0@, general.1@, general.2 as int)) && general.2 <= replies.len()),
        r matches Err(action) ==> general_at(proposal@, filters@, replies@, at as int) == Err::<
            (ActivityView, PeopleView, int),
            ActionView,
        >(action@),
{
    let mut people = People::new();
    if !filters.comments.includes_general() {
        return Ok(
            (
                GeneralActivity { comments: no_items(), votes: no_items(), requests: no_items() },
                people,
                at,
            ),
        );
    }
    let comments = fetch_collection(
        proposal,
        "all_comments_collection_link",
        "merge proposal has no comments collection",
        replies,
        at,
    )?;
    let requests = fetch_collection(
        proposal,
        "votes_collection_link",
        "merge proposal has no review vote collection",
        replies,
        at + 1,
    )?;
    assert(at + 1 < replies.len());
    let both = append_items(comments, requests);
    let next = load_people(&mut people, &both, replies, at + 2)?;
    let activity = general_activity(
        comments,
        requests,
        &people,
        filters.since,
        borrow_option(&filters.reviewer),
    );
    Ok((activity, people, next))
}

/// A snapshot of the diff and its threads.
pub struct DiffDiscussion {
    pub id: u64,
    pub date_created: Option<String>,
    pub current: bool,
    pub stale: bool,
    pub threads: Vec<Json>,
}

/// What the discussion of a snapshot holds.
#[verifier::ext_equal]
pub struct DiffView {
    pub id: u64,
    pub date_created: Option<Seq<char>>,
    pub current: bool,
    pub stale: bool,
    pub threads: Seq<JsonView>,
}

impl View for DiffDiscussion {
    type V = DiffView;

    open spec fn view(&self) -> DiffView {
        DiffView {
            id: self.id,
            date_created: opt_view(self.date_created),
            current: self.current,
            stale: self.stale,
            threads: items_view(self.threads@),
        }
    }
}

/// What the discussions of snapshots hold.
pub open spec fn diffs_view(diffs: Seq<DiffDiscussion>) -> Seq<DiffView> {
    diffs.map_values(|diff: DiffDiscussion| diff@)
}

/// Whether the threads of a snapshot are wanted.
pub open spec fn is_wanted_diff(filters: FiltersView, current: bool, stale: bool) -> bool {
    &&& filters.current_only ==> current
    &&& filters.unresolved_only ==> current && !stale
}

/// The text of a snapshot, where there are comments on it, and where the next answer stands.
pub open spec fn commented_text_at(
    preview_diff: JsonView,
    comments: Seq<JsonView>,
    replies: Seq<Reply>,
    at: int,
) -> Result<(Option<Seq<char>>, int), ActionView> {
    if comments.len() == 0 {
        Ok((None, at))
    } else {
        match diff_text_at(preview_diff, replies, at) {
            Err(stop) => Err(stop),
            Ok(text) => Ok((Some(text), at + 1)),
        }
    }
}

/// The discussion of a wanted snapshot, once its comments, their authors and its text are
/// answered.
pub open spec fn wanted_diff_at(
    proposal: JsonView,
    preview_diff: JsonView,
    id: u64,
    current: bool,
    filters: FiltersView,
    people: PeopleView,
    replies: Seq<Reply>,
    at: int,
) -> Result<(DiffView, PeopleView, int), ActionView> {
    let stale = preview_diff.flag("stale"@) == Some(true);
    match inline_comments_at(proposal, id, replies, at) {
        Err(stop) => Err(stop),
        Ok(comments) => match people_at(people, comments, replies, at + 1) {
            Err(stop) => Err(stop),
            Ok((people, next)) => match commented_text_at(preview_diff, comments, replies, next) {
                Err(stop) => Err(stop),
                Ok((diff, next)) => match or_fail(
                    diff_threads(
                        comments,
                        ThreadContext {
                            id,
                            current,
                            stale,
                            diff,
                            people,
                            since: filters.since,
                            reviewer: filters.reviewer,
                        },
                    ),
                ) {
                    Err(stop) => Err(stop),
                    Ok(threads) => Ok(
                        (
                            DiffView {
                                id,
                                date_created: preview_diff.text("date_created"@),
                                current,
                                stale,
                                threads,
                            },
                            people,
                            next,
                        ),
                    ),
                },
            },
        },
    }
}

/// The discussion of a snapshot, where it is wanted.
pub open spec fn diff_at(
    proposal: JsonView,
    preview_diff: JsonView,
    current_id: Option<u64>,
    filters: FiltersView,
    people: PeopleView,
    replies: Seq<Reply>,
    at: int,
) -> Result<(Option<DiffView>, PeopleView, int), ActionView> {
    match or_fail(preview_id(preview_diff)) {
        Err(stop) => Err(stop),
        Ok(id) => {
            let current = current_id == Some(id);
            let stale = preview_diff.flag("stale"@) == Some(true);
            if !is_wanted_diff(filters, current, stale) {
                Ok((None, people, at))
            } else {
                match wanted_diff_at(
                    proposal,
                    preview_diff,
                    id,
                    current,
                    filters,
                    people,
                    replies,
                    at,
                ) {
                    Err(stop) => Err(stop),
                    Ok((diff, people, next)) => Ok((Some(diff), people, next)),
                }
            }
        },
    }
}

fn fetch_wanted_diff(
    proposal: &Json,
    preview_diff: &Json,
    id: u64,
    current: bool,
    filters: &Filters,
    people: &mut People,
    replies: &Vec<Reply>,
    at: usize,
) -> (r: Result<(DiffDiscussion, usize), Action>)
    requires
        at <= replies.len(),
    ensures
        (r matches Ok(diff) ==> wanted_diff_at(
            proposal@,
            preview_diff@,
            id,
            current,
            filters@,
            old(people)@,
            replies@,
            at as int,
        ) == Ok::<(DiffView, PeopleView, int), ActionView>(
            (diff.0@, final(people)@, diff.1 as int),
        ) && diff.1 <= replies.len()),
        r matches Err(action) ==> wanted_diff_at(
            proposal@,
            preview_diff@,
            id,
            current,
            filters@,
            old(people)@,
            replies@,
            at as int,
        ) == Err::<(DiffView, PeopleView, int), ActionView>(action@),
{
    let stale = is_flagged(preview_diff, "stale");
    let comments = inline_comments(proposal, id, replies, at)?;
    assert(at < replies.len());
    let next = load_people(people, comments, replies, at + 1)?;
    assert(items_view(comments@).len() == comments@.len());
    let mut end: usize = next;
    let diff = if comments.len() == 0 {
        None
    } else {
        let text = get_diff_text(preview_diff, replies, next)?;
        assert(next < replies.len());
        end = next + 1;
        Some(text)
    };
    let snapshot = Snapshot {
        id,
        current,
        stale,
        diff,
        people: &*people,
        since: filters.since,
        reviewer: borrow_option(&filters.reviewer),
    };
    match threads_of_diff(comments, &snapshot) {
        Err(error) => Err(Action::Fail { error }),
        Ok(threads) => Ok(
            (
                DiffDiscussion {
                    id,
                    date_created: owned_field(preview_diff, "date_created"),
                    current,
                    stale,
                    threads,
                },
                end,
            ),
        ),
    }
}

/// What an optional discussion of a snapshot holds.
pub open spec fn opt_diff_view(diff: Option<DiffDiscussion>) -> Option<DiffView> {
    match diff {
        Some(diff) => Some(diff@),
        None => None,
    }
}

fn fetch_diff(
    proposal: &Json,
    preview_diff: &Json,
    current_id: Option<u64>,
    filters: &Filters,
    people: &mut People,
    replies: &Vec<Reply>,
    at: usize,
) -> (r: Result<(Option<DiffDiscussion>, usize), Action>)
    requires
        at <= replies.len(),
    ensures
        (r matches Ok(diff) ==> diff_at(
            proposal@,
            preview_diff@,
            current_id,
            filters@,
            old(people)@,
            replies@,
            at as int,
        ) == Ok::<(Option<DiffView>, PeopleView, int), ActionView>(
            (opt_diff_view(diff.0), final(people)@, diff.1 as int),
        ) && diff.1 <= replies.len()),
        r matches Err(action) ==> diff_at(
            proposal@,
            preview_diff@,
            current_id,
            filters@,
            old(people)@,
            replies@,
            at as int,
        ) == Err::<(Option<DiffView>, PeopleView, int), ActionView>(action@),
{
    let id = match preview_diff_id(preview_diff) {
        Ok(id) => id,
        Err(error) => return Err(Action::Fail { error }),
    };
    let current = match current_id {
        Some(current_id) => current_id == id,
        None => false,
    };
    let stale = is_flagged(preview_diff, "stale");
    if (filters.current_only && !current) || (filters.unresolved_only && (!current || stale)) {
        return Ok((None, at));
    }
    match fetch_wanted_diff(
        proposal,
        preview_diff,
        id,
        current,
        filters,
        people,
        replies,
        at,
    ) {
        Ok((diff, next)) => Ok((Some(diff), next)),
        Err(stop) => Err(stop),
    }
}

/// The discussions of the wanted snapshots, in the order of the snapshots.
pub open spec fn diffs_at(
    proposal: JsonView,
    preview_diffs: Seq<JsonView>,
    current_id: Option<u64>,
    filters: FiltersView,
    people: PeopleView,
    replies: Seq<Reply>,
    at: int,
) -> Result<(Seq<DiffView>, PeopleView, int), ActionView>
    decreases preview_diffs.len(),
{
    if preview_diffs.len() == 0 {
        Ok((Seq::empty(), people, at))
    } else {
        match diffs_at(
            proposal,
            preview_diffs.drop_last(),
            current_id,
            filters,
            people,
            replies,
            at,
        ) {
            Err(stop) => Err(stop),
            Ok((front, people, next)) => match diff_at(
                proposal,
                preview_diffs.last(),
                current_id,
                filters,
                people,
                replies,
                next,
            ) {
                Err(stop) => Err(stop),
                Ok((diff, people, next)) => match diff {
                    Some(diff) => Ok((front.push(diff), people, next)),
                    None => Ok((front, people, next)),
                },
            },
        }
    }
}

proof fn lemma_stop_stays(
    proposal: JsonView,
    preview_diffs: Seq<JsonView>,
    current_id: Option<u64>,
    filters: FiltersView,
    people: PeopleView,
    replies: Seq<Reply>,
    at: int,
    count: int,
)
    requires
        0 <= count <= preview_diffs.len(),
        diffs_at(proposal, preview_diffs.take(count), current_id, filters, people, replies, at) is Err,
    ensures
        diffs_at(proposal, preview_diffs, current_id, filters, people, replies, at) == diffs_at(
            proposal,
            preview_diffs.take(count),
            current_id,
            filters,
            people,
            replies,
            at,
        ),
    decreases preview_diffs.len() - count,
{
    if count == preview_diffs.len() {
        assert(preview_diffs.take(count) =~= preview_diffs);
    } else {
        assert(preview_diffs.take(count + 1).drop_last() =~= preview_diffs.take(count));
        lemma_stop_stays(
            proposal,
            preview_diffs,
            current_id,
            filters,
            people,
            replies,
            at,
            count + 1,
        );
    }
}

pub(crate) fn fetch_diffs(
    proposal: &Json,
    preview_diffs: &Vec<Json>,
    current_id: Option<u64>,
    filters: &Filters,
    people: &mut People,
    replies: &Vec<Reply>,
    at: usize,
) -> (r: Result<(Vec<DiffDiscussion>, usize), Action>)
    requires
        at <= replies.len(),
    ensures
        (r matches Ok(diffs) ==> diffs_at(
            proposal@,
            items_view(preview_diffs@),
            current_id,
            filters@,
            old(people)@,
            replies@,
            at as int,
        ) == Ok::<(Seq<DiffView>, PeopleView, int), ActionView>(
            (diffs_view(diffs.0@), final(people)@, diffs.1 as int),
        ) && diffs.1 <= replies.len()),
        r matches Err(action) ==> diffs_at(
            proposal@,
            items_view(preview_diffs@),
            current_id,
            filters@,
            old(people)@,
            replies@,
            at as int,
        ) == Err::<(Seq<DiffView>, PeopleView, int), ActionView>(action@),
{
    let ghost all = items_view(preview_diffs@);
    let ghost before = people@;
    let mut diffs: Vec<DiffDiscussion> = Vec::new();
    let mut next: usize = at;
    assert(all.take(0) =~= Seq::empty());
    assert(diffs_view(diffs@) =~= Seq::empty());
    for i in 0..preview_diffs.len()
        invariant
            all == items_view(preview_diffs@),
            before == old(people)@,
            next <= replies.len(),
            diffs_at(
                proposal@,
                all.take(i as int),
                current_id,
                filters@,
                before,
                replies@,
                at as int,
            ) == Ok::<(Seq<DiffView>, PeopleView, int), ActionView>(
                (diffs_view(diffs@), people@, next as int),
            ),
    {
        proof {
            assert(all.take(i + 1).drop_last() =~= all.take(i as int));
            assert(all.take(i + 1).last() == preview_diffs@[i as int]@);
        }
        match fetch_diff(
            proposal,
            &preview_diffs[i],
            current_id,
            filters,
            people,
            replies,
            next,
        ) {
            Err(action) => {
                proof {
                    lemma_stop_stays(
                        proposal@,
                        all,
                        current_id,
                        filters@,
                        before,
                        replies@,
                        at as int,
                        i + 1,
                    );
                }
                return Err(action);
            },
            Ok((diff, end)) => {
                next = end;
                if let Some(diff) = diff {
                    let ghost front = diffs_view(diffs@);
                    let ghost view = diff@;
                    diffs.push(diff);
                    assert(diffs_view(diffs@) =~= front.push(view));
                }
            },
        }
    }
    assert(all.take(all.len() as int) =~= all);
    Ok((diffs, next))
}

/// The snapshots of a discussion are the wanted ones. With `current_diff_only` each is the
/// current one, and with `unresolved_only` its threads are open besides.
pub proof fn lemma_only_wanted_diffs(
    proposal: JsonView,
    preview_diffs: Seq<JsonView>,
    current_id: Option<u64>,
    filters: FiltersView,
    people: PeopleView,
    replies: Seq<Reply>,
    at: int,
)
    requires
        diffs_at(proposal, preview_diffs, current_id, filters, people, replies, at) is Ok,
    ensures
        ({
            let diffs = diffs_at(
                proposal,
                preview_diffs,
                current_id,
                filters,
                people,
                replies,
                at,
            )->Ok_0.0;
            forall|i: int|
                0 <= i < diffs.len() ==> {
                    &&& is_wanted_diff(filters, (#[trigger] diffs[i]).current, diffs[i].stale)
                    &&& diffs[i].current == (current_id == Some(diffs[i].id))
                    &&& filters.unresolved_only ==> state_name(diffs[i].current, diffs[i].stale)
                        == "open"@
                }
        }),
    decreases preview_diffs.len(),
{
    if preview_diffs.len() > 0 {
        lemma_only_wanted_diffs(
            proposal,
            preview_diffs.drop_last(),
            current_id,
            filters,
            people,
            replies,
            at,
        );
    }
}

/// The threads that a discussion gives of a snapshot are threads of that snapshot, in the
/// ascending order of their lines.
pub proof fn lemma_threads_of_wanted_diff(
    proposal: JsonView,
    preview_diff: JsonView,
    id: u64,
    current: bool,
    filters: FiltersView,
    people: PeopleView,
    replies: Seq<Reply>,
    at: int,
)
    requires
        wanted_diff_at(proposal, preview_diff, id, current, filters, people, replies, at) is Ok,
    ensures
        exists|context: ThreadContext, lines: Seq<nat>|
            {
                &&& context.id == id
                &&& context.current == current
                &&& context.stale == (preview_diff.flag("stale"@) == Some(true))
                &&& context.since == filters.since
                &&& context.reviewer == filters.reviewer
                &&& #[trigger] stand_on(
                    wanted_diff_at(
                        proposal,
                        preview_diff,
                        id,
                        current,
                        filters,
                        people,
                        replies,
                        at,
                    )->Ok_0.0.threads,
                    lines,
                    context,
                )
            },
{
    let comments = inline_comments_at(proposal, id, replies, at)->Ok_0;
    let (known, next) = people_at(people, comments, replies, at + 1)->Ok_0;
    let (diff, _) = commented_text_at(preview_diff, comments, replies, next)->Ok_0;
    let context = ThreadContext {
        id,
        current,
        stale: preview_diff.flag("stale"@) == Some(true),
        diff,
        people: known,
        since: filters.since,
        reviewer: filters.reviewer,
    };
    lemma_threads_ascend(comments, context);
    let lines = choose|lines: Seq<nat>|
        stand_on(diff_threads(comments, context)->Ok_0, lines, context);
    assert(stand_on(
        wanted_diff_at(
            proposal,
            preview_diff,
            id,
            current,
            filters,
            people,
            replies,
            at,
        )->Ok_0.0.threads,
        lines,
        context,
    ));
}

/// Every thread that a discussion gives of a snapshot says the state of that snapshot.
pub proof fn lemma_threads_say_state(
    proposal: JsonView,
    preview_diffs: Seq<JsonView>,
    current_id: Option<u64>,
    filters: FiltersView,
    people: PeopleView,
    replies: Seq<Reply>,
    at: int,
)
    requires
        diffs_at(proposal, preview_diffs, current_id, filters, people, replies, at) is Ok,
    ensures
        ({
            let diffs = diffs_at(
                proposal,
                preview_diffs,
                current_id,
                filters,
                people,
                replies,
                at,
            )->Ok_0.0;
            forall|i: int, j: int|
                0 <= i < diffs.len() && 0 <= j < diffs[i].threads.len() ==> (
                #[trigger] diffs[i].threads[j]).text("state"@) == Some(
                    state_name(diffs[i].current, diffs[i].stale),
                )
        }),
    decreases preview_diffs.len(),
{
    if preview_diffs.len() > 0 {
        let front = preview_diffs.drop_last();
        lemma_threads_say_state(proposal, front, current_id, filters, people, replies, at);
        let (before, known, next) = diffs_at(
            proposal,
            front,
            current_id,
            filters,
            people,
            replies,
            at,
        )->Ok_0;
        let last = preview_diffs.last();
        if let (Some(diff), _, _) = diff_at(
            proposal,
            last,
            current_id,
            filters,
            known,
            replies,
            next,
        )->Ok_0 {
            let current = current_id == Some(diff.id);
            lemma_threads_of_wanted_diff(
                proposal,
                last,
                diff.id,
                current,
                filters,
                known,
                replies,
                next,
            );
            let (context, lines) = choose|context: ThreadContext, lines: Seq<nat>|
                {
                    &&& context.id == diff.id
                    &&& context.current == current
                    &&& context.stale == (last.flag("stale"@) == Some(true))
                    &&& context.since == filters.since
                    &&& context.reviewer == filters.reviewer
                    &&& #[trigger] stand_on(diff.threads, lines, context)
                };
            assert forall|j: int| 0 <= j < diff.threads.len() implies (
            #[trigger] diff.threads[j]).text("state"@) == Some(
                state_name(diff.current, diff.stale),
            ) by {
                assert(is_thread(diff.threads[j], lines[j], context));
                let comments = choose|comments: Seq<JsonView>|
                    diff.threads[j] == #[trigger] thread_object(lines[j], comments, context);
                lemma_thread_says_state(lines[j], comments, context);
            }
        }
    }
}

/// Whether the threads of a snapshot say its identifier and lines that ascend.
pub open spec fn threads_ascend(diff: DiffView) -> bool {
    &&& forall|j: int|
        0 <= j < diff.threads.len() ==> {
            let thread = #[trigger] diff.threads[j];
            &&& thread.unsigned("preview_diff_id"@) == Some(diff.id)
            &&& thread.unsigned("diff_line"@) is Some
        }
    &&& forall|j: int, k: int|
        0 <= j < k < diff.threads.len() ==> (#[trigger] diff.threads[j]).unsigned("diff_line"@)->0
            < (#[trigger] diff.threads[k]).unsigned("diff_line"@)->0
}

/// Every thread that a discussion gives of a snapshot says that snapshot, and its threads say
/// ascending lines.
pub proof fn lemma_threads_say_place(
    proposal: JsonView,
    preview_diffs: Seq<JsonView>,
    current_id: Option<u64>,
    filters: FiltersView,
    people: PeopleView,
    replies: Seq<Reply>,
    at: int,
)
    requires
        diffs_at(proposal, preview_diffs, current_id, filters, people, replies, at) is Ok,
    ensures
        ({
            let diffs = diffs_at(
                proposal,
                preview_diffs,
                current_id,
                filters,
                people,
                replies,
                at,
            )->Ok_0.0;
            forall|i: int| 0 <= i < diffs.len() ==> threads_ascend(#[trigger] diffs[i])
        }),
    decreases preview_diffs.len(),
{
    if preview_diffs.len() > 0 {
        let front = preview_diffs.drop_last();
        lemma_threads_say_place(proposal, front, current_id, filters, people, replies, at);
        let (before, known, next) = diffs_at(
            proposal,
            front,
            current_id,
            filters,
            people,
            replies,
            at,
        )->Ok_0;
        let last = preview_diffs.last();
        if let (Some(diff), _, _) = diff_at(
            proposal,
            last,
            current_id,
            filters,
            known,
            replies,
            next,
        )->Ok_0 {
            let current = current_id == Some(diff.id);
            lemma_threads_of_wanted_diff(
                proposal,
                last,
                diff.id,
                current,
                filters,
                known,
                replies,
                next,
            );
            let (context, lines) = choose|context: ThreadContext, lines: Seq<nat>|
                {
                    &&& context.id == diff.id
                    &&& context.current == current
                    &&& context.stale == (last.flag("stale"@) == Some(true))
                    &&& context.since == filters.since
                    &&& context.reviewer == filters.reviewer
                    &&& #[trigger] stand_on(diff.threads, lines, context)
                };
            assert forall|j: int| 0 <= j < diff.threads.len() implies {
                let thread = #[trigger] diff.threads[j];
                &&& thread.unsigned("preview_diff_id"@) == Some(diff.id)
                &&& thread.unsigned("diff_line"@) == Some(lines[j] as u64)
                &&& lines[j] <= u64::MAX
            } by {
                assert(is_thread(diff.threads[j], lines[j], context));
                let comments = choose|comments: Seq<JsonView>|
                    diff.threads[j] == #[trigger] thread_object(lines[j], comments, context);
                lemma_thread_says_place(lines[j], comments, context);
            }
            assert forall|j: int, k: int| 0 <= j < k < diff.threads.len() implies (
            #[trigger] diff.threads[j]).unsigned("diff_line"@)->0 < (
            #[trigger] diff.threads[k]).unsigned("diff_line"@)->0 by {
                assert(lines[j] < lines[k]);
            }
            assert(threads_ascend(diff));
        }
    }
}

} // verus!
