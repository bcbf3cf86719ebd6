//! Collections that are fetched page by page.
use vstd::prelude::*;
use crate::error::invalid;
use crate::fields::{id_of, resource_id};
use crate::items::{first_items, take_items};
use crate::json::{items_view, no_items, push_item, Json, JsonView};
use crate::lookup::values_step;
use crate::number::{parse_u64, unsigned_within};
use crate::split::{holds_text, push_part};
use crate::steps::{fail, get, get_url, refuse, Action, ActionView};
use crate::text::{copy, views};

verus! {

/// A page of a collection, and the link to the next one.
pub struct Page {
    pub entries: Vec<Json>,
    pub next: Option<String>,
}

/// The URL of a page: the first one, or the link of the page before.
pub open spec fn page_url(first: Seq<char>, pages: Seq<Page>, index: int) -> Seq<char> {
    if index <= 0 {
        first
    } else {
        pages[index - 1].next->0@
    }
}

/// The URLs of the first pages.
pub open spec fn page_urls(first: Seq<char>, pages: Seq<Page>, count: nat) -> Seq<Seq<char>> {
    Seq::new(count, |index: int| page_url(first, pages, index))
}

/// The entries of all pages.
pub open spec fn page_entries(pages: Seq<Page>) -> Seq<JsonView>
    decreases pages.len(),
{
    if pages.len() == 0 {
        Seq::empty()
    } else {
        page_entries(pages.drop_last()) + items_view(pages.last().entries@)
    }
}

/// Whether the last page is there.
pub open spec fn is_complete(pages: Seq<Page>) -> bool {
    pages.len() > 0 && pages.last().next is None
}

/// Whether the next page is one that was fetched already.
pub open spec fn is_repeated(first: Seq<char>, pages: Seq<Page>) -> bool {
    page_urls(first, pages, pages.len()).contains(page_url(first, pages, pages.len() as int))
}

/// The action of fetching the next page, or the failure where it was fetched already.
pub open spec fn next_page(first: Seq<char>, pages: Seq<Page>, reason: Seq<char>) -> ActionView {
    if is_repeated(first, pages) {
        fail(invalid(reason))
    } else {
        get(page_url(first, pages, pages.len() as int))
    }
}

/// All entries of a collection, once all its pages are there.
pub open spec fn all_entries(first: Seq<char>, pages: Seq<Page>) -> Result<
    Seq<JsonView>,
    ActionView,
> {
    if is_complete(pages) {
        Ok(page_entries(pages))
    } else {
        Err(next_page(first, pages, "Launchpad collection pagination repeated a page"@))
    }
}

/// The first entries of a collection, once enough of its pages are there.
pub open spec fn some_entries(first: Seq<char>, limit: nat, pages: Seq<Page>) -> Result<
    Seq<JsonView>,
    ActionView,
> {
    if page_entries(pages).len() >= limit || is_complete(pages) {
        Ok(first_items(page_entries(pages), limit))
    } else {
        Err(get(page_url(first, pages, pages.len() as int)))
    }
}

/// The first proposal with an identifier.
pub open spec fn proposal_with_id(proposals: Seq<JsonView>, id: u64) -> Option<JsonView>
    decreases proposals.len(),
{
    if proposals.len() == 0 {
        None
    } else if has_id(proposals[0], id) {
        Some(proposals[0])
    } else {
        proposal_with_id(proposals.skip(1), id)
    }
}

/// Whether a proposal has an identifier.
pub open spec fn has_id(proposal: JsonView, id: u64) -> bool {
    match id_of(proposal) {
        Some(text) => unsigned_within(text, u64::MAX as nat) == Some(id as nat),
        None => false,
    }
}

/// The proposal with an identifier in a collection, once a page has it or all pages are there.
pub open spec fn found_proposal(first: Seq<char>, id: u64, pages: Seq<Page>) -> Result<
    Option<JsonView>,
    ActionView,
> {
    match proposal_with_id(page_entries(pages), id) {
        Some(proposal) => Ok(Some(proposal)),
        None => if is_complete(pages) {
            Ok(None)
        } else {
            Err(next_page(first, pages, "Launchpad proposal pagination repeated a page"@))
        },
    }
}

/// Whether each page but the last links to a next one.
pub open spec fn are_linked(pages: Seq<Page>) -> bool {
    forall|i: int| 0 <= i < pages.len() - 1 ==> (#[trigger] pages[i]).next is Some
}

fn gather(pages: &Vec<Page>) -> (r: Vec<Json>)
    ensures
        items_view(r@) == page_entries(pages@),
{
    let mut out = no_items();
    assert(pages@.take(0) =~= Seq::empty());
    for i in 0..pages.len()
        invariant
            items_view(out@) == page_entries(pages@.take(i as int)),
    {
        assert(pages@.take(i + 1).drop_last() =~= pages@.take(i as int));
        assert(pages@.take(i + 1).last() == pages@[i as int]);
        let own = &pages[i].entries;
        let ghost before = items_view(out@);
        let ghost added = items_view(own@);
        assert(before + added.take(0) =~= before);
        for j in 0..own.len()
            invariant
                added == items_view(own@),
                items_view(out@) == before + added.take(j as int),
        {
            push_item(&mut out, own[j].copy());
            assert(before + added.take(j + 1) =~= (before + added.take(j as int)).push(
                own@[j as int]@,
            ));
        }
        assert(added.take(added.len() as int) =~= added);
    }
    assert(pages@.take(pages@.len() as int) =~= pages@);
    out
}

fn complete(pages: &Vec<Page>) -> (r: bool)
    ensures
        r == is_complete(pages@),
{
    pages.len() > 0 && pages[pages.len() - 1].next.is_none()
}

fn url_of_page(first: &str, pages: &Vec<Page>, index: usize) -> (r: String)
    requires
        index <= pages@.len(),
        index > 0 ==> pages@[index - 1].next is Some,
    ensures
        r@ == page_url(first@, pages@, index as int),
{
    if index == 0 {
        return copy(first);
    }
    match &pages[index - 1].next {
        Some(url) => copy(url.as_str()),
        None => copy(first),
    }
}

fn ask_next(first: &str, pages: &Vec<Page>, reason: &str) -> (r: Action)
    requires
        are_linked(pages@),
        !is_complete(pages@),
    ensures
        r@ == next_page(first@, pages@, reason@),
{
    let mut seen: Vec<String> = Vec::new();
    assert(views(seen@) =~= page_urls(first@, pages@, 0));
    for i in 0..pages.len()
        invariant
            are_linked(pages@),
            views(seen@) == page_urls(first@, pages@, i as nat),
    {
        if i > 0 {
            assert(pages@[i - 1].next is Some);
        }
        push_part(&mut seen, url_of_page(first, pages, i));
        assert(views(seen@) =~= page_urls(first@, pages@, (i + 1) as nat));
    }
    let url = url_of_page(first, pages, pages.len());
    if holds_text(&seen, url.as_str()) {
        refuse(reason)
    } else {
        get_url(url.as_str())
    }
}

/// All entries of a collection, once all its pages are there. A page that was fetched already
/// is not fetched again.
pub fn fetch_all_entries(first: &str, pages: &Vec<Page>) -> (r: Result<Vec<Json>, Action>)
    requires
        are_linked(pages@),
    ensures
        values_step(r) == all_entries(first@, pages@),
{
    if complete(pages) {
        Ok(gather(pages))
    } else {
        Err(ask_next(first, pages, "Launchpad collection pagination repeated a page"))
    }
}

/// The first entries of a collection, once enough of its pages are there.
pub fn fetch_entries(first: &str, limit: usize, pages: &Vec<Page>) -> (r: Result<Vec<Json>, Action>)
    requires
        are_linked(pages@),
    ensures
        values_step(r) == some_entries(first@, limit as nat, pages@),
{
    let entries = gather(pages);
    assert(items_view(entries@).len() == entries@.len());
    if entries.len() >= limit || complete(pages) {
        return Ok(take_items(&entries, limit));
    }
    Err(get_url(url_of_page(first, pages, pages.len()).as_str()))
}

fn is_proposal(proposal: &Json, id: u64) -> (r: bool)
    ensures
        r == has_id(proposal@, id),
{
    match resource_id(proposal) {
        Some(text) => match parse_u64(text.as_str()) {
            Some(found) => found == id,
            None => false,
        },
        None => false,
    }
}

/// What a step to an optional value holds.
pub open spec fn option_step(r: Result<Option<Json>, Action>) -> Result<Option<JsonView>, ActionView> {
    match r {
        Ok(value) => Ok(crate::people::identity_view(value)),
        Err(action) => Err(action@),
    }
}

/// The proposal with an identifier in a collection, once a page has it or all pages are there.
pub fn find_proposal_by_id(first: &str, id: u64, pages: &Vec<Page>) -> (r: Result<
    Option<Json>,
    Action,
>)
    requires
        are_linked(pages@),
    ensures
        option_step(r) == found_proposal(first@, id, pages@),
{
    let entries = gather(pages);
    let ghost all = items_view(entries@);
    assert(all.skip(0) =~= all);
    for i in 0..entries.len()
        invariant
            all == items_view(entries@),
            all == page_entries(pages@),
            proposal_with_id(all, id) == proposal_with_id(all.skip(i as int), id),
    {
        assert(all.skip(i as int)[0] == entries@[i as int]@);
        assert(all.skip(i as int).skip(1) =~= all.skip(i + 1));
        if is_proposal(&entries[i], id) {
            return Ok(Some(entries[i].copy()));
        }
    }
    if complete(pages) {
        return Ok(None);
    }
    Err(ask_next(first, pages, "Launchpad proposal pagination repeated a page"))
}

/// No page of a collection is fetched twice.
pub proof fn lemma_no_page_twice(first: Seq<char>, pages: Seq<Page>, index: int)
    requires
        0 <= index < pages.len(),
    ensures
        all_entries(first, pages) != Err::<Seq<JsonView>, ActionView>(
            get(page_url(first, pages, index)),
        ),
{
    assert(page_urls(first, pages, pages.len())[index] == page_url(first, pages, index));
}

/// Fetching with a limit never gives more entries than the limit, and gives the front of the
/// whole collection.
pub proof fn lemma_entries_within_limit(first: Seq<char>, limit: nat, pages: Seq<Page>)
    ensures
        some_entries(first, limit, pages) matches Ok(entries) ==> entries.len() <= limit
            && entries.is_prefix_of(page_entries(pages)),
{
    let all = page_entries(pages);
    assert(all.take(all.len() as int) =~= all);
    if all.len() > limit {
        assert(all.take(limit as int).is_prefix_of(all));
    }
}

} // verus!
