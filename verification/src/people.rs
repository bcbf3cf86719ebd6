//! The people behind comments and reviews.
use vstd::prelude::*;
use crate::fields::{
    either, last_segment, link_name, name_of_reviewer_member, owned_field, reviewer_member,
    text_field,
};
use crate::format::cat2;
use crate::json::{
    items_view, member_in, members_view, no_members, push_member, text_or_null, Json, JsonView,
};
use crate::split::{holds_text, push_part};
use crate::text::{copy, opt_str_view, same, trim_start_matches, trim_start_of, views};

verus! {

/// The member that links to the person in another member, where there is one.
pub open spec fn link_member(field: Seq<char>) -> Option<Seq<char>> {
    if field == "author"@ {
        Some("author_link"@)
    } else if field == "owner"@ {
        Some("owner_link"@)
    } else if field == "person"@ {
        Some("person_link"@)
    } else if field == reviewer_member() {
        Some("reviewer_link"@)
    } else if field == "registrant"@ {
        Some("registrant_link"@)
    } else {
        None
    }
}

/// The link to the person in a member: the person's own, the one in the member for links, or the
/// member itself.
pub open spec fn link_of(value: JsonView, field: Seq<char>) -> Option<Seq<char>> {
    let own = match value.get(field) {
        Some(person) => person.text("self_link"@),
        None => None,
    };
    let linked = match link_member(field) {
        Some(name) => value.text(name),
        None => None,
    };
    either(either(own, linked), value.text(field))
}

fn name_of_link(field: &str) -> (r: Option<&'static str>)
    ensures
        opt_str_view(r) == link_member(field@),
{
    if same(field, "author") {
        Some("author_link")
    } else if same(field, "owner") {
        Some("owner_link")
    } else if same(field, "person") {
        Some("person_link")
    } else if same(field, name_of_reviewer_member().as_str()) {
        Some("reviewer_link")
    } else if same(field, "registrant") {
        Some("registrant_link")
    } else {
        None
    }
}

/// The link to the person in a member.
pub fn person_link<'value>(value: &'value Json, field: &str) -> (r: Option<&'value str>)
    ensures
        opt_str_view(r) == link_of(value@, field@),
{
    if let Some(person) = value.get(field) {
        if let Some(link) = text_field(person, "self_link") {
            return Some(link);
        }
    }
    if let Some(name) = name_of_link(field) {
        if let Some(link) = text_field(value, name) {
            return Some(link);
        }
    }
    text_field(value, field)
}

/// The profiles that were fetched, by their links, and the links whose profiles could not be.
/// No link is listed twice.
pub struct People {
    pub known: Vec<(String, Json)>,
    pub failed: Vec<String>,
}

/// What is known of people.
#[verifier::ext_equal]
pub struct PeopleView {
    pub known: Seq<(Seq<char>, JsonView)>,
    pub failed: Seq<Seq<char>>,
}

impl View for People {
    type V = PeopleView;

    open spec fn view(&self) -> PeopleView {
        PeopleView { known: members_view(self.known@), failed: views(self.failed@) }
    }
}

impl PeopleView {
    /// Whether a link was tried.
    pub open spec fn has_tried(self, link: Seq<char>) -> bool {
        member_in(self.known, link) is Some || self.failed.contains(link)
    }

    /// What is known once a link was tried with an outcome.
    pub open spec fn with(self, link: Seq<char>, person: Option<JsonView>) -> PeopleView {
        if self.has_tried(link) {
            self
        } else {
            match person {
                Some(person) => PeopleView { known: self.known.push((link, person)), ..self },
                None => PeopleView { failed: self.failed.push(link), ..self },
            }
        }
    }

    /// What is known once several links were tried, each with its outcome.
    pub open spec fn with_all(self, links: Seq<Seq<char>>, people: Seq<Option<JsonView>>) -> PeopleView
        decreases links.len(),
    {
        if links.len() == 0 || people.len() < links.len() {
            self
        } else {
            self.with_all(links.drop_last(), people.take(links.len() - 1)).with(
                links.last(),
                people[links.len() - 1],
            )
        }
    }
}

/// What the outcomes of fetching profiles hold.
pub open spec fn profiles_view(people: Seq<Option<Json>>) -> Seq<Option<JsonView>> {
    people.map_values(
        |person: Option<Json>|
            match person {
                Some(person) => Some(person@),
                None => None,
            },
    )
}

/// Links with one more, unless it is among them or was tried.
pub open spec fn with_link(links: Seq<Seq<char>>, people: PeopleView, link: Option<Seq<char>>) -> Seq<
    Seq<char>,
> {
    match link {
        Some(link) => if people.has_tried(link) || links.contains(link) {
            links
        } else {
            links.push(link)
        },
        None => links,
    }
}

/// Links with those of the people that an entry names.
pub open spec fn with_entry_links(
    links: Seq<Seq<char>>,
    people: PeopleView,
    entry: JsonView,
) -> Seq<Seq<char>> {
    let links = with_link(links, people, link_of(entry, "author"@));
    let links = with_link(links, people, link_of(entry, "owner"@));
    let links = with_link(links, people, link_of(entry, "person"@));
    let links = with_link(links, people, link_of(entry, reviewer_member()));
    with_link(links, people, link_of(entry, "registrant"@))
}

/// The links of the people that entries name and that were not tried.
pub open spec fn missing_links_of(entries: Seq<JsonView>, people: PeopleView) -> Seq<Seq<char>>
    decreases entries.len(),
{
    if entries.len() == 0 {
        Seq::empty()
    } else {
        with_entry_links(missing_links_of(entries.drop_last(), people), people, entries.last())
    }
}

/// The member of an association with a name.
pub fn find_member<'value>(members: &'value Vec<(String, Json)>, name: &str) -> (r: Option<
    &'value Json,
>)
    ensures
        crate::json::opt_json_view(r) == member_in(members_view(members@), name@),
{
    let ghost all = members_view(members@);
    assert(all.skip(0) =~= all);
    for i in 0..members.len()
        invariant
            all == members_view(members@),
            member_in(all, name@) == member_in(all.skip(i as int), name@),
    {
        assert(all.skip(i as int)[0] == (members@[i as int].0@, members@[i as int].1@));
        if same(members[i].0.as_str(), name) {
            return Some(&members[i].1);
        }
        assert(all.skip(i as int).skip(1) =~= all.skip(i + 1));
    }
    None
}

impl People {
    /// Nobody is known yet.
    pub fn new() -> (r: People)
        ensures
            r@ == (PeopleView { known: Seq::empty(), failed: Seq::empty() }),
    {
        let people = People { known: no_members(), failed: Vec::new() };
        assert(views(people.failed@) =~= Seq::empty());
        people
    }

    fn tried(&self, link: &str) -> (r: bool)
        ensures
            r == self@.has_tried(link@),
    {
        find_member(&self.known, link).is_some() || holds_text(&self.failed, link)
    }

    fn note_link(&self, links: &mut Vec<String>, link: Option<&str>)
        ensures
            views(final(links)@) == with_link(views(old(links)@), self@, opt_str_view(link)),
    {
        if let Some(link) = link {
            if !self.tried(link) && !holds_text(links, link) {
                push_part(links, copy(link));
            }
        }
    }

    /// The links of the people that entries name and that were not tried.
    pub fn missing_links(&self, entries: &Vec<Json>) -> (r: Vec<String>)
        ensures
            views(r@) == missing_links_of(items_view(entries@), self@),
    {
        let mut links: Vec<String> = Vec::new();
        let ghost all = items_view(entries@);
        assert(all.take(0) =~= Seq::empty());
        assert(views(links@) =~= Seq::empty());
        for i in 0..entries.len()
            invariant
                all == items_view(entries@),
                views(links@) == missing_links_of(all.take(i as int), self@),
        {
            assert(all.take(i + 1).drop_last() =~= all.take(i as int));
            assert(all.take(i + 1).last() == entries@[i as int]@);
            self.note_link(&mut links, person_link(&entries[i], "author"));
            self.note_link(&mut links, person_link(&entries[i], "owner"));
            self.note_link(&mut links, person_link(&entries[i], "person"));
            self.note_link(&mut links, person_link(&entries[i], name_of_reviewer_member().as_str()));
            self.note_link(&mut links, person_link(&entries[i], "registrant"));
        }
        assert(all.take(all.len() as int) =~= all);
        links
    }

    /// Notes the outcome of trying a link.
    pub fn record(&mut self, link: &str, person: Option<&Json>)
        ensures
            final(self)@ == old(self)@.with(link@, crate::json::opt_json_view(person)),
    {
        if self.tried(link) {
            return;
        }
        match person {
            Some(person) => push_member(&mut self.known, link, person.copy()),
            None => push_part(&mut self.failed, copy(link)),
        }
    }

    /// Notes the outcomes of trying several links.
    pub fn record_all(&mut self, links: &Vec<String>, people: &Vec<Option<Json>>)
        ensures
            final(self)@ == old(self)@.with_all(views(links@), profiles_view(people@)),
    {
        if people.len() < links.len() {
            return;
        }
        let ghost all = views(links@);
        let ghost found = profiles_view(people@);
        assert(all.take(0) =~= Seq::empty());
        for i in 0..links.len()
            invariant
                links@.len() <= people@.len(),
                all == views(links@),
                found == profiles_view(people@),
                self@ == old(self)@.with_all(all.take(i as int), found.take(i as int)),
        {
            proof {
                let next = all.take(i + 1);
                assert(next.drop_last() =~= all.take(i as int));
                assert(found.take(i + 1).take(next.len() - 1) =~= found.take(i as int));
                assert(found.take(i + 1)[i as int] == found[i as int]);
            }
            self.record(links[i].as_str(), people[i].as_ref());
        }
        proof {
            assert(all.take(all.len() as int) =~= all);
            lemma_with_all_prefix(old(self)@, all, found);
        }
    }
}

proof fn lemma_with_all_prefix(
    people: PeopleView,
    links: Seq<Seq<char>>,
    found: Seq<Option<JsonView>>,
)
    requires
        links.len() <= found.len(),
    ensures
        people.with_all(links, found) == people.with_all(links, found.take(links.len() as int)),
{
    if links.len() > 0 {
        let short = found.take(links.len() as int);
        assert(short.take(links.len() - 1) =~= found.take(links.len() - 1));
    }
}

/// The name that a link gives a person.
pub open spec fn linked_name(link: Seq<char>) -> Seq<char> {
    trim_start_of(link_name(link), '~')
}

/// A person by profile and link: names and the page.
pub open spec fn identity_object(person: Option<JsonView>, link: Option<Seq<char>>) -> JsonView {
    let own = |name: Seq<char>|
        match person {
            Some(person) => person.text(name),
            None => None,
        };
    let username = either(
        own("name"@),
        match link {
            Some(link) => Some(linked_name(link)),
            None => None,
        },
    );
    let url = either(
        own("web_link"@),
        match username {
            Some(username) => Some("https://launchpad.net/~"@ + username),
            None => None,
        },
    );
    JsonView::Object(
        Seq::empty().push(("username"@, text_or_null(username))).push(
            ("display_name"@, text_or_null(either(own("display_name"@), username))),
        ).push(("url"@, text_or_null(url))),
    )
}

/// The person in a member of a value, where there is one.
pub open spec fn identity_of(value: JsonView, field: Seq<char>, people: PeopleView) -> Option<
    JsonView,
> {
    let link = link_of(value, field);
    let person = match value.get(field) {
        Some(JsonView::Object(members)) => Some(JsonView::Object(members)),
        _ => match link {
            Some(link) => member_in(people.known, link),
            None => None,
        },
    };
    if person is None && link is None {
        None
    } else {
        Some(identity_object(person, link))
    }
}

fn identity(person: Option<&Json>, link: Option<&str>) -> (r: Json)
    ensures
        r@ == identity_object(crate::json::opt_json_view(person), opt_str_view(link)),
{
    let own_name = match person {
        Some(person) => owned_field(person, "name"),
        None => None,
    };
    let username = match own_name {
        Some(name) => Some(name),
        None => match link {
            Some(link) => Some(trim_start_matches(last_segment(link).as_str(), '~')),
            None => None,
        },
    };
    let own_display = match person {
        Some(person) => owned_field(person, "display_name"),
        None => None,
    };
    let own_url = match person {
        Some(person) => owned_field(person, "web_link"),
        None => None,
    };
    let mut members = no_members();
    push_member(&mut members, "username", Json::of_option(crate::text::borrow_option(&username)));
    let display_name = match own_display {
        Some(name) => Json::Text(name),
        None => Json::of_option(crate::text::borrow_option(&username)),
    };
    push_member(&mut members, "display_name", display_name);
    let url = match own_url {
        Some(url) => Json::Text(url),
        None => match &username {
            Some(username) => Json::Text(cat2("https://launchpad.net/~", username.as_str())),
            None => Json::Null,
        },
    };
    push_member(&mut members, "url", url);
    Json::Object(members)
}

/// The person in a member of a value, where there is one.
pub fn normalise_identity(value: &Json, field: &str, people: &People) -> (r: Option<Json>)
    ensures
        identity_view(r) == identity_of(value@, field@, people@),
{
    let link = person_link(value, field);
    let person = match value.get(field) {
        Some(person) => match person {
            Json::Object(_) => Some(person),
            _ => match link {
                Some(link) => find_member(&people.known, link),
                None => None,
            },
        },
        None => match link {
            Some(link) => find_member(&people.known, link),
            None => None,
        },
    };
    if person.is_none() && link.is_none() {
        return None;
    }
    Some(identity(person, link))
}

/// What an optional value holds.
pub open spec fn identity_view(identity: Option<Json>) -> Option<JsonView> {
    match identity {
        Some(identity) => Some(identity@),
        None => None,
    }
}

/// No link is asked for that was tried before, and none twice.
pub proof fn lemma_missing_links_are_new(entries: Seq<JsonView>, people: PeopleView)
    ensures
        missing_links_of(entries, people).no_duplicates(),
        forall|i: int|
            0 <= i < missing_links_of(entries, people).len() ==> !people.has_tried(
                #[trigger] missing_links_of(entries, people)[i],
            ),
    decreases entries.len(),
{
    if entries.len() > 0 {
        lemma_missing_links_are_new(entries.drop_last(), people);
        let links = missing_links_of(entries.drop_last(), people);
        let entry = entries.last();
        lemma_with_link_is_new(links, people, link_of(entry, "author"@));
        let links = with_link(links, people, link_of(entry, "author"@));
        lemma_with_link_is_new(links, people, link_of(entry, "owner"@));
        let links = with_link(links, people, link_of(entry, "owner"@));
        lemma_with_link_is_new(links, people, link_of(entry, "person"@));
        let links = with_link(links, people, link_of(entry, "person"@));
        lemma_with_link_is_new(links, people, link_of(entry, reviewer_member()));
        let links = with_link(links, people, link_of(entry, reviewer_member()));
        lemma_with_link_is_new(links, people, link_of(entry, "registrant"@));
    }
}

proof fn lemma_with_link_is_new(
    links: Seq<Seq<char>>,
    people: PeopleView,
    link: Option<Seq<char>>,
)
    requires
        links.no_duplicates(),
        forall|i: int| 0 <= i < links.len() ==> !people.has_tried(#[trigger] links[i]),
    ensures
        with_link(links, people, link).no_duplicates(),
        forall|i: int|
            0 <= i < with_link(links, people, link).len() ==> !people.has_tried(
                #[trigger] with_link(links, people, link)[i],
            ),
{
    if let Some(link) = link {
        let result = with_link(links, people, Some(link));
        assert forall|i: int| 0 <= i < result.len() implies !people.has_tried(#[trigger] result[i]) by {
            if i < links.len() {
                assert(result[i] == links[i]);
            }
        }
        assert forall|i: int, j: int| 0 <= i < result.len() && 0 <= j < result.len() && i != j implies result[i] != result[j] by {
            if i < links.len() && j < links.len() {
                assert(links[i] != links[j]);
            } else if i < links.len() {
                assert(links.contains(links[i]));
            } else if j < links.len() {
                assert(links.contains(links[j]));
            }
        }
    }
}

/// Every link whose outcome was noted counts as tried from there on.
pub proof fn lemma_recorded_link_is_tried(
    people: PeopleView,
    link: Seq<char>,
    person: Option<JsonView>,
)
    ensures
        people.with(link, person).has_tried(link),
{
    if !people.has_tried(link) {
        let after = people.with(link, person);
        match person {
            Some(person) => {
                lemma_pushed_member_found(people.known, link, person);
            },
            None => {
                assert(after.failed.last() == link);
                assert(after.failed[after.failed.len() - 1] == link);
            },
        }
    }
}

proof fn lemma_pushed_member_found(
    members: Seq<(Seq<char>, JsonView)>,
    name: Seq<char>,
    value: JsonView,
)
    ensures
        member_in(members.push((name, value)), name) is Some,
    decreases members.len(),
{
    if members.len() > 0 && members[0].0 != name {
        lemma_pushed_member_found(members.skip(1), name, value);
        assert(members.push((name, value)).skip(1) =~= members.skip(1).push((name, value)));
    }
}

} // verus!
