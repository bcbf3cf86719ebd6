//! What resources say of themselves: texts, scalars, people and links.
use vstd::prelude::*;
use crate::format::cat2;
use crate::json::{items_view, Json, JsonView, Number, NumberView};
use crate::number::{decimal, decimal_text};
use crate::split::{after_last, join, join_parts, last_piece, push_part};
use crate::text::{
    characters, copy, opt_str_view, opt_view, slice, trim_end_matches, trim_end_of, strip_suffix,
    trim_start_matches, trim_start_of, views, without_suffix,
};

verus! {

/// The first of two optional values that is there.
pub open spec fn either<T>(first: Option<T>, second: Option<T>) -> Option<T> {
    match first {
        Some(value) => Some(value),
        None => second,
    }
}

/// An optional value, or another one in its place.
pub open spec fn value_or<T>(value: Option<T>, other: T) -> T {
    match value {
        Some(value) => value,
        None => other,
    }
}

/// A number as it is written.
pub open spec fn number_text(number: NumberView) -> Seq<char> {
    match number {
        NumberView::Unsigned(value) => decimal(value as nat),
        NumberView::Negative(value) => if value < 0 {
            "-"@ + decimal((-value) as nat)
        } else {
            decimal(value as nat)
        },
        NumberView::Other(text) => text,
    }
}

/// A value in one line, where there is anything to show.
pub open spec fn scalar_text(value: JsonView) -> Option<Seq<char>>
    decreases value,
{
    match value {
        JsonView::Null => None,
        JsonView::Bool(value) => Some(
            if value {
                "true"@
            } else {
                "false"@
            },
        ),
        JsonView::Number(number) => Some(number_text(number)),
        JsonView::Text(text) => if text.len() == 0 {
            None
        } else {
            Some(text)
        },
        JsonView::Array(items) => {
            let texts = scalar_texts(items);
            if texts.len() == 0 {
                None
            } else {
                Some(join(texts, ", "@))
            }
        },
        JsonView::Object(_) => either(value.text("web_link"@), value.text("self_link"@)),
    }
}

/// The values of a list that there is anything to show of, each in one line.
pub open spec fn scalar_texts(items: Seq<JsonView>) -> Seq<Seq<char>>
    decreases items,
{
    if items.len() == 0 {
        Seq::empty()
    } else {
        match scalar_text(items[items.len() - 1]) {
            Some(text) => scalar_texts(items.subrange(0, items.len() - 1)).push(text),
            None => scalar_texts(items.subrange(0, items.len() - 1)),
        }
    }
}

/// A member of a resource in one line.
pub open spec fn scalar_of(value: JsonView, name: Seq<char>) -> Option<Seq<char>> {
    match value.get(name) {
        Some(member) => scalar_text(member),
        None => None,
    }
}

/// The last segment of a link.
pub open spec fn link_name(link: Seq<char>) -> Seq<char> {
    last_piece(trim_end_of(link, '/'), '/')
}

/// The name of a person: of an object its own, and of a link its last segment.
pub open spec fn person_text(value: JsonView) -> Option<Seq<char>> {
    match value {
        JsonView::Text(link) => Some(trim_start_of(link_name(link), '~')),
        JsonView::Object(_) => match either(value.text("display_name"@), value.text("name"@)) {
            Some(name) => Some(name),
            None => match either(value.text("web_link"@), value.text("self_link"@)) {
                Some(link) => Some(trim_start_of(link_name(link), '~')),
                None => None,
            },
        },
        _ => None,
    }
}

/// The person that a resource names in a member, or in the link that stands for it.
pub open spec fn person_of(value: JsonView, name: Seq<char>) -> Option<Seq<char>> {
    let direct = match value.get(name) {
        Some(person) => person_text(person),
        None => None,
    };
    let linked = match value.get(name + "_link"@) {
        Some(person) => person_text(person),
        None => None,
    };
    either(direct, linked)
}

/// The identifier of a resource: the last segment of its own link.
pub open spec fn id_of(resource: JsonView) -> Option<Seq<char>> {
    match resource.text("self_link"@) {
        Some(link) => Some(link_name(link)),
        None => None,
    }
}

/// The type of a resource.
pub open spec fn kind_of(resource: JsonView) -> Seq<char> {
    match resource.text("resource_type_link"@) {
        Some(link) => last_piece(link, '#'),
        None => "resource"@,
    }
}

/// The member for the person that a link member links to.
pub open spec fn linked_member(name: Seq<char>) -> Seq<char> {
    value_or(without_suffix(name, "_link"@), name)
}

/// The member for who is to review, or has reviewed.
pub open spec fn reviewer_member() -> Seq<char> {
    linked_member("reviewer_link"@)
}

/// The name of the member for who is to review, or has reviewed.
pub fn name_of_reviewer_member() -> (r: String)
    ensures
        r@ == reviewer_member(),
{
    match strip_suffix("reviewer_link", "_link") {
        Some(name) => name,
        None => copy("reviewer_link"),
    }
}

/// The text of a member, where it is one.
pub fn text_field<'value>(value: &'value Json, name: &str) -> (r: Option<&'value str>)
    ensures
        opt_str_view(r) == value@.text(name@),
{
    match value.get(name) {
        Some(member) => member.as_str(),
        None => None,
    }
}

/// A copy of the text of a member, where it is one.
pub fn owned_field(value: &Json, name: &str) -> (r: Option<String>)
    ensures
        opt_view(r) == value@.text(name@),
{
    match text_field(value, name) {
        Some(text) => Some(copy(text)),
        None => None,
    }
}

fn written_number(number: &Number) -> (r: String)
    ensures
        r@ == number_text(number@),
{
    match number {
        Number::Unsigned(value) => decimal_text(*value),
        Number::Negative(value) => if *value < 0 {
            cat2("-", decimal_text((-(*value + 1)) as u64 + 1).as_str())
        } else {
            decimal_text(*value as u64)
        },
        Number::Other(text) => copy(text.as_str()),
    }
}

/// A value in one line, where there is anything to show.
pub fn scalar(value: &Json) -> (r: Option<String>)
    ensures
        opt_view(r) == scalar_text(value@),
    decreases value,
{
    match value {
        Json::Null => None,
        Json::Bool(flag) => if *flag {
            Some(copy("true"))
        } else {
            Some(copy("false"))
        },
        Json::Number(number) => Some(written_number(number)),
        Json::Text(text) => if text.as_str().is_empty() {
            None
        } else {
            Some(copy(text.as_str()))
        },
        Json::Array(items) => {
            let mut texts: Vec<String> = Vec::new();
            let ghost all = items_view(items@);
            assert(all.take(0) =~= Seq::empty());
            assert(views(texts@) =~= Seq::empty());
            for i in 0..items.len()
                invariant
                    *value == Json::Array(*items),
                    all == items_view(items@),
                    views(texts@) == scalar_texts(all.take(i as int)),
            {
                assert(decreases_to!(*value => value->Array_0));
                assert(decreases_to!(items => items@));
                assert(decreases_to!(items@ => items@[i as int]));
                let ghost next = all.take(i + 1);
                assert(next.subrange(0, next.len() - 1) =~= all.take(i as int));
                assert(next[next.len() - 1] == items@[i as int]@);
                match scalar(&items[i]) {
                    Some(text) => push_part(&mut texts, text),
                    None => {},
                }
            }
            assert(all.take(all.len() as int) =~= all);
            assert(views(texts@).len() == texts@.len());
            if texts.len() == 0 {
                None
            } else {
                Some(join_parts(&texts, ", "))
            }
        },
        Json::Object(_) => match owned_field(value, "web_link") {
            Some(link) => Some(link),
            None => owned_field(value, "self_link"),
        },
    }
}

/// A member of a resource in one line, where there is anything to show.
pub fn scalar_field(value: &Json, name: &str) -> (r: Option<String>)
    ensures
        opt_view(r) == scalar_of(value@, name@),
{
    match value.get(name) {
        Some(member) => scalar(member),
        None => None,
    }
}

/// The last segment of a link.
pub fn last_segment(link: &str) -> (r: String)
    ensures
        r@ == link_name(link@),
{
    after_last(trim_end_matches(link, '/').as_str(), '/')
}

fn person_name(value: &Json) -> (r: Option<String>)
    ensures
        opt_view(r) == person_text(value@),
{
    match value {
        Json::Text(link) => Some(
            trim_start_matches(last_segment(link.as_str()).as_str(), '~'),
        ),
        Json::Object(_) => {
            if let Some(name) = owned_field(value, "display_name") {
                return Some(name);
            }
            if let Some(name) = owned_field(value, "name") {
                return Some(name);
            }
            let link = match text_field(value, "web_link") {
                Some(link) => Some(link),
                None => text_field(value, "self_link"),
            };
            match link {
                Some(link) => Some(trim_start_matches(last_segment(link).as_str(), '~')),
                None => None,
            }
        },
        _ => None,
    }
}

/// The person that a resource names in a member, or in the link that stands for it.
pub fn person_field(value: &Json, name: &str) -> (r: Option<String>)
    ensures
        opt_view(r) == person_of(value@, name@),
{
    if let Some(person) = value.get(name) {
        if let Some(name) = person_name(person) {
            return Some(name);
        }
    }
    match value.get(cat2(name, "_link").as_str()) {
        Some(person) => person_name(person),
        None => None,
    }
}

/// The identifier of a resource: the last segment of its own link.
pub fn resource_id(resource: &Json) -> (r: Option<String>)
    ensures
        opt_view(r) == id_of(resource@),
{
    match text_field(resource, "self_link") {
        Some(link) => Some(last_segment(link)),
        None => None,
    }
}

/// The type of a resource.
pub fn resource_kind(resource: &Json) -> (r: String)
    ensures
        r@ == kind_of(resource@),
{
    match text_field(resource, "resource_type_link") {
        Some(link) => after_last(link, '#'),
        None => copy("resource"),
    }
}

/// What `char::to_uppercase` gives for a character.
pub uninterp spec fn uppercase(character: char) -> Seq<char>;

/// The upper case of a character, which may be several characters.
///
/// Calls `char::to_uppercase`. The outcome depends on the character alone.
#[verifier::external_body]
pub(crate) fn upper(character: char) -> (r: String)
    ensures
        r@ == uppercase(character),
{
    character.to_uppercase().to_string()
}

/// A word with the upper case of its first character in front of the rest of it.
pub open spec fn with_head(head: Seq<char>, word: Seq<char>) -> Seq<char> {
    if word.len() == 0 {
        Seq::empty()
    } else {
        head + word.skip(1)
    }
}

/// A word that begins with an upper-case character.
pub open spec fn capitalised(word: Seq<char>) -> Seq<char> {
    with_head(uppercase(word[0]), word)
}

/// A word with another text in place of its first character.
pub fn replace_head(head: &str, word: &str) -> (r: String)
    ensures
        r@ == with_head(head@, word@),
{
    let letters = characters(word);
    if letters.len() == 0 {
        let empty = String::new();
        assert(empty@ =~= Seq::empty());
        return empty;
    }
    let rest = slice(&letters, 1, letters.len());
    assert(rest@ =~= word@.skip(1));
    cat2(head, rest.as_str())
}

/// A word that begins with an upper-case character.
pub fn capitalise(word: &str) -> (r: String)
    ensures
        r@ == capitalised(word@),
{
    match crate::text::first_character(word) {
        Some(first) => replace_head(upper(first).as_str(), word),
        None => {
            let empty = String::new();
            assert(empty@ =~= Seq::empty());
            empty
        },
    }
}

/// An array shows nothing exactly where none of its items does.
pub proof fn lemma_scalar_of_array(items: Seq<JsonView>)
    ensures
        scalar_text(JsonView::Array(items)) is None <==> (forall|i: int|
            0 <= i < items.len() ==> scalar_text(#[trigger] items[i]) is None),
{
    lemma_scalar_texts_empty(items);
}

proof fn lemma_scalar_texts_empty(items: Seq<JsonView>)
    ensures
        scalar_texts(items).len() == 0 <==> (forall|i: int|
            0 <= i < items.len() ==> scalar_text(#[trigger] items[i]) is None),
    decreases items.len(),
{
    if items.len() > 0 {
        let front = items.subrange(0, items.len() - 1);
        lemma_scalar_texts_empty(front);
        assert forall|i: int| 0 <= i < front.len() implies #[trigger] front[i] == items[i] by {}
        if scalar_texts(items).len() == 0 {
            assert forall|i: int| 0 <= i < items.len() implies scalar_text(#[trigger] items[i]) is None by {
                if i < front.len() {
                    assert(front[i] == items[i]);
                }
            }
        } else if scalar_text(items[items.len() - 1]) is None {
            let i = choose|i: int| 0 <= i < front.len() && scalar_text(#[trigger] front[i]) is Some;
            assert(scalar_text(items[i]) is Some);
        }
    }
}

} // verus!
