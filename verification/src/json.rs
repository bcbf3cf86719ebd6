//! JSON values: what Launchpad answers, and the details that operations report.
use vstd::prelude::*;
use crate::text::{copy, same};

verus! {

/// A JSON number. One that is no 64-bit integer is kept as it is written.
pub enum Number {
    Unsigned(u64),
    Negative(i64),
    Other(String),
}

/// A JSON value. The members of an object stand in the order of the object's map.
pub enum Json {
    Null,
    Bool(bool),
    Number(Number),
    Text(String),
    Array(Vec<Json>),
    Object(Vec<(String, Json)>),
}

/// What a JSON number holds.
#[verifier::ext_equal]
pub enum NumberView {
    Unsigned(u64),
    Negative(i64),
    Other(Seq<char>),
}

/// What a JSON value holds.
#[verifier::ext_equal]
pub enum JsonView {
    Null,
    Bool(bool),
    Number(NumberView),
    Text(Seq<char>),
    Array(Seq<JsonView>),
    Object(Seq<(Seq<char>, JsonView)>),
}

impl View for Number {
    type V = NumberView;

    open spec fn view(&self) -> NumberView {
        match *self {
            Number::Unsigned(value) => NumberView::Unsigned(value),
            Number::Negative(value) => NumberView::Negative(value),
            Number::Other(text) => NumberView::Other(text@),
        }
    }
}

/// What a JSON value holds.
pub open spec fn json_view(value: Json) -> JsonView
    decreases value,
{
    match value {
        Json::Null => JsonView::Null,
        Json::Bool(value) => JsonView::Bool(value),
        Json::Number(number) => JsonView::Number(number@),
        Json::Text(text) => JsonView::Text(text@),
        Json::Array(items) => JsonView::Array(items_view(items@)),
        Json::Object(members) => JsonView::Object(members_view(members@)),
    }
}

/// What the values of a list hold.
pub open spec fn items_view(items: Seq<Json>) -> Seq<JsonView>
    decreases items,
{
    Seq::new(
        items.len(),
        |i: int|
            if 0 <= i < items.len() {
                json_view(items[i])
            } else {
                JsonView::Null
            },
    )
}

/// What the members of an object hold.
pub open spec fn members_view(members: Seq<(String, Json)>) -> Seq<(Seq<char>, JsonView)>
    decreases members,
{
    Seq::new(
        members.len(),
        |i: int|
            if 0 <= i < members.len() {
                (members[i].0@, json_view(members[i].1))
            } else {
                (Seq::empty(), JsonView::Null)
            },
    )
}

impl View for Json {
    type V = JsonView;

    open spec fn view(&self) -> JsonView {
        json_view(*self)
    }
}

/// What an optional borrowed JSON value holds.
pub open spec fn opt_json_view(value: Option<&Json>) -> Option<JsonView> {
    match value {
        Some(value) => Some(value@),
        None => None,
    }
}

/// The value of the first member with a name.
pub open spec fn member_in(members: Seq<(Seq<char>, JsonView)>, name: Seq<char>) -> Option<JsonView>
    decreases members.len(),
{
    if members.len() == 0 {
        None
    } else if members[0].0 == name {
        Some(members[0].1)
    } else {
        member_in(members.skip(1), name)
    }
}

impl JsonView {
    /// The value of a member, where this is an object that has it.
    pub open spec fn get(self, name: Seq<char>) -> Option<JsonView> {
        match self {
            JsonView::Object(members) => member_in(members, name),
            _ => None,
        }
    }

    /// The text, where this is one.
    pub open spec fn as_text(self) -> Option<Seq<char>> {
        match self {
            JsonView::Text(text) => Some(text),
            _ => None,
        }
    }

    /// The number, where this is an unsigned 64-bit integer.
    pub open spec fn as_u64(self) -> Option<u64> {
        match self {
            JsonView::Number(NumberView::Unsigned(value)) => Some(value),
            _ => None,
        }
    }

    /// The truth value, where this is one.
    pub open spec fn as_bool(self) -> Option<bool> {
        match self {
            JsonView::Bool(value) => Some(value),
            _ => None,
        }
    }

    /// The items, where this is an array, and none otherwise.
    pub open spec fn items(self) -> Seq<JsonView> {
        match self {
            JsonView::Array(items) => items,
            _ => Seq::empty(),
        }
    }

    /// The text of a member, where this is an object with a member of that name that is a text.
    pub open spec fn text(self, name: Seq<char>) -> Option<Seq<char>> {
        match self.get(name) {
            Some(value) => value.as_text(),
            None => None,
        }
    }

    /// The number of a member, where it is an unsigned 64-bit integer.
    pub open spec fn unsigned(self, name: Seq<char>) -> Option<u64> {
        match self.get(name) {
            Some(value) => value.as_u64(),
            None => None,
        }
    }

    /// The truth value of a member, where it is one.
    pub open spec fn flag(self, name: Seq<char>) -> Option<bool> {
        match self.get(name) {
            Some(value) => value.as_bool(),
            None => None,
        }
    }
}

/// A text, or null for none.
pub open spec fn text_or_null(text: Option<Seq<char>>) -> JsonView {
    match text {
        Some(text) => JsonView::Text(text),
        None => JsonView::Null,
    }
}

/// A value, or null for none.
pub open spec fn value_or_null(value: Option<JsonView>) -> JsonView {
    match value {
        Some(value) => value,
        None => JsonView::Null,
    }
}

/// An unsigned number.
pub open spec fn number_view(value: u64) -> JsonView {
    JsonView::Number(NumberView::Unsigned(value))
}

/// An unsigned number, or null for none.
pub open spec fn number_or_null(value: Option<u64>) -> JsonView {
    match value {
        Some(value) => number_view(value),
        None => JsonView::Null,
    }
}

/// A truth value, or null for none.
pub open spec fn flag_or_null(value: Option<bool>) -> JsonView {
    match value {
        Some(value) => JsonView::Bool(value),
        None => JsonView::Null,
    }
}

/// A list of texts.
pub open spec fn texts_view(texts: Seq<Seq<char>>) -> JsonView {
    JsonView::Array(texts.map_values(|text: Seq<char>| JsonView::Text(text)))
}

impl Json {
    /// The value of a member, where this is an object that has it.
    pub fn get(&self, name: &str) -> (r: Option<&Json>)
        ensures
            opt_json_view(r) == self@.get(name@),
    {
        match self {
            Json::Object(members) => {
                let ghost all = members_view(members@);
                assert(all.skip(0) =~= all);
                for i in 0..members.len()
                    invariant
                        all == members_view(members@),
                        self@ == JsonView::Object(all),
                        member_in(all, name@) == member_in(all.skip(i as int), name@),
                {
                    assert(all.skip(i as int)[0] == (members@[i as int].0@, members@[i as int].1@));
                    if same(members[i].0.as_str(), name) {
                        return Some(&members[i].1);
                    }
                    assert(all.skip(i as int).skip(1) =~= all.skip(i + 1));
                }
                None
            },
            _ => None,
        }
    }

    /// The text, where this is one.
    pub fn as_str(&self) -> (r: Option<&str>)
        ensures
            crate::text::opt_str_view(r) == self@.as_text(),
    {
        match self {
            Json::Text(text) => Some(text.as_str()),
            _ => None,
        }
    }

    /// The number, where this is an unsigned 64-bit integer.
    pub fn as_u64(&self) -> (r: Option<u64>)
        ensures
            r == self@.as_u64(),
    {
        match self {
            Json::Number(Number::Unsigned(value)) => Some(*value),
            _ => None,
        }
    }

    /// The truth value, where this is one.
    pub fn as_bool(&self) -> (r: Option<bool>)
        ensures
            r == self@.as_bool(),
    {
        match self {
            Json::Bool(value) => Some(*value),
            _ => None,
        }
    }

    /// The number of a member, where it is an unsigned 64-bit integer.
    pub fn unsigned(&self, name: &str) -> (r: Option<u64>)
        ensures
            r == self@.unsigned(name@),
    {
        match self.get(name) {
            Some(value) => value.as_u64(),
            None => None,
        }
    }

    /// The truth value of a member, where it is one.
    pub fn flag(&self, name: &str) -> (r: Option<bool>)
        ensures
            r == self@.flag(name@),
    {
        match self.get(name) {
            Some(value) => value.as_bool(),
            None => None,
        }
    }

    /// A copy of the value.
    pub fn copy(&self) -> (r: Json)
        ensures
            r@ == self@,
        decreases self,
    {
        match self {
            Json::Null => Json::Null,
            Json::Bool(value) => Json::Bool(*value),
            Json::Number(Number::Unsigned(value)) => Json::Number(Number::Unsigned(*value)),
            Json::Number(Number::Negative(value)) => Json::Number(Number::Negative(*value)),
            Json::Number(Number::Other(text)) => Json::Number(Number::Other(copy(text.as_str()))),
            Json::Text(text) => Json::Text(copy(text.as_str())),
            Json::Array(items) => {
                let mut out: Vec<Json> = Vec::new();
                for i in 0..items.len()
                    invariant
                        *self == Json::Array(*items),
                        items_view(out@) == items_view(items@).take(i as int),
                {
                    assert(decreases_to!(*self => self->Array_0));
                    assert(decreases_to!(items => items@));
                    assert(decreases_to!(items@ => items@[i as int]));
                    push_item(&mut out, items[i].copy());
                    assert(items_view(items@).take(i + 1) =~= items_view(items@).take(i as int).push(
                        items@[i as int]@,
                    ));
                }
                assert(items_view(items@).take(items@.len() as int) =~= items_view(items@));
                Json::Array(out)
            },
            Json::Object(members) => {
                let mut out: Vec<(String, Json)> = Vec::new();
                for i in 0..members.len()
                    invariant
                        *self == Json::Object(*members),
                        members_view(out@) == members_view(members@).take(i as int),
                {
                    assert(decreases_to!(*self => self->Object_0));
                    assert(decreases_to!(members => members@));
                    assert(decreases_to!(members@ => members@[i as int]));
                    assert(decreases_to!(members@[i as int] => members@[i as int].1));
                    push_member(&mut out, members[i].0.as_str(), members[i].1.copy());
                    assert(members_view(members@).take(i + 1) =~= members_view(members@).take(
                        i as int,
                    ).push((members@[i as int].0@, members@[i as int].1@)));
                }
                assert(members_view(members@).take(members@.len() as int) =~= members_view(members@));
                Json::Object(out)
            },
        }
    }

    /// A text.
    pub fn of_text(text: &str) -> (r: Json)
        ensures
            r@ == JsonView::Text(text@),
    {
        Json::Text(copy(text))
    }

    /// A text, or null for none.
    pub fn of_option(text: Option<&str>) -> (r: Json)
        ensures
            r@ == text_or_null(crate::text::opt_str_view(text)),
    {
        match text {
            Some(text) => Json::of_text(text),
            None => Json::Null,
        }
    }

    /// An unsigned number.
    pub fn of_number(value: u64) -> (r: Json)
        ensures
            r@ == number_view(value),
    {
        Json::Number(Number::Unsigned(value))
    }

    /// An unsigned number, or null for none.
    pub fn of_number_option(value: Option<u64>) -> (r: Json)
        ensures
            r@ == number_or_null(value),
    {
        match value {
            Some(value) => Json::of_number(value),
            None => Json::Null,
        }
    }

    /// A truth value, or null for none.
    pub fn of_flag_option(value: Option<bool>) -> (r: Json)
        ensures
            r@ == flag_or_null(value),
    {
        match value {
            Some(value) => Json::Bool(value),
            None => Json::Null,
        }
    }

    /// A list of texts.
    pub fn of_texts(texts: &Vec<String>) -> (r: Json)
        ensures
            r@ == texts_view(crate::text::views(texts@)),
    {
        let mut out: Vec<Json> = Vec::new();
        for i in 0..texts.len()
            invariant
                out.len() == i,
                forall|j: int| 0 <= j < i ==> #[trigger] items_view(out@)[j] == JsonView::Text(texts@[j]@),
        {
            push_item(&mut out, Json::of_text(texts[i].as_str()));
        }
        assert(items_view(out@) =~= crate::text::views(texts@).map_values(
            |text: Seq<char>| JsonView::Text(text),
        ));
        Json::Array(out)
    }
}

/// Appends a value to a list.
pub fn push_item(items: &mut Vec<Json>, value: Json)
    ensures
        items_view(final(items)@) == items_view(old(items)@).push(value@),
        final(items)@.len() == old(items)@.len() + 1,
{
    items.push(value);
    assert(items_view(items@) =~= items_view(old(items)@).push(value@));
}

/// Appends a member to an object.
pub fn push_member(members: &mut Vec<(String, Json)>, name: &str, value: Json)
    ensures
        members_view(final(members)@) == members_view(old(members)@).push((name@, value@)),
{
    members.push((copy(name), value));
    assert(members_view(members@) =~= members_view(old(members)@).push((name@, value@)));
}

/// The members of an object that has none.
pub fn no_members() -> (r: Vec<(String, Json)>)
    ensures
        members_view(r@) == Seq::<(Seq<char>, JsonView)>::empty(),
{
    let r: Vec<(String, Json)> = Vec::new();
    assert(members_view(r@) =~= Seq::<(Seq<char>, JsonView)>::empty());
    r
}

/// A list without items.
pub fn no_items() -> (r: Vec<Json>)
    ensures
        items_view(r@) == Seq::<JsonView>::empty(),
{
    let r: Vec<Json> = Vec::new();
    assert(items_view(r@) =~= Seq::<JsonView>::empty());
    r
}

} // verus!
