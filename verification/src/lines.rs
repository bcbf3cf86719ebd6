//! Documents as lists of blocks: bullets, sections, and one block for each item of a list.
use vstd::prelude::*;
use crate::format::{cat4, cat5, repeat, repeated};
use crate::json::Json;
use crate::split::push_part;
use crate::text::{blank, copy, is_blank, opt_view, trim, trimmed, views};

verus! {

/// Blocks with a bullet behind them, where there is a value to show.
pub open spec fn with_bullet(
    lines: Seq<Seq<char>>,
    label: Seq<char>,
    value: Option<Seq<char>>,
) -> Seq<Seq<char>> {
    match value {
        Some(value) => if value.len() == 0 {
            lines
        } else {
            lines.push("- **"@ + label + ":** "@ + value)
        },
        None => lines,
    }
}

/// Blocks with a section behind them, where its body is not blank.
pub open spec fn with_section(
    lines: Seq<Seq<char>>,
    level: nat,
    title: Seq<char>,
    body: Seq<char>,
) -> Seq<Seq<char>> {
    if is_blank(body) {
        lines
    } else {
        lines.push(repeated('#', level) + " "@ + title + "\n\n"@ + trimmed(body))
    }
}

/// A document that begins with a block.
pub fn begin(text: String) -> (r: Vec<String>)
    ensures
        views(r@) == seq![text@],
{
    let mut lines: Vec<String> = Vec::new();
    lines.push(text);
    assert(views(lines@) =~= seq![text@]);
    lines
}

/// A document without blocks.
pub fn no_lines() -> (r: Vec<String>)
    ensures
        views(r@) == Seq::<Seq<char>>::empty(),
{
    let lines: Vec<String> = Vec::new();
    assert(views(lines@) =~= Seq::<Seq<char>>::empty());
    lines
}

/// Appends a bullet, where there is a value to show.
pub fn push_bullet(lines: &mut Vec<String>, label: &str, value: Option<String>)
    ensures
        views(final(lines)@) == with_bullet(views(old(lines)@), label@, opt_view(value)),
{
    match value {
        Some(value) => if !value.as_str().is_empty() {
            push_part(lines, cat4("- **", label, ":** ", value.as_str()));
        },
        None => {},
    }
}

/// Appends a section, where its body is not blank.
pub fn push_section_at_level(lines: &mut Vec<String>, level: usize, title: &str, body: &str)
    ensures
        views(final(lines)@) == with_section(views(old(lines)@), level as nat, title@, body@),
{
    if !blank(body) {
        push_part(
            lines,
            cat5(repeat('#', level).as_str(), " ", title, "\n\n", trim(body).as_str()),
        );
    }
}

/// Appends a section at the second level, where its body is not blank.
pub fn push_section(lines: &mut Vec<String>, title: &str, body: &str)
    ensures
        views(final(lines)@) == with_section(views(old(lines)@), 2, title@, body@),
{
    push_section_at_level(lines, 2, title, body);
}

/// One text for each item of a list.
pub fn each<F: Fn(&Json) -> String>(items: &Vec<Json>, render: F) -> (r: Vec<String>)
    requires
        forall|item: &Json| call_requires(render, (item,)),
    ensures
        r@.len() == items@.len(),
        forall|i: int|
            0 <= i < items@.len() ==> call_ensures(render, (&items@[i],), #[trigger] r@[i]),
{
    let mut out: Vec<String> = Vec::new();
    for i in 0..items.len()
        invariant
            out@.len() == i,
            forall|item: &Json| call_requires(render, (item,)),
            forall|j: int| 0 <= j < i ==> call_ensures(render, (&items@[j],), #[trigger] out@[j]),
    {
        out.push(render(&items[i]));
    }
    out
}

/// Appends the blocks of one document to another.
pub fn push_lines(lines: &mut Vec<String>, more: Vec<String>)
    ensures
        views(final(lines)@) == views(old(lines)@) + views(more@),
{
    let mut more = more;
    let ghost before = views(lines@);
    let ghost all = views(more@);
    lines.append(&mut more);
    assert(views(lines@) =~= before + all);
}

/// The text, or an empty one for none.
pub open spec fn text_or_empty(text: Option<Seq<char>>) -> Seq<char> {
    match text {
        Some(text) => text,
        None => Seq::empty(),
    }
}

/// The text, or an empty one for none.
pub fn or_empty(text: Option<&str>) -> (r: String)
    ensures
        r@ == text_or_empty(crate::text::opt_str_view(text)),
{
    match text {
        Some(text) => copy(text),
        None => {
            let empty = String::new();
            assert(empty@ =~= Seq::<char>::empty());
            empty
        },
    }
}

/// The text, or another one for none.
pub fn or_text(text: Option<String>, other: &str) -> (r: String)
    ensures
        r@ == crate::fields::value_or(opt_view(text), other@),
{
    match text {
        Some(text) => text,
        None => copy(other),
    }
}

} // verus!
