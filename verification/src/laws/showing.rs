//! What the texts that are given show, and from which member each part of them comes.
use vstd::prelude::*;
use crate::diff::{DiffLineKind, DiffSide, LocationView};
use crate::fields::{id_of, person_of, reviewer_member, scalar_of};
use crate::json::JsonView;
use crate::laws::terms::lemma_link_name;
use crate::lines::{with_bullet, with_section};
use crate::number::decimal;
use crate::order::order_of;
use crate::render::{
    bug_bullets, bug_document, bug_task_line, comment_block, comment_body, comment_heading,
    proposal_bullets, proposal_document, proposal_title, repository_document, vote_line,
    with_comments,
};
use crate::report::{
    alternative_line, bug_search_document, bug_search_line, current_vote_line,
    diff_location_document, discussion_activity, discussion_bullets, discussion_counts,
    discussion_document, found_proposal_line, inline_comment_block, inline_comments_document,
    preview_diff_key, preview_diff_line, preview_diffs_document, proposal_lookup_document,
    proposal_search_document, review_drafts_document, transition_line, transition_lines,
    DiscussionSections,
};
use crate::split::join;
use crate::text::{contains_text, is_blank, occurs_at, trim_start_of, trimmed};

verus! {

/// Whether a text shows another, all of it in one piece.
pub open spec fn shows(text: Seq<char>, part: Seq<char>) -> bool {
    contains_text(text, part)
}

/// The line of a value under a label.
pub open spec fn bullet(label: Seq<char>, value: Seq<char>) -> Seq<char> {
    "- **"@ + label + ":** "@ + value
}

/// Whether a text shows the text of a member, where there is one, under a label.
pub open spec fn shows_member(
    text: Seq<char>,
    label: Seq<char>,
    resource: JsonView,
    name: Seq<char>,
) -> bool {
    resource.text(name) matches Some(value) ==> value.len() > 0 ==> shows(text, bullet(label, value))
}

/// Whether a text shows a person, where there is one, under a label.
pub open spec fn shows_person(
    text: Seq<char>,
    label: Seq<char>,
    resource: JsonView,
    name: Seq<char>,
) -> bool {
    person_of(resource, name) matches Some(person) ==> person.len() > 0 ==> shows(
        text,
        bullet(label, person),
    )
}

pub(crate) proof fn lemma_shows_within(text: Seq<char>, part: Seq<char>, piece: Seq<char>)
    requires
        shows(text, part),
        shows(part, piece),
    ensures
        shows(text, piece),
{
    let outer = choose|at: int| occurs_at(text, part, at);
    let inner = choose|at: int| occurs_at(part, piece, at);
    assert(text.subrange(outer + inner, outer + inner + piece.len()) =~= text.subrange(
        outer,
        outer + part.len(),
    ).subrange(inner, inner + piece.len()));
    assert(occurs_at(text, piece, outer + inner));
}

pub(crate) proof fn lemma_shows_at(before: Seq<char>, part: Seq<char>, after: Seq<char>)
    ensures
        shows(before + part + after, part),
        shows(before + part, part),
        shows(part + after, part),
        shows(part, part),
{
    let text = before + part + after;
    let at = before.len() as int;
    assert(text.subrange(at, at + part.len()) =~= part);
    assert(occurs_at(text, part, at));
    let end = before + part;
    assert(end.subrange(at, at + part.len()) =~= part);
    assert(occurs_at(end, part, at));
    let start = part + after;
    assert(start.subrange(0, part.len() as int) =~= part);
    assert(occurs_at(start, part, 0));
    assert(part.subrange(0, part.len() as int) =~= part);
    assert(occurs_at(part, part, 0));
}

/// A text of parts shows each of them, and begins with the first.
pub proof fn lemma_join_shows(parts: Seq<Seq<char>>, separator: Seq<char>, i: int)
    requires
        0 <= i < parts.len(),
    ensures
        shows(join(parts, separator), parts[i]),
        parts[0].is_prefix_of(join(parts, separator)),
    decreases parts.len(),
{
    let text = join(parts, separator);
    if parts.len() == 1 {
        lemma_shows_at(Seq::empty(), parts[0], Seq::empty());
    } else {
        let front = parts.drop_last();
        let before = join(front, separator);
        if i < parts.len() - 1 {
            lemma_join_shows(front, separator, i);
            assert(front[i] == parts[i]);
            assert(text =~= before + (separator + parts.last()));
            lemma_shows_at(Seq::empty(), before, separator + parts.last());
            lemma_shows_within(text, before, parts[i]);
        } else {
            lemma_join_shows(front, separator, 0);
            lemma_shows_at(before + separator, parts.last(), Seq::empty());
        }
        assert(front[0] == parts[0]);
        assert(text.take(parts[0].len() as int) =~= before.take(parts[0].len() as int));
    }
}

/// Whether lines are kept where more stand behind them.
#[verifier::opaque]
spec fn grows(before: Seq<Seq<char>>, after: Seq<Seq<char>>) -> bool {
    before.len() <= after.len() && forall|i: int|
        0 <= i < before.len() ==> #[trigger] after[i] == before[i]
}

proof fn lemma_grows(first: Seq<Seq<char>>, second: Seq<Seq<char>>, third: Seq<Seq<char>>)
    requires
        grows(first, second),
        grows(second, third),
    ensures
        grows(first, third),
{
    reveal(grows);
    assert forall|i: int| 0 <= i < first.len() implies #[trigger] third[i] == first[i] by {
        assert(second[i] == first[i]);
    }
}

proof fn lemma_grows_itself(lines: Seq<Seq<char>>)
    ensures
        grows(lines, lines),
{
    reveal(grows);
}

proof fn lemma_grows_by(lines: Seq<Seq<char>>, more: Seq<Seq<char>>)
    ensures
        grows(lines, lines + more),
{
    reveal(grows);
}

proof fn lemma_grows_by_one(lines: Seq<Seq<char>>, line: Seq<char>)
    ensures
        grows(lines, lines.push(line)),
{
    reveal(grows);
}

proof fn lemma_bullet_grows(lines: Seq<Seq<char>>, label: Seq<char>, value: Option<Seq<char>>)
    ensures
        grows(lines, with_bullet(lines, label, value)),
        value matches Some(value) ==> value.len() > 0 ==> with_bullet(lines, label, Some(value))[lines.len() as int]
            == bullet(label, value) && with_bullet(lines, label, Some(value)).len() == lines.len() + 1,
{
    reveal(grows);
}

proof fn lemma_section_grows(lines: Seq<Seq<char>>, level: nat, title: Seq<char>, body: Seq<char>)
    ensures
        grows(lines, with_section(lines, level, title, body)),
        !is_blank(body) ==> {
            &&& with_section(lines, level, title, body).len() == lines.len() + 1
            &&& shows(with_section(lines, level, title, body)[lines.len() as int], trimmed(body))
            &&& shows(with_section(lines, level, title, body)[lines.len() as int], title)
        },
{
    reveal(grows);
    if !is_blank(body) {
        let head = crate::format::repeated('#', level) + " "@;
        let own = with_section(lines, level, title, body)[lines.len() as int];
        lemma_shows_at(head + title + "\n\n"@, trimmed(body), Seq::empty());
        assert(own =~= head + title + ("\n\n"@ + trimmed(body)));
        lemma_shows_at(head, title, "\n\n"@ + trimmed(body));
    }
}

/// Lines with values under labels behind them, as far as there are any.
spec fn labelled(
    lines: Seq<Seq<char>>,
    items: Seq<(Seq<char>, Option<Seq<char>>)>,
) -> Seq<Seq<char>>
    decreases items.len(),
{
    if items.len() == 0 {
        lines
    } else {
        with_bullet(labelled(lines, items.drop_last()), items.last().0, items.last().1)
    }
}

proof fn lemma_labelled_push(
    lines: Seq<Seq<char>>,
    items: Seq<(Seq<char>, Option<Seq<char>>)>,
    label: Seq<char>,
    value: Option<Seq<char>>,
)
    ensures
        labelled(lines, items.push((label, value))) == with_bullet(
            labelled(lines, items),
            label,
            value,
        ),
{
    assert(items.push((label, value)).drop_last() =~= items);
}

proof fn lemma_labelled(
    lines: Seq<Seq<char>>,
    items: Seq<(Seq<char>, Option<Seq<char>>)>,
    all: Seq<Seq<char>>,
    i: int,
)
    requires
        grows(labelled(lines, items), all),
        0 <= i < items.len(),
    ensures
        items[i].1 matches Some(value) ==> value.len() > 0 ==> shows(
            join(all, "\n\n"@),
            bullet(items[i].0, value),
        ),
    decreases items.len(),
{
    let front = items.drop_last();
    let before = labelled(lines, front);
    lemma_bullet_grows(before, items.last().0, items.last().1);
    lemma_grows(before, labelled(lines, items), all);
    if i < front.len() {
        assert(front[i] == items[i]);
        lemma_labelled(lines, front, all, i);
    } else if let Some(value) = items[i].1 {
        if value.len() > 0 {
            lemma_line_shown(labelled(lines, items), all, before.len() as int);
        }
    }
}

proof fn lemma_labelled_grows(
    lines: Seq<Seq<char>>,
    items: Seq<(Seq<char>, Option<Seq<char>>)>,
)
    ensures
        grows(lines, labelled(lines, items)),
    decreases items.len(),
{
    lemma_grows_itself(lines);
    if items.len() > 0 {
        let before = labelled(lines, items.drop_last());
        lemma_labelled_grows(lines, items.drop_last());
        lemma_bullet_grows(before, items.last().0, items.last().1);
        lemma_grows(lines, before, labelled(lines, items));
    }
}

/// Whether a document of lines shows the line at an index of some of its first lines.
proof fn lemma_line_shown(lines: Seq<Seq<char>>, all: Seq<Seq<char>>, i: int)
    requires
        grows(lines, all),
        0 <= i < lines.len(),
    ensures
        shows(join(all, "\n\n"@), lines[i]),
{
    reveal(grows);
    assert(all[i] == lines[i]);
    lemma_join_shows(all, "\n\n"@, i);
}

proof fn lemma_nonempty_shown(lines: Seq<Seq<char>>, all: Seq<Seq<char>>)
    requires
        grows(lines, all),
    ensures
        lines.len() > 0 ==> shows(join(all, "\n\n"@), lines[0]) && lines[0].is_prefix_of(
            join(all, "\n\n"@),
        ),
{
    if lines.len() > 0 {
        lemma_line_shown(lines, all, 0);
        lemma_first_line(lines, all);
    }
}

proof fn lemma_first_line(lines: Seq<Seq<char>>, all: Seq<Seq<char>>)
    requires
        grows(lines, all),
        lines.len() > 0,
    ensures
        lines[0].is_prefix_of(join(all, "\n\n"@)),
{
    reveal(grows);
    assert(all[0] == lines[0]);
    lemma_join_shows(all, "\n\n"@, 0);
}

/// A text that is not blank shows, without the blanks around it, a piece of it that has none.
proof fn lemma_trim_shows(text: Seq<char>, piece: Seq<char>)
    requires
        shows(text, piece),
        piece.len() > 0,
        !crate::text::is_space(piece[0]) && !crate::text::is_space(piece.last()),
    ensures
        shows(trimmed(text), piece),
        !is_blank(text),
{
    let at = choose|at: int| occurs_at(text, piece, at);
    lemma_trim_start_shows(text, piece, at);
    let started = crate::text::trim_start(text);
    let next = choose|at: int| occurs_at(started, piece, at);
    lemma_trim_end_shows(started, piece, next);
}

proof fn lemma_trim_start_shows(text: Seq<char>, piece: Seq<char>, at: int)
    requires
        occurs_at(text, piece, at),
        piece.len() > 0,
        !crate::text::is_space(piece[0]),
    ensures
        shows(crate::text::trim_start(text), piece),
    decreases text.len(),
{
    if text.len() > 0 && crate::text::is_space(text[0]) {
        assert(text.subrange(at, at + piece.len())[0] == text[at]);
        assert(at > 0);
        let rest = text.skip(1);
        assert(rest.subrange(at - 1, at - 1 + piece.len()) =~= text.subrange(at, at + piece.len()));
        lemma_trim_start_shows(rest, piece, at - 1);
    } else {
        assert(occurs_at(text, piece, at));
    }
}

proof fn lemma_trim_end_shows(text: Seq<char>, piece: Seq<char>, at: int)
    requires
        occurs_at(text, piece, at),
        piece.len() > 0,
        !crate::text::is_space(piece.last()),
    ensures
        shows(crate::text::trim_end(text), piece),
        crate::text::trim_end(text).len() > 0,
    decreases text.len(),
{
    if text.len() > 0 && crate::text::is_space(text.last()) {
        let end = at + piece.len();
        assert(text.subrange(at, end)[piece.len() - 1] == text[end - 1]);
        assert(end < text.len());
        let front = text.drop_last();
        assert(front.subrange(at, end) =~= text.subrange(at, end));
        lemma_trim_end_shows(front, piece, at);
    } else {
        assert(occurs_at(text, piece, at));
    }
}

/// Whether a text begins and ends with something else than a blank.
pub open spec fn is_solid(text: Seq<char>) -> bool {
    text.len() > 0 && !crate::text::is_space(text[0]) && !crate::text::is_space(text.last())
}

/// A person is named by the display name, or the name, that stands in the member, or else by the
/// last segment of the link that stands for it, without its tilde.
pub proof fn lemma_person_is_named(resource: JsonView, name: Seq<char>, front: Seq<char>, own: Seq<char>)
    requires
        own.len() > 0 && !own.contains('/') && own[0] != '~',
    ensures
        resource.get(name) matches Some(person) ==> (person is Object ==> (person.text(
            "display_name"@,
        ) matches Some(shown) ==> person_of(resource, name) == Some(shown))),
        resource.get(name) is None && resource.text(name + "_link"@) == Some(
            front + seq!['/'] + (seq!['~'] + own),
        ) ==> person_of(resource, name) == Some(own),
{
    let segment = seq!['~'] + own;
    assert(!segment.contains('/')) by {
        if segment.contains('/') {
            let i = choose|i: int| 0 <= i < segment.len() && segment[i] == '/';
            assert(own[i - 1] == '/');
        }
    }
    lemma_link_name(front, segment);
    assert(segment.skip(1) =~= own);
    assert(trim_start_of(own, '~') == own);
}

/// A repository is shown by its name, and with its branch, status, type, dates, URLs, page, owner,
/// target and description.
#[verifier::rlimit(80)]
pub proof fn lemma_repository_is_shown(repository: JsonView)
    ensures
        ({
            let text = repository_document(repository);
            &&& repository.text("unique_name"@) matches Some(name) ==> ("# "@ + name).is_prefix_of(text)
            &&& shows_person(text, "Owner"@, repository, "owner"@)
            &&& shows_person(text, "Target"@, repository, "target"@)
            &&& shows_member(text, "Default branch"@, repository, "default_branch"@)
            &&& shows_member(text, "Status"@, repository, "status"@)
            &&& shows_member(text, "Information type"@, repository, "information_type"@)
            &&& shows_member(text, "Created"@, repository, "date_created"@)
            &&& shows_member(text, "Updated"@, repository, "date_last_modified"@)
            &&& shows_member(text, "Clone URL"@, repository, "git_https_url"@)
            &&& shows_member(text, "SSH URL"@, repository, "git_ssh_url"@)
            &&& shows_member(text, "URL"@, repository, "web_link"@)
            &&& repository.text("description"@) matches Some(description) ==> !is_blank(description)
                ==> shows(text, trimmed(description))
        }),
{
    let l0: Seq<Seq<char>> = seq![
        "# "@ + crate::fields::value_or(
            crate::fields::either(repository.text("unique_name"@), repository.text("name"@)),
            "repository"@,
        ),
    ];
    let i0: Seq<(Seq<char>, Option<Seq<char>>)> = Seq::empty();
    let i1 = i0.push(("Owner"@, person_of(repository, "owner"@)));
    lemma_labelled_push(l0, i0, "Owner"@, person_of(repository, "owner"@));
    let i2 = i1.push(("Target"@, person_of(repository, "target"@)));
    lemma_labelled_push(l0, i1, "Target"@, person_of(repository, "target"@));
    let i3 = i2.push(("Default branch"@, scalar_of(repository, "default_branch"@)));
    lemma_labelled_push(l0, i2, "Default branch"@, scalar_of(repository, "default_branch"@));
    let i4 = i3.push(("Status"@, scalar_of(repository, "status"@)));
    lemma_labelled_push(l0, i3, "Status"@, scalar_of(repository, "status"@));
    let i5 = i4.push(("Information type"@, scalar_of(repository, "information_type"@)));
    lemma_labelled_push(l0, i4, "Information type"@, scalar_of(repository, "information_type"@));
    let i6 = i5.push(("Created"@, scalar_of(repository, "date_created"@)));
    lemma_labelled_push(l0, i5, "Created"@, scalar_of(repository, "date_created"@));
    let i7 = i6.push(("Updated"@, scalar_of(repository, "date_last_modified"@)));
    lemma_labelled_push(l0, i6, "Updated"@, scalar_of(repository, "date_last_modified"@));
    let i8 = i7.push(("Clone URL"@, scalar_of(repository, "git_https_url"@)));
    lemma_labelled_push(l0, i7, "Clone URL"@, scalar_of(repository, "git_https_url"@));
    let i9 = i8.push(("SSH URL"@, scalar_of(repository, "git_ssh_url"@)));
    lemma_labelled_push(l0, i8, "SSH URL"@, scalar_of(repository, "git_ssh_url"@));
    let i10 = i9.push(("URL"@, scalar_of(repository, "web_link"@)));
    lemma_labelled_push(l0, i9, "URL"@, scalar_of(repository, "web_link"@));
    let b0 = labelled(l0, i10);
    let b1 = with_section(
        b0,
        2,
        "Description"@,
        crate::lines::text_or_empty(repository.text("description"@)),
    );
    lemma_section_grows(
        b0,
        2,
        "Description"@,
        crate::lines::text_or_empty(repository.text("description"@)),
    );
    assert(grows(b0, b1));
    assert(repository_document(repository) == join(b1, "\n\n"@));
    lemma_grows_itself(b1);
    lemma_grows(b0, b1, b1);
    assert(i10[0] == i1[0]);
    lemma_labelled(l0, i10, b1, 0);
    assert(i10[1] == i2[1]);
    lemma_labelled(l0, i10, b1, 1);
    assert(i10[2] == i3[2]);
    lemma_labelled(l0, i10, b1, 2);
    assert(i10[3] == i4[3]);
    lemma_labelled(l0, i10, b1, 3);
    assert(i10[4] == i5[4]);
    lemma_labelled(l0, i10, b1, 4);
    assert(i10[5] == i6[5]);
    lemma_labelled(l0, i10, b1, 5);
    assert(i10[6] == i7[6]);
    lemma_labelled(l0, i10, b1, 6);
    assert(i10[7] == i8[7]);
    lemma_labelled(l0, i10, b1, 7);
    assert(i10[8] == i9[8]);
    lemma_labelled(l0, i10, b1, 8);
    assert(i10[9] == i10[9]);
    lemma_labelled(l0, i10, b1, 9);
    if b1.len() > b0.len() { lemma_line_shown(b1, b1, b0.len() as int); }
    lemma_labelled_grows(l0, i10);
    lemma_grows(l0, b0, b1);
    lemma_nonempty_shown(l0, b1);
    if let Some(description) = repository.text("description"@) {
        if !is_blank(description) {
            lemma_shows_within(
                repository_document(repository),
                b1[b0.len() as int],
                trimmed(description),
            );
        }
    }
}

/// A bug is shown by its number and title, with its owner, dates, type and page, and its
/// description.
#[verifier::rlimit(80)]
#[verifier::rlimit(80)]
pub proof fn lemma_bug_is_shown(
    bug: JsonView,
    tasks: Seq<JsonView>,
    comments: Seq<JsonView>,
    include_comments: bool,
    comment_limit: nat,
)
    ensures
        ({
            let text = bug_document(bug, tasks, comments, include_comments, comment_limit);
            &&& bug.unsigned("id"@) matches Some(id) ==> (bug.text("title"@) matches Some(title)
                ==> ("# Bug #"@ + decimal(id as nat) + ": "@ + title).is_prefix_of(text))
            &&& shows_person(text, "Owner"@, bug, "owner"@)
            &&& shows_member(text, "Created"@, bug, "date_created"@)
            &&& shows_member(text, "Updated"@, bug, "date_last_updated"@)
            &&& shows_member(text, "Information type"@, bug, "information_type"@)
            &&& shows_member(text, "URL"@, bug, "web_link"@)
            &&& bug.text("description"@) matches Some(description) ==> !is_blank(description) ==> shows(
                text,
                trimmed(description),
            )
        }),
{
    let lines = join(tasks.map_values(|task: JsonView| bug_task_line(task)), "\n"@);
    let document = bug_document(bug, tasks, comments, include_comments, comment_limit);
    let i: int = 0;
    let l0: Seq<Seq<char>> = seq![
        "# Bug #"@ + crate::fields::value_or(scalar_of(bug, "id"@), "?"@) + ": "@ + crate::fields::value_or(
            bug.text("title"@),
            "Untitled"@,
        ),
    ];
    let i0: Seq<(Seq<char>, Option<Seq<char>>)> = Seq::empty();
    let i1 = i0.push(("Status"@, crate::render::joined_scalars(tasks, "status"@)));
    lemma_labelled_push(l0, i0, "Status"@, crate::render::joined_scalars(tasks, "status"@));
    let i2 = i1.push(("Importance"@, crate::render::joined_scalars(tasks, "importance"@)));
    lemma_labelled_push(l0, i1, "Importance"@, crate::render::joined_scalars(tasks, "importance"@));
    let i3 = i2.push(("Owner"@, person_of(bug, "owner"@)));
    lemma_labelled_push(l0, i2, "Owner"@, person_of(bug, "owner"@));
    let i4 = i3.push(("Created"@, scalar_of(bug, "date_created"@)));
    lemma_labelled_push(l0, i3, "Created"@, scalar_of(bug, "date_created"@));
    let i5 = i4.push(("Updated"@, scalar_of(bug, "date_last_updated"@)));
    lemma_labelled_push(l0, i4, "Updated"@, scalar_of(bug, "date_last_updated"@));
    let i6 = i5.push(("Information type"@, scalar_of(bug, "information_type"@)));
    lemma_labelled_push(l0, i5, "Information type"@, scalar_of(bug, "information_type"@));
    let i7 = i6.push(("Tags"@, scalar_of(bug, "tags"@)));
    lemma_labelled_push(l0, i6, "Tags"@, scalar_of(bug, "tags"@));
    let i8 = i7.push(("Heat"@, scalar_of(bug, "heat"@)));
    lemma_labelled_push(l0, i7, "Heat"@, scalar_of(bug, "heat"@));
    let i9 = i8.push(("URL"@, scalar_of(bug, "web_link"@)));
    lemma_labelled_push(l0, i8, "URL"@, scalar_of(bug, "web_link"@));
    let b0 = labelled(l0, i9);
    let b1 = with_section(
        b0,
        2,
        "Description"@,
        crate::lines::text_or_empty(bug.text("description"@)),
    );
    lemma_section_grows(
        b0,
        2,
        "Description"@,
        crate::lines::text_or_empty(bug.text("description"@)),
    );
    assert(grows(b0, b1));
    let b2 = if tasks.len() > 0 { with_section(b1, 2, "Tasks"@, lines) } else { b1 };
    lemma_section_grows(b1, 2, "Tasks"@, lines);
    lemma_grows_itself(b1);
    assert(grows(b1, b2));
    let b3 = with_comments(b2, 2, comments, include_comments, comment_limit);
    lemma_comments_grow(b2, 2, comments, include_comments, comment_limit, i);
    assert(grows(b2, b3));
    assert(document == join(b3, "\n\n"@));
    lemma_grows_itself(b3);
    lemma_grows(b2, b3, b3);
    lemma_grows(b1, b2, b3);
    lemma_grows(b0, b1, b3);
    assert(i9[0] == i1[0]);
    lemma_labelled(l0, i9, b3, 0);
    assert(i9[1] == i2[1]);
    lemma_labelled(l0, i9, b3, 1);
    assert(i9[2] == i3[2]);
    lemma_labelled(l0, i9, b3, 2);
    assert(i9[3] == i4[3]);
    lemma_labelled(l0, i9, b3, 3);
    assert(i9[4] == i5[4]);
    lemma_labelled(l0, i9, b3, 4);
    assert(i9[5] == i6[5]);
    lemma_labelled(l0, i9, b3, 5);
    assert(i9[6] == i7[6]);
    lemma_labelled(l0, i9, b3, 6);
    assert(i9[7] == i8[7]);
    lemma_labelled(l0, i9, b3, 7);
    assert(i9[8] == i9[8]);
    lemma_labelled(l0, i9, b3, 8);
    if b1.len() > b0.len() { lemma_line_shown(b1, b3, b0.len() as int); }
    if b2.len() > b1.len() { lemma_line_shown(b2, b3, b1.len() as int); }
    if b3.len() > b2.len() { lemma_line_shown(b3, b3, b2.len() as int); }
    lemma_labelled_grows(l0, i9);
    lemma_grows(l0, b0, b3);
    lemma_nonempty_shown(l0, b3);
    if let Some(description) = bug.text("description"@) {
        if !is_blank(description) {
            lemma_shows_within(document, b1[b0.len() as int], trimmed(description));
        }
    }
}

/// A bug is shown with all its tasks, and with its comments exactly where they are wanted.
pub proof fn lemma_bug_lists_are_shown(
    bug: JsonView,
    tasks: Seq<JsonView>,
    comments: Seq<JsonView>,
    include_comments: bool,
    comment_limit: nat,
    i: int,
)
    ensures
        ({
            let text = bug_document(bug, tasks, comments, include_comments, comment_limit);
            &&& 0 <= i < tasks.len() && is_solid(bug_task_line(tasks[i])) ==> shows(
                text,
                bug_task_line(tasks[i]),
            )
            &&& include_comments && 0 <= i < comments.len() && is_solid(comment_block(comments[i]))
                ==> shows(text, comment_block(comments[i]))
            &&& !include_comments ==> text == bug_document(bug, tasks, Seq::empty(), false, 0)
        }),
{
    let lines = join(tasks.map_values(|task: JsonView| bug_task_line(task)), "\n"@);
    let document = bug_document(bug, tasks, comments, include_comments, comment_limit);
    let l0: Seq<Seq<char>> = bug_bullets(bug, tasks);
    let i0: Seq<(Seq<char>, Option<Seq<char>>)> = Seq::empty();
    let b0 = labelled(l0, i0);
    let b1 = with_section(
        b0,
        2,
        "Description"@,
        crate::lines::text_or_empty(bug.text("description"@)),
    );
    lemma_section_grows(
        b0,
        2,
        "Description"@,
        crate::lines::text_or_empty(bug.text("description"@)),
    );
    assert(grows(b0, b1));
    let b2 = if tasks.len() > 0 { with_section(b1, 2, "Tasks"@, lines) } else { b1 };
    lemma_section_grows(b1, 2, "Tasks"@, lines);
    lemma_grows_itself(b1);
    assert(grows(b1, b2));
    let b3 = with_comments(b2, 2, comments, include_comments, comment_limit);
    lemma_comments_grow(b2, 2, comments, include_comments, comment_limit, i);
    assert(grows(b2, b3));
    assert(document == join(b3, "\n\n"@));
    lemma_grows_itself(b3);
    lemma_grows(b2, b3, b3);
    lemma_grows(b1, b2, b3);
    lemma_grows(b0, b1, b3);
    if b1.len() > b0.len() { lemma_line_shown(b1, b3, b0.len() as int); }
    if b2.len() > b1.len() { lemma_line_shown(b2, b3, b1.len() as int); }
    if b3.len() > b2.len() { lemma_line_shown(b3, b3, b2.len() as int); }
    lemma_labelled_grows(l0, i0);
    lemma_grows(l0, b0, b3);
    lemma_nonempty_shown(l0, b3);
    if 0 <= i < tasks.len() && is_solid(bug_task_line(tasks[i])) {
        let each = tasks.map_values(|task: JsonView| bug_task_line(task));
        lemma_join_shows(each, "\n"@, i);
        lemma_trim_shows(lines, each[i]);
        lemma_shows_within(document, b2[b1.len() as int], trimmed(lines));
        lemma_shows_within(document, trimmed(lines), each[i]);
    }
    if include_comments && 0 <= i < comments.len() && is_solid(comment_block(comments[i])) {
        lemma_shows_within(document, b3[b2.len() as int], comment_block(comments[i]));
    }
}

proof fn lemma_comments_grow(
    lines: Seq<Seq<char>>,
    level: nat,
    comments: Seq<JsonView>,
    shown: bool,
    limit: nat,
    i: int,
)
    ensures
        grows(lines, with_comments(lines, level, comments, shown, limit)),
        shown && 0 <= i < comments.len() && is_solid(comment_block(comments[i])) ==> {
            let after = with_comments(lines, level, comments, shown, limit);
            after.len() == lines.len() + 1 && shows(
                after[lines.len() as int],
                comment_block(comments[i]),
            )
        },
        !shown ==> with_comments(lines, level, comments, shown, limit) == lines,
{
    let each = comments.map_values(|comment: JsonView| comment_block(comment));
    let body = join(each, "\n\n"@);
    let title = "Comments (up to "@ + decimal(limit) + ")"@;
    lemma_section_grows(lines, level, title, body);
    lemma_grows_itself(lines);
    if shown && 0 <= i < comments.len() && is_solid(comment_block(comments[i])) {
        lemma_join_shows(each, "\n\n"@, i);
        lemma_trim_shows(body, each[i]);
        let after = with_comments(lines, level, comments, shown, limit);
        lemma_shows_within(after[lines.len() as int], trimmed(body), each[i]);
    }
}

/// A task of a bug is shown with its target, its status and its importance, and with whom it is
/// assigned to.
pub proof fn lemma_task_is_shown(task: JsonView)
    ensures
        task.text("bug_target_display_name"@) matches Some(target) ==> (task.text(
            "status"@,
        ) matches Some(status) ==> (task.text("importance"@) matches Some(importance) ==> {
            let start = "- **"@ + target + ":** "@ + status + " · "@ + importance;
            &&& start.is_prefix_of(bug_task_line(task))
            &&& person_of(task, "assignee"@) matches Some(person) ==> bug_task_line(task) == start
                + " · assignee: "@ + person
            &&& person_of(task, "assignee"@) is None ==> bug_task_line(task) == start
        })),
{
    if let Some(target) = task.text("bug_target_display_name"@) {
        if let Some(status) = task.text("status"@) {
            if let Some(importance) = task.text("importance"@) {
                let start = "- **"@ + target + ":** "@ + status + " · "@ + importance;
                if let Some(person) = person_of(task, "assignee"@) {
                    assert(bug_task_line(task) =~= start + " · assignee: "@ + person);
                } else {
                    assert(bug_task_line(task) =~= start);
                }
                assert(bug_task_line(task).take(start.len() as int) =~= start);
            }
        }
    }
}

/// A comment is shown with its author, when it was made, its vote, and its body without the blanks
/// around it, or a note where it has none. A title stands in front of the body where it says
/// something else.
pub proof fn lemma_comment_is_shown(comment: JsonView)
    ensures
        comment_heading(comment).is_prefix_of(comment_block(comment)),
        crate::laws::discussing::body_of(comment) matches Some(body) ==> shows(
            comment_block(comment),
            trimmed(body),
        ),
        crate::laws::discussing::body_of(comment) is None ==> shows(
            comment_block(comment),
            "_No written comment._"@,
        ),
        crate::laws::discussing::body_of(comment) matches Some(body) ==> (comment.text(
            "title"@,
        ) matches Some(title) ==> (crate::split::compacted(title) != crate::split::compacted(body)
            ==> shows(comment_block(comment), "**"@ + title + "**"@))),
{
    let heading = comment_heading(comment);
    let own = comment_block(comment);
    if let Some(body) = comment_body(comment) {
        let title = crate::fields::either(comment.text("title"@), comment.text("subject"@));
        if title is Some && crate::split::compacted(title->0) != crate::split::compacted(body) {
            let parts = seq![heading, "**"@ + title->0 + "**"@, trimmed(body)];
            lemma_join_shows(parts, "\n\n"@, 1);
            lemma_join_shows(parts, "\n\n"@, 2);
        } else {
            let parts = seq![heading, trimmed(body)];
            lemma_join_shows(parts, "\n\n"@, 1);
        }
    } else {
        let parts = seq![heading, "_No written comment._"@];
        lemma_join_shows(parts, "\n\n"@, 1);
    }
}

/// The heading of a comment has its author, when it was made, and its vote.
pub proof fn lemma_comment_heading(comment: JsonView)
    ensures
        person_of(comment, "author"@) matches Some(author) ==> ("### "@ + author).is_prefix_of(
            comment_heading(comment),
        ),
        comment.text("date_created"@) matches Some(made) ==> made.len() > 0 ==> shows(
            comment_heading(comment),
            made,
        ),
        comment.text("vote"@) matches Some(vote) ==> vote.len() > 0 ==> shows(
            comment_heading(comment),
            vote,
        ),
{
    let heading = comment_heading(comment);
    let metadata = crate::render::comment_metadata(comment);
    let author = crate::fields::value_or(
        crate::fields::either(person_of(comment, "author"@), person_of(comment, "owner"@)),
        "unknown"@,
    );
    lemma_heading_parts("### "@ + author, metadata);
    let made = scalar_of(comment, "date_created"@);
    let vote = scalar_of(comment, "vote"@);
    if made is Some && made->0.len() > 0 {
        if vote is Some {
            lemma_pair_shows(made->0, " · "@, vote->0);
        } else {
            lemma_shows_at(Seq::empty(), made->0, Seq::empty());
        }
        assert(metadata.len() > 0);
        lemma_shows_within(heading, metadata, made->0);
    }
    if vote is Some && vote->0.len() > 0 {
        if made is Some {
            lemma_pair_shows(made->0, " · "@, vote->0);
        } else {
            lemma_shows_at(Seq::empty(), vote->0, Seq::empty());
        }
        assert(metadata.len() > 0);
        lemma_shows_within(heading, metadata, vote->0);
    }
}

proof fn lemma_heading_parts(start: Seq<char>, metadata: Seq<char>)
    ensures
        start.is_prefix_of(start),
        start.is_prefix_of(start + " ("@ + metadata + ")"@),
        shows(start + " ("@ + metadata + ")"@, metadata),
{
    let text = start + " ("@ + metadata + ")"@;
    assert(text.take(start.len() as int) =~= start);
    assert(start.take(start.len() as int) =~= start);
    lemma_shows_at(start + " ("@, metadata, ")"@);
}

proof fn lemma_pair_shows(first: Seq<char>, between: Seq<char>, second: Seq<char>)
    ensures
        shows(first + between + second, first),
        shows(first + between + second, second),
        (first + between + second).len() == first.len() + between.len() + second.len(),
{
    assert(first + between + second =~= first + (between + second));
    lemma_shows_at(Seq::empty(), first, between + second);
    lemma_shows_at(first + between, second, Seq::empty());
}

/// A merge proposal is shown by its number and title, with its status, source, target, people, dates
/// and page, and its description.
#[verifier::rlimit(80)]
#[verifier::rlimit(80)]
pub proof fn lemma_proposal_is_shown(
    proposal: JsonView,
    comments: Seq<JsonView>,
    votes: Seq<JsonView>,
    include_comments: bool,
    comment_limit: nat,
    level: nat,
)
    ensures
        ({
            let text = proposal_document(
                proposal,
                comments,
                votes,
                include_comments,
                comment_limit,
                level,
            );
            &&& id_of(proposal) matches Some(id) ==> shows(
                text,
                " Merge proposal "@ + id + ": "@ + proposal_title(proposal),
            )
            &&& shows_member(text, "Status"@, proposal, "queue_status"@)
            &&& shows_member(text, "Source"@, proposal, "source_git_path"@)
            &&& shows_member(text, "Target"@, proposal, "target_git_path"@)
            &&& shows_member(text, "Created"@, proposal, "date_created"@)
            &&& shows_member(text, "Reviewed"@, proposal, "date_reviewed"@)
            &&& shows_member(text, "Merged"@, proposal, "date_merged"@)
            &&& shows_member(text, "URL"@, proposal, "web_link"@)
            &&& shows_person(text, "Registrant"@, proposal, "registrant"@)
            &&& proposal.text("description"@) matches Some(description) ==> !is_blank(description)
                ==> shows(text, trimmed(description))
        }),
{
    let lines = join(votes.map_values(|vote: JsonView| vote_line(vote)), "\n"@);
    let document = proposal_document(
        proposal,
        comments,
        votes,
        include_comments,
        comment_limit,
        level,
    );
    let i: int = 0;
    let l0: Seq<Seq<char>> = seq![
        crate::format::repeated('#', level) + " Merge proposal "@ + crate::fields::value_or(
            id_of(proposal),
            "?"@,
        ) + ": "@ + proposal_title(proposal),
    ];
    let i0: Seq<(Seq<char>, Option<Seq<char>>)> = Seq::empty();
    let i1 = i0.push(("Status"@, scalar_of(proposal, "queue_status"@)));
    lemma_labelled_push(l0, i0, "Status"@, scalar_of(proposal, "queue_status"@));
    let i2 = i1.push(
        ("Source"@, crate::fields::either(scalar_of(proposal, "source_git_path"@), crate::render::nested_scalar_of(proposal, "source_branch"@, "unique_name"@))),
    );
    lemma_labelled_push(
        l0,
        i1,
        "Source"@,
        crate::fields::either(
            scalar_of(proposal, "source_git_path"@),
            crate::render::nested_scalar_of(proposal, "source_branch"@, "unique_name"@),
        ),
    );
    let i3 = i2.push(
        ("Target"@, crate::fields::either(scalar_of(proposal, "target_git_path"@), crate::render::nested_scalar_of(proposal, "target_branch"@, "unique_name"@))),
    );
    lemma_labelled_push(
        l0,
        i2,
        "Target"@,
        crate::fields::either(
            scalar_of(proposal, "target_git_path"@),
            crate::render::nested_scalar_of(proposal, "target_branch"@, "unique_name"@),
        ),
    );
    let i4 = i3.push(("Registrant"@, person_of(proposal, "registrant"@)));
    lemma_labelled_push(l0, i3, "Registrant"@, person_of(proposal, "registrant"@));
    let i5 = i4.push(
        (crate::fields::with_head("R"@, reviewer_member()), person_of(proposal, reviewer_member())),
    );
    lemma_labelled_push(
        l0,
        i4,
        crate::fields::with_head("R"@, reviewer_member()),
        person_of(proposal, reviewer_member()),
    );
    let i6 = i5.push(("Created"@, scalar_of(proposal, "date_created"@)));
    lemma_labelled_push(l0, i5, "Created"@, scalar_of(proposal, "date_created"@));
    let i7 = i6.push(("Reviewed"@, scalar_of(proposal, "date_reviewed"@)));
    lemma_labelled_push(l0, i6, "Reviewed"@, scalar_of(proposal, "date_reviewed"@));
    let i8 = i7.push(("Merged"@, scalar_of(proposal, "date_merged"@)));
    lemma_labelled_push(l0, i7, "Merged"@, scalar_of(proposal, "date_merged"@));
    let i9 = i8.push(("URL"@, scalar_of(proposal, "web_link"@)));
    lemma_labelled_push(l0, i8, "URL"@, scalar_of(proposal, "web_link"@));
    let b0 = labelled(l0, i9);
    let b1 = with_section(
        b0,
        level + 1,
        "Description"@,
        crate::lines::text_or_empty(proposal.text("description"@)),
    );
    lemma_section_grows(
        b0,
        level + 1,
        "Description"@,
        crate::lines::text_or_empty(proposal.text("description"@)),
    );
    assert(grows(b0, b1));
    let b2 = if votes.len() > 0 { with_section(b1, level + 1, "Reviews"@, lines) } else { b1 };
    lemma_section_grows(b1, level + 1, "Reviews"@, lines);
    lemma_grows_itself(b1);
    assert(grows(b1, b2));
    let b3 = with_comments(b2, level + 1, comments, include_comments, comment_limit);
    lemma_comments_grow(b2, level + 1, comments, include_comments, comment_limit, i);
    assert(grows(b2, b3));
    assert(document == join(b3, "\n\n"@));
    lemma_grows_itself(b3);
    lemma_grows(b2, b3, b3);
    lemma_grows(b1, b2, b3);
    lemma_grows(b0, b1, b3);
    assert(i9[0] == i1[0]);
    lemma_labelled(l0, i9, b3, 0);
    assert(i9[1] == i2[1]);
    lemma_labelled(l0, i9, b3, 1);
    assert(i9[2] == i3[2]);
    lemma_labelled(l0, i9, b3, 2);
    assert(i9[3] == i4[3]);
    lemma_labelled(l0, i9, b3, 3);
    assert(i9[4] == i5[4]);
    lemma_labelled(l0, i9, b3, 4);
    assert(i9[5] == i6[5]);
    lemma_labelled(l0, i9, b3, 5);
    assert(i9[6] == i7[6]);
    lemma_labelled(l0, i9, b3, 6);
    assert(i9[7] == i8[7]);
    lemma_labelled(l0, i9, b3, 7);
    assert(i9[8] == i9[8]);
    lemma_labelled(l0, i9, b3, 8);
    if b1.len() > b0.len() { lemma_line_shown(b1, b3, b0.len() as int); }
    if b2.len() > b1.len() { lemma_line_shown(b2, b3, b1.len() as int); }
    if b3.len() > b2.len() { lemma_line_shown(b3, b3, b2.len() as int); }
    lemma_labelled_grows(l0, i9);
    lemma_grows(l0, b0, b3);
    lemma_nonempty_shown(l0, b3);
    if let Some(id) = id_of(proposal) {
        let marks = crate::format::repeated('#', level);
        lemma_title_shows(marks, id, proposal_title(proposal));
        lemma_shows_within(
            document,
            l0[0],
            " Merge proposal "@ + id + ": "@ + proposal_title(proposal),
        );
    }
    if let Some(description) = proposal.text("description"@) {
        if !is_blank(description) {
            lemma_shows_within(document, b1[b0.len() as int], trimmed(description));
        }
    }
}

/// A merge proposal is shown with all its reviews, and with its comments exactly where they are
/// wanted.
#[verifier::rlimit(80)]
pub proof fn lemma_proposal_lists_are_shown(
    proposal: JsonView,
    comments: Seq<JsonView>,
    votes: Seq<JsonView>,
    include_comments: bool,
    comment_limit: nat,
    level: nat,
    i: int,
)
    ensures
        ({
            let text = proposal_document(
                proposal,
                comments,
                votes,
                include_comments,
                comment_limit,
                level,
            );
            &&& 0 <= i < votes.len() && is_solid(vote_line(votes[i])) ==> shows(
                text,
                vote_line(votes[i]),
            )
            &&& include_comments && 0 <= i < comments.len() && is_solid(comment_block(comments[i]))
                ==> shows(text, comment_block(comments[i]))
            &&& !include_comments ==> text == proposal_document(
                proposal,
                Seq::empty(),
                votes,
                false,
                0,
                level,
            )
        }),
{
    let lines = join(votes.map_values(|vote: JsonView| vote_line(vote)), "\n"@);
    let document = proposal_document(
        proposal,
        comments,
        votes,
        include_comments,
        comment_limit,
        level,
    );
    let l0: Seq<Seq<char>> = proposal_bullets(proposal, level);
    let i0: Seq<(Seq<char>, Option<Seq<char>>)> = Seq::empty();
    let b0 = labelled(l0, i0);
    let b1 = with_section(
        b0,
        level + 1,
        "Description"@,
        crate::lines::text_or_empty(proposal.text("description"@)),
    );
    lemma_section_grows(
        b0,
        level + 1,
        "Description"@,
        crate::lines::text_or_empty(proposal.text("description"@)),
    );
    assert(grows(b0, b1));
    let b2 = if votes.len() > 0 { with_section(b1, level + 1, "Reviews"@, lines) } else { b1 };
    lemma_section_grows(b1, level + 1, "Reviews"@, lines);
    lemma_grows_itself(b1);
    assert(grows(b1, b2));
    let b3 = with_comments(b2, level + 1, comments, include_comments, comment_limit);
    lemma_comments_grow(b2, level + 1, comments, include_comments, comment_limit, i);
    assert(grows(b2, b3));
    assert(document == join(b3, "\n\n"@));
    lemma_grows_itself(b3);
    lemma_grows(b2, b3, b3);
    lemma_grows(b1, b2, b3);
    lemma_grows(b0, b1, b3);
    if b1.len() > b0.len() { lemma_line_shown(b1, b3, b0.len() as int); }
    if b2.len() > b1.len() { lemma_line_shown(b2, b3, b1.len() as int); }
    if b3.len() > b2.len() { lemma_line_shown(b3, b3, b2.len() as int); }
    lemma_labelled_grows(l0, i0);
    lemma_grows(l0, b0, b3);
    lemma_nonempty_shown(l0, b3);
    if 0 <= i < votes.len() && is_solid(vote_line(votes[i])) {
        let each = votes.map_values(|vote: JsonView| vote_line(vote));
        lemma_join_shows(each, "\n"@, i);
        lemma_trim_shows(lines, each[i]);
        lemma_shows_within(document, b2[b1.len() as int], trimmed(lines));
        lemma_shows_within(document, trimmed(lines), each[i]);
    }
    if include_comments && 0 <= i < comments.len() && is_solid(comment_block(comments[i])) {
        lemma_shows_within(document, b3[b2.len() as int], comment_block(comments[i]));
    }
}

proof fn lemma_title_shows(marks: Seq<char>, id: Seq<char>, title: Seq<char>)
    ensures
        shows(
            marks + " Merge proposal "@ + id + ": "@ + title,
            " Merge proposal "@ + id + ": "@ + title,
        ),
{
    let rest = " Merge proposal "@ + id + ": "@ + title;
    assert(marks + " Merge proposal "@ + id + ": "@ + title =~= marks + rest);
    lemma_shows_at(marks, rest, Seq::empty());
}

/// A review is shown with whom it is by, or asked of, and its vote, or else its type, or that it is
/// pending.
pub proof fn lemma_vote_is_shown(vote: JsonView)
    ensures
        person_of(vote, reviewer_member()) matches Some(person) ==> {
            &&& vote.text("vote"@) matches Some(verdict) ==> vote_line(vote) == bullet(person, verdict)
            &&& vote.text("vote"@) is None ==> (vote.text("review_type"@) matches Some(kind)
                ==> vote_line(vote) == bullet(person, kind))
            &&& vote.text("vote"@) is None && vote.text("review_type"@) is None ==> vote_line(vote)
                == bullet(person, "Pending"@)
        },
{
}

/// A merge proposal is titled by its commit message, or else by its description in one line of at
/// most a hundred and twenty characters, or as untitled.
pub proof fn lemma_proposal_title(proposal: JsonView)
    ensures
        proposal.text("commit_message"@) matches Some(message) ==> !is_blank(message)
            ==> proposal_title(proposal) == message,
        proposal.text("commit_message"@) is None ==> (proposal.text(
            "description"@,
        ) matches Some(description) ==> {
            let line = crate::split::compacted(description);
            &&& 0 < line.len() <= 120 ==> proposal_title(proposal) == line
            &&& line.len() > 120 ==> proposal_title(proposal) == line.take(120)
            &&& line.len() == 0 ==> proposal_title(proposal) == "Untitled"@
        }),
{
}

/// The results of a search for bugs show each task: its number, title, page, status and importance.
#[verifier::rlimit(80)]
pub proof fn lemma_bug_search_is_shown(
    target: Seq<char>,
    query: Option<Seq<char>>,
    tasks: Seq<JsonView>,
    i: int,
    front: Seq<char>,
    id: Seq<char>,
)
    requires
        id.len() > 0 && !id.contains('/'),
    ensures
        ({
            let text = bug_search_document(target, query, tasks);
            &&& ("# Launchpad bug search for "@ + target).is_prefix_of(text)
            &&& query matches Some(query) ==> query.len() > 0 ==> shows(text, bullet("Query"@, query))
            &&& shows(text, bullet("Results"@, decimal(tasks.len())))
            &&& 0 <= i < tasks.len() ==> shows(text, bug_search_line(tasks[i])) && (tasks[i].text(
                "bug_link"@,
            ) == Some(front + seq!['/'] + id) ==> (tasks[i].text("title"@) matches Some(title) ==> (
            tasks[i].text("status"@) matches Some(status) ==> (tasks[i].text(
                "importance"@,
            ) matches Some(importance) ==> bug_search_line(tasks[i]) == "- [#"@ + id + ": "@ + title
                + "](https://bugs.launchpad.net/bugs/"@ + id + ") — "@ + status + " · "@
                + importance))))
        }),
{
    crate::number::lemma_decimal_digits(tasks.len());
    crate::laws::terms::lemma_last_of_split(front, '/', id);
    let each = tasks.map_values(|task: JsonView| bug_search_line(task));
    let document = bug_search_document(target, query, tasks);
    let l0: Seq<Seq<char>> = seq!["# Launchpad bug search for "@ + target];
    let i0: Seq<(Seq<char>, Option<Seq<char>>)> = Seq::empty();
    let i1 = i0.push(("Target"@, Some(target)));
    lemma_labelled_push(l0, i0, "Target"@, Some(target));
    let i2 = i1.push(("Query"@, query));
    lemma_labelled_push(l0, i1, "Query"@, query);
    let i3 = i2.push(("Results"@, Some(decimal(tasks.len()))));
    lemma_labelled_push(l0, i2, "Results"@, Some(decimal(tasks.len())));
    let b0 = labelled(l0, i3);
    let b1 = b0 + each;
    lemma_grows_by(b0, each);
    assert(grows(b0, b1));
    assert(document == join(b1, "\n\n"@));
    lemma_grows_itself(b1);
    lemma_grows(b0, b1, b1);
    assert(i3[0] == i1[0]);
    lemma_labelled(l0, i3, b1, 0);
    assert(i3[1] == i2[1]);
    lemma_labelled(l0, i3, b1, 1);
    assert(i3[2] == i3[2]);
    lemma_labelled(l0, i3, b1, 2);
    if b1.len() > b0.len() { lemma_line_shown(b1, b1, b0.len() as int); }
    lemma_labelled_grows(l0, i3);
    lemma_grows(l0, b0, b1);
    lemma_nonempty_shown(l0, b1);
    if 0 <= i < tasks.len() {
        assert(b1[b0.len() + i] == bug_search_line(tasks[i]));
        lemma_join_shows(b1, "\n\n"@, b0.len() + i);
    }
}

/// The results of a search for merge proposals show each proposal, how many there are, the limit,
/// and that there are more where there are.
#[verifier::rlimit(80)]
pub proof fn lemma_proposal_search_is_shown(
    proposals: Seq<JsonView>,
    limit: Option<usize>,
    truncated: bool,
    i: int,
)
    ensures
        ({
            let text = proposal_search_document(proposals, limit, truncated);
            &&& "# Launchpad merge proposal search"@.is_prefix_of(text)
            &&& shows(text, bullet("Results"@, decimal(proposals.len())))
            &&& limit matches Some(limit) ==> shows(text, bullet("Limit"@, decimal(limit as nat)))
            &&& truncated ==> shows(text, bullet("More results available"@, "yes"@))
            &&& 0 <= i < proposals.len() ==> shows(text, found_proposal_line(proposals[i]))
        }),
{
    reveal_strlit("yes");
    crate::number::lemma_decimal_digits(proposals.len());
    if limit is Some {
        crate::number::lemma_decimal_digits(limit->0 as nat);
    }
    let each = proposals.map_values(|proposal: JsonView| found_proposal_line(proposal));
    let most = match limit {
        Some(limit) => Some(decimal(limit as nat)),
        None => None,
    };
    let more = if truncated {
        Some("yes"@)
    } else {
        None
    };
    let document = proposal_search_document(proposals, limit, truncated);
    let l0: Seq<Seq<char>> = seq!["# Launchpad merge proposal search"@];
    let i0: Seq<(Seq<char>, Option<Seq<char>>)> = Seq::empty();
    let i1 = i0.push(("Results"@, Some(decimal(proposals.len()))));
    lemma_labelled_push(l0, i0, "Results"@, Some(decimal(proposals.len())));
    let i2 = i1.push(("Limit"@, most));
    lemma_labelled_push(l0, i1, "Limit"@, most);
    let i3 = i2.push(("More results available"@, more));
    lemma_labelled_push(l0, i2, "More results available"@, more);
    let b0 = labelled(l0, i3);
    let b1 = b0 + each;
    lemma_grows_by(b0, each);
    assert(grows(b0, b1));
    assert(document == join(b1, "\n\n"@));
    lemma_grows_itself(b1);
    lemma_grows(b0, b1, b1);
    assert(i3[0] == i1[0]);
    lemma_labelled(l0, i3, b1, 0);
    assert(i3[1] == i2[1]);
    lemma_labelled(l0, i3, b1, 1);
    assert(i3[2] == i3[2]);
    lemma_labelled(l0, i3, b1, 2);
    if b1.len() > b0.len() { lemma_line_shown(b1, b1, b0.len() as int); }
    lemma_labelled_grows(l0, i3);
    lemma_grows(l0, b0, b1);
    lemma_nonempty_shown(l0, b1);
    if 0 <= i < proposals.len() {
        assert(b1[b0.len() + i] == found_proposal_line(proposals[i]));
        lemma_join_shows(b1, "\n\n"@, b0.len() + i);
    }
}

/// A merge proposal that a search found is shown with its number, title, page and status, its
/// source and target with their branches, who registered it, and when it was last updated.
pub proof fn lemma_found_line_shows(
    proposal: JsonView,
    id: Seq<char>,
    page: Seq<char>,
    status: Seq<char>,
    source: Seq<char>,
    target: Seq<char>,
    person: Seq<char>,
    made: Seq<char>,
)
    requires
        id_of(proposal) == Some(id),
        proposal.text("web_link"@) == Some(page),
        proposal.text("queue_status"@) == Some(status),
        proposal.text("source_git_path"@) == Some(source),
        proposal.text("target_git_path"@) == Some(target),
        person_of(proposal, "registrant"@) == Some(person),
        proposal.text("date_created"@) == Some(made),
        proposal.text("commit_message"@) is Some,
    ensures
        exists|from: Seq<char>, to: Seq<char>, title: Seq<char>, updated: Seq<char>|
            {
                &&& found_proposal_line(proposal) == #[trigger] line_of_parts(
                    "- [MP "@ + id + ": "@ + title + "]("@ + page + ") — "@ + status,
                    from + ":"@ + source,
                    to + ":"@ + target,
                    person,
                    updated,
                )
                &&& title == crate::report::short_title(proposal)
                &&& from == crate::report::proposal_repository_of(proposal, "source"@)
                &&& to == crate::report::proposal_repository_of(proposal, "target"@)
                &&& !crate::compare::precedes(updated, made)
            },
{
    let title = crate::report::short_title(proposal);
    let from = crate::report::proposal_repository_of(proposal, "source"@);
    let to = crate::report::proposal_repository_of(proposal, "target"@);
    let updated = crate::report::proposal_updated_at(proposal)->0;
    crate::compare::lemma_precedes_irreflexive(made);
    let first = "- [MP "@ + id + ": "@ + title + "]("@ + page + ") — "@ + status;
    assert(found_proposal_line(proposal) =~= line_of_parts(
        first,
        from + ":"@ + source,
        to + ":"@ + target,
        person,
        updated,
    ));
    let latest = crate::report::later(
        crate::report::later(
            crate::report::later(
                crate::report::later(
                    proposal.text("date_last_updated"@),
                    proposal.text("date_merged"@),
                ),
                proposal.text("date_reviewed"@),
            ),
            proposal.text("date_merge_requested"@),
        ),
        proposal.text("date_review_requested"@),
    );
    assert(Some(updated) == crate::report::later(latest, Some(made)));
    if let Some(other) = latest {
        if updated == other {
            if crate::compare::precedes(updated, made) {
                crate::compare::lemma_precedes_total(updated, made);
            }
        }
    }
}

/// The lines of a merge proposal that a search found.
pub open spec fn line_of_parts(
    first: Seq<char>,
    source: Seq<char>,
    target: Seq<char>,
    person: Seq<char>,
    updated: Seq<char>,
) -> Seq<char> {
    first + ("\n  - **Source:** "@ + source + "\n  - **Target:** "@ + target
        + "\n  - **Registrant:** "@ + person + "\n  - **Updated:** "@ + updated)
}

/// The title of a merge proposal in a list is its commit message, or else its description, in one
/// line of at most a hundred and sixty characters. Its repositories are those that its links name.
pub proof fn lemma_short_title(proposal: JsonView)
    ensures
        proposal.text("commit_message"@) matches Some(message) ==> {
            let line = crate::split::compacted(message);
            &&& 0 < line.len() <= 160 ==> crate::report::short_title(proposal) == line
            &&& line.len() > 160 ==> crate::report::short_title(proposal) == line.take(160)
        },
        proposal.text("commit_message"@) is None ==> (proposal.text(
            "description"@,
        ) matches Some(description) ==> {
            let line = crate::split::compacted(description);
            &&& 0 < line.len() <= 160 ==> crate::report::short_title(proposal) == line
        }),
        proposal.text("source_git_repository_link"@) matches Some(link) ==> (
        crate::repository::normalised_repository(link) matches Ok(path)
            ==> crate::report::proposal_repository_of(proposal, "source"@) == path),
        proposal.text("target_git_repository_link"@) matches Some(link) ==> (
        crate::repository::normalised_repository(link) matches Ok(path)
            ==> crate::report::proposal_repository_of(proposal, "target"@) == path),
{
    reveal_strlit("source");
    reveal_strlit("target");
    reveal_strlit("_git_repository_link");
    reveal_strlit("source_git_repository_link");
    reveal_strlit("target_git_repository_link");
    assert("source"@ + "_git_repository_link"@ =~= "source_git_repository_link"@);
    assert("target"@ + "_git_repository_link"@ =~= "target_git_repository_link"@);
}

/// A proposal that was found by its branch is shown in full, with how many matched, why it was
/// selected, and the others.
#[verifier::rlimit(80)]
pub proof fn lemma_lookup_is_shown(
    proposal: JsonView,
    alternatives: Seq<JsonView>,
    repository: Seq<char>,
    branch: Seq<char>,
    resolution: Seq<char>,
    reason: Seq<char>,
    i: int,
)
    ensures
        ({
            let text = proposal_lookup_document(
                proposal,
                alternatives,
                repository,
                branch,
                resolution,
                reason,
            );
            &&& ("# Merge proposal lookup for "@ + repository + ":"@ + branch).is_prefix_of(text)
            &&& resolution.len() > 0 ==> shows(text, bullet("Resolved from"@, resolution))
            &&& reason.len() > 0 ==> shows(text, bullet("Selection"@, reason))
            &&& shows(text, proposal_document(proposal, Seq::empty(), Seq::empty(), false, 1, 2))
            &&& 0 <= i < alternatives.len() && is_solid(alternative_line(alternatives[i])) ==> shows(
                text,
                alternative_line(alternatives[i]),
            )
        }),
{
    let count = decimal(crate::number::one_more(alternatives.len()) as nat);
    crate::number::lemma_decimal_digits(crate::number::one_more(alternatives.len()) as nat);
    let each = alternatives.map_values(|proposal: JsonView| alternative_line(proposal));
    let others = join(each.reverse(), "\n"@);
    let shown = proposal_document(proposal, Seq::empty(), Seq::empty(), false, 1, 2);
    let document = proposal_lookup_document(
        proposal,
        alternatives,
        repository,
        branch,
        resolution,
        reason,
    );
    let l0: Seq<Seq<char>> = seq!["# Merge proposal lookup for "@ + repository + ":"@ + branch];
    let i0: Seq<(Seq<char>, Option<Seq<char>>)> = Seq::empty();
    let i1 = i0.push(("Matching proposals"@, Some(count)));
    lemma_labelled_push(l0, i0, "Matching proposals"@, Some(count));
    let i2 = i1.push(("Resolved from"@, Some(resolution)));
    lemma_labelled_push(l0, i1, "Resolved from"@, Some(resolution));
    let i3 = i2.push(("Selection"@, Some(reason)));
    lemma_labelled_push(l0, i2, "Selection"@, Some(reason));
    let b0 = labelled(l0, i3);
    let b1 = b0.push(shown);
    lemma_grows_by_one(b0, shown);
    assert(grows(b0, b1));
    let b2 = if alternatives.len() > 0 {
        with_section(b1, 2, "Other matching proposals"@, others)
    } else {
        b1
    };
    lemma_section_grows(b1, 2, "Other matching proposals"@, others);
    lemma_grows_itself(b1);
    assert(grows(b1, b2));
    assert(document == join(b2, "\n\n"@));
    lemma_grows_itself(b2);
    lemma_grows(b1, b2, b2);
    lemma_grows(b0, b1, b2);
    assert(i3[0] == i1[0]);
    lemma_labelled(l0, i3, b2, 0);
    assert(i3[1] == i2[1]);
    lemma_labelled(l0, i3, b2, 1);
    assert(i3[2] == i3[2]);
    lemma_labelled(l0, i3, b2, 2);
    if b1.len() > b0.len() { lemma_line_shown(b1, b2, b0.len() as int); }
    if b2.len() > b1.len() { lemma_line_shown(b2, b2, b1.len() as int); }
    lemma_labelled_grows(l0, i3);
    lemma_grows(l0, b0, b2);
    lemma_nonempty_shown(l0, b2);
    if 0 <= i < alternatives.len() && is_solid(alternative_line(alternatives[i])) {
        let at = alternatives.len() - 1 - i;
        assert(each.reverse()[at] == each[i]);
        lemma_join_shows(each.reverse(), "\n"@, at);
        lemma_trim_shows(others, each[i]);
        lemma_shows_within(document, b2[b1.len() as int], trimmed(others));
        lemma_shows_within(document, trimmed(others), each[i]);
    }
}

/// Another proposal is shown with its number, page and status.
pub proof fn lemma_alternative_is_shown(proposal: JsonView)
    ensures
        id_of(proposal) matches Some(id) ==> (proposal.text("web_link"@) matches Some(page) ==> (
        proposal.text("queue_status"@) matches Some(status) ==> alternative_line(proposal)
            == "- [MP "@ + id + "]("@ + page + ") — "@ + status)),
{
}

/// A location is shown with its path, its side, its line of the file, its line of the diff and what
/// that shows, under the snapshot and the proposal.
pub proof fn lemma_location_is_shown(location: LocationView, snapshot: u64, id: Seq<char>)
    ensures
        diff_location_document(location, snapshot, id) =~= "# Diff line mapping for merge proposal "@
            + id + ", preview diff "@ + decimal(snapshot as nat) + "\n\n- **Path:** "@ + location.path
            + "\n- **Side:** "@ + (if location.side == DiffSide::Original {
            "original"@
        } else {
            "modified"@
        }) + "\n- **File line:** "@ + decimal(location.file_line) + "\n- **Global diff line:** "@
            + decimal(location.diff_line) + "\n- **Kind:** "@ + (match location.kind {
            DiffLineKind::Context => "context"@,
            DiffLineKind::Added => "added"@,
            DiffLineKind::Removed => "removed"@,
        }),
{
}

/// The history of snapshots shows each of them, with its number, when it was made, and whether it is
/// current or stale.
#[verifier::rlimit(80)]
pub proof fn lemma_history_is_shown(
    preview_diffs: Seq<JsonView>,
    current_id: u64,
    proposal_id: Seq<char>,
    i: int,
)
    ensures
        ({
            let text = preview_diffs_document(preview_diffs, current_id, proposal_id);
            &&& ("# Preview diff history for merge proposal "@ + proposal_id).is_prefix_of(text)
            &&& 0 <= i < preview_diffs.len() ==> {
                let line = preview_diff_line(preview_diffs[i], current_id);
                &&& shows(text, line)
                &&& preview_diffs[i].unsigned("id"@) matches Some(id) ==> ("- **"@ + decimal(
                    id as nat,
                ) + "**"@).is_prefix_of(line) && (id == current_id ==> shows(line, " · current"@))
                &&& preview_diffs[i].text("date_created"@) matches Some(made) ==> shows(
                    line,
                    " · "@ + made,
                )
                &&& preview_diffs[i].flag("stale"@) == Some(true) ==> shows(line, " · stale"@)
            }
        }),
{
    let heading = seq!["# Preview diff history for merge proposal "@ + proposal_id];
    let keys = preview_diffs.map_values(
        |preview_diff: JsonView| preview_diff_key(preview_diff),
    );
    let sorted = crate::order::arranged(preview_diffs, order_of(keys));
    let each = sorted.map_values(
        |preview_diff: JsonView| preview_diff_line(preview_diff, current_id),
    );
    if preview_diffs.len() == 0 {
        lemma_join_shows(heading.push("No preview diffs."@), "\n"@, 0);
        assert(heading.push("No preview diffs."@)[0] == heading[0]);
    } else {
        lemma_join_shows(heading + each, "\n"@, 0);
        assert((heading + each)[0] == heading[0]);
    }
    if 0 <= i < preview_diffs.len() {
        crate::order::lemma_order_is_permutation(keys);
        assert(order_of(keys).contains(i));
        let at = choose|at: int| 0 <= at < order_of(keys).len() && order_of(keys)[at] == i;
        assert(sorted[at] == preview_diffs[i]);
        assert((heading + each)[at + 1] == preview_diff_line(preview_diffs[i], current_id));
        lemma_join_shows(heading + each, "\n"@, at + 1);
        let own = preview_diffs[i];
        let line = preview_diff_line(own, current_id);
        let id = match own.unsigned("id"@) {
            Some(id) => decimal(id as nat),
            None => "?"@,
        };
        let created = match own.text("date_created"@) {
            Some(created) => " · "@ + created,
            None => Seq::empty(),
        };
        let current = if own.unsigned("id"@) == Some(current_id) {
            " · current"@
        } else {
            Seq::empty()
        };
        let stale = if own.flag("stale"@) == Some(true) {
            " · stale"@
        } else {
            Seq::empty()
        };
        let start = "- **"@ + id + "**"@;
        assert(line =~= start + created + current + stale);
        assert(line.take(start.len() as int) =~= start);
        lemma_shows_at(start, created, current + stale);
        assert(line =~= start + created + (current + stale));
        lemma_shows_at(start + created, current, stale);
        lemma_shows_at(start + created + current, stale, Seq::empty());
    }
}

/// The published inline comments of a snapshot show each of them: its line, its author, when it was
/// made, and its text.
pub proof fn lemma_inline_comments_are_shown(
    comments: Seq<JsonView>,
    snapshot: u64,
    id: Seq<char>,
    i: int,
)
    ensures
        ({
            let text = inline_comments_document(comments, snapshot, id);
            &&& ("# Published inline comments for merge proposal "@ + id + ", preview diff "@ + decimal(
                snapshot as nat,
            )).is_prefix_of(text)
            &&& 0 <= i < comments.len() ==> {
                let block = inline_comment_block(comments[i]);
                &&& shows(text, block)
                &&& comments[i].text("line_number"@) matches Some(line) ==> line.len() > 0 ==> (
                "## Diff line "@ + line + " · "@).is_prefix_of(block)
                &&& person_of(comments[i], "person"@) matches Some(person) ==> shows(
                    block,
                    " · "@ + person,
                )
                &&& comments[i].text("date"@) matches Some(date) ==> shows(block, " · "@ + date)
                &&& comments[i].text("text"@) matches Some(body) ==> !is_blank(body) ==> shows(
                    block,
                    "\n\n"@ + body,
                )
            }
        }),
{
    let heading = seq![
        "# Published inline comments for merge proposal "@ + id + ", preview diff "@ + decimal(
            snapshot as nat,
        ),
    ];
    let each = comments.map_values(|comment: JsonView| inline_comment_block(comment));
    if comments.len() == 0 {
        let all = heading.push("No published inline comments."@);
        lemma_join_shows(all, "\n\n"@, 0);
        assert(all[0] == heading[0]);
    } else {
        lemma_join_shows(heading + each, "\n\n"@, 0);
        assert((heading + each)[0] == heading[0]);
    }
    if 0 <= i < comments.len() {
        assert((heading + each)[i + 1] == inline_comment_block(comments[i]));
        lemma_join_shows(heading + each, "\n\n"@, i + 1);
        let comment = comments[i];
        let block = inline_comment_block(comment);
        let line = crate::fields::value_or(scalar_of(comment, "line_number"@), "?"@);
        let author = crate::fields::value_or(person_of(comment, "person"@), "unknown"@);
        let date = match comment.text("date"@) {
            Some(date) => " · "@ + date,
            None => Seq::empty(),
        };
        let body = crate::report::written(comment.text("text"@));
        let start = "## Diff line "@ + line + " · "@;
        assert(block =~= start + author + date + ("\n\n"@ + body));
        assert(block.take(start.len() as int) =~= start);
        let by = " · "@ + author;
        assert(block =~= ("## Diff line "@ + line) + by + (date + ("\n\n"@ + body)));
        lemma_shows_at("## Diff line "@ + line, by, date + ("\n\n"@ + body));
        lemma_shows_at(start + author, date, "\n\n"@ + body);
        lemma_shows_at(start + author + date, "\n\n"@ + body, Seq::empty());
    }
}

/// The drafts of a review show each of them: its line and its text.
pub proof fn lemma_drafts_are_shown(
    drafts: Seq<(Seq<char>, JsonView)>,
    snapshot: u64,
    id: Seq<char>,
    i: int,
)
    ensures
        ({
            let text = review_drafts_document(JsonView::Object(drafts), snapshot, id);
            &&& ("# Review drafts for merge proposal "@ + id + ", preview diff "@ + decimal(
                snapshot as nat,
            )).is_prefix_of(text)
            &&& 0 <= i < drafts.len() ==> (drafts[i].1 matches JsonView::Text(body) ==> !is_blank(body)
                ==> shows(text, "## Diff line "@ + drafts[i].0 + "\n\n"@ + body))
        }),
{
    let heading = seq![
        "# Review drafts for merge proposal "@ + id + ", preview diff "@ + decimal(snapshot as nat),
    ];
    let keys = drafts.map_values(
        |draft: (Seq<char>, JsonView)| crate::report::draft_key(draft),
    );
    let sorted = crate::order::arranged(drafts, order_of(keys));
    let each = sorted.map_values(
        |draft: (Seq<char>, JsonView)| crate::report::draft_block(draft),
    );
    if drafts.len() == 0 {
        let all = heading.push("No review drafts."@);
        lemma_join_shows(all, "\n\n"@, 0);
        assert(all[0] == heading[0]);
    } else {
        lemma_join_shows(heading + each, "\n\n"@, 0);
        assert((heading + each)[0] == heading[0]);
    }
    if 0 <= i < drafts.len() {
        crate::order::lemma_order_is_permutation(keys);
        assert(order_of(keys).contains(i));
        let at = choose|at: int| 0 <= at < order_of(keys).len() && order_of(keys)[at] == i;
        assert(sorted[at] == drafts[i]);
        assert((heading + each)[at + 1] == crate::report::draft_block(drafts[i]));
        lemma_join_shows(heading + each, "\n\n"@, at + 1);
    }
}

/// The summary of a discussion shows the proposal, its status and refs, its current snapshot, the
/// counts of comments, votes, requests and threads as far as they were wanted, the votes that stand
/// and how votes changed.
#[verifier::rlimit(80)]
pub proof fn lemma_discussion_is_shown(
    proposal: JsonView,
    current_id: Option<u64>,
    summary: JsonView,
    sections: DiscussionSections,
    i: int,
)
    ensures
        ({
            let text = discussion_document(proposal, current_id, summary, sections);
            let count = |name: Seq<char>|
                decimal(
                    (match summary.unsigned(name) {
                        Some(count) => count,
                        None => 0,
                    }) as nat,
                );
            &&& id_of(proposal) matches Some(id) ==> ("# Merge proposal "@ + id
                + " review summary"@).is_prefix_of(text)
            &&& shows_member(text, "URL"@, proposal, "web_link"@)
            &&& shows_member(text, "Status"@, proposal, "queue_status"@)
            &&& shows_member(text, "Source"@, proposal, "source_git_path"@)
            &&& shows_member(text, "Target"@, proposal, "target_git_path"@)
            &&& current_id matches Some(id) ==> shows(
                text,
                bullet("Current preview diff"@, decimal(id as nat)),
            )
            &&& sections.general ==> {
                &&& shows(text, bullet("General comments"@, count("general_comment_count"@)))
                &&& shows(text, bullet("Review votes"@, count("review_vote_count"@)))
                &&& shows(
                    text,
                    bullet("Pending review requests"@, count("pending_review_request_count"@)),
                )
            }
            &&& sections.inline ==> shows(
                text,
                "- **Inline threads:** "@ + count("inline_thread_count"@) + " total · "@ + count(
                    "current_open_inline_thread_count"@,
                ) + " current/open · "@ + count("outdated_inline_thread_count"@) + " outdated · "@
                    + count("superseded_inline_thread_count"@)
                    + " superseded · resolved unavailable"@,
            )
            &&& sections.general ==> (summary.get("current_review_votes"@) matches Some(
                JsonView::Array(votes),
            ) ==> (0 <= i < votes.len() && is_solid(current_vote_line(votes[i])) ==> shows(
                text,
                current_vote_line(votes[i]),
            )))
            &&& sections.general ==> (summary.get("review_vote_transitions"@) matches Some(
                JsonView::Array(transitions),
            ) ==> (0 <= i < transitions.len() && transitions[i].text("from"@) is Some && is_solid(
                transition_line(transitions[i]),
            ) ==> shows(text, transition_line(transitions[i]))))
        }),
{
    let snapshot = match current_id {
        Some(id) => Some(decimal(id as nat)),
        None => None,
    };
    if current_id is Some {
        crate::number::lemma_decimal_digits(current_id->0 as nat);
    }
    let failures = decimal(sections.identity_resolution_failures as nat)
        + " author profile(s) unavailable; usernames were derived from Launchpad URLs"@;
    let stale = if sections.current_preview_diff_stale {
        Some("stale; unresolved inline threads are reported as outdated"@)
    } else {
        None
    };
    let unknown = if sections.identity_resolution_failures > 0 {
        Some(failures)
    } else {
        None
    };
    let counts = join(discussion_counts(summary, sections), "\n"@);
    let activity = join(discussion_activity(summary), "\n"@);
    let document = discussion_document(proposal, current_id, summary, sections);
    let l0: Seq<Seq<char>> = seq![
        "# Merge proposal "@ + crate::fields::value_or(id_of(proposal), "?"@) + " review summary"@,
    ];
    let i0: Seq<(Seq<char>, Option<Seq<char>>)> = Seq::empty();
    let i1 = i0.push(("URL"@, scalar_of(proposal, "web_link"@)));
    lemma_labelled_push(l0, i0, "URL"@, scalar_of(proposal, "web_link"@));
    let i2 = i1.push(("Status"@, scalar_of(proposal, "queue_status"@)));
    lemma_labelled_push(l0, i1, "Status"@, scalar_of(proposal, "queue_status"@));
    let i3 = i2.push(("Source"@, scalar_of(proposal, "source_git_path"@)));
    lemma_labelled_push(l0, i2, "Source"@, scalar_of(proposal, "source_git_path"@));
    let i4 = i3.push(("Target"@, scalar_of(proposal, "target_git_path"@)));
    lemma_labelled_push(l0, i3, "Target"@, scalar_of(proposal, "target_git_path"@));
    let i5 = i4.push(("Current preview diff"@, snapshot));
    lemma_labelled_push(l0, i4, "Current preview diff"@, snapshot);
    let i6 = i5.push(("Current preview diff state"@, stale));
    lemma_labelled_push(l0, i5, "Current preview diff state"@, stale);
    let i7 = i6.push(("Identity resolution"@, unknown));
    lemma_labelled_push(l0, i6, "Identity resolution"@, unknown);
    let b0 = labelled(l0, i7);
    let b1 = with_section(b0, 2, "Review counts"@, counts);
    lemma_section_grows(b0, 2, "Review counts"@, counts);
    assert(grows(b0, b1));
    let b2 = if sections.general { with_section(b1, 2, "Review votes"@, activity) } else { b1 };
    lemma_section_grows(b1, 2, "Review votes"@, activity);
    lemma_grows_itself(b1);
    assert(grows(b1, b2));
    assert(document == join(b2, "\n\n"@));
    lemma_grows_itself(b2);
    lemma_grows(b1, b2, b2);
    lemma_grows(b0, b1, b2);
    assert(i7[0] == i1[0]);
    lemma_labelled(l0, i7, b2, 0);
    assert(i7[1] == i2[1]);
    lemma_labelled(l0, i7, b2, 1);
    assert(i7[2] == i3[2]);
    lemma_labelled(l0, i7, b2, 2);
    assert(i7[3] == i4[3]);
    lemma_labelled(l0, i7, b2, 3);
    assert(i7[4] == i5[4]);
    lemma_labelled(l0, i7, b2, 4);
    assert(i7[5] == i6[5]);
    lemma_labelled(l0, i7, b2, 5);
    assert(i7[6] == i7[6]);
    lemma_labelled(l0, i7, b2, 6);
    if b1.len() > b0.len() { lemma_line_shown(b1, b2, b0.len() as int); }
    if b2.len() > b1.len() { lemma_line_shown(b2, b2, b1.len() as int); }
    lemma_labelled_grows(l0, i7);
    lemma_grows(l0, b0, b2);
    lemma_nonempty_shown(l0, b2);
    assert(b0 == discussion_bullets(proposal, current_id, sections));
    lemma_counts_are_shown(summary, sections, document, counts, b0, b1, b2);
    if sections.general {
        lemma_activity_is_shown(summary, i);
        if is_blank(activity) {
            if summary.get("current_review_votes"@) is Some {
                let votes = summary.get("current_review_votes"@)->0.items();
                if 0 <= i < votes.len() && is_solid(current_vote_line(votes[i])) {
                    lemma_trim_shows(activity, current_vote_line(votes[i]));
                }
            }
            if summary.get("review_vote_transitions"@) is Some {
                let transitions = summary.get("review_vote_transitions"@)->0.items();
                if 0 <= i < transitions.len() && transitions[i].text("from"@) is Some && is_solid(
                    transition_line(transitions[i]),
                ) {
                    lemma_trim_shows(activity, transition_line(transitions[i]));
                }
            }
        } else {
            lemma_shows_within(document, b2[b1.len() as int], trimmed(activity));
            if summary.get("current_review_votes"@) is Some {
                let votes = summary.get("current_review_votes"@)->0.items();
                if 0 <= i < votes.len() && is_solid(current_vote_line(votes[i])) {
                    lemma_trim_shows(activity, current_vote_line(votes[i]));
                    lemma_shows_within(document, trimmed(activity), current_vote_line(votes[i]));
                }
            }
            if summary.get("review_vote_transitions"@) is Some {
                let transitions = summary.get("review_vote_transitions"@)->0.items();
                if 0 <= i < transitions.len() && transitions[i].text("from"@) is Some && is_solid(
                    transition_line(transitions[i]),
                ) {
                    lemma_trim_shows(activity, transition_line(transitions[i]));
                    lemma_shows_within(
                        document,
                        trimmed(activity),
                        transition_line(transitions[i]),
                    );
                }
            }
        }
    }
}

proof fn lemma_bullet_is_solid(label: Seq<char>, value: Seq<char>)
    requires
        value.len() > 0,
        !crate::text::is_space(value.last()),
    ensures
        is_solid(bullet(label, value)),
{
    reveal_strlit("- **");
    let text = bullet(label, value);
    assert(text[0] == '-');
    assert(text.last() == value.last());
}

proof fn lemma_number_is_solid(number: nat)
    ensures
        decimal(number).len() > 0,
        !crate::text::is_space(decimal(number).last()),
{
    crate::number::lemma_decimal_digits(number);
    let digits = decimal(number);
    assert(crate::number::is_digit(digits[digits.len() - 1]));
}

proof fn lemma_counts_are_shown(
    summary: JsonView,
    sections: DiscussionSections,
    document: Seq<char>,
    counts: Seq<char>,
    before: Seq<Seq<char>>,
    after: Seq<Seq<char>>,
    all: Seq<Seq<char>>,
)
    requires
        counts == join(discussion_counts(summary, sections), "\n"@),
        after == with_section(before, 2, "Review counts"@, counts),
        grows(after, all),
        document == join(all, "\n\n"@),
    ensures
        ({
            let count = |name: Seq<char>|
                decimal(
                    (match summary.unsigned(name) {
                        Some(count) => count,
                        None => 0,
                    }) as nat,
                );
            &&& sections.general ==> {
                &&& shows(document, bullet("General comments"@, count("general_comment_count"@)))
                &&& shows(document, bullet("Review votes"@, count("review_vote_count"@)))
                &&& shows(
                    document,
                    bullet("Pending review requests"@, count("pending_review_request_count"@)),
                )
            }
            &&& sections.inline ==> shows(
                document,
                "- **Inline threads:** "@ + count("inline_thread_count"@) + " total · "@ + count(
                    "current_open_inline_thread_count"@,
                ) + " current/open · "@ + count("outdated_inline_thread_count"@) + " outdated · "@
                    + count("superseded_inline_thread_count"@)
                    + " superseded · resolved unavailable"@,
            )
        }),
{
    if sections.general {
        lemma_count_line(summary, sections, 0, "General comments"@, "general_comment_count"@);
        lemma_piece_shown(discussion_counts(summary, sections), counts, before, after, all, 0);
        lemma_count_line(summary, sections, 1, "Review votes"@, "review_vote_count"@);
        lemma_piece_shown(discussion_counts(summary, sections), counts, before, after, all, 1);
        lemma_count_line(
            summary,
            sections,
            2,
            "Pending review requests"@,
            "pending_review_request_count"@,
        );
        lemma_piece_shown(discussion_counts(summary, sections), counts, before, after, all, 2);
    }
    if sections.inline {
        lemma_thread_count_line(summary, sections);
        let last = discussion_counts(summary, sections).len() - 1;
        lemma_piece_shown(discussion_counts(summary, sections), counts, before, after, all, last);
    }
}

proof fn lemma_labels()
    ensures
        "- **General comments:** "@ == "- **"@ + "General comments"@ + ":** "@,
        "- **Review votes:** "@ == "- **"@ + "Review votes"@ + ":** "@,
        "- **Pending review requests:** "@ == "- **"@ + "Pending review requests"@ + ":** "@,
        "- **Inline threads:** "@ == "- **"@ + "Inline threads"@ + ":** "@,
{
    reveal_strlit("- **General comments:** ");
    reveal_strlit("- **Review votes:** ");
    reveal_strlit("- **Pending review requests:** ");
    reveal_strlit("- **Inline threads:** ");
    reveal_strlit("- **");
    reveal_strlit(":** ");
    reveal_strlit("General comments");
    reveal_strlit("Review votes");
    reveal_strlit("Pending review requests");
    reveal_strlit("Inline threads");
    assert("- **General comments:** "@ =~= "- **"@ + "General comments"@ + ":** "@);
    assert("- **Review votes:** "@ =~= "- **"@ + "Review votes"@ + ":** "@);
    assert("- **Pending review requests:** "@ =~= "- **"@ + "Pending review requests"@ + ":** "@);
    assert("- **Inline threads:** "@ =~= "- **"@ + "Inline threads"@ + ":** "@);
}

proof fn lemma_count_line(
    summary: JsonView,
    sections: DiscussionSections,
    i: int,
    label: Seq<char>,
    name: Seq<char>,
)
    requires
        sections.general,
        (i == 0 && label == "General comments"@ && name == "general_comment_count"@) || (i == 1
            && label == "Review votes"@ && name == "review_vote_count"@) || (i == 2 && label
            == "Pending review requests"@ && name == "pending_review_request_count"@),
    ensures
        discussion_counts(summary, sections).len() > 2,
        discussion_counts(summary, sections)[i] == bullet(label, decimal(value_count(summary, name))),
        is_solid(discussion_counts(summary, sections)[i]),
{
    lemma_labels();
    lemma_number_is_solid(value_count(summary, name));
    lemma_bullet_is_solid(label, decimal(value_count(summary, name)));
}

proof fn lemma_thread_count_line(summary: JsonView, sections: DiscussionSections)
    requires
        sections.inline,
    ensures
        ({
            let lines = discussion_counts(summary, sections);
            let count = |name: Seq<char>| decimal(value_count(summary, name));
            &&& lines.len() > 0
            &&& lines[lines.len() - 1] == "- **Inline threads:** "@ + count("inline_thread_count"@)
                + " total · "@ + count("current_open_inline_thread_count"@) + " current/open · "@
                + count("outdated_inline_thread_count"@) + " outdated · "@ + count(
                "superseded_inline_thread_count"@,
            ) + " superseded · resolved unavailable"@
            &&& is_solid(lines[lines.len() - 1])
        }),
{
    let lines = discussion_counts(summary, sections);
    let last = lines[lines.len() - 1];
    let total = decimal(value_count(summary, "inline_thread_count"@));
    let open = decimal(value_count(summary, "current_open_inline_thread_count"@));
    let outdated = decimal(value_count(summary, "outdated_inline_thread_count"@));
    let superseded = decimal(value_count(summary, "superseded_inline_thread_count"@));
    let head = "- **Inline threads:** "@;
    let middle = head + total + " total · "@ + open + " current/open · "@ + outdated
        + " outdated · "@ + superseded;
    let tail = " superseded · resolved unavailable"@;
    assert(last == middle + tail);
    lemma_solid_ends(head, total, open, outdated, superseded, tail);
}

proof fn lemma_solid_ends(
    head: Seq<char>,
    total: Seq<char>,
    open: Seq<char>,
    outdated: Seq<char>,
    superseded: Seq<char>,
    tail: Seq<char>,
)
    requires
        head == "- **Inline threads:** "@,
        tail == " superseded · resolved unavailable"@,
    ensures
        is_solid(
            head + total + " total · "@ + open + " current/open · "@ + outdated + " outdated · "@
                + superseded + tail,
        ),
{
    reveal_strlit("- **Inline threads:** ");
    reveal_strlit(" superseded · resolved unavailable");
    assert(head[0] == '-');
    assert(tail.last() == 'e');
    let one = head + total;
    assert(one[0] == '-');
    let two = one + " total · "@;
    assert(two[0] == '-');
    let three = two + open;
    assert(three[0] == '-');
    let four = three + " current/open · "@;
    assert(four[0] == '-');
    let five = four + outdated;
    assert(five[0] == '-');
    let six = five + " outdated · "@;
    assert(six[0] == '-');
    let seven = six + superseded;
    assert(seven[0] == '-');
    let text = seven + tail;
    assert(text[0] == '-');
    assert(text.last() == tail.last());
}

spec fn value_count(summary: JsonView, name: Seq<char>) -> nat {
    (match summary.unsigned(name) {
        Some(count) => count,
        None => 0,
    }) as nat
}

proof fn lemma_piece_shown(
    lines: Seq<Seq<char>>,
    body: Seq<char>,
    before: Seq<Seq<char>>,
    after: Seq<Seq<char>>,
    all: Seq<Seq<char>>,
    i: int,
)
    requires
        body == join(lines, "\n"@),
        after == with_section(before, 2, "Review counts"@, body),
        grows(after, all),
        0 <= i < lines.len(),
        is_solid(lines[i]),
    ensures
        shows(join(all, "\n\n"@), lines[i]),
{
    lemma_join_shows(lines, "\n"@, i);
    lemma_trim_shows(body, lines[i]);
    lemma_section_grows(before, 2, "Review counts"@, body);
    lemma_line_shown(after, all, before.len() as int);
    let text = join(all, "\n\n"@);
    lemma_shows_within(text, after[before.len() as int], trimmed(body));
    lemma_shows_within(text, trimmed(body), lines[i]);
}

proof fn lemma_transition_lines(transitions: Seq<JsonView>, i: int)
    ensures
        0 <= i < transitions.len() && transitions[i].text("from"@) is Some ==> transition_lines(
            transitions,
        ).contains(transition_line(transitions[i])),
    decreases transitions.len(),
{
    if 0 <= i < transitions.len() && transitions[i].text("from"@) is Some {
        let front = transitions.drop_last();
        lemma_transition_lines(front, i);
        let before = transition_lines(front);
        let lines = transition_lines(transitions);
        if i < front.len() {
            assert(front[i] == transitions[i]);
            let k = choose|k: int|
                0 <= k < before.len() && before[k] == transition_line(transitions[i]);
            assert(lines[k] == before[k]);
        } else {
            assert(lines[before.len() as int] == transition_line(transitions[i]));
        }
    }
}

proof fn lemma_activity_is_shown(summary: JsonView, i: int)
    ensures
        ({
            let activity = join(discussion_activity(summary), "\n"@);
            &&& summary.get("current_review_votes"@) matches Some(votes) ==> (0 <= i
                < votes.items().len() ==> shows(activity, current_vote_line(votes.items()[i])))
            &&& summary.get("review_vote_transitions"@) matches Some(transitions) ==> (0 <= i
                < transitions.items().len() && transitions.items()[i].text("from"@) is Some ==> shows(
                activity,
                transition_line(transitions.items()[i]),
            ))
        }),
{
    let lines = discussion_activity(summary);
    let activity = join(lines, "\n"@);
    if let Some(votes) = summary.get("current_review_votes"@) {
        if 0 <= i < votes.items().len() {
            assert(lines[i] == current_vote_line(votes.items()[i]));
            lemma_join_shows(lines, "\n"@, i);
        }
    }
    if let Some(transitions) = summary.get("review_vote_transitions"@) {
        let all = transitions.items();
        if 0 <= i < all.len() && all[i].text("from"@) is Some {
            lemma_transition_lines(all, i);
            let each = transition_lines(all);
            let k = choose|k: int| 0 <= k < each.len() && each[k] == transition_line(all[i]);
            lemma_join_shows(each, "\n"@, k);
            let last = "**Transitions**\n"@ + join(each, "\n"@);
            assert(lines.last() == last);
            lemma_join_shows(lines, "\n"@, lines.len() - 1);
            lemma_shows_at("**Transitions**\n"@, join(each, "\n"@), Seq::empty());
            lemma_shows_within(activity, last, join(each, "\n"@));
            lemma_shows_within(activity, join(each, "\n"@), each[k]);
        }
    }
}

/// A vote that stands is shown with who cast it and its verdict, and a change of a vote with who
/// changed it, the verdict before and the verdict after.
pub proof fn lemma_vote_lines(
    vote: JsonView,
    name: Seq<char>,
    from: Seq<char>,
    to: Seq<char>,
    at: Option<Seq<char>>,
)
    ensures
        crate::laws::votes::says_vote(vote, name, to, at) ==> current_vote_line(vote) == "- **@"@ + name
            + ":** "@ + to,
        crate::laws::votes::says_change(vote, name, from, to, at) ==> transition_line(vote)
            == "- **@"@ + name + ":** "@ + from + " → "@ + to,
{
}

proof fn lemma_members_grow(
    lines: Seq<Seq<char>>,
    members: Seq<(Seq<char>, JsonView)>,
    all: Seq<Seq<char>>,
    i: int,
)
    requires
        grows(crate::render::with_members(lines, members), all),
    ensures
        grows(lines, all),
        0 <= i < members.len() && !crate::render::is_skipped_member(members[i].0) ==> (
        crate::fields::scalar_text(members[i].1) matches Some(value) ==> value.len() > 0 ==> shows(
            join(all, "\n\n"@),
            bullet(crate::render::member_label(members[i].0), value),
        )),
    decreases members.len(),
{
    if members.len() > 0 {
        let front = members.drop_last();
        let before = crate::render::with_members(lines, front);
        let (name, value) = members.last();
        let label = crate::render::member_label(name);
        let shown = crate::fields::scalar_text(value);
        lemma_bullet_grows(before, label, shown);
        lemma_grows_itself(before);
        let after = crate::render::with_members(lines, members);
        lemma_grows(before, after, all);
        lemma_members_grow(lines, front, all, i);
        if 0 <= i < front.len() {
            assert(front[i] == members[i]);
        } else if i == front.len() && !crate::render::is_skipped_member(name) {
            if let Some(text) = shown {
                if text.len() > 0 {
                    lemma_line_shown(after, all, before.len() as int);
                }
            }
        }
    }
}

/// Any other resource is shown by its title, or its display name, or its name, with its type, all its
/// members that say something in a line, its page and its description.
pub proof fn lemma_other_resource_is_shown(members: Seq<(Seq<char>, JsonView)>, i: int)
    ensures
        ({
            let resource = JsonView::Object(members);
            let text = crate::render::generic_document(resource);
            &&& resource.text("title"@) matches Some(title) ==> ("# "@ + title).is_prefix_of(text)
            &&& resource.text("title"@) is None ==> (resource.text("display_name"@) matches Some(name)
                ==> ("# "@ + name).is_prefix_of(text))
            &&& shows_member(text, "URL"@, resource, "web_link"@)
            &&& resource.text("description"@) matches Some(description) ==> !is_blank(description)
                ==> shows(text, trimmed(description))
            &&& 0 <= i < members.len() && !crate::render::is_skipped_member(members[i].0) ==> (
            crate::fields::scalar_text(members[i].1) matches Some(value) ==> value.len() > 0 ==> shows(
                text,
                bullet(crate::render::member_label(members[i].0), value),
            ))
        }),
{
    let resource = JsonView::Object(members);
    let document = crate::render::generic_document(resource);
    let kind = crate::fields::kind_of(resource);
    let title = crate::fields::value_or(
        crate::fields::either(
            crate::fields::either(resource.text("title"@), resource.text("display_name"@)),
            resource.text("name"@),
        ),
        kind,
    );
    let one = seq!["# "@ + title];
    let two = with_bullet(one, "Type"@, Some(kind));
    lemma_bullet_grows(one, "Type"@, Some(kind));
    let three = crate::render::with_members(two, members);
    let page = scalar_of(resource, "web_link"@);
    let four = with_bullet(three, "URL"@, page);
    lemma_bullet_grows(three, "URL"@, page);
    let description = crate::lines::text_or_empty(
        crate::fields::either(resource.text("description"@), resource.text("summary"@)),
    );
    let five = with_section(four, 2, "Description"@, description);
    lemma_section_grows(four, 2, "Description"@, description);
    assert(document == join(five, "\n\n"@));
    lemma_grows(three, four, five);
    lemma_members_grow(two, members, five, i);
    lemma_grows(one, two, five);
    lemma_nonempty_shown(one, five);
    if let Some(value) = page {
        if value.len() > 0 {
            lemma_line_shown(four, five, three.len() as int);
        }
    }
    if !is_blank(description) {
        lemma_grows_itself(five);
        lemma_line_shown(five, five, four.len() as int);
        lemma_shows_within(document, five[four.len() as int], trimmed(description));
    }
}

/// A value is shown in a line: a text as it is, a number in digits, a truth value by its name, and a
/// list by all that it has.
pub proof fn lemma_values_in_a_line(value: JsonView, text: Seq<char>, number: u64, first: Seq<char>)
    ensures
        text.len() > 0 ==> crate::fields::scalar_text(JsonView::Text(text)) == Some(text),
        crate::fields::scalar_text(crate::json::number_view(number)) == Some(decimal(number as nat)),
        crate::fields::scalar_text(JsonView::Bool(true)) == Some("true"@),
        crate::fields::scalar_text(JsonView::Bool(false)) == Some("false"@),
        crate::fields::scalar_text(JsonView::Null) is None,
        text.len() > 0 && first.len() > 0 ==> crate::fields::scalar_text(
            JsonView::Array(seq![JsonView::Text(first), JsonView::Text(text)]),
        ) == Some(first + ", "@ + text),
{
    let items = seq![JsonView::Text(first), JsonView::Text(text)];
    reveal_with_fuel(crate::fields::scalar_texts, 3);
    reveal_with_fuel(crate::fields::scalar_text, 3);
    reveal_with_fuel(join, 3);
    if text.len() > 0 && first.len() > 0 {
        let front = items.subrange(0, 1);
        assert(front =~= seq![JsonView::Text(first)]);
        assert(front.subrange(0, 0) =~= Seq::empty());
        let texts = crate::fields::scalar_texts(items);
        assert(texts =~= seq![first, text]);
        assert(texts.drop_last() =~= seq![first]);
    }
}

} // verus!
