//! Resources as Markdown.
use vstd::prelude::*;
use crate::compare::{head, take_characters};
use crate::fields::{
    capitalise, capitalised, either, id_of, kind_of, name_of_reviewer_member, owned_field,
    person_field, person_of, replace_head, resource_id, resource_kind, reviewer_member, scalar,
    scalar_field, scalar_of, scalar_text, text_field, value_or, with_head,
};
use crate::format::{cat2, cat3, cat4, cat5, cat7, repeat, repeated};
use crate::json::{items_view, members_view, Json, JsonView};
use crate::lines::{
    begin, each, no_lines, or_empty, or_text, push_bullet, push_section, push_section_at_level,
    text_or_empty, with_bullet, with_section,
};
use crate::number::{decimal, decimal_size};
use crate::split::{compact, compacted, holds_text, join, join_parts, push_part, split, split_on};
use crate::text::{
    blank, copy, ends_with, is_blank, opt_str_view, opt_view, same, trim, trimmed, views,
};

verus! {

/// The distinct values of a member over a list of resources, in the order in which they come up.
pub open spec fn distinct_scalars(values: Seq<JsonView>, name: Seq<char>) -> Seq<Seq<char>>
    decreases values.len(),
{
    if values.len() == 0 {
        Seq::empty()
    } else {
        let front = distinct_scalars(values.drop_last(), name);
        match scalar_of(values.last(), name) {
            Some(text) => if front.contains(text) {
                front
            } else {
                front.push(text)
            },
            None => front,
        }
    }
}

/// The distinct values of a member over a list of resources, in one line.
pub open spec fn joined_scalars(values: Seq<JsonView>, name: Seq<char>) -> Option<Seq<char>> {
    let distinct = distinct_scalars(values, name);
    if distinct.len() == 0 {
        None
    } else {
        Some(join(distinct, ", "@))
    }
}

fn unique_fields(values: &Vec<Json>, name: &str) -> (r: Option<String>)
    ensures
        opt_view(r) == joined_scalars(items_view(values@), name@),
{
    let mut distinct = no_lines();
    let ghost all = items_view(values@);
    assert(all.take(0) =~= Seq::empty());
    for i in 0..values.len()
        invariant
            all == items_view(values@),
            views(distinct@) == distinct_scalars(all.take(i as int), name@),
    {
        assert(all.take(i + 1).drop_last() =~= all.take(i as int));
        assert(all.take(i + 1).last() == values@[i as int]@);
        match scalar_field(&values[i], name) {
            Some(text) => if !holds_text(&distinct, text.as_str()) {
                push_part(&mut distinct, text);
            },
            None => {},
        }
    }
    assert(all.take(all.len() as int) =~= all);
    assert(views(distinct@).len() == distinct@.len());
    if distinct.len() == 0 {
        None
    } else {
        Some(join_parts(&distinct, ", "))
    }
}

/// A task of a bug.
pub open spec fn bug_task_line(task: JsonView) -> Seq<char> {
    let target = value_or(
        either(task.text("bug_target_display_name"@), task.text("bug_target_name"@)),
        "unknown"@,
    );
    let status = value_or(task.text("status"@), "Unknown"@);
    let importance = value_or(task.text("importance"@), "Unknown"@);
    let assignee = match person_of(task, "assignee"@) {
        Some(assignee) => " · assignee: "@ + assignee,
        None => Seq::empty(),
    };
    "- **"@ + target + ":** "@ + status + " · "@ + importance + assignee
}

fn render_bug_task(task: &Json) -> (r: String)
    ensures
        r@ == bug_task_line(task@),
{
    let target = match owned_field(task, "bug_target_display_name") {
        Some(target) => target,
        None => or_text(owned_field(task, "bug_target_name"), "unknown"),
    };
    let status = or_text(owned_field(task, "status"), "Unknown");
    let importance = or_text(owned_field(task, "importance"), "Unknown");
    let assignee = match person_field(task, "assignee") {
        Some(assignee) => cat2(" · assignee: ", assignee.as_str()),
        None => or_empty(None),
    };
    cat7(
        "- **",
        target.as_str(),
        ":** ",
        status.as_str(),
        " · ",
        importance.as_str(),
        assignee.as_str(),
    )
}

/// What a heading says of a comment beside its author.
pub open spec fn comment_metadata(comment: JsonView) -> Seq<char> {
    match (scalar_of(comment, "date_created"@), scalar_of(comment, "vote"@)) {
        (Some(created), Some(vote)) => created + " · "@ + vote,
        (Some(created), None) => created,
        (None, Some(vote)) => vote,
        (None, None) => Seq::empty(),
    }
}

/// The heading of a comment.
pub open spec fn comment_heading(comment: JsonView) -> Seq<char> {
    let author = value_or(
        either(person_of(comment, "author"@), person_of(comment, "owner"@)),
        "unknown"@,
    );
    let metadata = comment_metadata(comment);
    if metadata.len() == 0 {
        "### "@ + author
    } else {
        "### "@ + author + " ("@ + metadata + ")"@
    }
}

/// The body of a comment, where it is not blank.
pub open spec fn comment_body(comment: JsonView) -> Option<Seq<char>> {
    match either(comment.text("message_body"@), comment.text("content"@)) {
        Some(body) => if is_blank(body) {
            None
        } else {
            Some(body)
        },
        None => None,
    }
}

/// A comment: its heading, its title where it does not merely repeat the body, and its body.
pub open spec fn comment_block(comment: JsonView) -> Seq<char> {
    let heading = comment_heading(comment);
    let title = either(comment.text("title"@), comment.text("subject"@));
    match comment_body(comment) {
        Some(body) => match title {
            Some(title) => if compacted(title) != compacted(body) {
                join(seq![heading, "**"@ + title + "**"@, trimmed(body)], "\n\n"@)
            } else {
                join(seq![heading, trimmed(body)], "\n\n"@)
            },
            None => join(seq![heading, trimmed(body)], "\n\n"@),
        },
        None => join(seq![heading, "_No written comment._"@], "\n\n"@),
    }
}

fn render_comment_heading(comment: &Json) -> (r: String)
    ensures
        r@ == comment_heading(comment@),
{
    let author = match person_field(comment, "author") {
        Some(author) => author,
        None => or_text(person_field(comment, "owner"), "unknown"),
    };
    let metadata = match (scalar_field(comment, "date_created"), scalar_field(comment, "vote")) {
        (Some(created), Some(vote)) => cat3(created.as_str(), " · ", vote.as_str()),
        (Some(created), None) => created,
        (None, Some(vote)) => vote,
        (None, None) => or_empty(None),
    };
    if metadata.as_str().is_empty() {
        cat2("### ", author.as_str())
    } else {
        cat5("### ", author.as_str(), " (", metadata.as_str(), ")")
    }
}

fn find_comment_body<'value>(comment: &'value Json) -> (r: Option<&'value str>)
    ensures
        opt_str_view(r) == comment_body(comment@),
{
    let body = match text_field(comment, "message_body") {
        Some(body) => Some(body),
        None => text_field(comment, "content"),
    };
    match body {
        Some(body) => if blank(body) {
            None
        } else {
            Some(body)
        },
        None => None,
    }
}

fn render_comment(comment: &Json) -> (r: String)
    ensures
        r@ == comment_block(comment@),
{
    let ghost heading = comment_heading(comment@);
    let mut lines = begin(render_comment_heading(comment));
    let title = match text_field(comment, "title") {
        Some(title) => Some(title),
        None => text_field(comment, "subject"),
    };
    match find_comment_body(comment) {
        Some(body) => {
            if let Some(title) = title {
                if !same(compact(title).as_str(), compact(body).as_str()) {
                    push_part(&mut lines, cat3("**", title, "**"));
                    push_part(&mut lines, trim(body));
                    assert(views(lines@) =~= seq![heading, "**"@ + title@ + "**"@, trimmed(body@)]);
                    return join_parts(&lines, "\n\n");
                }
            }
            push_part(&mut lines, trim(body));
            assert(views(lines@) =~= seq![heading, trimmed(body@)]);
        },
        None => {
            push_part(&mut lines, copy("_No written comment._"));
            assert(views(lines@) =~= seq![heading, "_No written comment._"@]);
        },
    }
    join_parts(&lines, "\n\n")
}

/// A vote of a review.
pub open spec fn vote_line(vote: JsonView) -> Seq<char> {
    let reviewer = value_or(
        either(person_of(vote, reviewer_member()), person_of(vote, "registrant"@)),
        "unknown"@,
    );
    let verdict = value_or(either(vote.text("vote"@), vote.text("review_type"@)), "Pending"@);
    "- **"@ + reviewer + ":** "@ + verdict
}

fn render_vote(vote: &Json) -> (r: String)
    ensures
        r@ == vote_line(vote@),
{
    let reviewer = match person_field(vote, name_of_reviewer_member().as_str()) {
        Some(reviewer) => reviewer,
        None => or_text(person_field(vote, "registrant"), "unknown"),
    };
    let verdict = match owned_field(vote, "vote") {
        Some(verdict) => verdict,
        None => or_text(owned_field(vote, "review_type"), "Pending"),
    };
    cat4("- **", reviewer.as_str(), ":** ", verdict.as_str())
}

/// Blocks with a section of comments behind them, where they are shown and there are any.
pub open spec fn with_comments(
    lines: Seq<Seq<char>>,
    level: nat,
    comments: Seq<JsonView>,
    shown: bool,
    limit: nat,
) -> Seq<Seq<char>> {
    if shown && comments.len() > 0 {
        with_section(
            lines,
            level,
            "Comments (up to "@ + decimal(limit) + ")"@,
            join(comments.map_values(|comment: JsonView| comment_block(comment)), "\n\n"@),
        )
    } else {
        lines
    }
}

fn push_comments(
    lines: &mut Vec<String>,
    level: usize,
    comments: &Vec<Json>,
    shown: bool,
    limit: usize,
)
    ensures
        views(final(lines)@) == with_comments(
            views(old(lines)@),
            level as nat,
            items_view(comments@),
            shown,
            limit as nat,
        ),
{
    if shown && comments.len() > 0 {
        let blocks = each(comments, render_comment);
        assert(views(blocks@) =~= items_view(comments@).map_values(
            |comment: JsonView| comment_block(comment),
        ));
        push_section_at_level(
            lines,
            level,
            cat3("Comments (up to ", decimal_size(limit).as_str(), ")").as_str(),
            join_parts(&blocks, "\n\n").as_str(),
        );
    }
}

/// The bullets of a bug.
pub open spec fn bug_bullets(bug: JsonView, tasks: Seq<JsonView>) -> Seq<Seq<char>> {
    let id = value_or(scalar_of(bug, "id"@), "?"@);
    let title = value_or(bug.text("title"@), "Untitled"@);
    let lines = seq!["# Bug #"@ + id + ": "@ + title];
    let lines = with_bullet(lines, "Status"@, joined_scalars(tasks, "status"@));
    let lines = with_bullet(lines, "Importance"@, joined_scalars(tasks, "importance"@));
    let lines = with_bullet(lines, "Owner"@, person_of(bug, "owner"@));
    let lines = with_bullet(lines, "Created"@, scalar_of(bug, "date_created"@));
    let lines = with_bullet(lines, "Updated"@, scalar_of(bug, "date_last_updated"@));
    let lines = with_bullet(lines, "Information type"@, scalar_of(bug, "information_type"@));
    let lines = with_bullet(lines, "Tags"@, scalar_of(bug, "tags"@));
    let lines = with_bullet(lines, "Heat"@, scalar_of(bug, "heat"@));
    with_bullet(lines, "URL"@, scalar_of(bug, "web_link"@))
}

/// A bug with its tasks and comments.
pub open spec fn bug_document(
    bug: JsonView,
    tasks: Seq<JsonView>,
    comments: Seq<JsonView>,
    include_comments: bool,
    comment_limit: nat,
) -> Seq<char> {
    let lines = bug_bullets(bug, tasks);
    let lines = with_section(
        lines,
        2,
        "Description"@,
        text_or_empty(bug.text("description"@)),
    );
    let lines = if tasks.len() > 0 {
        with_section(
            lines,
            2,
            "Tasks"@,
            join(tasks.map_values(|task: JsonView| bug_task_line(task)), "\n"@),
        )
    } else {
        lines
    };
    join(with_comments(lines, 2, comments, include_comments, comment_limit), "\n\n"@)
}

fn render_bug_bullets(bug: &Json, tasks: &Vec<Json>) -> (r: Vec<String>)
    ensures
        views(r@) == bug_bullets(bug@, items_view(tasks@)),
{
    let id = or_text(scalar_field(bug, "id"), "?");
    let title = or_text(owned_field(bug, "title"), "Untitled");
    let mut lines = begin(cat4("# Bug #", id.as_str(), ": ", title.as_str()));
    push_bullet(&mut lines, "Status", unique_fields(tasks, "status"));
    push_bullet(&mut lines, "Importance", unique_fields(tasks, "importance"));
    push_bullet(&mut lines, "Owner", person_field(bug, "owner"));
    push_bullet(&mut lines, "Created", scalar_field(bug, "date_created"));
    push_bullet(&mut lines, "Updated", scalar_field(bug, "date_last_updated"));
    push_bullet(&mut lines, "Information type", scalar_field(bug, "information_type"));
    push_bullet(&mut lines, "Tags", scalar_field(bug, "tags"));
    push_bullet(&mut lines, "Heat", scalar_field(bug, "heat"));
    push_bullet(&mut lines, "URL", scalar_field(bug, "web_link"));
    lines
}

/// A bug with its tasks and comments.
pub fn render_bug(
    bug: &Json,
    tasks: &Vec<Json>,
    comments: &Vec<Json>,
    include_comments: bool,
    comment_limit: usize,
) -> (r: String)
    ensures
        r@ == bug_document(
            bug@,
            items_view(tasks@),
            items_view(comments@),
            include_comments,
            comment_limit as nat,
        ),
{
    let mut lines = render_bug_bullets(bug, tasks);
    push_section(&mut lines, "Description", or_empty(text_field(bug, "description")).as_str());
    if tasks.len() > 0 {
        let task_lines = each(tasks, render_bug_task);
        assert(views(task_lines@) =~= items_view(tasks@).map_values(
            |task: JsonView| bug_task_line(task),
        ));
        push_section(&mut lines, "Tasks", join_parts(&task_lines, "\n").as_str());
    }
    push_comments(&mut lines, 2, comments, include_comments, comment_limit);
    join_parts(&lines, "\n\n")
}

/// The title of a merge proposal: its commit message, or the beginning of its description.
pub open spec fn proposal_title(proposal: JsonView) -> Seq<char> {
    let description = match proposal.text("description"@) {
        Some(description) => if compacted(description).len() == 0 {
            "Untitled"@
        } else {
            head(compacted(description), 120)
        },
        None => "Untitled"@,
    };
    match proposal.text("commit_message"@) {
        Some(message) => if is_blank(message) {
            description
        } else {
            message
        },
        None => description,
    }
}

fn find_proposal_title(proposal: &Json) -> (r: String)
    ensures
        r@ == proposal_title(proposal@),
{
    if let Some(message) = text_field(proposal, "commit_message") {
        if !blank(message) {
            return copy(message);
        }
    }
    match text_field(proposal, "description") {
        Some(description) => {
            let description = compact(description);
            if description.as_str().is_empty() {
                copy("Untitled")
            } else {
                take_characters(description.as_str(), 120)
            }
        },
        None => copy("Untitled"),
    }
}

/// A member of a member of a resource in one line.
pub open spec fn nested_scalar_of(value: JsonView, parent: Seq<char>, name: Seq<char>) -> Option<
    Seq<char>,
> {
    match value.get(parent) {
        Some(parent) => scalar_of(parent, name),
        None => None,
    }
}

fn nested_scalar(value: &Json, parent: &str, name: &str) -> (r: Option<String>)
    ensures
        opt_view(r) == nested_scalar_of(value@, parent@, name@),
{
    match value.get(parent) {
        Some(parent) => scalar_field(parent, name),
        None => None,
    }
}

/// The bullets of a merge proposal.
pub open spec fn proposal_bullets(proposal: JsonView, level: nat) -> Seq<Seq<char>> {
    let id = value_or(id_of(proposal), "?"@);
    let lines = seq![
        repeated('#', level) + " Merge proposal "@ + id + ": "@ + proposal_title(proposal),
    ];
    let lines = with_bullet(lines, "Status"@, scalar_of(proposal, "queue_status"@));
    let lines = with_bullet(
        lines,
        "Source"@,
        either(
            scalar_of(proposal, "source_git_path"@),
            nested_scalar_of(proposal, "source_branch"@, "unique_name"@),
        ),
    );
    let lines = with_bullet(
        lines,
        "Target"@,
        either(
            scalar_of(proposal, "target_git_path"@),
            nested_scalar_of(proposal, "target_branch"@, "unique_name"@),
        ),
    );
    let lines = with_bullet(lines, "Registrant"@, person_of(proposal, "registrant"@));
    let lines = with_bullet(lines, with_head("R"@, reviewer_member()), person_of(proposal, reviewer_member()));
    let lines = with_bullet(lines, "Created"@, scalar_of(proposal, "date_created"@));
    let lines = with_bullet(lines, "Reviewed"@, scalar_of(proposal, "date_reviewed"@));
    let lines = with_bullet(lines, "Merged"@, scalar_of(proposal, "date_merged"@));
    with_bullet(lines, "URL"@, scalar_of(proposal, "web_link"@))
}

/// A merge proposal with its votes and comments, under a heading of some level.
pub open spec fn proposal_document(
    proposal: JsonView,
    comments: Seq<JsonView>,
    votes: Seq<JsonView>,
    include_comments: bool,
    comment_limit: nat,
    level: nat,
) -> Seq<char> {
    let lines = proposal_bullets(proposal, level);
    let lines = with_section(
        lines,
        level + 1,
        "Description"@,
        text_or_empty(proposal.text("description"@)),
    );
    let lines = if votes.len() > 0 {
        with_section(
            lines,
            level + 1,
            "Reviews"@,
            join(votes.map_values(|vote: JsonView| vote_line(vote)), "\n"@),
        )
    } else {
        lines
    };
    join(with_comments(lines, level + 1, comments, include_comments, comment_limit), "\n\n"@)
}

fn render_proposal_bullets(proposal: &Json, level: usize) -> (r: Vec<String>)
    ensures
        views(r@) == proposal_bullets(proposal@, level as nat),
{
    let id = or_text(resource_id(proposal), "?");
    let title = find_proposal_title(proposal);
    let mut lines = begin(
        cat5(
            repeat('#', level).as_str(),
            " Merge proposal ",
            id.as_str(),
            ": ",
            title.as_str(),
        ),
    );
    push_bullet(&mut lines, "Status", scalar_field(proposal, "queue_status"));
    let source = match scalar_field(proposal, "source_git_path") {
        Some(source) => Some(source),
        None => nested_scalar(proposal, "source_branch", "unique_name"),
    };
    push_bullet(&mut lines, "Source", source);
    let target = match scalar_field(proposal, "target_git_path") {
        Some(target) => Some(target),
        None => nested_scalar(proposal, "target_branch", "unique_name"),
    };
    push_bullet(&mut lines, "Target", target);
    push_bullet(&mut lines, "Registrant", person_field(proposal, "registrant"));
    let reviewer_name = name_of_reviewer_member();
    push_bullet(
        &mut lines,
        replace_head("R", reviewer_name.as_str()).as_str(),
        person_field(proposal, reviewer_name.as_str()),
    );
    push_bullet(&mut lines, "Created", scalar_field(proposal, "date_created"));
    push_bullet(&mut lines, "Reviewed", scalar_field(proposal, "date_reviewed"));
    push_bullet(&mut lines, "Merged", scalar_field(proposal, "date_merged"));
    push_bullet(&mut lines, "URL", scalar_field(proposal, "web_link"));
    lines
}

pub(crate) fn render_proposal_at_level(
    proposal: &Json,
    comments: &Vec<Json>,
    votes: &Vec<Json>,
    include_comments: bool,
    comment_limit: usize,
    level: usize,
) -> (r: String)
    requires
        level < usize::MAX,
    ensures
        r@ == proposal_document(
            proposal@,
            items_view(comments@),
            items_view(votes@),
            include_comments,
            comment_limit as nat,
            level as nat,
        ),
{
    let mut lines = render_proposal_bullets(proposal, level);
    push_section_at_level(
        &mut lines,
        level + 1,
        "Description",
        or_empty(text_field(proposal, "description")).as_str(),
    );
    if votes.len() > 0 {
        let vote_lines = each(votes, render_vote);
        assert(views(vote_lines@) =~= items_view(votes@).map_values(
            |vote: JsonView| vote_line(vote),
        ));
        push_section_at_level(
            &mut lines,
            level + 1,
            "Reviews",
            join_parts(&vote_lines, "\n").as_str(),
        );
    }
    push_comments(&mut lines, level + 1, comments, include_comments, comment_limit);
    join_parts(&lines, "\n\n")
}

/// A merge proposal with its votes and comments.
pub fn render_proposal(
    proposal: &Json,
    comments: &Vec<Json>,
    votes: &Vec<Json>,
    include_comments: bool,
    comment_limit: usize,
) -> (r: String)
    ensures
        r@ == proposal_document(
            proposal@,
            items_view(comments@),
            items_view(votes@),
            include_comments,
            comment_limit as nat,
            1,
        ),
{
    render_proposal_at_level(proposal, comments, votes, include_comments, comment_limit, 1)
}

/// A Git repository.
pub open spec fn repository_document(repository: JsonView) -> Seq<char> {
    let name = value_or(
        either(repository.text("unique_name"@), repository.text("name"@)),
        "repository"@,
    );
    let lines = seq!["# "@ + name];
    let lines = with_bullet(lines, "Owner"@, person_of(repository, "owner"@));
    let lines = with_bullet(lines, "Target"@, person_of(repository, "target"@));
    let lines = with_bullet(lines, "Default branch"@, scalar_of(repository, "default_branch"@));
    let lines = with_bullet(lines, "Status"@, scalar_of(repository, "status"@));
    let lines = with_bullet(lines, "Information type"@, scalar_of(repository, "information_type"@));
    let lines = with_bullet(lines, "Created"@, scalar_of(repository, "date_created"@));
    let lines = with_bullet(lines, "Updated"@, scalar_of(repository, "date_last_modified"@));
    let lines = with_bullet(lines, "Clone URL"@, scalar_of(repository, "git_https_url"@));
    let lines = with_bullet(lines, "SSH URL"@, scalar_of(repository, "git_ssh_url"@));
    let lines = with_bullet(lines, "URL"@, scalar_of(repository, "web_link"@));
    let lines = with_section(
        lines,
        2,
        "Description"@,
        text_or_empty(repository.text("description"@)),
    );
    join(lines, "\n\n"@)
}

/// A Git repository.
pub fn render_repository(repository: &Json) -> (r: String)
    ensures
        r@ == repository_document(repository@),
{
    let name = match owned_field(repository, "unique_name") {
        Some(name) => name,
        None => or_text(owned_field(repository, "name"), "repository"),
    };
    let mut lines = begin(cat2("# ", name.as_str()));
    push_bullet(&mut lines, "Owner", person_field(repository, "owner"));
    push_bullet(&mut lines, "Target", person_field(repository, "target"));
    push_bullet(&mut lines, "Default branch", scalar_field(repository, "default_branch"));
    push_bullet(&mut lines, "Status", scalar_field(repository, "status"));
    push_bullet(&mut lines, "Information type", scalar_field(repository, "information_type"));
    push_bullet(&mut lines, "Created", scalar_field(repository, "date_created"));
    push_bullet(&mut lines, "Updated", scalar_field(repository, "date_last_modified"));
    push_bullet(&mut lines, "Clone URL", scalar_field(repository, "git_https_url"));
    push_bullet(&mut lines, "SSH URL", scalar_field(repository, "git_ssh_url"));
    push_bullet(&mut lines, "URL", scalar_field(repository, "web_link"));
    push_section(
        &mut lines,
        "Description",
        or_empty(text_field(repository, "description")).as_str(),
    );
    join_parts(&lines, "\n\n")
}

/// Whether a member of a resource is shown elsewhere, or not at all.
pub open spec fn is_skipped_member(name: Seq<char>) -> bool {
    name == "self_link"@ || name == "resource_type_link"@ || name == "http_etag"@ || name
        == "web_link"@ || name == "description"@ || name == "title"@ || name == "name"@ || name
        == "display_name"@ || "_collection_link"@.is_suffix_of(name)
}

/// The label of a member: its words, each with an upper-case character first.
pub open spec fn member_label(name: Seq<char>) -> Seq<char> {
    join(split_on(name, '_').map_values(|word: Seq<char>| capitalised(word)), " "@)
}

/// Blocks with a bullet behind them for each member that is shown.
pub open spec fn with_members(
    lines: Seq<Seq<char>>,
    members: Seq<(Seq<char>, JsonView)>,
) -> Seq<Seq<char>>
    decreases members.len(),
{
    if members.len() == 0 {
        lines
    } else {
        let front = with_members(lines, members.drop_last());
        let (name, value) = members.last();
        if is_skipped_member(name) {
            front
        } else {
            with_bullet(front, member_label(name), scalar_text(value))
        }
    }
}

/// A resource of any type.
pub open spec fn generic_document(resource: JsonView) -> Seq<char> {
    let kind = kind_of(resource);
    let title = value_or(
        either(
            either(resource.text("title"@), resource.text("display_name"@)),
            resource.text("name"@),
        ),
        kind,
    );
    let lines = with_bullet(seq!["# "@ + title], "Type"@, Some(kind));
    let lines = match resource {
        JsonView::Object(members) => with_members(lines, members),
        _ => lines,
    };
    let lines = with_bullet(lines, "URL"@, scalar_of(resource, "web_link"@));
    let description = either(resource.text("description"@), resource.text("summary"@));
    join(with_section(lines, 2, "Description"@, text_or_empty(description)), "\n\n"@)
}

fn skipped_member(name: &str) -> (r: bool)
    ensures
        r == is_skipped_member(name@),
{
    same(name, "self_link") || same(name, "resource_type_link") || same(name, "http_etag") || same(
        name,
        "web_link",
    ) || same(name, "description") || same(name, "title") || same(name, "name") || same(
        name,
        "display_name",
    ) || ends_with(name, "_collection_link")
}

fn label_of_member(name: &str) -> (r: String)
    ensures
        r@ == member_label(name@),
{
    let words = split(name, '_');
    let mut parts = no_lines();
    let ghost label = |word: Seq<char>| capitalised(word);
    assert(views(words@).take(0).map_values(label) =~= Seq::empty());
    for i in 0..words.len()
        invariant
            label == (|word: Seq<char>| capitalised(word)),
            views(parts@) == views(words@).take(i as int).map_values(label),
    {
        push_part(&mut parts, capitalise(words[i].as_str()));
        assert(views(parts@) =~= views(words@).take(i + 1).map_values(label));
    }
    assert(views(words@).take(words@.len() as int) =~= views(words@));
    join_parts(&parts, " ")
}

fn push_members(lines: &mut Vec<String>, members: &Vec<(String, Json)>)
    ensures
        views(final(lines)@) == with_members(views(old(lines)@), members_view(members@)),
{
    let ghost before = views(lines@);
    let ghost all = members_view(members@);
    assert(all.take(0) =~= Seq::empty());
    for i in 0..members.len()
        invariant
            all == members_view(members@),
            views(lines@) == with_members(before, all.take(i as int)),
    {
        assert(all.take(i + 1).drop_last() =~= all.take(i as int));
        assert(all.take(i + 1).last() == (members@[i as int].0@, members@[i as int].1@));
        let name = members[i].0.as_str();
        if !skipped_member(name) {
            push_bullet(lines, label_of_member(name).as_str(), scalar(&members[i].1));
        }
    }
    assert(all.take(all.len() as int) =~= all);
}

/// A resource of any type.
pub fn render_generic(resource: &Json) -> (r: String)
    ensures
        r@ == generic_document(resource@),
{
    let kind = resource_kind(resource);
    let title = match owned_field(resource, "title") {
        Some(title) => title,
        None => match owned_field(resource, "display_name") {
            Some(title) => title,
            None => or_text(owned_field(resource, "name"), kind.as_str()),
        },
    };
    let mut lines = begin(cat2("# ", title.as_str()));
    push_bullet(&mut lines, "Type", Some(kind));
    match resource {
        Json::Object(members) => push_members(&mut lines, members),
        _ => {},
    }
    push_bullet(&mut lines, "URL", scalar_field(resource, "web_link"));
    let description = match text_field(resource, "description") {
        Some(description) => Some(description),
        None => text_field(resource, "summary"),
    };
    push_section(&mut lines, "Description", or_empty(description).as_str());
    join_parts(&lines, "\n\n")
}

} // verus!
