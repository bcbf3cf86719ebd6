//! Reports as Markdown: diffs and their comments, searches, lookups and discussions.
use vstd::prelude::*;
use crate::compare::{head, precedes, take_characters, text_precedes};
use crate::diff::{DiffLineKind, DiffLocation, DiffSide, LocationView};
use crate::fields::{
    either, id_of, name_of_reviewer_member, owned_field, person_field, person_of, resource_id,
    reviewer_member, scalar_field, scalar_of, text_field, value_or,
};
use crate::format::{cat10, cat12, cat2, cat3, cat4, cat5, cat6, cat7, cat9};
use crate::json::{items_view, members_view, Json, JsonView};
use crate::lines::{
    begin, each, no_lines, or_empty, or_text, push_bullet, push_lines, push_section, text_or_empty,
    with_bullet, with_section,
};
use crate::number::{
    decimal, decimal_size, decimal_text, one_more, parse_usize, plus_one, unsigned_within,
};
use crate::order::{arranged, indices, keys_view, order_of, sort_order, Key, KeyView};
use crate::render::{proposal_document, render_proposal_at_level};
use crate::repository::{normalise_repository, normalised_repository};
use crate::split::{after_last, compact, compacted, join, join_parts, last_piece, push_part};
use crate::text::{blank, copy, is_blank, opt_str_view, views};

verus! {

/// What the snapshots of a diff are ordered by.
pub open spec fn preview_diff_key(preview_diff: JsonView) -> KeyView {
    KeyView { rank: value_or(preview_diff.unsigned("id"@), 0), text: None, number: 0 }
}

/// A snapshot of a diff in a list of them.
pub open spec fn preview_diff_line(preview_diff: JsonView, current_id: u64) -> Seq<char> {
    let raw_id = preview_diff.unsigned("id"@);
    let id = match raw_id {
        Some(id) => decimal(id as nat),
        None => "?"@,
    };
    let created = match preview_diff.text("date_created"@) {
        Some(created) => " · "@ + created,
        None => Seq::empty(),
    };
    let current = if raw_id == Some(current_id) {
        " · current"@
    } else {
        Seq::empty()
    };
    let stale = if preview_diff.flag("stale"@) == Some(true) {
        " · stale"@
    } else {
        Seq::empty()
    };
    "- **"@ + id + "**"@ + created + current + stale
}

/// The snapshots of the diff of a merge proposal, ordered by their identifiers.
pub open spec fn preview_diffs_document(
    preview_diffs: Seq<JsonView>,
    current_id: u64,
    proposal_id: Seq<char>,
) -> Seq<char> {
    let heading = seq!["# Preview diff history for merge proposal "@ + proposal_id];
    let sorted = arranged(
        preview_diffs,
        order_of(preview_diffs.map_values(|preview_diff: JsonView| preview_diff_key(preview_diff))),
    );
    if preview_diffs.len() == 0 {
        join(heading.push("No preview diffs."@), "\n"@)
    } else {
        join(
            heading + sorted.map_values(
                |preview_diff: JsonView| preview_diff_line(preview_diff, current_id),
            ),
            "\n"@,
        )
    }
}

fn render_preview_diff(preview_diff: &Json, current_id: u64) -> (r: String)
    ensures
        r@ == preview_diff_line(preview_diff@, current_id),
{
    let raw_id = preview_diff.unsigned("id");
    let id = match raw_id {
        Some(id) => decimal_text(id),
        None => copy("?"),
    };
    let created = match text_field(preview_diff, "date_created") {
        Some(created) => cat2(" · ", created),
        None => or_empty(None),
    };
    let is_current = match raw_id {
        Some(id) => id == current_id,
        None => false,
    };
    let current = if is_current {
        copy(" · current")
    } else {
        or_empty(None)
    };
    let is_stale = match preview_diff.flag("stale") {
        Some(stale) => stale,
        None => false,
    };
    let stale = if is_stale {
        copy(" · stale")
    } else {
        or_empty(None)
    };
    cat6("- **", id.as_str(), "**", created.as_str(), current.as_str(), stale.as_str())
}

/// The snapshots of the diff of a merge proposal, ordered by their identifiers.
pub fn render_preview_diffs(preview_diffs: &Vec<Json>, current_id: u64, proposal_id: &str) -> (r:
    String)
    ensures
        r@ == preview_diffs_document(items_view(preview_diffs@), current_id, proposal_id@),
{
    let ghost all = items_view(preview_diffs@);
    let mut keys: Vec<Key> = Vec::new();
    for i in 0..preview_diffs.len()
        invariant
            all == items_view(preview_diffs@),
            keys@.len() == i,
            forall|j: int| 0 <= j < i ==> (#[trigger] keys@[j])@ == preview_diff_key(all[j]),
    {
        let rank: u64 = match preview_diffs[i].unsigned("id") {
            Some(id) => id,
            None => 0,
        };
        keys.push(Key { rank, text: None, number: 0 });
    }
    assert(keys_view(keys@) =~= all.map_values(
        |preview_diff: JsonView| preview_diff_key(preview_diff),
    ));
    let order = sort_order(&keys);
    let heading = cat2("# Preview diff history for merge proposal ", proposal_id);
    let ghost first = seq![heading@];
    let mut lines = begin(heading);
    let ghost sorted = arranged(all, indices(order@));
    let ghost line = |preview_diff: JsonView| preview_diff_line(preview_diff, current_id);
    assert(first + sorted.take(0).map_values(line) =~= first);
    for i in 0..order.len()
        invariant
            all == items_view(preview_diffs@),
            order@.len() == preview_diffs@.len(),
            forall|p: int| 0 <= p < order@.len() ==> #[trigger] order@[p] < preview_diffs@.len(),
            sorted == arranged(all, indices(order@)),
            line == (|preview_diff: JsonView| preview_diff_line(preview_diff, current_id)),
            views(lines@) == first + sorted.take(i as int).map_values(line),
    {
        push_part(&mut lines, render_preview_diff(&preview_diffs[order[i]], current_id));
        assert(sorted[i as int] == all[order@[i as int] as int]);
        assert(views(lines@) =~= first + sorted.take(i + 1).map_values(line));
    }
    assert(sorted.take(sorted.len() as int) =~= sorted);
    if preview_diffs.len() == 0 {
        assert(first + sorted.map_values(line) =~= first);
        push_part(&mut lines, copy("No preview diffs."));
    }
    join_parts(&lines, "\n")
}

/// A text, or the note that there is none where it is missing or blank.
pub open spec fn written(text: Option<Seq<char>>) -> Seq<char> {
    match text {
        Some(text) => if is_blank(text) {
            "_No written comment._"@
        } else {
            text
        },
        None => "_No written comment._"@,
    }
}

fn written_text(text: Option<&str>) -> (r: String)
    ensures
        r@ == written(opt_str_view(text)),
{
    match text {
        Some(text) => if blank(text) {
            copy("_No written comment._")
        } else {
            copy(text)
        },
        None => copy("_No written comment._"),
    }
}

/// An inline comment.
pub open spec fn inline_comment_block(comment: JsonView) -> Seq<char> {
    let line = value_or(scalar_of(comment, "line_number"@), "?"@);
    let author = value_or(person_of(comment, "person"@), "unknown"@);
    let date = match comment.text("date"@) {
        Some(date) => " · "@ + date,
        None => Seq::empty(),
    };
    "## Diff line "@ + line + " · "@ + author + date + "\n\n"@ + written(comment.text("text"@))
}

fn render_inline_comment(comment: &Json) -> (r: String)
    ensures
        r@ == inline_comment_block(comment@),
{
    let line = or_text(scalar_field(comment, "line_number"), "?");
    let author = or_text(person_field(comment, "person"), "unknown");
    let date = match text_field(comment, "date") {
        Some(date) => cat2(" · ", date),
        None => or_empty(None),
    };
    cat7(
        "## Diff line ",
        line.as_str(),
        " · ",
        author.as_str(),
        date.as_str(),
        "\n\n",
        written_text(text_field(comment, "text")).as_str(),
    )
}

/// The published inline comments on a snapshot of a diff.
pub open spec fn inline_comments_document(
    comments: Seq<JsonView>,
    preview_diff_id: u64,
    proposal_id: Seq<char>,
) -> Seq<char> {
    let heading = seq![
        "# Published inline comments for merge proposal "@ + proposal_id + ", preview diff "@
            + decimal(preview_diff_id as nat),
    ];
    if comments.len() == 0 {
        join(heading.push("No published inline comments."@), "\n\n"@)
    } else {
        join(
            heading + comments.map_values(|comment: JsonView| inline_comment_block(comment)),
            "\n\n"@,
        )
    }
}

/// The published inline comments on a snapshot of a diff.
pub fn render_inline_comments(comments: &Vec<Json>, preview_diff_id: u64, proposal_id: &str) -> (r:
    String)
    ensures
        r@ == inline_comments_document(items_view(comments@), preview_diff_id, proposal_id@),
{
    let mut lines = begin(
        cat4(
            "# Published inline comments for merge proposal ",
            proposal_id,
            ", preview diff ",
            decimal_text(preview_diff_id).as_str(),
        ),
    );
    if comments.len() == 0 {
        push_part(&mut lines, copy("No published inline comments."));
    } else {
        let blocks = each(comments, render_inline_comment);
        assert(views(blocks@) =~= items_view(comments@).map_values(
            |comment: JsonView| inline_comment_block(comment),
        ));
        push_lines(&mut lines, blocks);
    }
    join_parts(&lines, "\n\n")
}

/// What the drafts of a review are ordered by: the line of the diff.
pub open spec fn draft_key(draft: (Seq<char>, JsonView)) -> KeyView {
    let line = match unsigned_within(draft.0, usize::MAX as nat) {
        Some(line) => line as u64,
        None => 0,
    };
    KeyView { rank: line, text: None, number: 0 }
}

/// A draft of an inline comment.
pub open spec fn draft_block(draft: (Seq<char>, JsonView)) -> Seq<char> {
    "## Diff line "@ + draft.0 + "\n\n"@ + written(draft.1.as_text())
}

/// The members of a value, where it is an object, and none otherwise.
pub open spec fn members_of(value: JsonView) -> Seq<(Seq<char>, JsonView)> {
    match value {
        JsonView::Object(members) => members,
        _ => Seq::empty(),
    }
}

/// The drafts of a review of a snapshot of a diff, ordered by the lines of the diff.
pub open spec fn review_drafts_document(
    drafts: JsonView,
    preview_diff_id: u64,
    proposal_id: Seq<char>,
) -> Seq<char> {
    let heading = seq![
        "# Review drafts for merge proposal "@ + proposal_id + ", preview diff "@ + decimal(
            preview_diff_id as nat,
        ),
    ];
    let members = members_of(drafts);
    let sorted = arranged(
        members,
        order_of(members.map_values(|draft: (Seq<char>, JsonView)| draft_key(draft))),
    );
    if members.len() == 0 {
        join(heading.push("No review drafts."@), "\n\n"@)
    } else {
        join(
            heading + sorted.map_values(|draft: (Seq<char>, JsonView)| draft_block(draft)),
            "\n\n"@,
        )
    }
}

fn push_drafts(lines: &mut Vec<String>, drafts: &Vec<(String, Json)>)
    ensures
        views(final(lines)@) == views(old(lines)@) + arranged(
            members_view(drafts@),
            order_of(
                members_view(drafts@).map_values(
                    |draft: (Seq<char>, JsonView)| draft_key(draft),
                ),
            ),
        ).map_values(|draft: (Seq<char>, JsonView)| draft_block(draft)),
{
    let ghost first = views(lines@);
    let ghost all = members_view(drafts@);
    let mut keys: Vec<Key> = Vec::new();
    for i in 0..drafts.len()
        invariant
            all == members_view(drafts@),
            keys@.len() == i,
            forall|j: int| 0 <= j < i ==> (#[trigger] keys@[j])@ == draft_key(all[j]),
    {
        let rank: u64 = match parse_usize(drafts[i].0.as_str()) {
            Some(line) => line as u64,
            None => 0,
        };
        keys.push(Key { rank, text: None, number: 0 });
    }
    assert(keys_view(keys@) =~= all.map_values(|draft: (Seq<char>, JsonView)| draft_key(draft)));
    let order = sort_order(&keys);
    let ghost sorted = arranged(all, indices(order@));
    let ghost block = |draft: (Seq<char>, JsonView)| draft_block(draft);
    assert(first + sorted.take(0).map_values(block) =~= first);
    for i in 0..order.len()
        invariant
            all == members_view(drafts@),
            order@.len() == drafts@.len(),
            forall|p: int| 0 <= p < order@.len() ==> #[trigger] order@[p] < drafts@.len(),
            sorted == arranged(all, indices(order@)),
            block == (|draft: (Seq<char>, JsonView)| draft_block(draft)),
            views(lines@) == first + sorted.take(i as int).map_values(block),
    {
        let at = order[i];
        push_part(
            lines,
            cat4(
                "## Diff line ",
                drafts[at].0.as_str(),
                "\n\n",
                written_text(drafts[at].1.as_str()).as_str(),
            ),
        );
        assert(sorted[i as int] == all[at as int]);
        assert(views(lines@) =~= first + sorted.take(i + 1).map_values(block));
    }
    assert(sorted.take(sorted.len() as int) =~= sorted);
}

/// The drafts of a review of a snapshot of a diff, ordered by the lines of the diff.
pub fn render_review_drafts(drafts: &Json, preview_diff_id: u64, proposal_id: &str) -> (r: String)
    ensures
        r@ == review_drafts_document(drafts@, preview_diff_id, proposal_id@),
{
    let mut lines = begin(
        cat4(
            "# Review drafts for merge proposal ",
            proposal_id,
            ", preview diff ",
            decimal_text(preview_diff_id).as_str(),
        ),
    );
    match drafts {
        Json::Object(members) => if members.len() == 0 {
            push_part(&mut lines, copy("No review drafts."));
        } else {
            push_drafts(&mut lines, members);
        },
        _ => push_part(&mut lines, copy("No review drafts.")),
    }
    join_parts(&lines, "\n\n")
}

/// The name of a side of a diff.
pub open spec fn side_name(side: DiffSide) -> Seq<char> {
    match side {
        DiffSide::Original => "original"@,
        DiffSide::Modified => "modified"@,
    }
}

/// The name of what a line of a diff shows.
pub open spec fn line_kind_name(kind: DiffLineKind) -> Seq<char> {
    match kind {
        DiffLineKind::Context => "context"@,
        DiffLineKind::Added => "added"@,
        DiffLineKind::Removed => "removed"@,
    }
}

/// The name of a side of a diff.
pub fn name_of_side(side: DiffSide) -> (r: &'static str)
    ensures
        r@ == side_name(side),
{
    match side {
        DiffSide::Original => "original",
        DiffSide::Modified => "modified",
    }
}

/// The name of what a line of a diff shows.
pub fn name_of_line_kind(kind: DiffLineKind) -> (r: &'static str)
    ensures
        r@ == line_kind_name(kind),
{
    match kind {
        DiffLineKind::Context => "context",
        DiffLineKind::Added => "added",
        DiffLineKind::Removed => "removed",
    }
}

/// A line of a file and where the diff shows it.
pub open spec fn diff_location_document(
    location: LocationView,
    preview_diff_id: u64,
    proposal_id: Seq<char>,
) -> Seq<char> {
    "# Diff line mapping for merge proposal "@ + proposal_id + ", preview diff "@ + decimal(
        preview_diff_id as nat,
    ) + ("\n\n- **Path:** "@ + location.path + "\n- **Side:** "@ + side_name(location.side)
        + "\n- **File line:** "@ + decimal(location.file_line) + "\n- **Global diff line:** "@
        + decimal(location.diff_line) + "\n- **Kind:** "@ + line_kind_name(location.kind))
}

/// A line of a file and where the diff shows it.
pub fn render_diff_location(location: &DiffLocation, preview_diff_id: u64, proposal_id: &str) -> (r:
    String)
    ensures
        r@ == diff_location_document(location@, preview_diff_id, proposal_id@),
{
    let place = cat10(
        "\n\n- **Path:** ",
        location.path.as_str(),
        "\n- **Side:** ",
        name_of_side(location.side),
        "\n- **File line:** ",
        decimal_text(location.file_line).as_str(),
        "\n- **Global diff line:** ",
        decimal_size(location.diff_line).as_str(),
        "\n- **Kind:** ",
        name_of_line_kind(location.kind),
    );
    cat5(
        "# Diff line mapping for merge proposal ",
        proposal_id,
        ", preview diff ",
        decimal_text(preview_diff_id).as_str(),
        place.as_str(),
    )
}

/// A bug among the results of a search.
pub open spec fn bug_search_line(task: JsonView) -> Seq<char> {
    let id = last_piece(text_or_empty(task.text("bug_link"@)), '/');
    let title = value_or(task.text("title"@), "Untitled"@);
    let status = value_or(task.text("status"@), "Unknown"@);
    let importance = value_or(task.text("importance"@), "Unknown"@);
    "- [#"@ + id + ": "@ + title + "](https://bugs.launchpad.net/bugs/"@ + id + ") — "@ + status
        + " · "@ + importance
}

fn render_bug_search_line(task: &Json) -> (r: String)
    ensures
        r@ == bug_search_line(task@),
{
    let id = after_last(or_empty(text_field(task, "bug_link")).as_str(), '/');
    let title = or_text(owned_field(task, "title"), "Untitled");
    let status = or_text(owned_field(task, "status"), "Unknown");
    let importance = or_text(owned_field(task, "importance"), "Unknown");
    cat10(
        "- [#",
        id.as_str(),
        ": ",
        title.as_str(),
        "](https://bugs.launchpad.net/bugs/",
        id.as_str(),
        ") — ",
        status.as_str(),
        " · ",
        importance.as_str(),
    )
}

/// The results of a search for bugs.
pub open spec fn bug_search_document(
    target: Seq<char>,
    query: Option<Seq<char>>,
    tasks: Seq<JsonView>,
) -> Seq<char> {
    let lines = seq!["# Launchpad bug search for "@ + target];
    let lines = with_bullet(lines, "Target"@, Some(target));
    let lines = with_bullet(lines, "Query"@, query);
    let lines = with_bullet(lines, "Results"@, Some(decimal(tasks.len())));
    join(lines + tasks.map_values(|task: JsonView| bug_search_line(task)), "\n\n"@)
}

/// The results of a search for bugs.
pub fn render_bug_search(target: &str, query: Option<&str>, tasks: &Vec<Json>) -> (r: String)
    ensures
        r@ == bug_search_document(target@, opt_str_view(query), items_view(tasks@)),
{
    let mut lines = begin(cat2("# Launchpad bug search for ", target));
    push_bullet(&mut lines, "Target", Some(copy(target)));
    let query = match query {
        Some(query) => Some(copy(query)),
        None => None,
    };
    push_bullet(&mut lines, "Query", query);
    push_bullet(&mut lines, "Results", Some(decimal_size(tasks.len())));
    let found = each(tasks, render_bug_search_line);
    assert(views(found@) =~= items_view(tasks@).map_values(
        |task: JsonView| bug_search_line(task),
    ));
    push_lines(&mut lines, found);
    join_parts(&lines, "\n\n")
}

/// The later of two optional timestamps of one form.
pub open spec fn later(first: Option<Seq<char>>, second: Option<Seq<char>>) -> Option<Seq<char>> {
    match (first, second) {
        (Some(first), Some(second)) => if precedes(second, first) {
            Some(first)
        } else {
            Some(second)
        },
        (Some(first), None) => Some(first),
        (None, second) => second,
    }
}

/// When a merge proposal was last touched.
pub open spec fn proposal_updated_at(proposal: JsonView) -> Option<Seq<char>> {
    let latest = later(proposal.text("date_last_updated"@), proposal.text("date_merged"@));
    let latest = later(latest, proposal.text("date_reviewed"@));
    let latest = later(latest, proposal.text("date_merge_requested"@));
    let latest = later(latest, proposal.text("date_review_requested"@));
    later(latest, proposal.text("date_created"@))
}

fn later_text<'value>(first: Option<&'value str>, second: Option<&'value str>) -> (r: Option<
    &'value str,
>)
    ensures
        opt_str_view(r) == later(opt_str_view(first), opt_str_view(second)),
{
    match (first, second) {
        (Some(first), Some(second)) => if text_precedes(second, first) {
            Some(first)
        } else {
            Some(second)
        },
        (Some(first), None) => Some(first),
        (None, second) => second,
    }
}

fn proposal_updated<'value>(proposal: &'value Json) -> (r: Option<&'value str>)
    ensures
        opt_str_view(r) == proposal_updated_at(proposal@),
{
    let latest = later_text(
        text_field(proposal, "date_last_updated"),
        text_field(proposal, "date_merged"),
    );
    let latest = later_text(latest, text_field(proposal, "date_reviewed"));
    let latest = later_text(latest, text_field(proposal, "date_merge_requested"));
    let latest = later_text(latest, text_field(proposal, "date_review_requested"));
    later_text(latest, text_field(proposal, "date_created"))
}

/// The repository that a merge proposal names on a side.
pub open spec fn proposal_repository_of(proposal: JsonView, side: Seq<char>) -> Seq<char> {
    match proposal.text(side + "_git_repository_link"@) {
        Some(link) => match normalised_repository(link) {
            Ok(repository) => repository,
            Err(_) => "unknown"@,
        },
        None => "unknown"@,
    }
}

fn proposal_repository(proposal: &Json, side: &str) -> (r: String)
    ensures
        r@ == proposal_repository_of(proposal@, side@),
{
    match text_field(proposal, cat2(side, "_git_repository_link").as_str()) {
        Some(link) => match normalise_repository(link) {
            Ok(repository) => repository,
            Err(_) => copy("unknown"),
        },
        None => copy("unknown"),
    }
}

/// The title of a merge proposal among the results of a search.
pub open spec fn short_title(proposal: JsonView) -> Seq<char> {
    match either(proposal.text("commit_message"@), proposal.text("description"@)) {
        Some(text) => if compacted(text).len() == 0 {
            head("Untitled"@, 160)
        } else {
            head(compacted(text), 160)
        },
        None => head("Untitled"@, 160),
    }
}

fn find_short_title(proposal: &Json) -> (r: String)
    ensures
        r@ == short_title(proposal@),
{
    let text = match text_field(proposal, "commit_message") {
        Some(text) => Some(text),
        None => text_field(proposal, "description"),
    };
    match text {
        Some(text) => {
            let title = compact(text);
            if title.as_str().is_empty() {
                take_characters("Untitled", 160)
            } else {
                take_characters(title.as_str(), 160)
            }
        },
        None => take_characters("Untitled", 160),
    }
}

/// A merge proposal among the results of a search, between two repositories.
pub open spec fn proposal_search_line(
    proposal: JsonView,
    source_repository: Seq<char>,
    target_repository: Seq<char>,
) -> Seq<char> {
    let id = value_or(id_of(proposal), "?"@);
    let web_link = text_or_empty(proposal.text("web_link"@));
    let status = value_or(proposal.text("queue_status"@), "Unknown"@);
    let source_branch = value_or(proposal.text("source_git_path"@), "unknown"@);
    let target_branch = value_or(proposal.text("target_git_path"@), "unknown"@);
    let registrant = value_or(person_of(proposal, "registrant"@), "unknown"@);
    let updated = value_or(proposal_updated_at(proposal), "unknown"@);
    "- [MP "@ + id + ": "@ + short_title(proposal) + "]("@ + web_link + ") — "@ + status + (
    "\n  - **Source:** "@ + source_repository + ":"@ + source_branch + "\n  - **Target:** "@
        + target_repository + ":"@ + target_branch + "\n  - **Registrant:** "@ + registrant
        + "\n  - **Updated:** "@ + updated)
}

/// A merge proposal among the results of a search, between two repositories.
pub fn render_proposal_search_line(
    proposal: &Json,
    source_repository: &str,
    target_repository: &str,
) -> (r: String)
    ensures
        r@ == proposal_search_line(proposal@, source_repository@, target_repository@),
{
    let id = or_text(resource_id(proposal), "?");
    let title = find_short_title(proposal);
    let web_link = or_empty(text_field(proposal, "web_link"));
    let status = or_text(owned_field(proposal, "queue_status"), "Unknown");
    let source_branch = or_text(owned_field(proposal, "source_git_path"), "unknown");
    let target_branch = or_text(owned_field(proposal, "target_git_path"), "unknown");
    let registrant = or_text(person_field(proposal, "registrant"), "unknown");
    let updated = match proposal_updated(proposal) {
        Some(updated) => updated,
        None => "unknown",
    };
    let facts = cat12(
        "\n  - **Source:** ",
        source_repository,
        ":",
        source_branch.as_str(),
        "\n  - **Target:** ",
        target_repository,
        ":",
        target_branch.as_str(),
        "\n  - **Registrant:** ",
        registrant.as_str(),
        "\n  - **Updated:** ",
        updated,
    );
    cat9(
        "- [MP ",
        id.as_str(),
        ": ",
        title.as_str(),
        "](",
        web_link.as_str(),
        ") — ",
        status.as_str(),
        facts.as_str(),
    )
}

/// A merge proposal among the results of a search.
pub open spec fn found_proposal_line(proposal: JsonView) -> Seq<char> {
    proposal_search_line(
        proposal,
        proposal_repository_of(proposal, "source"@),
        proposal_repository_of(proposal, "target"@),
    )
}

fn render_found_proposal(proposal: &Json) -> (r: String)
    ensures
        r@ == found_proposal_line(proposal@),
{
    render_proposal_search_line(
        proposal,
        proposal_repository(proposal, "source").as_str(),
        proposal_repository(proposal, "target").as_str(),
    )
}

/// The results of a search for merge proposals.
pub open spec fn proposal_search_document(
    proposals: Seq<JsonView>,
    requested_limit: Option<usize>,
    truncated: bool,
) -> Seq<char> {
    let lines = seq!["# Launchpad merge proposal search"@];
    let lines = with_bullet(lines, "Results"@, Some(decimal(proposals.len())));
    let lines = match requested_limit {
        Some(limit) => with_bullet(lines, "Limit"@, Some(decimal(limit as nat))),
        None => lines,
    };
    let lines = if truncated {
        with_bullet(lines, "More results available"@, Some("yes"@))
    } else {
        lines
    };
    join(
        lines + proposals.map_values(|proposal: JsonView| found_proposal_line(proposal)),
        "\n\n"@,
    )
}

/// The results of a search for merge proposals. Which repository was searched stands in the
/// details of the operation and not in its text.
pub fn render_proposal_search(
    _repository: &Json,
    proposals: &Vec<Json>,
    requested_limit: Option<usize>,
    truncated: bool,
) -> (r: String)
    ensures
        r@ == proposal_search_document(items_view(proposals@), requested_limit, truncated),
{
    let mut lines = begin(copy("# Launchpad merge proposal search"));
    push_bullet(&mut lines, "Results", Some(decimal_size(proposals.len())));
    if let Some(limit) = requested_limit {
        push_bullet(&mut lines, "Limit", Some(decimal_size(limit)));
    }
    if truncated {
        push_bullet(&mut lines, "More results available", Some(copy("yes")));
    }
    let found = each(proposals, render_found_proposal);
    assert(views(found@) =~= items_view(proposals@).map_values(
        |proposal: JsonView| found_proposal_line(proposal),
    ));
    push_lines(&mut lines, found);
    join_parts(&lines, "\n\n")
}

/// A merge proposal that was not selected.
pub open spec fn alternative_line(proposal: JsonView) -> Seq<char> {
    let id = value_or(id_of(proposal), "?"@);
    let url = text_or_empty(proposal.text("web_link"@));
    let status = value_or(proposal.text("queue_status"@), "Unknown"@);
    "- [MP "@ + id + "]("@ + url + ") — "@ + status
}

fn render_alternative(proposal: &Json) -> (r: String)
    ensures
        r@ == alternative_line(proposal@),
{
    let id = or_text(resource_id(proposal), "?");
    let url = or_empty(text_field(proposal, "web_link"));
    let status = or_text(owned_field(proposal, "queue_status"), "Unknown");
    cat6("- [MP ", id.as_str(), "](", url.as_str(), ") — ", status.as_str())
}

fn reversed(parts: &Vec<String>) -> (r: Vec<String>)
    ensures
        views(r@) == views(parts@).reverse(),
{
    let mut out = no_lines();
    let ghost all = views(parts@);
    assert(all.reverse().take(0) =~= Seq::empty());
    for i in 0..parts.len()
        invariant
            all == views(parts@),
            views(out@) == all.reverse().take(i as int),
    {
        push_part(&mut out, copy(parts[parts.len() - 1 - i].as_str()));
        assert(all.reverse().take(i + 1) =~= all.reverse().take(i as int).push(
            all[all.len() - 1 - i],
        ));
    }
    assert(all.reverse().take(all.len() as int) =~= all.reverse());
    out
}

/// The merge proposal that a lookup selected, and those that it did not.
pub open spec fn proposal_lookup_document(
    proposal: JsonView,
    alternatives: Seq<JsonView>,
    repository: Seq<char>,
    branch: Seq<char>,
    resolution: Seq<char>,
    selection_reason: Seq<char>,
) -> Seq<char> {
    let lines = seq!["# Merge proposal lookup for "@ + repository + ":"@ + branch];
    let lines = with_bullet(lines, "Matching proposals"@, Some(decimal(one_more(alternatives.len()) as nat)));
    let lines = with_bullet(lines, "Resolved from"@, Some(resolution));
    let lines = with_bullet(lines, "Selection"@, Some(selection_reason));
    let lines = lines.push(
        proposal_document(proposal, Seq::empty(), Seq::empty(), false, 1, 2),
    );
    let lines = if alternatives.len() > 0 {
        with_section(
            lines,
            2,
            "Other matching proposals"@,
            join(
                alternatives.map_values(
                    |proposal: JsonView| alternative_line(proposal),
                ).reverse(),
                "\n"@,
            ),
        )
    } else {
        lines
    };
    join(lines, "\n\n"@)
}

/// The merge proposal that a lookup selected, and those that it did not.
pub fn render_proposal_lookup(
    proposal: &Json,
    alternatives: &Vec<Json>,
    repository: &str,
    branch: &str,
    resolution: &str,
    selection_reason: &str,
) -> (r: String)
    ensures
        r@ == proposal_lookup_document(
            proposal@,
            items_view(alternatives@),
            repository@,
            branch@,
            resolution@,
            selection_reason@,
        ),
{
    let mut lines = begin(cat4("# Merge proposal lookup for ", repository, ":", branch));
    push_bullet(&mut lines, "Matching proposals", Some(decimal_text(plus_one(alternatives.len()))));
    push_bullet(&mut lines, "Resolved from", Some(copy(resolution)));
    push_bullet(&mut lines, "Selection", Some(copy(selection_reason)));
    let none: Vec<Json> = crate::json::no_items();
    let selected = render_proposal_at_level(proposal, &none, &none, false, 1, 2);
    push_part(&mut lines, selected);
    if alternatives.len() > 0 {
        let others = each(alternatives, render_alternative);
        assert(views(others@) =~= items_view(alternatives@).map_values(
            |proposal: JsonView| alternative_line(proposal),
        ));
        push_section(
            &mut lines,
            "Other matching proposals",
            join_parts(&reversed(&others), "\n").as_str(),
        );
    }
    join_parts(&lines, "\n\n")
}

/// Which parts of a discussion are reported, and how complete they are.
pub struct DiscussionSections {
    pub general: bool,
    pub inline: bool,
    pub current_preview_diff_stale: bool,
    pub identity_resolution_failures: usize,
}

/// A count in a review summary.
pub open spec fn summary_count_of(summary: JsonView, field: Seq<char>) -> u64 {
    value_or(summary.unsigned(field), 0)
}

fn summary_count(summary: &Json, field: &str) -> (r: u64)
    ensures
        r == summary_count_of(summary@, field@),
{
    match summary.unsigned(field) {
        Some(count) => count,
        None => 0,
    }
}

/// A count in a review summary, as it is written.
pub open spec fn count_text(summary: JsonView, field: Seq<char>) -> Seq<char> {
    decimal(summary_count_of(summary, field) as nat)
}

fn written_count(summary: &Json, field: &str) -> (r: String)
    ensures
        r@ == count_text(summary@, field@),
{
    decimal_text(summary_count(summary, field))
}

/// What is said at the head of a discussion.
pub open spec fn discussion_bullets(
    proposal: JsonView,
    current_preview_diff_id: Option<u64>,
    sections: DiscussionSections,
) -> Seq<Seq<char>> {
    let id = value_or(id_of(proposal), "?"@);
    let lines = seq!["# Merge proposal "@ + id + " review summary"@];
    let lines = with_bullet(lines, "URL"@, scalar_of(proposal, "web_link"@));
    let lines = with_bullet(lines, "Status"@, scalar_of(proposal, "queue_status"@));
    let lines = with_bullet(lines, "Source"@, scalar_of(proposal, "source_git_path"@));
    let lines = with_bullet(lines, "Target"@, scalar_of(proposal, "target_git_path"@));
    let lines = with_bullet(
        lines,
        "Current preview diff"@,
        match current_preview_diff_id {
            Some(id) => Some(decimal(id as nat)),
            None => None,
        },
    );
    let lines = if sections.current_preview_diff_stale {
        with_bullet(
            lines,
            "Current preview diff state"@,
            Some("stale; unresolved inline threads are reported as outdated"@),
        )
    } else {
        lines
    };
    if sections.identity_resolution_failures > 0 {
        with_bullet(
            lines,
            "Identity resolution"@,
            Some(
                decimal(sections.identity_resolution_failures as nat)
                    + " author profile(s) unavailable; usernames were derived from Launchpad URLs"@,
            ),
        )
    } else {
        lines
    }
}

/// The counts of a discussion.
pub open spec fn discussion_counts(summary: JsonView, sections: DiscussionSections) -> Seq<Seq<char>> {
    let general = if sections.general {
        seq![
            "- **General comments:** "@ + count_text(summary, "general_comment_count"@),
            "- **Review votes:** "@ + count_text(summary, "review_vote_count"@),
            "- **Pending review requests:** "@ + count_text(
                summary,
                "pending_review_request_count"@,
            ),
        ]
    } else {
        seq!["- **General comments and votes:** not requested"@]
    };
    if sections.inline {
        general.push(
            "- **Inline threads:** "@ + count_text(summary, "inline_thread_count"@) + " total · "@
                + count_text(summary, "current_open_inline_thread_count"@) + " current/open · "@
                + count_text(summary, "outdated_inline_thread_count"@) + " outdated · "@
                + count_text(summary, "superseded_inline_thread_count"@)
                + " superseded · resolved unavailable"@,
        )
    } else {
        general.push("- **Inline threads:** not requested"@)
    }
}

/// The vote that someone stands by.
pub open spec fn current_vote_line(vote: JsonView) -> Seq<char> {
    let reviewer = value_or(vote.text(reviewer_member()), "unknown"@);
    let value = value_or(vote.text("vote"@), "unknown"@);
    "- **@"@ + reviewer + ":** "@ + value
}

/// A change of someone's vote.
pub open spec fn transition_line(transition: JsonView) -> Seq<char> {
    let reviewer = value_or(transition.text(reviewer_member()), "unknown"@);
    let from = text_or_empty(transition.text("from"@));
    let to = value_or(transition.text("to"@), "unknown"@);
    "- **@"@ + reviewer + ":** "@ + from + " → "@ + to
}

/// The changes of votes that say what was changed.
pub open spec fn transition_lines(transitions: Seq<JsonView>) -> Seq<Seq<char>>
    decreases transitions.len(),
{
    if transitions.len() == 0 {
        Seq::empty()
    } else {
        let front = transition_lines(transitions.drop_last());
        if transitions.last().text("from"@) is Some {
            front.push(transition_line(transitions.last()))
        } else {
            front
        }
    }
}

/// The items of a member, where it is an array, and none otherwise.
pub open spec fn items_of(value: JsonView, name: Seq<char>) -> Seq<JsonView> {
    match value.get(name) {
        Some(member) => member.items(),
        None => Seq::empty(),
    }
}

/// The votes of a discussion.
pub open spec fn discussion_activity(summary: JsonView) -> Seq<Seq<char>> {
    let votes = items_of(summary, "current_review_votes"@);
    let transitions = transition_lines(items_of(summary, "review_vote_transitions"@));
    let activity = if votes.len() == 0 {
        seq!["No review votes."@]
    } else {
        votes.map_values(|vote: JsonView| current_vote_line(vote))
    };
    if transitions.len() == 0 {
        activity
    } else {
        activity.push("**Transitions**\n"@ + join(transitions, "\n"@))
    }
}

/// The compact report of a discussion.
pub open spec fn discussion_document(
    proposal: JsonView,
    current_preview_diff_id: Option<u64>,
    summary: JsonView,
    sections: DiscussionSections,
) -> Seq<char> {
    let lines = with_section(
        discussion_bullets(proposal, current_preview_diff_id, sections),
        2,
        "Review counts"@,
        join(discussion_counts(summary, sections), "\n"@),
    );
    let lines = if sections.general {
        with_section(lines, 2, "Review votes"@, join(discussion_activity(summary), "\n"@))
    } else {
        lines
    };
    join(lines, "\n\n"@)
}

fn render_discussion_bullets(
    proposal: &Json,
    current_preview_diff_id: Option<u64>,
    sections: &DiscussionSections,
) -> (r: Vec<String>)
    ensures
        views(r@) == discussion_bullets(proposal@, current_preview_diff_id, *sections),
{
    let id = or_text(resource_id(proposal), "?");
    let mut lines = begin(cat3("# Merge proposal ", id.as_str(), " review summary"));
    push_bullet(&mut lines, "URL", scalar_field(proposal, "web_link"));
    push_bullet(&mut lines, "Status", scalar_field(proposal, "queue_status"));
    push_bullet(&mut lines, "Source", scalar_field(proposal, "source_git_path"));
    push_bullet(&mut lines, "Target", scalar_field(proposal, "target_git_path"));
    let current = match current_preview_diff_id {
        Some(id) => Some(decimal_text(id)),
        None => None,
    };
    push_bullet(&mut lines, "Current preview diff", current);
    if sections.current_preview_diff_stale {
        push_bullet(
            &mut lines,
            "Current preview diff state",
            Some(copy("stale; unresolved inline threads are reported as outdated")),
        );
    }
    if sections.identity_resolution_failures > 0 {
        push_bullet(
            &mut lines,
            "Identity resolution",
            Some(
                cat2(
                    decimal_size(sections.identity_resolution_failures).as_str(),
                    " author profile(s) unavailable; usernames were derived from Launchpad URLs",
                ),
            ),
        );
    }
    lines
}

fn render_discussion_counts(summary: &Json, sections: &DiscussionSections) -> (r: Vec<String>)
    ensures
        views(r@) == discussion_counts(summary@, *sections),
{
    let mut counts = no_lines();
    if sections.general {
        push_part(
            &mut counts,
            cat2(
                "- **General comments:** ",
                written_count(summary, "general_comment_count").as_str(),
            ),
        );
        push_part(
            &mut counts,
            cat2("- **Review votes:** ", written_count(summary, "review_vote_count").as_str()),
        );
        push_part(
            &mut counts,
            cat2(
                "- **Pending review requests:** ",
                written_count(summary, "pending_review_request_count").as_str(),
            ),
        );
    } else {
        push_part(&mut counts, copy("- **General comments and votes:** not requested"));
    }
    if sections.inline {
        push_part(
            &mut counts,
            cat9(
                "- **Inline threads:** ",
                written_count(summary, "inline_thread_count").as_str(),
                " total · ",
                written_count(summary, "current_open_inline_thread_count").as_str(),
                " current/open · ",
                written_count(summary, "outdated_inline_thread_count").as_str(),
                " outdated · ",
                written_count(summary, "superseded_inline_thread_count").as_str(),
                " superseded · resolved unavailable",
            ),
        );
    } else {
        push_part(&mut counts, copy("- **Inline threads:** not requested"));
    }
    assert(views(counts@) =~= discussion_counts(summary@, *sections));
    counts
}

fn render_current_vote(vote: &Json) -> (r: String)
    ensures
        r@ == current_vote_line(vote@),
{
    let reviewer = or_text(owned_field(vote, name_of_reviewer_member().as_str()), "unknown");
    let value = or_text(owned_field(vote, "vote"), "unknown");
    cat4("- **@", reviewer.as_str(), ":** ", value.as_str())
}

fn render_transition(transition: &Json) -> (r: String)
    ensures
        r@ == transition_line(transition@),
{
    let reviewer = or_text(owned_field(transition, name_of_reviewer_member().as_str()), "unknown");
    let from = or_empty(text_field(transition, "from"));
    let to = or_text(owned_field(transition, "to"), "unknown");
    cat6("- **@", reviewer.as_str(), ":** ", from.as_str(), " → ", to.as_str())
}

fn render_transitions(transitions: &Vec<Json>) -> (r: Vec<String>)
    ensures
        views(r@) == transition_lines(items_view(transitions@)),
{
    let mut lines = no_lines();
    let ghost all = items_view(transitions@);
    assert(all.take(0) =~= Seq::empty());
    for i in 0..transitions.len()
        invariant
            all == items_view(transitions@),
            views(lines@) == transition_lines(all.take(i as int)),
    {
        assert(all.take(i + 1).drop_last() =~= all.take(i as int));
        assert(all.take(i + 1).last() == transitions@[i as int]@);
        if text_field(&transitions[i], "from").is_some() {
            push_part(&mut lines, render_transition(&transitions[i]));
        }
    }
    assert(all.take(all.len() as int) =~= all);
    lines
}

fn render_activity(summary: &Json) -> (r: Vec<String>)
    ensures
        views(r@) == discussion_activity(summary@),
{
    let mut activity = no_lines();
    let mut voted = false;
    if let Some(Json::Array(votes)) = summary.get("current_review_votes") {
        assert(items_of(summary@, "current_review_votes"@) == items_view(votes@));
        if votes.len() > 0 {
            activity = each(votes, render_current_vote);
            voted = true;
            assert(views(activity@) =~= items_view(votes@).map_values(
                |vote: JsonView| current_vote_line(vote),
            ));
        }
    }
    if !voted {
        activity = begin(copy("No review votes."));
    }
    if let Some(Json::Array(transitions)) = summary.get("review_vote_transitions") {
        assert(items_of(summary@, "review_vote_transitions"@) == items_view(transitions@));
        let transitions = render_transitions(transitions);
        assert(views(transitions@).len() == transitions@.len());
        if transitions.len() > 0 {
            push_part(
                &mut activity,
                cat2("**Transitions**\n", join_parts(&transitions, "\n").as_str()),
            );
        }
    }
    activity
}

/// The compact report of a discussion.
pub fn render_proposal_discussion(
    proposal: &Json,
    current_preview_diff_id: Option<u64>,
    summary: &Json,
    sections: DiscussionSections,
) -> (r: String)
    ensures
        r@ == discussion_document(proposal@, current_preview_diff_id, summary@, sections),
{
    let mut lines = render_discussion_bullets(proposal, current_preview_diff_id, &sections);
    let counts = render_discussion_counts(summary, &sections);
    push_section(&mut lines, "Review counts", join_parts(&counts, "\n").as_str());
    if sections.general {
        let activity = render_activity(summary);
        push_section(&mut lines, "Review votes", join_parts(&activity, "\n").as_str());
    }
    join_parts(&lines, "\n\n")
}

} // verus!
