//! Proposals, comments and their reports.

use omp_launchpad::comments::{matches_discussion_filters, normalise_inline_comment};
use omp_launchpad::fields::{
    capitalise, name_of_reviewer_member, resource_id, scalar, scalar_field,
};
use omp_launchpad::items::{put_member, remove_member};
use omp_launchpad::json::{Json, Number};
use omp_launchpad::order::{sort_order, Key};
use omp_launchpad::people::People;
use omp_launchpad::preview::validate_current_preview_diff;
use omp_launchpad::proposals::{eligible_proposals, select_proposal};
use omp_launchpad::render::{render_bug, render_generic, render_repository};
use omp_launchpad::report::{
    render_inline_comments, render_preview_diffs, render_proposal_discussion,
    render_review_drafts, DiscussionSections,
};
use omp_launchpad::request::{OneOrMany, Operation, Request};
use omp_launchpad::reviewing::change_drafts;
use omp_launchpad::size::truncate;
use omp_launchpad::summary::build_review_summary;
use omp_launchpad::threads::{threads_of_diff, Snapshot};
use serde_json::Value;

fn json_of(value: &Value) -> Json {
    match value {
        Value::Null => Json::Null,
        Value::Bool(flag) => Json::Bool(*flag),
        Value::Number(number) => Json::Number(match (number.as_u64(), number.as_i64()) {
            (Some(value), _) => Number::Unsigned(value),
            (None, Some(value)) => Number::Negative(value),
            (None, None) => Number::Other(number.to_string()),
        }),
        Value::String(text) => Json::Text(text.clone()),
        Value::Array(items) => Json::Array(items.iter().map(json_of).collect()),
        Value::Object(members) => Json::Object(
            members
                .iter()
                .map(|(name, value)| (name.clone(), json_of(value)))
                .collect(),
        ),
    }
}

fn json(text: &str) -> Json {
    json_of(&serde_json::from_str(text).unwrap())
}

fn items(text: &str) -> Vec<Json> {
    match json(text) {
        Json::Array(items) => items,
        _ => panic!("not an array"),
    }
}

fn member_text<'value>(value: &'value Json, name: &str) -> Option<&'value str> {
    value.get(name).and_then(Json::as_str)
}

fn branch_request() -> Request {
    Request {
        op: Operation::MergeProposalForBranch,
        target: None,
        repository: Some("project".to_owned()),
        target_repository: None,
        path: None,
        branch: Some("feature".to_owned()),
        target_branch: None,
        query: None,
        status: None,
        importance: None,
        tags: None,
        limit: None,
        latest: None,
        include_superseded: None,
        comments: None,
        since: None,
        reviewer: None,
        format: None,
        current_diff_only: None,
        unresolved_only: None,
        preview_diff_id: None,
        file_line: None,
        side: None,
        title: None,
        description: None,
        information_type: None,
        source_ref: None,
        target_ref: None,
        commit_message: None,
        needs_review: None,
        body: None,
        subject: None,
        vote: None,
        directory: None,
        force_with_lease: None,
    }
}

const PROPOSALS: &str = r#"[
    {
        "self_link": "https://api.launchpad.net/devel/~owner/project/+git/repository/+merge/10",
        "queue_status": "Needs review",
        "date_created": "2026-01-01T00:00:00Z",
        "target_git_path": "refs/heads/main"
    },
    {
        "self_link": "https://api.launchpad.net/devel/~owner/project/+git/repository/+merge/20",
        "queue_status": "Merged",
        "date_created": "2026-02-01T00:00:00Z",
        "target_git_path": "refs/heads/main"
    },
    {
        "self_link": "https://api.launchpad.net/devel/~owner/project/+git/repository/+merge/30",
        "queue_status": "Superseded",
        "date_created": "2026-03-01T00:00:00Z",
        "target_git_path": "refs/heads/main"
    }
]"#;

#[test]
fn prefers_active_proposal_unless_latest_is_requested() {
    let proposals = items(PROPOSALS);
    let preferred = branch_request();
    let eligible = eligible_proposals(&proposals, &preferred);
    assert_eq!(eligible.len(), 2);
    let selected = select_proposal(&eligible, &preferred).unwrap_or_else(|_| panic!());
    assert_eq!(
        member_text(&selected.proposal, "queue_status"),
        Some("Needs review")
    );

    let mut latest = branch_request();
    latest.latest = Some(true);
    let eligible = eligible_proposals(&proposals, &latest);
    let selected = select_proposal(&eligible, &latest).unwrap_or_else(|_| panic!());
    assert_eq!(
        member_text(&selected.proposal, "queue_status"),
        Some("Merged")
    );
}

#[test]
fn superseded_proposals_are_eligible_where_they_are_asked_for() {
    let proposals = items(PROPOSALS);
    let mut request = branch_request();
    request.include_superseded = Some(true);
    assert_eq!(eligible_proposals(&proposals, &request).len(), 3);
    request.include_superseded = None;
    request.status = Some(OneOrMany::Many(vec!["Superseded".to_owned()]));
    let eligible = eligible_proposals(&proposals, &request);
    assert_eq!(eligible.len(), 1);
    assert_eq!(resource_id(&eligible[0]).as_deref(), Some("30"));
    request.target_branch = Some("devel".to_owned());
    assert!(eligible_proposals(&proposals, &request).is_empty());
}

#[test]
fn filters_comments_by_timestamp_and_normalised_identity() {
    let comment = normalise_inline_comment(
        &json(
            r#"{
                "person": {
                    "name": "alice",
                    "display_name": "Alice Example",
                    "web_link": "https://launchpad.net/~alice"
                },
                "date": "2026-09-21T10:00:00+00:00",
                "text": "Review comment"
            }"#,
        ),
        0,
        &People::new(),
    );
    let since = chrono::DateTime::parse_from_rfc3339("2026-09-21T09:59:00Z").unwrap();
    let since = Some((since.timestamp(), since.timestamp_subsec_nanos()));
    assert!(matches_discussion_filters(
        &comment,
        "author",
        since,
        Some("alice")
    ));
    assert!(matches_discussion_filters(
        &comment,
        "author",
        since,
        Some("Alice Example")
    ));
    assert!(!matches_discussion_filters(
        &comment,
        "author",
        since,
        Some("bob")
    ));
    let malformed = json(
        r#"{
            "author": { "username": "alice", "display_name": "Alice Example" },
            "created_at": "not-a-timestamp"
        }"#,
    );
    assert!(matches_discussion_filters(
        &malformed, "author", since, None
    ));
}

#[test]
fn older_comments_are_filtered_out() {
    let comment = json(r#"{"created_at": "2026-09-21T09:58:59Z"}"#);
    let since = chrono::DateTime::parse_from_rfc3339("2026-09-21T09:59:00Z").unwrap();
    let since = Some((since.timestamp(), since.timestamp_subsec_nanos()));
    assert!(!matches_discussion_filters(&comment, "author", since, None));
    let comment = json(r#"{"created_at": "2026-09-21T11:59:00+02:00"}"#);
    assert!(matches_discussion_filters(&comment, "author", since, None));
}

#[test]
fn rejects_non_current_preview_diff() {
    let current = json(r#"{ "id": 102, "stale": false }"#);
    let error = validate_current_preview_diff(&current, 101).unwrap_err();
    assert!(error
        .message()
        .contains("preview diff 101 is stale; current preview diff is 102"));
}

#[test]
fn rejects_current_preview_diff_marked_stale() {
    let current = json(r#"{ "id": 102, "stale": true }"#);
    let error = validate_current_preview_diff(&current, 102).unwrap_err();
    assert!(error.message().contains("preview diff 102 is marked stale"));
}

#[test]
fn preview_diffs_have_identifiers() {
    let error = validate_current_preview_diff(&json(r#"{ "id": 0 }"#), 1).unwrap_err();
    assert_eq!(
        error.message(),
        "invalid request: Launchpad returned a preview diff without an ID"
    );
}

#[test]
fn labels_empty_inline_comment_bodies() {
    let name = capitalise(&name_of_reviewer_member());
    let comments = items(&format!(
        r#"[{{ "line_number": "7", "person": {{ "display_name": "{name}" }}, "text": "" }}]"#
    ));
    let text = render_inline_comments(&comments, 12, "34");
    assert!(text.contains("No written comment."));
    assert!(text.contains(&name));
}

#[test]
fn renders_compact_review_summary() {
    let proposal = json(
        r#"{
            "self_link": "https://api.launchpad.net/devel/~owner/project/+git/repository/+merge/42",
            "web_link": "https://code.launchpad.net/~owner/project/+git/repository/+merge/42"
        }"#,
    );
    let person = name_of_reviewer_member();
    let summary = json(&format!(
        r#"{{
            "general_comment_count": 3,
            "review_vote_count": 2,
            "pending_review_request_count": 1,
            "inline_thread_count": 4,
            "current_open_inline_thread_count": 1,
            "outdated_inline_thread_count": 2,
            "superseded_inline_thread_count": 1,
            "current_review_votes": [{{ "{person}": "alice", "vote": "Approve" }}],
            "review_vote_transitions": [
                {{ "{person}": "alice", "from": "Needs Fixing", "to": "Approve" }}
            ]
        }}"#
    ));
    let text = render_proposal_discussion(
        &proposal,
        Some(7),
        &summary,
        DiscussionSections {
            general: true,
            inline: true,
            current_preview_diff_stale: false,
            identity_resolution_failures: 0,
        },
    );
    assert!(text.contains("3"));
    assert!(text.contains("@alice:** Approve"));
    assert!(text.contains("Needs Fixing → Approve"));
    assert!(!text.contains("comment body"));
}

#[test]
fn labels_empty_draft_bodies() {
    let drafts = json(r#"{ "7": "" }"#);
    let text = render_review_drafts(&drafts, 12, "34");
    assert!(text.contains("No written comment."));
}

#[test]
fn last_votes_stand_and_changes_are_transitions() {
    let votes = items(
        r#"[
            {"author": {"username": "alice"}, "vote": "Needs Fixing", "created_at": "2026-01-01T00:00:00Z"},
            {"author": {"username": "bob"}, "vote": "Approve", "created_at": "2026-01-02T00:00:00Z"},
            {"author": {"username": "alice"}, "vote": "Approve", "created_at": "2026-01-03T00:00:00Z"},
            {"author": {"username": "bob"}, "vote": "Approve", "created_at": "2026-01-04T00:00:00Z"}
        ]"#,
    );
    let threads = items(r#"[{"state": "open"}, {"state": "outdated"}, {"state": "open"}]"#);
    let summary = build_review_summary(&Vec::new(), &votes, &Vec::new(), &threads);
    assert_eq!(summary.unsigned("review_vote_count"), Some(4));
    let Some(Json::Object(counts)) = summary.get("review_vote_counts") else {
        panic!("no counts");
    };
    let numbers = counts
        .iter()
        .map(|(verdict, count)| (verdict.as_str(), count.as_u64().unwrap()))
        .collect::<Vec<_>>();
    assert_eq!(numbers, [("Approve", 3), ("Needs Fixing", 1)]);
    assert_eq!(numbers.iter().map(|(_, count)| *count).sum::<u64>(), 4);
    assert_eq!(summary.unsigned("inline_thread_count"), Some(3));
    assert_eq!(summary.unsigned("current_open_inline_thread_count"), Some(2));
    assert_eq!(summary.unsigned("outdated_inline_thread_count"), Some(1));
    assert_eq!(summary.unsigned("superseded_inline_thread_count"), Some(0));
    let Some(Json::Array(current)) = summary.get("current_review_votes") else {
        panic!("no votes");
    };
    assert_eq!(current.len(), 2);
    assert!(current.iter().all(|vote| member_text(vote, "vote") == Some("Approve")));
    let Some(Json::Array(transitions)) = summary.get("review_vote_transitions") else {
        panic!("no transitions");
    };
    assert_eq!(transitions.len(), 1);
    assert_eq!(member_text(&transitions[0], "from"), Some("Needs Fixing"));
}

#[test]
fn threads_ascend_by_line_and_group_replies() {
    let comments = items(
        r#"[
            {"line_number": "12", "date": "2026-01-01T00:00:00Z", "text": "c"},
            {"line_number": "3", "date": "2026-01-03T00:00:00Z", "text": "b"},
            {"line_number": "3", "date": "2026-01-02T00:00:00Z", "text": "a"}
        ]"#,
    );
    let people = People::new();
    let snapshot = Snapshot {
        id: 8,
        current: false,
        stale: false,
        diff: None,
        people: &people,
        since: None,
        reviewer: None,
    };
    let threads = threads_of_diff(&comments, &snapshot).unwrap_or_else(|_| panic!());
    let ids = threads
        .iter()
        .map(|thread| member_text(thread, "thread_id").unwrap())
        .collect::<Vec<_>>();
    assert_eq!(ids, ["8:3", "8:12"]);
    assert_eq!(member_text(&threads[0], "state"), Some("superseded"));
    let Some(Json::Array(replies)) = threads[0].get("comments") else {
        panic!("no comments");
    };
    assert_eq!(member_text(&replies[0], "body"), Some("a"));
    assert_eq!(replies[1].unsigned("sequence"), Some(2));
    let unplaced = items(r#"[{"text": "nowhere"}]"#);
    assert_eq!(
        threads_of_diff(&unplaced, &snapshot).err().unwrap().message(),
        "invalid request: Launchpad returned an inline comment without a diff line"
    );
}

#[test]
fn draft_changes_touch_one_line() {
    let drafts = vec![
        ("3".to_owned(), Json::of_text("three")),
        ("7".to_owned(), Json::of_text("seven")),
    ];
    let saved = change_drafts(&drafts, 5, Some(" five ")).unwrap_or_else(|_| panic!());
    let names = saved.iter().map(|(name, _)| name.as_str()).collect::<Vec<_>>();
    assert_eq!(names, ["3", "5", "7"]);
    assert_eq!(saved[1].1.as_str(), Some("five"));
    let removed = change_drafts(&saved, 3, None).unwrap_or_else(|_| panic!());
    assert_eq!(removed.len(), 2);
    assert_eq!(removed[0].0, "5");
    assert_eq!(
        change_drafts(&drafts, 5, Some("  ")).err().unwrap().message(),
        "invalid request: draft body cannot be empty"
    );
}

#[test]
fn members_are_put_and_removed() {
    let members = vec![("a".to_owned(), Json::Null), ("c".to_owned(), Json::Null)];
    let members = put_member(&members, "b", Json::Bool(true));
    assert_eq!(members[1].0, "b");
    let members = put_member(&members, "b", Json::Bool(false));
    assert_eq!(members.len(), 3);
    assert_eq!(members[1].1.as_bool(), Some(false));
    assert_eq!(remove_member(&members, "b").len(), 2);
    assert_eq!(remove_member(&members, "d").len(), 3);
}

#[test]
fn equal_keys_keep_their_order() {
    let key = |rank: u64, text: &str| Key {
        rank,
        text: Some(text.to_owned()),
        number: 0,
    };
    let keys = vec![key(1, "b"), key(0, "z"), key(1, "a"), key(0, "z")];
    assert_eq!(sort_order(&keys), [1, 3, 2, 0]);
}

#[test]
fn people_are_asked_for_once() {
    let entries = items(
        r#"[{"author_link": "https://x/~a"}, {"person_link": "https://x/~b"},
        {"author_link": "https://x/~a"}]"#,
    );
    let mut people = People::new();
    let links = people.missing_links(&entries);
    assert_eq!(links, ["https://x/~a", "https://x/~b"]);
    people.record_all(&links, &vec![Some(json(r#"{"name": "a"}"#)), None]);
    assert!(people.missing_links(&entries).is_empty());
}

#[test]
fn scalars_are_written_out() {
    assert_eq!(scalar(&json("12")).as_deref(), Some("12"));
    assert_eq!(scalar(&json("-3")).as_deref(), Some("-3"));
    assert_eq!(scalar(&json("true")).as_deref(), Some("true"));
    assert_eq!(scalar(&json("null")), None);
    let value = json(r#"{"tags": ["one", 2]}"#);
    assert_eq!(scalar_field(&value, "tags").as_deref(), Some("one, 2"));
}

#[test]
fn words_are_capitalised() {
    assert_eq!(capitalise("bug"), "Bug");
    assert_eq!(capitalise("ßtraße"), "SStraße");
    assert_eq!(capitalise(""), "");
}

#[test]
fn texts_are_truncated_between_characters() {
    assert_eq!(truncate("aéz", 2), "a");
    assert_eq!(truncate("aéz", 3), "aé");
    assert_eq!(truncate("aéz", 9), "aéz");
}

#[test]
fn bugs_are_rendered() {
    let bug = json(
        r#"{"id": 1, "title": "Microsoft has a majority market share",
        "web_link": "https://bugs.launchpad.net/bugs/1", "description": "It does."}"#,
    );
    let tasks = items(
        r#"[{"bug_target_name": "ubuntu", "status": "Fix Released", "importance": "Medium"}]"#,
    );
    let text = render_bug(&bug, &tasks, &Vec::new(), false, 5);
    assert!(text.starts_with("# "));
    assert!(text.contains("Microsoft has a majority market share"));
    assert!(text.contains("ubuntu"));
    assert!(text.contains("Fix Released"));
    assert!(text.contains("It does."));
}

#[test]
fn other_resources_are_rendered() {
    let repository = json(r#"{"unique_name": "~owner/project/+git/repo", "name": "repo"}"#);
    assert!(render_repository(&repository).contains("~owner/project/+git/repo"));
    let project = json(r#"{"display_name": "Project", "summary": "A project"}"#);
    assert!(render_generic(&project).contains("Project"));
    let previews = items(r#"[{"id": 6, "stale": true}, {"id": 7}]"#);
    let text = render_preview_diffs(&previews, 7, "42");
    assert!(text.contains("6") && text.contains("7"));
}
