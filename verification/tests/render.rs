//! The texts of reports, in full.

use omp_launchpad::diff::{DiffLineKind, DiffLocation, DiffSide};
use omp_launchpad::fields::{
    capitalise, name_of_reviewer_member, person_field, resource_id, resource_kind,
};
use omp_launchpad::json::{Json, Number};
use omp_launchpad::render::{render_bug, render_generic, render_proposal, render_repository};
use omp_launchpad::report::{
    render_bug_search, render_diff_location, render_inline_comments, render_preview_diffs,
    render_proposal_discussion, render_proposal_lookup, render_proposal_search,
    render_review_drafts, DiscussionSections,
};
use serde_json::Value;

fn json_of(value: &Value) -> Json {
    match value {
        Value::Null => Json::Null,
        Value::Bool(flag) => Json::Bool(*flag),
        Value::Number(number) => Json::Number(match (number.as_u64(), number.as_i64()) {
            (Some(value), _) => Number::Unsigned(value),
            (None, Some(value)) => Number::Negative(value),
            (None, None) => Number::Other(number.to_string()),
        }),
        Value::String(text) => Json::Text(text.clone()),
        Value::Array(items) => Json::Array(items.iter().map(json_of).collect()),
        Value::Object(members) => Json::Object(
            members
                .iter()
                .map(|(name, value)| (name.clone(), json_of(value)))
                .collect(),
        ),
    }
}

fn json(text: &str) -> Json {
    json_of(&serde_json::from_str(text).unwrap())
}

fn items(text: &str) -> Vec<Json> {
    match json(text) {
        Json::Array(items) => items,
        _ => panic!("not an array"),
    }
}

#[test]
fn bugs_in_full() {
    let bug = json(
        r#"{"id": 1, "title": "It broke", "owner_link": "https://api.launchpad.net/devel/~alice",
        "date_created": "2026-01-01", "date_last_updated": "", "information_type": null,
        "tags": ["one", "", "two"], "heat": 4.5, "web_link": "https://bugs.launchpad.net/bugs/1",
        "description": "  It does not work.\n"}"#,
    );
    let tasks = items(
        r#"[{"status": "New", "importance": "High", "bug_target_display_name": "Project"},
        {"status": "New", "importance": "Low", "bug_target_name": "other",
        "assignee": {"name": "bob"}},
        {}]"#,
    );
    let comments = items(
        r#"[{"author": {"display_name": "Alice"}, "date_created": "2026-01-02",
        "subject": "Re:  it", "content": " hello "},
        {"title": "a  b", "message_body": "a b", "vote": "Approve"},
        {"owner_link": "https://x/~carol/", "content": " "}]"#,
    );
    assert_eq!(
        render_bug(&bug, &tasks, &comments, true, 5),
        "# Bug #1: It broke\n\n\
        - **Status:** New\n\n\
        - **Importance:** High, Low\n\n\
        - **Owner:** alice\n\n\
        - **Created:** 2026-01-01\n\n\
        - **Tags:** one, two\n\n\
        - **Heat:** 4.5\n\n\
        - **URL:** https://bugs.launchpad.net/bugs/1\n\n\
        ## Description\n\nIt does not work.\n\n\
        ## Tasks\n\n\
        - **Project:** New · High\n\
        - **other:** New · Low · assignee: bob\n\
        - **unknown:** Unknown · Unknown\n\n\
        ## Comments (up to 5)\n\n\
        ### Alice (2026-01-02)\n\n**Re:  it**\n\nhello\n\n\
        ### unknown (Approve)\n\na b\n\n\
        ### carol\n\n_No written comment._"
    );
    assert_eq!(
        render_bug(&json("{}"), &Vec::new(), &comments, false, 5),
        "# Bug #?: Untitled"
    );
}

#[test]
fn proposals_in_full() {
    let member = name_of_reviewer_member();
    let label = capitalise(&member);
    let proposal = json(&format!(
        r#"{{"self_link": "https://api.launchpad.net/devel/~o/p/+git/r/+merge/42/",
        "commit_message": "  ", "description": "Fix\n the   thing",
        "queue_status": "Needs review", "source_git_path": "refs/heads/x",
        "target_branch": {{"unique_name": "lp:p"}}, "registrant": {{"name": "alice"}},
        "{member}_link": "https://x/~bob", "date_merged": "2026-01-03"}}"#
    ));
    let votes = items(&format!(
        r#"[{{"{member}": {{"name": "bob"}}, "vote": "Approve"}},
        {{"registrant_link": "https://x/~carol", "review_type": "code"}}, {{}}]"#
    ));
    assert_eq!(
        render_proposal(&proposal, &Vec::new(), &votes, true, 5),
        format!(
            "# Merge proposal 42: Fix the thing\n\n\
            - **Status:** Needs review\n\n\
            - **Source:** refs/heads/x\n\n\
            - **Target:** lp:p\n\n\
            - **Registrant:** alice\n\n\
            - **{label}:** bob\n\n\
            - **Merged:** 2026-01-03\n\n\
            ## Description\n\nFix\n the   thing\n\n\
            ## Reviews\n\n\
            - **bob:** Approve\n\
            - **carol:** code\n\
            - **unknown:** Pending"
        )
    );
    let long = json(&format!(r#"{{"description": "{}"}}"#, "é".repeat(130)));
    assert!(render_proposal(&long, &Vec::new(), &Vec::new(), false, 1)
        .starts_with(&format!("# Merge proposal ?: {}\n\n## Description", "é".repeat(120))));
}

#[test]
fn repositories_in_full() {
    let repository = json(
        r#"{"unique_name": "~o/p/+git/r", "owner_link": "https://x/~o", "target_link": "https://x/p",
        "default_branch": "refs/heads/main", "git_https_url": "https://git.launchpad.net/p",
        "git_ssh_url": "git+ssh://git.launchpad.net/p", "description": "A repository"}"#,
    );
    assert_eq!(
        render_repository(&repository),
        "# ~o/p/+git/r\n\n\
        - **Owner:** o\n\n\
        - **Target:** p\n\n\
        - **Default branch:** refs/heads/main\n\n\
        - **Clone URL:** https://git.launchpad.net/p\n\n\
        - **SSH URL:** git+ssh://git.launchpad.net/p\n\n\
        ## Description\n\nA repository"
    );
    assert_eq!(render_repository(&json("[]")), "# repository");
}

#[test]
fn other_resources_in_full() {
    let resource = json(
        r##"{"resource_type_link": "https://api.launchpad.net/devel/#project",
        "display_name": "Project", "name": "project", "bug_tracker": {"self_link": "https://x/t"},
        "active": true, "count": -2, "owners_collection_link": "https://x/o",
        "web_link": "https://launchpad.net/project", "summary": "A project"}"##,
    );
    assert_eq!(
        render_generic(&resource),
        "# Project\n\n\
        - **Type:** project\n\n\
        - **Active:** true\n\n\
        - **Bug Tracker:** https://x/t\n\n\
        - **Count:** -2\n\n\
        - **Summary:** A project\n\n\
        - **URL:** https://launchpad.net/project\n\n\
        ## Description\n\nA project"
    );
    assert_eq!(render_generic(&json("3")), "# resource\n\n- **Type:** resource");
}

#[test]
fn preview_diffs_in_full() {
    let previews = items(
        r#"[{"id": 9, "stale": true}, {"id": 7, "date_created": "2026-01-01", "stale": false},
        {"stale": "yes"}]"#,
    );
    assert_eq!(
        render_preview_diffs(&previews, 9, "42"),
        "# Preview diff history for merge proposal 42\n\
        - **?**\n\
        - **7** · 2026-01-01\n\
        - **9** · current · stale"
    );
    assert_eq!(
        render_preview_diffs(&Vec::new(), 9, "42"),
        "# Preview diff history for merge proposal 42\nNo preview diffs."
    );
}

#[test]
fn inline_comments_in_full() {
    let comments = items(
        r#"[{"line_number": "5", "person_link": "https://x/~alice", "date": "2026-01-01",
        "text": "Why?"}, {}]"#,
    );
    assert_eq!(
        render_inline_comments(&comments, 7, "42"),
        "# Published inline comments for merge proposal 42, preview diff 7\n\n\
        ## Diff line 5 · alice · 2026-01-01\n\nWhy?\n\n\
        ## Diff line ? · unknown\n\n_No written comment._"
    );
    assert_eq!(
        render_inline_comments(&Vec::new(), 7, "42"),
        "# Published inline comments for merge proposal 42, preview diff 7\n\n\
        No published inline comments."
    );
}

#[test]
fn drafts_in_full() {
    assert_eq!(
        render_review_drafts(&json(r#"{"12": "b", "5": "a", "x": 3}"#), 7, "42"),
        "# Review drafts for merge proposal 42, preview diff 7\n\n\
        ## Diff line x\n\n_No written comment._\n\n\
        ## Diff line 5\n\na\n\n\
        ## Diff line 12\n\nb"
    );
    assert_eq!(
        render_review_drafts(&json("null"), 7, "42"),
        "# Review drafts for merge proposal 42, preview diff 7\n\nNo review drafts."
    );
}

#[test]
fn locations_in_full() {
    let location = DiffLocation {
        path: "src/main.rs".to_owned(),
        side: DiffSide::Original,
        file_line: 3,
        diff_line: 9,
        kind: DiffLineKind::Removed,
    };
    assert_eq!(
        render_diff_location(&location, 7, "42"),
        "# Diff line mapping for merge proposal 42, preview diff 7\n\n\
        - **Path:** src/main.rs\n\
        - **Side:** original\n\
        - **File line:** 3\n\
        - **Global diff line:** 9\n\
        - **Kind:** removed"
    );
}

#[test]
fn bug_searches_in_full() {
    let tasks = items(
        r#"[{"bug_link": "https://api.launchpad.net/devel/bugs/1", "title": "Bug #1",
        "status": "New", "importance": "High"}, {}]"#,
    );
    assert_eq!(
        render_bug_search("project", Some("crash"), &tasks),
        "# Launchpad bug search for project\n\n\
        - **Target:** project\n\n\
        - **Query:** crash\n\n\
        - **Results:** 2\n\n\
        - [#1: Bug #1](https://bugs.launchpad.net/bugs/1) — New · High\n\n\
        - [#: Untitled](https://bugs.launchpad.net/bugs/) — Unknown · Unknown"
    );
}

#[test]
fn proposal_searches_in_full() {
    let repository = json(r#"{"unique_name": "~o/p/+git/r"}"#);
    let proposals = items(
        r#"[{"self_link": "https://x/+merge/42", "commit_message": "Fix  it",
        "web_link": "https://code.launchpad.net/42", "queue_status": "Approved",
        "source_git_repository_link": "https://api.launchpad.net/devel/~o/p/+git/r",
        "source_git_path": "refs/heads/x",
        "target_git_repository_link": "https://example.org/p",
        "registrant_link": "https://x/~alice",
        "date_created": "2026-01-01", "date_reviewed": "2026-01-05", "date_merged": "2026-01-04"}]"#,
    );
    assert_eq!(
        render_proposal_search(&repository, &proposals, Some(1), true),
        "# Launchpad merge proposal search\n\n\
        - **Results:** 1\n\n\
        - **Limit:** 1\n\n\
        - **More results available:** yes\n\n\
        - [MP 42: Fix it](https://code.launchpad.net/42) — Approved\n\
        \u{20} - **Source:** ~o/p/+git/r:refs/heads/x\n\
        \u{20} - **Target:** unknown:unknown\n\
        \u{20} - **Registrant:** alice\n\
        \u{20} - **Updated:** 2026-01-05"
    );
    assert_eq!(
        render_proposal_search(&json("{}"), &Vec::new(), None, false),
        "# Launchpad merge proposal search\n\n- **Results:** 0"
    );
}

#[test]
fn lookups_in_full() {
    let proposal = json(r#"{"self_link": "https://x/+merge/42", "commit_message": "Fix"}"#);
    let alternatives = items(
        r#"[{"self_link": "https://x/+merge/1", "queue_status": "Merged", "web_link": "https://y/1"},
        {"self_link": "https://x/+merge/2"}]"#,
    );
    assert_eq!(
        render_proposal_lookup(&proposal, &alternatives, "r", "refs/heads/b", "here", "newest"),
        "# Merge proposal lookup for r:refs/heads/b\n\n\
        - **Matching proposals:** 3\n\n\
        - **Resolved from:** here\n\n\
        - **Selection:** newest\n\n\
        ## Merge proposal 42: Fix\n\n\
        ## Other matching proposals\n\n\
        - [MP 2]() — Unknown\n\
        - [MP 1](https://y/1) — Merged"
    );
}

#[test]
fn discussions_in_full() {
    let member = name_of_reviewer_member();
    let summary = json(&format!(
        r#"{{"general_comment_count": 3, "review_vote_count": 2, "pending_review_request_count": 1,
        "inline_thread_count": 4, "current_open_inline_thread_count": 1,
        "outdated_inline_thread_count": 2, "superseded_inline_thread_count": 1,
        "current_review_votes": [{{"{member}": "alice", "vote": "Approve"}}, {{}}],
        "review_vote_transitions": [
            {{"{member}": "alice", "from": "Needs Fixing", "to": "Approve"}},
            {{"to": "Approve"}}]}}"#
    ));
    let proposal = json(r#"{"self_link": "https://x/+merge/42"}"#);
    assert_eq!(
        render_proposal_discussion(
            &proposal,
            Some(7),
            &summary,
            DiscussionSections {
                general: true,
                inline: true,
                current_preview_diff_stale: true,
                identity_resolution_failures: 2,
            },
        ),
        "# Merge proposal 42 review summary\n\n\
        - **Current preview diff:** 7\n\n\
        - **Current preview diff state:** stale; unresolved inline threads are reported as outdated\n\n\
        - **Identity resolution:** 2 author profile(s) unavailable; usernames were derived from Launchpad URLs\n\n\
        ## Review counts\n\n\
        - **General comments:** 3\n\
        - **Review votes:** 2\n\
        - **Pending review requests:** 1\n\
        - **Inline threads:** 4 total · 1 current/open · 2 outdated · 1 superseded · resolved unavailable\n\n\
        ## Review votes\n\n\
        - **@alice:** Approve\n\
        - **@unknown:** unknown\n\
        **Transitions**\n\
        - **@alice:** Needs Fixing → Approve"
    );
    assert_eq!(
        render_proposal_discussion(
            &json("{}"),
            None,
            &json("{}"),
            DiscussionSections {
                general: false,
                inline: false,
                current_preview_diff_stale: false,
                identity_resolution_failures: 0,
            },
        ),
        "# Merge proposal ? review summary\n\n\
        ## Review counts\n\n\
        - **General comments and votes:** not requested\n\
        - **Inline threads:** not requested"
    );
}

#[test]
fn names_are_read_off_links() {
    let value = json(
        r##"{"a": "https://x/~alice/", "b_link": "https://x/~~bob", "c": {"web_link": "https://x/~carol"},
        "d": 3, "resource_type_link": "https://x/#bug", "self_link": "https://x/bugs/1//"}"##,
    );
    assert_eq!(person_field(&value, "a").as_deref(), Some("alice"));
    assert_eq!(person_field(&value, "b").as_deref(), Some("bob"));
    assert_eq!(person_field(&value, "c").as_deref(), Some("carol"));
    assert_eq!(person_field(&value, "d"), None);
    assert_eq!(resource_id(&value).as_deref(), Some("1"));
    assert_eq!(resource_kind(&value), "bug");
    assert_eq!(resource_kind(&json("{}")), "resource");
}
