//! Requests and what they are refused with.

use omp_launchpad::diff::DiffSide;
use omp_launchpad::request::{OneOrMany, Operation, Request};

fn request(op: Operation) -> Request {
    Request {
        op,
        target: None,
        repository: None,
        target_repository: None,
        path: None,
        branch: None,
        target_branch: None,
        query: None,
        status: None,
        importance: None,
        tags: None,
        limit: None,
        latest: None,
        include_superseded: None,
        comments: None,
        since: None,
        reviewer: None,
        format: None,
        current_diff_only: None,
        unresolved_only: None,
        preview_diff_id: None,
        file_line: None,
        side: None,
        title: None,
        description: None,
        information_type: None,
        source_ref: None,
        target_ref: None,
        commit_message: None,
        needs_review: None,
        body: None,
        subject: None,
        vote: None,
        directory: None,
        force_with_lease: None,
    }
}

fn text(value: &str) -> Option<String> {
    Some(value.to_owned())
}

fn reason(request: &Request) -> String {
    let message = request.validate().unwrap_err().message();
    message.strip_prefix("invalid request: ").unwrap().to_owned()
}

#[test]
fn uses_preview_diff_from_target() {
    let mut request = request(Operation::InlineComments);
    request.target = text("lp://~owner/project/+git/repository/+merge/42/diff/17");
    request.validate().unwrap();
    assert_eq!(request.preview_diff_id().unwrap(), 17);
}

#[test]
fn rejects_conflicting_preview_diff_selectors() {
    let mut request = request(Operation::InlineComments);
    request.target = text("lp://~owner/project/+git/repository/+merge/42/diff/17");
    request.preview_diff_id = Some(18);
    let error = request.validate().unwrap_err();
    assert!(error
        .message()
        .contains("target and preview_diff_id select different snapshots"));
}

#[test]
fn fields_are_required_in_order() {
    let mut create = request(Operation::MergeProposalCreate);
    assert_eq!(reason(&create), "repository is required for MergeProposalCreate");
    create.repository = text("project");
    assert_eq!(reason(&create), "source_ref is required for MergeProposalCreate");
    create.source_ref = text("feature");
    create.target_ref = text("");
    assert_eq!(reason(&create), "target_ref is required for MergeProposalCreate");
    create.target_ref = text("main");
    create.validate().unwrap();
}

#[test]
fn lines_are_selected_completely() {
    let mut map = request(Operation::DiffLineMap);
    map.target = text("42");
    map.path = text("src/../main.rs");
    assert_eq!(reason(&map), "preview_diff_id is required for DiffLineMap");
    map.preview_diff_id = Some(0);
    assert_eq!(reason(&map), "preview_diff_id must be greater than zero");
    map.preview_diff_id = Some(7);
    assert_eq!(reason(&map), "file_line is required for DiffLineMap");
    map.file_line = Some(0);
    assert_eq!(reason(&map), "file_line is required for DiffLineMap");
    map.file_line = Some(3);
    assert_eq!(reason(&map), "side is required for DiffLineMap");
    map.side = Some(DiffSide::Original);
    assert!(reason(&map).contains("cannot contain '..'"));
    map.path = text("src/main.rs");
    map.validate().unwrap();
    assert_eq!(map.file_line().unwrap(), 3);
    assert_eq!(map.side().unwrap(), DiffSide::Original);
}

#[test]
fn votes_and_statuses_are_checked() {
    let mut comment = request(Operation::Comment);
    comment.target = text("42");
    comment.body = text("Hello");
    comment.vote = text("Maybe");
    assert_eq!(reason(&comment), "vote is not a supported Launchpad review vote");
    comment.vote = text("Needs Information");
    comment.validate().unwrap();
    assert_eq!(comment.vote().unwrap(), "Needs Information");

    let mut status = request(Operation::SetMergeProposalStatus);
    status.target = text("42");
    let refused = "status must be a string for SetMergeProposalStatus";
    assert_eq!(reason(&status), refused);
    status.status = Some(OneOrMany::Many(vec!["Approved".to_owned()]));
    assert_eq!(reason(&status), refused);
    status.status = Some(OneOrMany::One("Approved".to_owned()));
    status.validate().unwrap();
    assert_eq!(status.status().unwrap(), "Approved");
}

#[test]
fn drafts_are_not_blank() {
    let mut draft = request(Operation::ReviewDraftUpdate);
    draft.target = text("42");
    draft.path = text("src/main.rs");
    draft.preview_diff_id = Some(7);
    draft.file_line = Some(3);
    draft.side = Some(DiffSide::Modified);
    draft.body = text(" \n");
    assert_eq!(reason(&draft), "draft body cannot be empty");
    draft.body = None;
    draft.validate().unwrap();
}

#[test]
fn limits_are_bounded() {
    let mut search = request(Operation::SearchBugs);
    search.target = text("project");
    assert_eq!(search.limit(), 10);
    search.limit = Some(0);
    assert_eq!(reason(&search), "limit must be greater than zero");
    search.limit = Some(1001);
    assert_eq!(reason(&search), "limit cannot be greater than 1000");
    search.limit = Some(1000);
    search.validate().unwrap();
    assert_eq!(search.limit(), 1000);
}

#[test]
fn files_stay_in_their_repository() {
    let mut read = request(Operation::FileRead);
    read.repository = text("project");
    read.path = text("../secret");
    assert!(reason(&read).contains("cannot contain '..'"));
    read.path = text("src/main.rs");
    read.validate().unwrap();
}

#[test]
fn timestamps_are_read() {
    let mut discussion = request(Operation::MergeProposalDiscussion);
    assert_eq!(discussion.since().unwrap(), None);
    discussion.since = text("1970-01-01T01:00:01.5+01:00");
    assert_eq!(discussion.since().unwrap(), Some((1, 500_000_000)));
    discussion.since = text("yesterday");
    assert_eq!(
        discussion.since().unwrap_err().message(),
        "invalid request: since must be an RFC 3339 timestamp"
    );
}

#[test]
fn writes_to_launchpad_need_authentication() {
    assert!(Operation::BugCreate.requires_authentication());
    assert!(Operation::ReviewSubmit.requires_authentication());
    assert!(Operation::ReviewDrafts.requires_authentication());
    assert!(!Operation::ResourceView.requires_authentication());
    assert!(!Operation::MergeProposalCheckout.requires_authentication());
}

#[test]
fn values_are_appended_one_by_one() {
    let mut query = vec![("a".to_owned(), "b".to_owned())];
    OneOrMany::Many(vec!["x".to_owned(), "y".to_owned()]).append_to(&mut query, "status");
    OneOrMany::One("z".to_owned()).append_to(&mut query, "status");
    let values = query.iter().map(|(_, value)| value.as_str()).collect::<Vec<_>>();
    assert_eq!(values, ["b", "x", "y", "z"]);
    assert_eq!(OneOrMany::One("z".to_owned()).values(), ["z"]);
}
