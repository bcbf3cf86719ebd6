use omp_launchpad::repository::validate_repository_path;
use omp_launchpad::target::{
    select_preview_diff, strip_diff_suffix, ResourceKind, ResourceTarget,
};
use omp_launchpad::threads::thread_state;

#[test]
fn parses_bug_url_options() {
    let target = ResourceTarget::parse("lp://bugs/1?comments=0&limit=200").unwrap();
    assert_eq!(target.kind, ResourceKind::Bug { id: 1 });
    assert!(!target.include_comments);
    assert_eq!(target.comment_limit, 20);
}

#[test]
fn parses_merge_proposal_diff() {
    let target =
        ResourceTarget::parse("lp://~owner/project/+git/repository/+merge/42/diff").unwrap();
    assert_eq!(
        target.kind,
        ResourceKind::MergeProposal {
            repository: "~owner/project/+git/repository".to_owned(),
            id: 42,
        }
    );
    assert!(target.diff);
}

#[test]
fn parses_explicit_preview_diff() {
    let target =
        ResourceTarget::parse("lp://~owner/project/+git/repository/+merge/42/diff/17").unwrap();
    assert!(target.diff);
    assert_eq!(target.preview_diff_id, Some(17));
}

#[test]
fn rejects_parent_repository_path() {
    let error = validate_repository_path("src/../secret").unwrap_err();
    assert!(error.message().contains("cannot contain '..'"));
}

#[test]
fn selects_preview_diff_for_numeric_merge_proposal() {
    let mut target = ResourceTarget::parse("510799").unwrap();
    select_preview_diff(&mut target, Some(1_142_878)).unwrap();
    assert!(target.diff);
    assert_eq!(target.preview_diff_id, Some(1_142_878));
}

#[test]
fn selects_preview_diff_for_merge_proposal_url() {
    let mut target =
        ResourceTarget::parse("lp://~owner/project/+git/repository/+merge/510799").unwrap();
    select_preview_diff(&mut target, Some(1_142_878)).unwrap();
    assert!(target.diff);
    assert_eq!(target.preview_diff_id, Some(1_142_878));
}

#[test]
fn accepts_matching_resource_preview_diff() {
    let mut target =
        ResourceTarget::parse("lp://~owner/project/+git/repository/+merge/42/diff/17").unwrap();
    select_preview_diff(&mut target, Some(17)).unwrap();
    assert!(target.diff);
    assert_eq!(target.preview_diff_id, Some(17));
}

#[test]
fn rejects_conflicting_resource_preview_diff() {
    let mut target =
        ResourceTarget::parse("lp://~owner/project/+git/repository/+merge/42/diff/17").unwrap();
    let error = select_preview_diff(&mut target, Some(18)).unwrap_err();
    assert!(error
        .message()
        .contains("target and preview_diff_id select different snapshots"));
}

#[test]
fn rejects_preview_diff_for_non_merge_proposal() {
    let mut target = ResourceTarget::parse("lp://bugs/1").unwrap();
    let error = select_preview_diff(&mut target, Some(17)).unwrap_err();
    assert!(error
        .message()
        .contains("preview_diff_id requires a merge proposal target"));
}

#[test]
fn classifies_thread_state_from_preview_diff() {
    assert_eq!(thread_state(true, false), "open");
    assert_eq!(thread_state(false, false), "superseded");
    assert_eq!(thread_state(false, true), "outdated");
}

#[test]
fn bugs_are_written_in_several_ways() {
    for raw in ["bugs/7", "/bugs/7", "bug/7", "+bug/7", "lp://bugs/7", "lp://+bug/7"] {
        let target = ResourceTarget::parse(raw).unwrap();
        assert_eq!(target.kind, ResourceKind::Bug { id: 7 });
        assert_eq!(target.path, "bugs/7");
    }
    assert_eq!(
        ResourceTarget::parse("bugs/seven").unwrap_err().message(),
        "invalid request: bug target must end with a numeric ID"
    );
}

#[test]
fn other_targets_are_told_apart() {
    let kind = |raw: &str| ResourceTarget::parse(raw).unwrap().kind;
    assert_eq!(kind("42"), ResourceKind::MergeProposalId { id: 42 });
    assert_eq!(kind("lp://project"), ResourceKind::Generic);
    assert_eq!(
        kind("https://code.launchpad.net/~o/p/+git/r"),
        ResourceKind::Repository
    );
    assert_eq!(
        ResourceTarget::parse("https://example.org/x").unwrap_err().message(),
        "invalid request: target URL is not a Launchpad URL"
    );
    assert_eq!(
        ResourceTarget::parse("a/+merge/x").unwrap_err().message(),
        "invalid request: merge proposal target must end with a numeric ID"
    );
}

#[test]
fn snapshots_are_selected_by_path_or_query() {
    let merge = "lp://~o/p/+git/r/+merge/42";
    let snapshot = |suffix: &str| ResourceTarget::parse(&format!("{merge}{suffix}"));
    assert_eq!(snapshot("/diff/17").unwrap().preview_diff_id, Some(17));
    assert_eq!(snapshot("/diff?preview_diff=17").unwrap().preview_diff_id, Some(17));
    assert_eq!(snapshot("/diff/all").unwrap().preview_diff_id, None);
    assert!(snapshot("/diff/all").unwrap().diff);
    let message = |suffix: &str| snapshot(suffix).unwrap_err().message();
    assert_eq!(
        message("/diff/17?preview_diff=18"),
        "invalid request: preview diff path and preview_diff query select different snapshots"
    );
    assert_eq!(
        message("?preview_diff=18"),
        "invalid request: preview_diff is only valid for a merge proposal diff"
    );
    assert_eq!(
        message("/diff/0"),
        "invalid request: preview diff path must be a positive integer"
    );
    assert_eq!(message("?limit=x"), "invalid request: limit must be an integer");
}

#[test]
fn a_snapshot_in_the_path_or_in_the_query_is_the_same() {
    for merge in [
        "lp://~owner/project/+git/repository/+merge/42",
        "lp://project/+git/repository/+merge/42",
        "lp://~owner/+git/repository/+merge/42",
    ] {
        let by_path = ResourceTarget::parse(&format!("{merge}/diff/1142878")).unwrap();
        let by_query =
            ResourceTarget::parse(&format!("{merge}/diff?preview_diff=1142878")).unwrap();
        assert_eq!(by_path.kind, by_query.kind);
        assert_eq!(by_path.preview_diff_id, Some(1_142_878));
        assert_eq!(by_query.preview_diff_id, Some(1_142_878));
        assert!(by_path.diff && by_query.diff);
        let plain = ResourceTarget::parse(merge).unwrap();
        assert_eq!(plain.kind, by_path.kind);
        assert!(!plain.diff);
        assert_eq!(plain.preview_diff_id, None);
    }
}

#[test]
fn diff_suffixes_are_taken_off_numbers_too() {
    let target = ResourceTarget::parse("510799/diff/17").unwrap();
    assert_eq!(target.kind, ResourceTarget::parse("510799").unwrap().kind);
    assert!(target.diff);
    assert_eq!(target.preview_diff_id, Some(17));
}

#[test]
fn queries_on_comments_change_nothing_else() {
    let plain = ResourceTarget::parse("lp://~o/p/+git/r/+merge/42").unwrap();
    assert!(plain.include_comments);
    assert_eq!(plain.comment_limit, 20);
    let hidden = ResourceTarget::parse("lp://~o/p/+git/r/+merge/42?comments=0").unwrap();
    assert!(!hidden.include_comments);
    assert_eq!((hidden.kind, hidden.comment_limit), (plain.kind, 20));
    for (limit, shown) in [("0", 1), ("1", 1), ("7", 7), ("20", 20), ("21", 20)] {
        let few = ResourceTarget::parse(&format!("lp://bugs/1?limit={limit}")).unwrap();
        assert_eq!(few.comment_limit, shown);
        assert!(few.include_comments);
    }
}

#[test]
fn diff_suffixes_leave_the_path_in_front() {
    let parts = |path: &str| strip_diff_suffix(path).unwrap();
    for path in ["", "x", "~o/p/+git/r/+merge/1", "a/diff/2", "a/diff", "a/diff/all"] {
        assert_eq!(parts(&format!("{path}/diff/17")), (path.to_owned(), true, Some(17)));
        assert_eq!(parts(&format!("{path}/diff")), (path.to_owned(), true, None));
        assert_eq!(parts(&format!("{path}/diff/all")), (path.to_owned(), true, None));
    }
    assert_eq!(parts("a/difference"), ("a/difference".to_owned(), false, None));
    assert_eq!(
        strip_diff_suffix("a/diff/0").unwrap_err().message(),
        "invalid request: preview diff path must be a positive integer"
    );
}
