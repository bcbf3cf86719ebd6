use omp_launchpad::diff::{locate_diff_line, map_file_line, DiffLineKind, DiffSide};

const DIFF: &str = "diff --git a/src/old.rs b/src/new.rs
similarity index 90%
rename from src/old.rs
rename to src/new.rs
--- a/src/old.rs
+++ b/src/new.rs
@@ -10,3 +10,4 @@
 context
-removed
+added
+another
 context 2
";

const QUOTED_PATH_DIFF: &str = "diff --git \"a/\\303\\251.rs\" \"b/\\303\\251.rs\"
--- \"a/\\303\\251.rs\"
+++ \"b/\\303\\251.rs\"
@@ -1 +1 @@
-old
+new
";

const MULTI_FILE_DIFF: &str = "diff --git a/first.rs b/first.rs
--- a/first.rs
+++ b/first.rs
@@ -0,0 +1 @@
+first
diff --git a/second.rs b/second.rs
--- a/second.rs
+++ b/second.rs
@@ -1 +1 @@
-old
+new
";

const OVERFLOW_DIFF: &str = "diff --git a/max.rs b/max.rs
--- a/max.rs
+++ b/max.rs
@@ -18446744073709551615,1 +1,1 @@
 context
";

#[test]
fn maps_modified_file_line_to_global_diff_line() {
    let location = map_file_line(DIFF, "src/new.rs", DiffSide::Modified, 11).unwrap();
    assert_eq!(location.diff_line, 10);
    assert_eq!(location.kind, DiffLineKind::Added);
    assert!(location.is_commentable());
}

#[test]
fn maps_original_renamed_path() {
    let location = map_file_line(DIFF, "src/old.rs", DiffSide::Original, 11).unwrap();
    assert_eq!(location.path, "src/new.rs");
    assert_eq!(location.diff_line, 9);
    assert_eq!(location.kind, DiffLineKind::Removed);
}

#[test]
fn rejects_lines_outside_diff_hunks() {
    assert!(map_file_line(DIFF, "src/new.rs", DiffSide::Modified, 1).is_none());
}

#[test]
fn decodes_quoted_git_paths() {
    let location = map_file_line(QUOTED_PATH_DIFF, "é.rs", DiffSide::Modified, 1).unwrap();
    assert_eq!(location.diff_line, 6);
    assert_eq!(location.kind, DiffLineKind::Added);
}

#[test]
fn locates_global_diff_lines() {
    let added = locate_diff_line(DIFF, 10).unwrap();
    assert_eq!(added.path, "src/new.rs");
    assert_eq!(added.side, DiffSide::Modified);
    assert_eq!(added.file_line, 11);
    assert_eq!(added.kind, DiffLineKind::Added);

    let removed = locate_diff_line(DIFF, 9).unwrap();
    assert_eq!(removed.side, DiffSide::Original);
    assert_eq!(removed.file_line, 11);
    assert_eq!(removed.kind, DiffLineKind::Removed);
}

#[test]
fn locates_lines_in_later_files() {
    let location = locate_diff_line(MULTI_FILE_DIFF, 11).unwrap();
    assert_eq!(location.path, "second.rs");
    assert_eq!(location.file_line, 1);
    assert_eq!(location.kind, DiffLineKind::Added);
}

#[test]
fn rejects_hunk_counter_overflow() {
    assert!(map_file_line(OVERFLOW_DIFF, "max.rs", DiffSide::Original, u64::MAX).is_none());
}

#[test]
fn rejects_line_zero() {
    assert!(map_file_line(DIFF, "src/new.rs", DiffSide::Modified, 0).is_none());
    assert!(locate_diff_line(DIFF, 0).is_none());
}

#[test]
fn mapped_lines_are_located_again() {
    for (path, side, line) in [
        ("src/new.rs", DiffSide::Modified, 11),
        ("src/new.rs", DiffSide::Modified, 12),
        ("src/old.rs", DiffSide::Original, 11),
    ] {
        let mapped = map_file_line(DIFF, path, side, line).unwrap();
        assert!(mapped.is_commentable());
        assert_eq!(locate_diff_line(DIFF, mapped.diff_line), Some(mapped));
    }
}

#[test]
fn context_lines_of_the_original_take_no_comment() {
    let context = map_file_line(DIFF, "src/old.rs", DiffSide::Original, 10).unwrap();
    assert_eq!(context.kind, DiffLineKind::Context);
    assert!(!context.is_commentable());
    let located = locate_diff_line(DIFF, context.diff_line).unwrap();
    assert_eq!(located.path, context.path);
    assert_eq!(located.kind, DiffLineKind::Context);
    assert_eq!(located.diff_line, 8);
    assert_eq!(located.side, DiffSide::Modified);
}

#[test]
fn quoted_paths_are_read_back() {
    for (written, path) in [
        ("\"b/tab\\there\"", "tab\there"),
        ("\"b/quote\\\"and\\\\slash\"", "quote\"and\\slash"),
        ("\"b/\\001\\177\"", "\u{1}\u{7f}"),
        ("\"b/\\342\\202\\254uro\"", "\u{20ac}uro"),
        ("\"b/raw \u{e9}\"", "raw \u{e9}"),
        ("b/plain name", "plain name"),
    ] {
        let diff = format!("diff --git x y\n--- /dev/null\n+++ {written}\n@@ -0,0 +1 @@\n+new\n");
        let location = locate_diff_line(&diff, 5).unwrap();
        assert_eq!(location.path, path);
        let mapped = map_file_line(&diff, path, DiffSide::Modified, 1).unwrap();
        assert_eq!(mapped.diff_line, 5);
    }
}
