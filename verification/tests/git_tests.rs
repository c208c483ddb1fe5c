use ast_graph::git::{parse_hunks, parse_new_range, try_parse_hunks, churn_of_log, humanize_delta, humanize_ago};

#[test]
fn parses_unified0_hunk_header() {
    assert_eq!(parse_new_range("@@ -10,0 +42,3 @@ fn foo"), Some((42, 3)));
    assert_eq!(parse_new_range("@@ -1 +1 @@"), Some((1, 1)));
    assert_eq!(parse_new_range("@@ -5,2 +8 @@"), Some((8, 1)));
}

#[test]
fn parses_diff_text() {
    let text = "diff --git a/foo.rs b/foo.rs\n\
                index 111..222 100644\n\
                --- a/foo.rs\n\
                +++ b/foo.rs\n\
                @@ -10,0 +11,3 @@ fn hi\n\
                +a\n+b\n+c\n\
                @@ -30 +32 @@\n\
                +x\n";
    let hunks = parse_hunks(text);
    assert_eq!(hunks.len(), 2);
    assert_eq!(hunks[0].file_path, "foo.rs");
    assert_eq!((hunks[0].new_start, hunks[0].new_end), (11, 13));
    assert_eq!((hunks[1].new_start, hunks[1].new_end), (32, 32));
}

#[test]
fn skips_deleted_files() {
    let text = "diff --git a/foo.rs b/foo.rs\n\
                --- a/foo.rs\n\
                +++ /dev/null\n\
                @@ -1,5 +0,0 @@\n";
    assert!(parse_hunks(text).is_empty());
}

#[test]
fn new_range_rejects_headers_without_plus_or_number() {
    assert_eq!(parse_new_range("@@ -1 @@"), None);
    assert_eq!(parse_new_range("@@ -1 +x,2 @@"), None);
    assert_eq!(parse_new_range("@@ -1 +4294967296 @@"), None);
    assert_eq!(parse_new_range("@@ -1 +4294967295,1 @@"), Some((4294967295, 1)));
}

#[test]
fn hunks_need_a_file_and_skip_pure_deletions() {
    let text = "@@ -1 +1 @@\n+++ b/a.rs\n@@ -3,2 +3,0 @@\n@@ -7 +9,2 @@\n";
    let hunks = parse_hunks(text);
    assert_eq!(hunks.len(), 1);
    assert_eq!(hunks[0].file_path, "a.rs");
    assert_eq!((hunks[0].new_start, hunks[0].new_end), (9, 10));
}

#[test]
fn path_without_b_prefix_is_kept() {
    let hunks = parse_hunks("+++ src/x.go\r\n@@ -1 +5 @@\r\n");
    assert_eq!(hunks.len(), 1);
    assert_eq!(hunks[0].file_path, "src/x.go");
}

#[test]
fn overflowing_hunk_end_is_reported() {
    assert!(try_parse_hunks("+++ b/a\n@@ -1 +4294967295,2 @@\n").is_none());
    let ok = try_parse_hunks("+++ b/a\n@@ -1 +4294967295,1 @@\n").unwrap();
    assert_eq!(ok[0].new_end, 4294967295);
}

#[test]
fn churn_counts_parsed_timestamps() {
    let c = churn_of_log("1700000000\n  1600000000 \nnot a number\n\n-5\n");
    assert_eq!(c.commits_in_window, 3);
    assert_eq!(c.last_commit_ts, 1700000000);
    let empty = churn_of_log("");
    assert_eq!(empty.commits_in_window, 0);
    assert_eq!(empty.last_commit_ts, 0);
}

#[test]
fn humanize_buckets() {
    assert_eq!(humanize_delta(0, 100), "never");
    assert_eq!(humanize_delta(-3, 100), "never");
    assert_eq!(humanize_delta(1000, 1000 + 59), "0m ago");
    assert_eq!(humanize_delta(1000, 1000 + 3599), "59m ago");
    assert_eq!(humanize_delta(1000, 1000 + 3600), "1h ago");
    assert_eq!(humanize_delta(1000, 1000 + 86_399), "23h ago");
    assert_eq!(humanize_delta(1000, 1000 + 86_400), "1d ago");
    assert_eq!(humanize_delta(1000, 1000 + 2_591_999), "29d ago");
    assert_eq!(humanize_delta(1000, 1000 + 2_592_000 * 5), "5mo ago");
    assert_eq!(humanize_delta(5000, 1000), "0m ago");
}

#[test]
fn humanize_ago_of_non_positive_is_never() {
    assert_eq!(humanize_ago(0), "never");
    assert!(humanize_ago(1).ends_with("mo ago"));
}
