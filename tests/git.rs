use symphony::catalog::{agent_deleted, agent_name, insert_repo_error, next_sort_order};
use symphony::git::{
    clone_plan, current_branch_of, detached_label, extract_repo_name_from_url, failure_message, history_limit,
    parse_commit_file_diffs, parse_git_log, parse_path_from_diff_header, parse_remote_url, pull_summary,
    remote_from_output, validate_git_repo, RepoSyncStatus, clone_destination_free, sync_after, SyncProbe,
    SyncStep,
};
use symphony::text::trim_text;

#[test]
fn repo_name_from_urls() {
    assert_eq!(extract_repo_name_from_url("https://github.com/acme/widget.git").unwrap(), "widget");
    assert_eq!(extract_repo_name_from_url("git@github.com:acme/widget.git/").unwrap(), "widget");
    assert_eq!(extract_repo_name_from_url("https://host/acme/tool.git.git").unwrap(), "tool");
    assert_eq!(extract_repo_name_from_url("host:solo").unwrap(), "solo");
    assert_eq!(extract_repo_name_from_url("plain").unwrap(), "plain");
    assert_eq!(
        extract_repo_name_from_url("https://github.com/.git").unwrap_err(),
        "Could not determine repository name from URL"
    );
    assert!(extract_repo_name_from_url("").is_err());
}

#[test]
fn remote_links() {
    let r = parse_remote_url("git@github.com:acme/widget.git").unwrap();
    assert_eq!(r.provider, "github");
    assert_eq!(r.url, "https://github.com/acme/widget");
    let r = parse_remote_url("https://github.com/acme/widget").unwrap();
    assert_eq!(r.url, "https://github.com/acme/widget");
    let r = parse_remote_url("git@gitlab.com:team/app.git").unwrap();
    assert_eq!(r.provider, "gitlab");
    assert_eq!(r.url, "https://gitlab.com/team/app");
    assert!(parse_remote_url("https://example.org/x.git").is_none());
    let r = remote_from_output("  https://gitlab.com/a/b.git\n").unwrap();
    assert_eq!(r.url, "https://gitlab.com/a/b");
    assert!(remote_from_output(" \n").is_none());
}

#[test]
fn diff_header_paths() {
    assert_eq!(parse_path_from_diff_header("diff --git a/src/x.rs b/src/x.rs"), "src/x.rs");
    assert_eq!(parse_path_from_diff_header("diff --git a/old.txt b/new.txt"), "new.txt");
    assert_eq!(parse_path_from_diff_header("diff --git a/gone.txt /dev/null"), "gone.txt");
    assert_eq!(parse_path_from_diff_header("diff --git"), "Unknown file");
}

#[test]
fn commit_diffs_split_per_file() {
    let raw = "preamble\ndiff --git a/a.txt b/a.txt\n--- a/a.txt\n+++ b/a.txt\n@@ -1 +1 @@\n-x\n+y\r\ndiff --git a/b.txt b/b.txt\nnew file\n";
    let d = parse_commit_file_diffs(raw);
    assert_eq!(d.len(), 2);
    assert_eq!(d[0].path, "a.txt");
    assert_eq!(d[0].diff, "diff --git a/a.txt b/a.txt\n--- a/a.txt\n+++ b/a.txt\n@@ -1 +1 @@\n-x\n+y");
    assert_eq!(d[1].path, "b.txt");
    assert_eq!(d[1].diff, "diff --git a/b.txt b/b.txt\nnew file");
    assert!(parse_commit_file_diffs("").is_empty());
    assert!(parse_commit_file_diffs("no header\n").is_empty());
}

#[test]
fn history_records() {
    let out = "h1\u{1f}s1\u{1f}Ann\u{1f}ann@x\u{1f}2024-01-01\u{1f}Fix it\n\nbroken\u{1f}line\nh2\u{1f}s2\u{1f}Bo\u{1f}bo@x\u{1f}2024-01-02\u{1f}a\u{1f}b";
    let c = parse_git_log(out);
    assert_eq!(c.len(), 2);
    assert_eq!(c[0].hash, "h1");
    assert_eq!(c[0].short_hash, "s1");
    assert_eq!(c[0].author_name, "Ann");
    assert_eq!(c[0].author_email, "ann@x");
    assert_eq!(c[0].author_date, "2024-01-01");
    assert_eq!(c[0].subject, "Fix it");
    assert_eq!(c[1].subject, "a\u{1f}b");
    assert!(parse_git_log("").is_empty());
}

#[test]
fn sync_status_values() {
    let s = RepoSyncStatus::from_counts("3\t1\n");
    assert!(s.has_remote && s.has_upstream && s.can_pull);
    assert_eq!((s.behind, s.ahead), (3, 1));
    let s = RepoSyncStatus::from_counts("0 4");
    assert!(!s.can_pull);
    assert_eq!(s.ahead, 4);
    let s = RepoSyncStatus::from_counts("x");
    assert_eq!((s.behind, s.ahead), (0, 0));
    let s = RepoSyncStatus::without_remote();
    assert!(!s.has_remote && !s.has_upstream);
    let s = RepoSyncStatus::without_upstream();
    assert!(s.has_remote && !s.has_upstream);
    let s = RepoSyncStatus::fetch_failed();
    assert_eq!(s.error.as_deref(), Some("Failed to fetch from origin"));
}

#[test]
fn history_limits() {
    assert_eq!(history_limit(None), 50);
    assert_eq!(history_limit(Some(0)), 1);
    assert_eq!(history_limit(Some(500)), 200);
    assert_eq!(history_limit(Some(20)), 20);
}

#[test]
fn branch_and_pull_texts() {
    assert_eq!(current_branch_of("main\n").as_deref(), Some("main"));
    assert_eq!(current_branch_of("\n"), None);
    assert_eq!(detached_label("abc123\n"), "detached@abc123");
    assert_eq!(pull_summary("  \n"), "Pull completed");
    assert_eq!(pull_summary(" 1 file changed\n"), "1 file changed");
    assert_eq!(failure_message(" fatal: no \n", "out", "Git command failed"), "fatal: no");
    assert_eq!(failure_message("", " out ", "Git command failed"), "out");
    assert_eq!(failure_message("\n", "", "Git command failed"), "Git command failed");
}

#[test]
fn repo_validation() {
    assert_eq!(validate_git_repo("/x", false, false).unwrap_err(), "Directory does not exist");
    assert_eq!(
        validate_git_repo("/x", true, false).unwrap_err(),
        "The selected directory is not a Git repository"
    );
    assert_eq!(validate_git_repo("/home/u/proj", true, true).unwrap(), "proj");
    assert_eq!(validate_git_repo("/home/u/proj/", true, true).unwrap(), "proj");
    assert_eq!(validate_git_repo("/", true, true).unwrap(), "Unknown");
}

#[test]
fn clone_checks() {
    assert_eq!(clone_plan("  ", true).unwrap_err(), "Repository URL is required");
    assert_eq!(clone_plan("https://h/a/b.git", false).unwrap_err(), "Destination folder does not exist");
    assert_eq!(
        clone_plan("https://h/.git", true).unwrap_err(),
        "Could not determine repository name from URL"
    );
    let (url, name) = clone_plan(" https://h/a/b.git ", true).unwrap();
    assert_eq!(url, "https://h/a/b.git");
    assert_eq!(name, "b");
}

#[test]
fn catalog_rules() {
    assert_eq!(agent_name("  helper ").unwrap(), "helper");
    assert_eq!(agent_name("\t").unwrap_err(), "Agent name is required");
    assert!(agent_deleted(1).is_ok());
    assert_eq!(agent_deleted(0).unwrap_err(), "Agent not found");
    assert_eq!(
        insert_repo_error("UNIQUE constraint failed: repos.path"),
        "This repository has already been added"
    );
    assert_eq!(insert_repo_error("disk full"), "disk full");
    assert_eq!(next_sort_order(0), 1);
    assert_eq!(next_sort_order(41), 42);
}

#[test]
fn trim_uses_unicode_whitespace() {
    assert_eq!(trim_text("\u{3000}\u{a0} a b \u{2029}\r\n"), "a b");
    assert_eq!(trim_text("\u{1f}x"), "\u{1f}x");
    assert_eq!(trim_text(""), "");
}

#[test]
fn sync_probe_order() {
    assert!(matches!(sync_after(SyncProbe::Origin, false, Some(true)), SyncStep::Done(ref s) if !s.has_remote));
    assert!(matches!(sync_after(SyncProbe::Origin, true, None), SyncStep::Probe(SyncProbe::Upstream)));
    assert!(matches!(
        sync_after(SyncProbe::Upstream, false, Some(true)),
        SyncStep::Done(ref s) if s.has_remote && !s.has_upstream
    ));
    assert!(matches!(sync_after(SyncProbe::Upstream, true, None), SyncStep::Probe(SyncProbe::Counts)));
    assert!(matches!(sync_after(SyncProbe::Upstream, true, Some(false)), SyncStep::Probe(SyncProbe::Counts)));
    assert!(matches!(sync_after(SyncProbe::Upstream, true, Some(true)), SyncStep::Probe(SyncProbe::Fetch)));
    assert!(matches!(sync_after(SyncProbe::Fetch, true, Some(true)), SyncStep::Probe(SyncProbe::Counts)));
    match sync_after(SyncProbe::Fetch, false, Some(true)) {
        SyncStep::Done(s) => assert_eq!(s.error.as_deref(), Some("Failed to fetch from origin")),
        _ => panic!("expected the check to end"),
    }
}

#[test]
fn clone_destination_must_be_free() {
    assert!(clone_destination_free(false, "/p/x").is_ok());
    assert_eq!(clone_destination_free(true, "/p/x").unwrap_err(), "Destination already exists: /p/x");
}
