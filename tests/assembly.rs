use difftastic_nvim::plan::{
    commit_query_command, content_command, content_sources, jj_stats_range, listing_command,
    merge_base_command, numstat_command, renames_command, root_command, ContentSource,
};
use difftastic_nvim::range::{DiffMode, Vcs};
use difftastic_nvim::reconcile::{
    prepare_all, prepare_file_for_display, reconcile, DiffFile, DisplayFile, Status,
};
use difftastic_nvim::renames::parse_git_name_status_renames;
use difftastic_nvim::stats::{parse_numstat, FileStats};

fn display(path: &str, status: Status) -> DisplayFile<u32> {
    DisplayFile { path: path.to_string(), status, moved_from: None, rows: 0 }
}

#[test]
fn arrow_path_becomes_created_with_history() {
    let stats = FileStats::new();
    let mut files = vec![
        DiffFile { path: "x.rs".to_string(), status: Status::Modified, hunks: 1u32 },
        DiffFile { path: "old.rs => new.rs".to_string(), status: Status::Modified, hunks: 2u32 },
    ];
    let prepared = prepare_all(&mut files, &stats);
    assert_eq!(prepared.len(), 2);
    assert_eq!(files[0].path, "x.rs");
    assert_eq!(files[0].status, Status::Modified);
    assert_eq!(prepared[0].moved_from, None);
    assert_eq!(files[1].path, "new.rs");
    assert_eq!(files[1].status, Status::Created);
    assert_eq!(files[1].hunks, 2);
    assert_eq!(prepared[1].moved_from, Some("old.rs".to_string()));
    assert_eq!(prepared[1].old_path, "old.rs");
    assert_eq!(prepared[1].new_path, "new.rs");

    let shown: Vec<DisplayFile<u32>> = files
        .into_iter()
        .zip(prepared)
        .map(|(f, p)| DisplayFile { path: f.path, status: f.status, moved_from: p.moved_from, rows: f.hunks })
        .collect();
    let out = reconcile(shown, &parse_git_name_status_renames(""));
    assert_eq!(out.len(), 2);
    assert_eq!(out[0].path, "x.rs");
    assert_eq!(out[0].status, Status::Modified);
    assert_eq!(out[0].moved_from, None);
    assert_eq!(out[1].path, "new.rs");
    assert_eq!(out[1].status, Status::Created);
    assert_eq!(out[1].moved_from, Some("old.rs".to_string()));
}

#[test]
fn prepare_looks_up_stats_by_reported_path() {
    let stats = parse_numstat("4\t2\tsrc/a.rs\n");
    let mut file = DiffFile { path: "src/a.rs".to_string(), status: Status::Modified, hunks: () };
    let p = prepare_file_for_display(&mut file, &stats);
    assert_eq!(p.stats, Some((4, 2)));
    assert_eq!(p.old_path, "src/a.rs");
    assert_eq!(p.new_path, "src/a.rs");
    assert_eq!(file.path, "src/a.rs");
}

#[test]
fn move_reported_as_add_and_delete_is_merged() {
    let renames = parse_git_name_status_renames("R100\told.txt\ta.txt\n");
    let files = vec![display("a.txt", Status::Created), display("old.txt", Status::Deleted)];
    let out = reconcile(files, &renames);
    assert_eq!(out.len(), 1);
    assert_eq!(out[0].path, "a.txt");
    assert_eq!(out[0].status, Status::Created);
    assert_eq!(out[0].moved_from, Some("old.txt".to_string()));
}

#[test]
fn unrelated_deleted_files_stay() {
    let renames = parse_git_name_status_renames("R100\told.txt\ta.txt\n");
    let files = vec![
        display("gone.txt", Status::Deleted),
        display("a.txt", Status::Modified),
        display("old.txt", Status::Modified),
        display("z.txt", Status::Deleted),
    ];
    let out = reconcile(files, &renames);
    let paths: Vec<&str> = out.iter().map(|f| f.path.as_str()).collect();
    assert_eq!(paths, vec!["gone.txt", "a.txt", "old.txt", "z.txt"]);
    assert_eq!(out[1].status, Status::Created);
    assert_eq!(out[2].status, Status::Modified);
    assert_eq!(out[2].moved_from, None);
}

#[test]
fn commands_for_linear_scopes() {
    let range = DiffMode::Range("main...feature".to_string());
    assert_eq!(
        listing_command(&range, Vcs::Linear, Some("abc\n")),
        vec!["-c", "diff.external=difft", "diff", "abc..feature"]
    );
    assert_eq!(
        numstat_command(&DiffMode::Staged, None),
        vec!["diff", "--numstat", "--cached"]
    );
    assert_eq!(
        renames_command(&DiffMode::Unstaged, Vcs::Linear, None),
        vec!["diff", "--name-status", "-M"]
    );
    assert_eq!(merge_base_command("a", "b"), vec!["merge-base", "a", "b"]);
    assert_eq!(root_command(Vcs::Linear), vec!["rev-parse", "--show-toplevel"]);
    assert_eq!(root_command(Vcs::Revset), vec!["root"]);
}

#[test]
fn commands_for_revset_scopes() {
    assert_eq!(
        listing_command(&DiffMode::Range("@-".to_string()), Vcs::Revset, None),
        vec!["diff", "-r", "@-", "--tool", "difft"]
    );
    assert_eq!(
        listing_command(&DiffMode::Unstaged, Vcs::Revset, None),
        vec!["diff", "--tool", "difft"]
    );
    assert_eq!(
        renames_command(&DiffMode::Staged, Vcs::Revset, None),
        vec!["diff", "-r", "@", "--summary"]
    );
    assert_eq!(
        commit_query_command("@"),
        vec!["log", "-r", "@", "--no-graph", "-T", "commit_id"]
    );
}

#[test]
fn content_sources_per_scope() {
    let (o, n) = content_sources(&DiffMode::Range("HEAD".to_string()), Vcs::Linear, None);
    assert_eq!(content_command(&o, "a.rs"), Some(vec!["show".to_string(), "HEAD^:a.rs".to_string()]));
    assert_eq!(content_command(&n, "a.rs"), Some(vec!["show".to_string(), "HEAD:a.rs".to_string()]));
    let (o, n) = content_sources(&DiffMode::Unstaged, Vcs::Linear, None);
    assert_eq!(content_command(&o, "a.rs"), Some(vec!["show".to_string(), ":a.rs".to_string()]));
    assert!(matches!(n, ContentSource::WorkingTree));
    assert_eq!(content_command(&n, "a.rs"), None);
    let (o, n) = content_sources(&DiffMode::Staged, Vcs::Revset, None);
    assert_eq!(
        content_command(&o, "a.rs"),
        Some(vec!["file", "show", "-r", "@-", "a.rs"].into_iter().map(String::from).collect())
    );
    assert!(matches!(n, ContentSource::Revision(ref r) if r == "@"));
    let (o, _) = content_sources(&DiffMode::Range("x".to_string()), Vcs::Revset, None);
    assert!(matches!(o, ContentSource::Revision(ref r) if r == "roots(x)-"));
}

#[test]
fn revset_stats_range() {
    let a = Some("a".to_string());
    let b = Some("b".to_string());
    assert_eq!(jj_stats_range("x..y", a.clone(), b.clone()), Some("a..b".to_string()));
    assert_eq!(jj_stats_range("x..y", None, b.clone()), None);
    assert_eq!(jj_stats_range("@", None, b.clone()), Some("b^..b".to_string()));
    assert_eq!(jj_stats_range("@", a, None), None);
}

#[test]
fn arrow_between_equal_paths_is_no_move() {
    let stats = FileStats::new();
    let mut file = DiffFile { path: "a/ => a".to_string(), status: Status::Modified, hunks: () };
    let p = prepare_file_for_display(&mut file, &stats);
    assert_eq!(p.moved_from, None);
    assert_eq!(p.old_path, "a/");
    assert_eq!(p.new_path, "a");
    assert_eq!(file.path, "a/ => a");
    assert_eq!(file.status, Status::Modified);
}
