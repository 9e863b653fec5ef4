use difftastic_nvim::commit::{check_commit_id, commit_from_log_output};
use difftastic_nvim::pathkey::{path_components, same_path};
use difftastic_nvim::paths::split_display_path;
use difftastic_nvim::range::{jj_revisions, parse_git_range, parse_jj_range, three_dot_endpoints};
use difftastic_nvim::renames::{
    parse_git_name_status_rename, parse_git_name_status_renames, parse_jj_summary_rename,
    parse_jj_summary_renames,
};
use difftastic_nvim::stats::{parse_numstat, parse_numstat_line, parse_u32};
use difftastic_nvim::text::{into_lines, lines_of, split_on, trim_str};

#[test]
fn test_into_lines_with_content() {
    let lines = into_lines(Some("line1\nline2\nline3".to_string()));
    assert_eq!(lines, vec!["line1", "line2", "line3"]);
}

#[test]
fn test_into_lines_empty() {
    let lines = into_lines(None);
    assert!(lines.is_empty());
}

#[test]
fn test_into_lines_single_line() {
    let lines = into_lines(Some("single".to_string()));
    assert_eq!(lines, vec!["single"]);
}

#[test]
fn test_parse_git_range_single_commit() {
    let (old, new) = parse_git_range("abc123", None);
    assert_eq!(old, "abc123^");
    assert_eq!(new, "abc123");
}

#[test]
fn test_parse_git_range_double_dot() {
    let (old, new) = parse_git_range("main..feature", None);
    assert_eq!(old, "main");
    assert_eq!(new, "feature");
}

#[test]
fn test_parse_git_range_empty_left() {
    let (old, new) = parse_git_range("..HEAD", None);
    assert_eq!(old, "");
    assert_eq!(new, "HEAD");
}

#[test]
fn test_parse_jj_range_double_dot() {
    let (old, new) = parse_jj_range("main@origin..@").unwrap();
    assert_eq!(old, "main@origin");
    assert_eq!(new, "@");
}

#[test]
fn test_parse_jj_range_non_range() {
    assert!(parse_jj_range("@").is_none());
}

#[test]
fn test_split_display_path_plain() {
    let (old, new) = split_display_path("src/lib.rs");
    assert_eq!(old, "src/lib.rs");
    assert_eq!(new, "src/lib.rs");
}

#[test]
fn test_split_display_path_arrow() {
    let (old, new) = split_display_path("src/old.rs => src/new.rs");
    assert_eq!(old, "src/old.rs");
    assert_eq!(new, "src/new.rs");
}

#[test]
fn test_split_display_path_brace() {
    let (old, new) = split_display_path("src/{old => new}.rs");
    assert_eq!(old, "src/old.rs");
    assert_eq!(new, "src/new.rs");
}

#[test]
fn test_parse_jj_summary_rename_simple() {
    let parsed = parse_jj_summary_rename("R src/old.rs => src/new.rs").unwrap();
    assert_eq!(parsed.0, "src/old.rs");
    assert_eq!(parsed.1, "src/new.rs");
}

#[test]
fn test_parse_jj_summary_rename_brace() {
    let parsed = parse_jj_summary_rename("R src/{old => new}.rs").unwrap();
    assert_eq!(parsed.0, "src/old.rs");
    assert_eq!(parsed.1, "src/new.rs");
}

#[test]
fn test_parse_jj_summary_renames_map() {
    let renames = parse_jj_summary_renames("R a.txt => b.txt\nA c.txt\n");
    assert_eq!(renames.get("b.txt"), Some(&"a.txt".to_string()));
    assert!(!renames.contains_key("c.txt"));
}

#[test]
fn test_parse_git_name_status_rename() {
    let parsed = parse_git_name_status_rename("R100\tsrc/old.rs\tsrc/new.rs").unwrap();
    assert_eq!(parsed.0, "src/old.rs");
    assert_eq!(parsed.1, "src/new.rs");
}

#[test]
fn test_parse_git_name_status_renames_map() {
    let renames = parse_git_name_status_renames("R090\ta.txt\tb.txt\nM c.txt\n");
    assert_eq!(renames.get("b.txt"), Some(&"a.txt".to_string()));
    assert!(!renames.contains_key("c.txt"));
}

#[test]
fn three_dot_range_uses_merge_base() {
    assert_eq!(
        three_dot_endpoints("main...feature"),
        Some(("main".to_string(), "feature".to_string()))
    );
    let (old, new) = parse_git_range("main...feature", Some("0123abcd\n"));
    assert_eq!(old, "0123abcd");
    assert_eq!(new, "feature");
}

#[test]
fn three_dot_range_without_merge_base_uses_parent() {
    let (old, new) = parse_git_range("main...feature", None);
    assert_eq!(old, "main^");
    assert_eq!(new, "feature");
}

#[test]
fn two_dot_range_is_not_three_dot() {
    assert_eq!(three_dot_endpoints("main..feature"), None);
    let (old, new) = parse_git_range("HEAD~3..HEAD", Some("ignored"));
    assert_eq!(old, "HEAD~3");
    assert_eq!(new, "HEAD");
}

#[test]
fn single_reference_gives_parent_and_itself() {
    let (old, new) = parse_git_range("HEAD", None);
    assert_eq!(old, "HEAD^");
    assert_eq!(new, "HEAD");
}

#[test]
fn jj_range_needs_both_sides() {
    assert!(parse_jj_range("..@").is_none());
    assert!(parse_jj_range("@..").is_none());
    assert!(parse_jj_range(" .. ").is_none());
    assert_eq!(
        parse_jj_range(" a .. b "),
        Some(("a".to_string(), "b".to_string()))
    );
}

#[test]
fn jj_revisions_of_range_and_set() {
    assert_eq!(jj_revisions("a..b"), ("a".to_string(), "b".to_string()));
    assert_eq!(
        jj_revisions("mine()"),
        ("roots(mine())-".to_string(), "heads(mine())".to_string())
    );
}

#[test]
fn split_display_path_variants() {
    assert_eq!(
        split_display_path("a/{old => new}/b"),
        ("a/old/b".to_string(), "a/new/b".to_string())
    );
    assert_eq!(
        split_display_path("old.txt => new.txt"),
        ("old.txt".to_string(), "new.txt".to_string())
    );
    assert_eq!(
        split_display_path("plain.txt"),
        ("plain.txt".to_string(), "plain.txt".to_string())
    );
    assert_eq!(
        split_display_path("a -> b"),
        ("a".to_string(), "b".to_string())
    );
    assert_eq!(
        split_display_path("src/{ => new}.rs"),
        ("src/{".to_string(), "new}.rs".to_string())
    );
    let (o, n) = split_display_path("plain.txt");
    assert_eq!(split_display_path(&o), (o.clone(), n.clone()));
}

#[test]
fn rename_map_ignores_other_lines() {
    let renames = parse_git_name_status_renames("R100\ta.txt\tb.txt\nM c.txt\n");
    assert_eq!(renames.get("b.txt"), Some(&"a.txt".to_string()));
    assert!(!renames.contains_key("c.txt"));
    assert!(!renames.contains_key("a.txt"));
    assert!(renames.contains_value("a.txt"));
    assert!(!renames.contains_value("b.txt"));
}

#[test]
fn rename_lines_that_do_not_move_are_dropped() {
    assert_eq!(parse_git_name_status_rename("R100\ta.txt\ta.txt"), None);
    assert_eq!(parse_git_name_status_rename("R100\ta.txt"), None);
    assert_eq!(parse_git_name_status_rename("M\ta.txt\tb.txt"), None);
    assert_eq!(parse_jj_summary_rename("R a.txt"), None);
    assert_eq!(parse_jj_summary_rename("M a => b"), None);
    assert!(parse_jj_summary_renames("").is_empty());
}

#[test]
fn later_rename_line_replaces_earlier() {
    let renames = parse_jj_summary_renames("R a => c\nR b => c\n");
    assert_eq!(renames.get("c"), Some(&"b".to_string()));
    assert!(!renames.contains_value("a"));
}

#[test]
fn commit_output_must_be_one_hex_line() {
    let id = "0123456789abcdef0123456789ABCDEF01234567";
    assert_eq!(commit_from_log_output(&format!("{id}\n")), Some(id.to_string()));
    assert_eq!(commit_from_log_output(&format!("\n  {id}  \n\n")), Some(id.to_string()));
    assert_eq!(commit_from_log_output(""), None);
    assert_eq!(commit_from_log_output(&format!("{id}\n{id}\n")), None);
    assert_eq!(commit_from_log_output("0123456789abcdef"), None);
    assert_eq!(
        commit_from_log_output("0123456789abcdef0123456789abcdef0123456g"),
        None
    );
    assert!(check_commit_id(id));
    assert!(!check_commit_id("xyz"));
}

#[test]
fn numstat_lines() {
    assert_eq!(
        parse_numstat_line("3\t1\tsrc/a.rs"),
        Some(("src/a.rs".to_string(), (3, 1)))
    );
    assert_eq!(parse_numstat_line("-\t-\timage.png"), None);
    assert_eq!(parse_numstat_line("3\t1"), None);
    let stats = parse_numstat("3\t1\ta.rs\n-\t-\tb.png\n10\t0\tc.rs\n");
    assert_eq!(stats.get("a.rs"), Some(&(3, 1)));
    assert_eq!(stats.get("b.png"), None);
    assert_eq!(stats.get("c.rs"), Some(&(10, 0)));
}

#[test]
fn decimal_numbers() {
    assert_eq!(parse_u32("0"), Some(0));
    assert_eq!(parse_u32("+7"), Some(7));
    assert_eq!(parse_u32("4294967295"), Some(u32::MAX));
    assert_eq!(parse_u32("4294967296"), None);
    assert_eq!(parse_u32(""), None);
    assert_eq!(parse_u32("+"), None);
    assert_eq!(parse_u32("-1"), None);
    assert_eq!(parse_u32("1a"), None);
}

#[test]
fn text_primitives() {
    assert_eq!(lines_of("a\r\nb\n\nc\n"), vec!["a", "b", "", "c"]);
    assert_eq!(lines_of("a\r"), vec!["a\r"]);
    assert!(lines_of("").is_empty());
    assert_eq!(split_on("a\t\tb", '\t'), vec!["a", "", "b"]);
    assert_eq!(trim_str(" \t x y \u{3000}"), "x y");
}

#[test]
fn paths_compare_by_components() {
    assert!(same_path("src/a.rs", "src//a.rs"));
    assert!(same_path("src/./a.rs", "src/a.rs/"));
    assert!(!same_path("./a.rs", "a.rs"));
    assert!(!same_path("/a.rs", "a.rs"));
    assert!(!same_path("a.rs", "b.rs"));
    assert_eq!(path_components("/x/./y//"), vec!["/", "x", "y"]);
    assert_eq!(path_components("./x"), vec![".", "x"]);
    assert!(path_components("").is_empty());
}

#[test]
fn stats_and_renames_match_normalized_paths() {
    let stats = parse_numstat("1\t2\tsrc//a.rs\n");
    assert_eq!(stats.get("src/a.rs"), Some(&(1, 2)));
    let renames = parse_git_name_status_renames("R100\told//x.txt\tnew/./y.txt\n");
    assert_eq!(renames.get("new/y.txt"), Some(&"old//x.txt".to_string()));
    assert!(renames.contains_value("old/x.txt"));
    assert_eq!(parse_git_name_status_rename("R100\ta/b\ta//b"), None);
    assert_eq!(split_display_path("a/ => a"), ("a/".to_string(), "a".to_string()));
}
