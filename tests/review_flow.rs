use smartass::filter::{build_ignore_filter, IgnoreFilter};
use smartass::review::{
    generate_diff, plan_diff, review_request, NO_CHANGES_MESSAGE, REVIEW_INSTRUCTION, REVIEW_MAX_TOKENS,
};
use smartass::vcs::{
    change_list_args, diff_args, get_change_files, get_diff, parse_changed_files, CommandOutput,
    VcsOperation,
};

fn strings(items: &[&str]) -> Vec<String> {
    items.iter().map(|s| s.to_string()).collect()
}

fn ok_output(stdout: &str) -> CommandOutput {
    CommandOutput { success: true, code: Some(0), stdout: stdout.to_string(), stderr: String::new() }
}

fn failed_output(code: Option<i32>, stderr: &str) -> CommandOutput {
    CommandOutput { success: false, code, stdout: String::new(), stderr: stderr.to_string() }
}

fn filter_from(text: Option<&str>) -> IgnoreFilter {
    let setup = build_ignore_filter("/repo", text);
    assert!(setup.build_error.is_none());
    setup.filter
}

#[test]
fn parse_splits_trims_and_drops_blank_lines() {
    let files = parse_changed_files("  src/a.rs \n\n\tb.txt\r\n   \nc.md");
    assert_eq!(files, strings(&["src/a.rs", "b.txt", "c.md"]));
}

#[test]
fn parse_of_empty_output_is_empty() {
    assert!(parse_changed_files("").is_empty());
    assert!(parse_changed_files("\n \n\t\n").is_empty());
}

#[test]
fn parse_trims_unicode_white_space() {
    let files = parse_changed_files("\u{3000}docs/guide.md\u{a0}\n\u{2003}x\u{85}");
    assert_eq!(files, strings(&["docs/guide.md", "x"]));
}

#[test]
fn parse_keeps_order_and_duplicates() {
    let files = parse_changed_files("z\na\nz\n");
    assert_eq!(files, strings(&["z", "a", "z"]));
}

#[test]
fn change_list_arguments() {
    assert_eq!(
        change_list_args("main", "feature"),
        strings(&["--no-pager", "diff", "--no-color", "--name-only", "main", "feature"])
    );
}

#[test]
fn diff_arguments_end_with_the_files() {
    let files = strings(&["README.md", "src/lib.rs"]);
    assert_eq!(
        diff_args("v1", "v2", &files),
        strings(&["--no-pager", "diff", "--no-color", "v1", "v2", "--", "README.md", "src/lib.rs"])
    );
}

#[test]
fn failed_listing_carries_stderr_and_code() {
    let out = failed_output(Some(128), "fatal: bad revision 'nope'\n");
    match get_change_files(&out) {
        Err(e) => {
            assert!(e.operation == VcsOperation::ListChanges);
            assert_eq!(e.code, 128);
            assert_eq!(e.stderr, "fatal: bad revision 'nope'\n");
        }
        Ok(_) => panic!("a failed listing must be an error"),
    }
}

#[test]
fn failed_run_without_code_reports_zero() {
    let out = failed_output(None, "killed");
    match get_diff(&out) {
        Err(e) => {
            assert!(e.operation == VcsOperation::RenderDiff);
            assert_eq!(e.code, 0);
            assert_eq!(e.stderr, "killed");
        }
        Ok(_) => panic!("a failed diff must be an error"),
    }
}

#[test]
fn successful_diff_is_verbatim() {
    let text = "diff --git a/x b/x\n+added\n";
    match get_diff(&ok_output(text)) {
        Ok(d) => assert_eq!(d, text),
        Err(_) => panic!("a successful diff must be returned"),
    }
}

#[test]
fn identical_revisions_give_no_changes() {
    let filter = filter_from(None);
    let listing = ok_output("");
    match generate_diff("v1", "v1", &listing, &filter) {
        Ok(None) => {}
        _ => panic!("an empty listing must plan no diff"),
    }
    assert_eq!(NO_CHANGES_MESSAGE, "no changes detected!");
}

#[test]
fn ignored_file_is_left_out_of_the_diff() {
    let filter = filter_from(Some("secret.env\n"));
    let listing = ok_output("README.md\nsecret.env\n");
    match generate_diff("v1", "v2", &listing, &filter) {
        Ok(Some(req)) => {
            assert_eq!(req.files, strings(&["README.md"]));
            assert_eq!(
                req.args,
                strings(&["--no-pager", "diff", "--no-color", "v1", "v2", "--", "README.md"])
            );
        }
        _ => panic!("a diff of README.md must be planned"),
    }
}

#[test]
fn changes_only_in_ignored_paths_give_no_changes() {
    let filter = filter_from(Some("*.env\nbuild/\n"));
    let listing = ok_output("secret.env\nprod.env\n");
    match generate_diff("a", "b", &listing, &filter) {
        Ok(None) => {}
        _ => panic!("only ignored files changed"),
    }
}

#[test]
fn failed_listing_stops_the_review() {
    let filter = filter_from(None);
    let listing = failed_output(Some(1), "error: unknown revision");
    match generate_diff("a", "b", &listing, &filter) {
        Err(e) => {
            assert_eq!(e.code, 1);
            assert_eq!(e.stderr, "error: unknown revision");
        }
        Ok(_) => panic!("a failed listing must be an error"),
    }
}

#[test]
fn absent_ignore_file_excludes_nothing() {
    let setup = build_ignore_filter("/repo", None);
    assert!(setup.build_error.is_none());
    assert!(setup.refused.is_empty());
    let files = strings(&["README.md", "secret.env", ".git/config"]);
    assert_eq!(setup.filter.filter_files(&files), files);
    assert!(!setup.filter.matches("secret.env", false));
}

#[test]
fn filter_matches_globs_and_keeps_order() {
    let filter = filter_from(Some("# comment\n*.log\n/target\n"));
    assert!(filter.matches("debug.log", false));
    assert!(filter.matches("deep/dir/trace.log", false));
    assert!(filter.matches("target", false));
    assert!(!filter.matches("src/main.rs", false));
    let files = strings(&["a.log", "src/main.rs", "target", "b.rs"]);
    assert_eq!(filter.filter_files(&files), strings(&["src/main.rs", "b.rs"]));
}

#[test]
fn directory_only_pattern_needs_a_directory() {
    let filter = filter_from(Some("build/\n"));
    assert!(filter.matches("build", true));
    assert!(!filter.matches("build", false));
}

#[test]
fn whitelisted_path_is_kept() {
    let filter = filter_from(Some("*.md\n!KEEP.md\n"));
    assert!(!filter.matches("KEEP.md", false));
    assert!(filter.matches("notes.md", false));
    assert!(!filter.matches("main.rs", false));
}

#[test]
fn whitelisted_change_is_still_diffed() {
    let filter = filter_from(Some("*.md\n!README.md\n"));
    let listing = ok_output("README.md\nCHANGES.md\n");
    match generate_diff("v1", "v2", &listing, &filter) {
        Ok(Some(req)) => {
            assert_eq!(req.files, strings(&["README.md"]));
            assert_eq!(
                req.args,
                strings(&["--no-pager", "diff", "--no-color", "v1", "v2", "--", "README.md"])
            );
        }
        _ => panic!("a diff of README.md must be planned"),
    }
}

#[test]
fn comments_and_blank_lines_exclude_nothing() {
    let setup = build_ignore_filter("./repo", Some("# nothing here\n\n   \n#*.rs\n"));
    assert!(setup.build_error.is_none());
    assert!(setup.refused.is_empty());
    let files = strings(&["a.rs", "# nothing here", "b.md"]);
    assert_eq!(setup.filter.filter_files(&files), files);
}

#[test]
fn trailing_white_space_of_a_pattern_is_dropped() {
    let filter = filter_from(Some("secret.env   \t\n"));
    assert!(filter.matches("secret.env", false));
    assert!(!filter.matches("secret.env   ", false));
}

#[test]
fn empty_file_list_plans_no_diff() {
    assert!(plan_diff("a", "b", Vec::new()).is_none());
    match plan_diff("a", "b", strings(&["x.rs"])) {
        Some(req) => {
            assert_eq!(req.files, strings(&["x.rs"]));
            assert_eq!(req.args, strings(&["--no-pager", "diff", "--no-color", "a", "b", "--", "x.rs"]));
        }
        None => panic!("a non-empty list must plan a diff"),
    }
}

#[test]
fn refused_pattern_is_reported_and_others_kept() {
    let setup = build_ignore_filter("/repo", Some("*.tmp\n{a,b\nsecret.env"));
    assert!(setup.build_error.is_none());
    assert_eq!(setup.refused.len(), 1);
    assert_eq!(setup.refused[0].line_number, 2);
    assert!(!setup.refused[0].message.is_empty());
    assert!(setup.filter.matches("x.tmp", false));
    assert!(setup.filter.matches("secret.env", false));
}

#[test]
fn crlf_and_byte_order_mark_are_handled() {
    let filter = filter_from(Some("\u{feff}secret.env\r\n*.bak\r\n"));
    assert!(filter.matches("secret.env", false));
    assert!(filter.matches("old.bak", false));
    assert!(!filter.matches("README.md", false));
}

#[test]
fn review_request_passes_the_diff_verbatim() {
    let diff = "diff --git a/README.md b/README.md\n-old\n+new\n".to_string();
    let req = review_request(diff.clone());
    assert_eq!(req.message, diff);
    assert_eq!(req.max_tokens, REVIEW_MAX_TOKENS);
    assert_eq!(req.max_tokens, 1024);
    assert_eq!(req.system, REVIEW_INSTRUCTION);
    assert!(req.system.starts_with("Generate a short code review"));
}
