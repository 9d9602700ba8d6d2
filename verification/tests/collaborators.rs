//! The pure rules around the collaborators: language handling, project
//! roots, version-control records, process names, logging, and the
//! number formatting they share.

use lsp_gateway::errors::LspError;
use lsp_gateway::git::{
    collect_changes, is_staged, is_unstaged, pull_outcome, push_outcome, short_commit_id,
    status_to_string, GitStatusFlags,
};
use lsp_gateway::lang::{
    get_recognized_languages, get_supported_languages, normalize_language, path_extension,
};
use lsp_gateway::logging::{log, log_error};
use lsp_gateway::procinfo::{is_shell, terminal_display_name};
use lsp_gateway::projects::{find_project_root, manifest_file_for, project_root_ancestors};
use lsp_gateway::text::{dec_string_i64, dec_string_u64};

#[test]
fn language_lists_are_fixed() {
    assert_eq!(get_supported_languages(), vec!["rust"]);
    assert_eq!(
        get_recognized_languages(),
        vec!["rust", "javascript", "typescript", "python"]
    );
}

#[test]
fn normalization_lowers_and_infers() {
    assert_eq!(normalize_language("RUST", "/a/b.py"), "rust");
    assert_eq!(normalize_language("unknown", "/a/b.py"), "python");
    assert_eq!(normalize_language("", "/a/b.ts"), "typescript");
    assert_eq!(normalize_language("unknown", "/a/b.js"), "javascript");
    assert_eq!(normalize_language("unknown", "/a/noext"), "unknown");
    assert_eq!(normalize_language("unknown", "/a/.hidden"), "unknown");
}

#[test]
fn extensions_follow_the_file_name() {
    assert_eq!(path_extension("/x/y.rs").as_deref(), Some("rs"));
    assert_eq!(path_extension("archive.tar.gz").as_deref(), Some("gz"));
    assert_eq!(path_extension("/x/.bashrc"), None);
    assert_eq!(path_extension("/x/noext"), None);
    assert_eq!(path_extension("trailing."), Some(String::new()));
}

#[test]
fn ancestors_run_nearest_first() {
    assert_eq!(
        project_root_ancestors("/a/b/c.rs"),
        vec!["/a/b", "/a", "/"]
    );
    assert!(project_root_ancestors("bare.rs").is_empty());
}

#[test]
fn project_root_is_the_nearest_marked_ancestor() {
    let marks = vec![false, true, true];
    let root = find_project_root("/a/b/c.rs", Some("rust"), &marks).unwrap();
    assert_eq!(root, "/a");

    let none = vec![false, false, false];
    let fallback = find_project_root("/a/b/c.rs", None, &none).unwrap();
    assert_eq!(fallback, "/a/b");
}

#[test]
fn unrecognized_language_is_rejected_for_roots() {
    let marks = vec![false, false, false];
    let r = find_project_root("/a/b/c.cob", Some("COBOL"), &marks);
    match r {
        Err(LspError::UnrecognizedLanguage { language }) => {
            assert_eq!(language, "COBOL");
            assert_eq!(
                LspError::UnrecognizedLanguage { language }.message(),
                "Can't recognize 'COBOL' Language. Recognized languages: rust, javascript, typescript, python"
            );
        }
        other => panic!("expected UnrecognizedLanguage, got {:?}", other),
    }
}

#[test]
fn generic_is_compared_as_given() {
    let marks = vec![false, false, false];
    // The literal "generic" skips the recognized-language check.
    let root = find_project_root("/a/b/c.x", Some("generic"), &marks).unwrap();
    assert_eq!(root, "/a/b");
    // Any other casing is an ordinary language name, and "generic" is
    // not in the recognized set.
    match find_project_root("/a/b/c.x", Some("Generic"), &marks) {
        Err(LspError::UnrecognizedLanguage { language }) => assert_eq!(language, "Generic"),
        other => panic!("expected UnrecognizedLanguage, got {:?}", other),
    }
}

#[test]
fn manifest_files_match_their_language() {
    assert_eq!(manifest_file_for("rust"), "Cargo.toml");
    assert_eq!(manifest_file_for("typescript"), "package.json");
    assert_eq!(manifest_file_for("python"), "pyproject.toml");
    assert_eq!(manifest_file_for("generic"), ".git");
}

fn flags() -> GitStatusFlags {
    GitStatusFlags {
        wt_new: false,
        wt_modified: false,
        wt_deleted: false,
        wt_renamed: false,
        wt_typechange: false,
        index_new: false,
        index_modified: false,
        index_deleted: false,
        index_renamed: false,
        index_typechange: false,
    }
}

#[test]
fn status_words_follow_the_flags() {
    let mut f = flags();
    f.wt_new = true;
    assert_eq!(status_to_string(&f), "added");
    let mut f = flags();
    f.index_modified = true;
    assert_eq!(status_to_string(&f), "modified");
    let mut f = flags();
    f.wt_deleted = true;
    assert_eq!(status_to_string(&f), "deleted");
    let mut f = flags();
    f.index_renamed = true;
    assert_eq!(status_to_string(&f), "renamed");
    assert_eq!(status_to_string(&flags()), "untracked");
}

#[test]
fn changes_are_sorted_into_staged_and_unstaged() {
    let mut staged_only = flags();
    staged_only.index_modified = true;
    let mut unstaged_only = flags();
    unstaged_only.wt_modified = true;
    let mut both = flags();
    both.index_new = true;
    both.wt_modified = true;

    assert!(is_staged(&staged_only) && !is_unstaged(&staged_only));
    assert!(!is_staged(&unstaged_only) && is_unstaged(&unstaged_only));

    let entries = vec![
        (String::from("a.rs"), staged_only),
        (String::from("b.rs"), unstaged_only),
        (String::from("c.rs"), both),
    ];
    let changes = collect_changes(&entries);
    let staged: Vec<&str> = changes.staged.iter().map(|f| f.path.as_str()).collect();
    let unstaged: Vec<&str> = changes.unstaged.iter().map(|f| f.path.as_str()).collect();
    assert_eq!(staged, vec!["a.rs", "c.rs"]);
    assert_eq!(unstaged, vec!["b.rs", "c.rs"]);
    assert!(changes.staged[1].unstaged);
    assert_eq!(changes.staged[0].status, "modified");
    assert_eq!(changes.unstaged[1].status, "added");
}

#[test]
fn commit_ids_are_abbreviated_to_seven() {
    assert_eq!(short_commit_id("0123456789abcdef"), "0123456");
}

#[test]
fn pull_outcomes_report_each_case() {
    let up_to_date = pull_outcome(true, 3, 5, Vec::new());
    assert!(up_to_date.success);
    assert_eq!(up_to_date.message, "Already up to date");
    assert_eq!(up_to_date.new_commits, 0);

    let conflicted = pull_outcome(false, 0, 5, vec![String::from("a.rs"), String::from("b.rs")]);
    assert!(!conflicted.success);
    assert_eq!(conflicted.message, "Merge conflicts in 2 files");
    assert_eq!(conflicted.conflicts.len(), 2);

    let fast_forward = pull_outcome(false, 0, 4, Vec::new());
    assert!(fast_forward.success);
    assert_eq!(fast_forward.message, "Fast-forward: 4 new commits");
    assert_eq!(fast_forward.new_commits, 4);

    let merged = pull_outcome(false, 2, 4, Vec::new());
    assert!(merged.success);
    assert_eq!(merged.message, "Merge completed: 4 new commits");
}

#[test]
fn push_outcomes_report_success_and_failure() {
    let ok = push_outcome(true, "", "origin", "main", 2);
    assert!(ok.success);
    assert_eq!(ok.message, "Successfully pushed to origin/main");
    assert_eq!(ok.pushed_commits, 2);

    let failed = push_outcome(false, "remote hung up", "origin", "main", 2);
    assert!(!failed.success);
    assert_eq!(failed.message, "remote hung up");
    assert_eq!(failed.pushed_commits, 0);
}

#[test]
fn terminal_names_look_through_shells() {
    assert!(is_shell("bash") && is_shell("zsh") && is_shell("sh"));
    assert!(!is_shell("vim"));
    assert_eq!(terminal_display_name(None, None), "bash");
    assert_eq!(
        terminal_display_name(Some(String::from("vim")), Some(String::from("child"))),
        "vim"
    );
    assert_eq!(
        terminal_display_name(Some(String::from("bash")), Some(String::from("cargo"))),
        "cargo"
    );
    assert_eq!(
        terminal_display_name(Some(String::from("zsh")), None),
        "zsh"
    );
}

#[test]
fn log_lines_name_the_component() {
    assert_eq!(log("gateway", "started"), "[gateway] started");
    assert_eq!(log_error("gateway", "boom"), "[gateway] ERROR: boom");
}

#[test]
fn decimal_rendering_is_exact() {
    assert_eq!(dec_string_u64(0), "0");
    assert_eq!(dec_string_u64(90210), "90210");
    assert_eq!(dec_string_i64(-32601), "-32601");
    assert_eq!(dec_string_i64(i64::MIN), "-9223372036854775808");
    assert_eq!(dec_string_u64(u64::MAX), "18446744073709551615");
}

#[test]
fn error_messages_are_rendered_for_every_variant() {
    assert_eq!(
        LspError::PathNotFound { path: String::from("/x") }.message(),
        "Specified path does not exist: /x"
    );
    assert_eq!(
        LspError::ProcessSpawnError { detail: String::from("oops") }.message(),
        "Failed to start language server process: oops"
    );
    assert_eq!(
        LspError::ConnectionDisconnected.message(),
        "No connection to language server"
    );
    assert_eq!(
        LspError::PortBindFailure { port: 9000 }.message(),
        "Cannot start WebSocket server on port 9000"
    );
    assert_eq!(
        LspError::ResponseParseError.message(),
        "Failed to parse response from language server"
    );
}
