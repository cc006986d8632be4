use regex_replace::error::{render_reply, EngineError};
use regex_replace::files::FileEntry;
use regex_replace::params::ReplaceParams;
use regex_replace::replace::{do_replace, ReplaceRun};

fn text_file(name: &str, content: &str) -> FileEntry {
    FileEntry {
        path: format!("/tmp/work/{}", name),
        quoted: format!("\"/tmp/work/{}\"", name),
        read: Ok(content.to_string()),
    }
}

#[test]
fn test_replace_with_capture_groups() {
    let files = vec![text_file("test.txt", "fn hello() {}\nfn world() {}")];

    let outcome = do_replace(
        &ReplaceParams {
            pattern: r"fn (\w+)\(\)".to_string(),
            replacement: "fn $1_v2()".to_string(),
            files: "/tmp/work/*.txt".to_string(),
            dry_run: Some(false),
        },
        &files,
    )
    .unwrap();
    let result = outcome.report;

    assert!(result.contains("2 replacements"));

    let content = outcome.writes[0].clone().unwrap();
    assert!(content.contains("fn hello_v2()"));
    assert!(content.contains("fn world_v2()"));
    assert_eq!(content, "fn hello_v2() {}\nfn world_v2() {}");
}

#[test]
fn test_replace_preserves_dollar_variables() {
    let files = vec![text_file(
        "test.php",
        "$page = intval(array_get($request->get, 'p', 1));",
    )];

    let outcome = do_replace(
        &ReplaceParams {
            pattern: r"intval\(array_get\(\$request->get, '([^']+)', (\d+)\)\)".to_string(),
            replacement: "$request->get->getInt('$1', $2)".to_string(),
            files: "/tmp/work/*.php".to_string(),
            dry_run: Some(false),
        },
        &files,
    )
    .unwrap();
    let result = outcome.report;

    assert!(result.contains("1 replacement"));

    let content = outcome.writes[0].clone().unwrap();
    assert_eq!(content, "$page = $request->get->getInt('p', 1);");
}

#[test]
fn test_replace_dry_run() {
    let files = vec![text_file("test.txt", "hello world")];

    let outcome = do_replace(
        &ReplaceParams {
            pattern: "hello".to_string(),
            replacement: "goodbye".to_string(),
            files: "/tmp/work/*.txt".to_string(),
            dry_run: Some(true),
        },
        &files,
    )
    .unwrap();

    assert!(outcome.report.contains("(dry run)"));

    // File should be unchanged
    assert_eq!(outcome.writes, vec![None]);
    assert_eq!(files[0].read, Ok("hello world".to_string()));
}

#[test]
fn replace_report_has_the_exact_shape() {
    let files = vec![
        text_file("a.txt", "fn hello() {}\nlet x = 1;\nfn world() {} fn again() {}\n"),
        text_file("b.txt", "no functions here"),
        text_file("c.txt", "fn last()"),
    ];
    let outcome = do_replace(
        &ReplaceParams {
            pattern: r"fn (\w+)\(\)".to_string(),
            replacement: "fn $1_v2()".to_string(),
            files: "*".to_string(),
            dry_run: None,
        },
        &files,
    )
    .unwrap();
    assert_eq!(
        outcome.report,
        "--- /tmp/work/a.txt\n\
         1:- fn hello() {}\n\
         1:+ fn hello_v2() {}\n\
         3:- fn world() {} fn again() {}\n\
         3:+ fn world_v2() {} fn again_v2() {}\n\
         --- /tmp/work/c.txt\n\
         1:- fn last()\n\
         1:+ fn last_v2()\n\
         Total: 4 replacements in 2 files"
    );
    assert_eq!(
        outcome.writes,
        vec![
            Some("fn hello_v2() {}\nlet x = 1;\nfn world_v2() {} fn again_v2() {}\n".to_string()),
            None,
            Some("fn last_v2()".to_string()),
        ]
    );
}

#[test]
fn replace_counts_one_replacement_in_one_file() {
    let files = vec![text_file("a.txt", "hello world")];
    let outcome = do_replace(
        &ReplaceParams {
            pattern: "hello".to_string(),
            replacement: "goodbye".to_string(),
            files: "*".to_string(),
            dry_run: Some(true),
        },
        &files,
    )
    .unwrap();
    assert_eq!(
        outcome.report,
        "--- /tmp/work/a.txt\n1:- hello world\n1:+ goodbye world\nTotal: 1 replacement in 1 file (dry run)"
    );
}

#[test]
fn replace_with_no_match_changes_nothing() {
    let files = vec![text_file("a.txt", "hello world"), text_file("b.txt", "foo\nbar\n")];
    let outcome = do_replace(
        &ReplaceParams {
            pattern: "xyz".to_string(),
            replacement: "abc".to_string(),
            files: "*".to_string(),
            dry_run: None,
        },
        &files,
    )
    .unwrap();
    assert_eq!(outcome.report, "No matches found.");
    assert_eq!(outcome.writes, vec![None, None]);
}

#[test]
fn replace_twice_modifies_nothing_the_second_time() {
    let params = ReplaceParams {
        pattern: "hello".to_string(),
        replacement: "goodbye".to_string(),
        files: "*".to_string(),
        dry_run: None,
    };
    let files = vec![text_file("a.txt", "hello world"), text_file("b.txt", "other")];
    let first = do_replace(&params, &files).unwrap();
    assert!(first.report.ends_with("\nTotal: 1 replacement in 1 file"));
    let left: Vec<FileEntry> = files
        .into_iter()
        .zip(first.writes)
        .map(|(file, write)| match write {
            Some(text) => FileEntry { read: Ok(text), ..file },
            None => file,
        })
        .collect();
    assert_eq!(left[0].read, Ok("goodbye world".to_string()));
    let second = do_replace(&params, &left).unwrap();
    assert_eq!(second.report, "No matches found.");
    assert_eq!(second.writes, vec![None, None]);
}

#[test]
fn replace_dry_run_writes_nothing_whatever_is_found() {
    let files = vec![
        text_file("a.txt", "aaa"),
        text_file("b.txt", "bab\nabba"),
        text_file("c.txt", "ccc"),
    ];
    let outcome = do_replace(
        &ReplaceParams {
            pattern: "a".to_string(),
            replacement: "x".to_string(),
            files: "*".to_string(),
            dry_run: Some(true),
        },
        &files,
    )
    .unwrap();
    assert_eq!(outcome.writes, vec![None, None, None]);
    assert!(outcome.report.ends_with("\nTotal: 6 replacements in 2 files (dry run)"));
}

#[test]
fn replace_without_files_reports_an_empty_set() {
    let files: Vec<FileEntry> = Vec::new();
    let outcome = do_replace(
        &ReplaceParams {
            pattern: "test".to_string(),
            replacement: "x".to_string(),
            files: "/tmp/work/*.xyz".to_string(),
            dry_run: None,
        },
        &files,
    )
    .unwrap();
    assert_eq!(outcome.report, "No files matched the glob pattern.");
    assert!(outcome.writes.is_empty());
}

#[test]
fn replace_rejects_an_invalid_pattern() {
    let files = vec![text_file("a.txt", "hello")];
    let result = do_replace(
        &ReplaceParams {
            pattern: "foo(bar".to_string(),
            replacement: "x".to_string(),
            files: "*".to_string(),
            dry_run: None,
        },
        &files,
    );
    assert!(matches!(result, Err(EngineError::InvalidPattern)));
    assert_eq!(
        render_reply(result.map(|outcome| outcome.report)),
        "Error: Invalid regex pattern"
    );
}

#[test]
fn replace_notes_unreadable_files() {
    let files = vec![
        FileEntry {
            path: "bad.bin".to_string(),
            quoted: "\"bad.bin\"".to_string(),
            read: Err("stream did not contain valid UTF-8".to_string()),
        },
        text_file("a.txt", "hello"),
    ];
    let outcome = do_replace(
        &ReplaceParams {
            pattern: "hello".to_string(),
            replacement: "bye".to_string(),
            files: "*".to_string(),
            dry_run: None,
        },
        &files,
    )
    .unwrap();
    assert_eq!(
        outcome.report,
        "Skipping \"bad.bin\": stream did not contain valid UTF-8\n\
         --- /tmp/work/a.txt\n1:- hello\n1:+ bye\nTotal: 1 replacement in 1 file"
    );
    assert_eq!(outcome.writes, vec![None, Some("bye".to_string())]);

    // Where no file changed the note is not shown.
    let unchanged = do_replace(
        &ReplaceParams {
            pattern: "xyz".to_string(),
            replacement: "bye".to_string(),
            files: "*".to_string(),
            dry_run: None,
        },
        &files,
    )
    .unwrap();
    assert_eq!(unchanged.report, "No matches found.");
}

#[test]
fn replace_counts_matches_not_lines() {
    // Three matches on one line: one pair of listing lines, three
    // replacements.
    let files = vec![text_file("a.txt", "a a a\nb")];
    let outcome = do_replace(
        &ReplaceParams {
            pattern: "a".to_string(),
            replacement: "c".to_string(),
            files: "*".to_string(),
            dry_run: None,
        },
        &files,
    )
    .unwrap();
    assert_eq!(
        outcome.report,
        "--- /tmp/work/a.txt\n1:- a a a\n1:+ c c c\nTotal: 3 replacements in 1 file"
    );
}

#[test]
fn replace_that_gives_the_same_text_counts_for_nothing() {
    let files = vec![text_file("a.txt", "hello")];
    let outcome = do_replace(
        &ReplaceParams {
            pattern: "hello".to_string(),
            replacement: "hello".to_string(),
            files: "*".to_string(),
            dry_run: None,
        },
        &files,
    )
    .unwrap();
    assert_eq!(outcome.report, "No matches found.");
    assert_eq!(outcome.writes, vec![None]);
}

#[test]
fn replace_across_lines_lists_only_lines_that_match_alone() {
    // The content is substituted as a whole, the listing goes line by line.
    let files = vec![text_file("a.txt", "ab\ncd\n")];
    let outcome = do_replace(
        &ReplaceParams {
            pattern: r"b\nc".to_string(),
            replacement: "-".to_string(),
            files: "*".to_string(),
            dry_run: None,
        },
        &files,
    )
    .unwrap();
    assert_eq!(outcome.writes, vec![Some("a-d\n".to_string())]);
    assert_eq!(outcome.report, "--- /tmp/work/a.txt\nTotal: 1 replacement in 1 file");
}

#[test]
fn replace_keeps_literal_dollars_and_expands_groups() {
    let files = vec![text_file("a.php", "get(a, 7)")];
    let outcome = do_replace(
        &ReplaceParams {
            pattern: r"get\((\w+), (\d+)\)".to_string(),
            replacement: "$request->get($1, $2) costs $$5 or 5$".to_string(),
            files: "*".to_string(),
            dry_run: None,
        },
        &files,
    )
    .unwrap();
    assert_eq!(
        outcome.writes,
        vec![Some("$request->get(a, 7) costs $5 or 5$".to_string())]
    );
}

#[test]
fn replace_run_file_by_file() {
    let params = ReplaceParams {
        pattern: "o".to_string(),
        replacement: "0".to_string(),
        files: "*".to_string(),
        dry_run: None,
    };
    let mut run = ReplaceRun::start(&params).unwrap();
    assert!(!run.dry_run());
    assert_eq!(run.files_modified(), 0);
    assert_eq!(run.process("one", "foo"), Some("f00".to_string()));
    assert_eq!(run.process("two", "bar"), None);
    run.skip_unreadable("\"three\"", "permission denied");
    assert_eq!(run.files_modified(), 1);
    assert_eq!(
        run.finish(),
        "--- one\n1:- foo\n1:+ f00\nSkipping \"three\": permission denied\nTotal: 2 replacements in 1 file"
    );
}

#[test]
fn replace_run_without_files_reports_an_empty_set() {
    let params = ReplaceParams {
        pattern: "o".to_string(),
        replacement: "0".to_string(),
        files: "*".to_string(),
        dry_run: Some(true),
    };
    let run = ReplaceRun::start(&params).unwrap();
    assert!(run.dry_run());
    assert_eq!(run.finish(), "No files matched the glob pattern.");
}

#[test]
fn record_file_builds_the_block_from_what_was_found() {
    let params = ReplaceParams {
        pattern: "a".to_string(),
        replacement: "b".to_string(),
        files: "*".to_string(),
        dry_run: None,
    };
    let mut run = ReplaceRun::start(&params).unwrap();
    // Two matches on one line: one pair of listing lines, a total of 2.
    let lines = vec![
        ("a-a".to_string(), true, "b-b".to_string()),
        ("c".to_string(), false, "c".to_string()),
        ("".to_string(), true, "x".to_string()),
    ];
    let write = run.record_file("p.txt", "a-a\nc\n\n", "b-b\nc\nx\n".to_string(), 2, &lines);
    assert_eq!(write, Some("b-b\nc\nx\n".to_string()));
    assert_eq!(run.files_modified(), 1);
    assert_eq!(
        run.finish(),
        "--- p.txt\n1:- a-a\n1:+ b-b\n3:- \n3:+ x\nTotal: 2 replacements in 1 file"
    );
}

#[test]
fn record_file_with_the_same_content_counts_for_nothing() {
    let params = ReplaceParams {
        pattern: "a".to_string(),
        replacement: "b".to_string(),
        files: "*".to_string(),
        dry_run: None,
    };
    let mut run = ReplaceRun::start(&params).unwrap();
    let lines = vec![("a".to_string(), true, "a".to_string())];
    // The count and the lines of a file that did not change are not looked at.
    assert_eq!(run.record_file("p.txt", "a", "a".to_string(), 5, &lines), None);
    assert_eq!(run.files_modified(), 0);
    assert_eq!(run.finish(), "No matches found.");
}

#[test]
fn record_file_in_a_dry_run_reports_and_writes_nothing() {
    let params = ReplaceParams {
        pattern: "a".to_string(),
        replacement: "b".to_string(),
        files: "*".to_string(),
        dry_run: Some(true),
    };
    let mut run = ReplaceRun::start(&params).unwrap();
    let lines = vec![("a".to_string(), true, "b".to_string())];
    assert_eq!(run.record_file("one", "a", "b".to_string(), 1, &lines), None);
    assert_eq!(run.record_file("two", "a", "b".to_string(), 1, &lines), None);
    assert_eq!(
        run.finish(),
        "--- one\n1:- a\n1:+ b\n--- two\n1:- a\n1:+ b\nTotal: 2 replacements in 2 files (dry run)"
    );
}
