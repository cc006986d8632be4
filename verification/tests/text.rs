use regex_replace::error::{render_reply, EngineError};
use regex_replace::files::{collect_files, GlobEntry};
use regex_replace::params::{ReplaceParams, SearchParams, DEFAULT_LIMIT};
use regex_replace::pattern::Pattern;
use regex_replace::text::{chars_of, push_decimal, same_text, split_lines, string_from, trim};

#[test]
fn chars_of_gives_the_characters() {
    assert_eq!(chars_of("aé$"), vec!['a', 'é', '$']);
    assert!(chars_of("").is_empty());
}

#[test]
fn string_from_takes_a_range() {
    let chars = vec!['a', 'b', 'c', 'd'];
    assert_eq!(string_from(&chars, 1, 3), "bc");
    assert_eq!(string_from(&chars, 2, 2), "");
    assert_eq!(string_from(&chars, 0, 4), "abcd");
}

#[test]
fn split_lines_splits_at_line_feeds() {
    assert_eq!(split_lines("a\nb\nc"), vec!["a", "b", "c"]);
    assert_eq!(split_lines("a\nb\n"), vec!["a", "b"]);
    assert_eq!(split_lines("a\n\nb"), vec!["a", "", "b"]);
    assert_eq!(split_lines("\n"), vec![""]);
    assert_eq!(split_lines("\n\n"), vec!["", ""]);
    assert!(split_lines("").is_empty());
    assert_eq!(split_lines("single"), vec!["single"]);
}

#[test]
fn split_lines_drops_a_carriage_return_before_a_line_feed() {
    assert_eq!(split_lines("a\r\nb\r\n"), vec!["a", "b"]);
    assert_eq!(split_lines("a\r\r\nb"), vec!["a\r", "b"]);
    assert_eq!(split_lines("a\rb\n"), vec!["a\rb"]);
    // A carriage return that ends the text is part of the last line.
    assert_eq!(split_lines("a\nb\r"), vec!["a", "b\r"]);
    assert_eq!(split_lines("\r\n"), vec![""]);
    assert_eq!(split_lines("\r"), vec!["\r"]);
}

#[test]
fn split_lines_agrees_with_the_lines_of_a_string() {
    for text in ["", "a", "a\n", "a\r\n", "\r\n\r\n", "a\r", "x\n\ny\r\n\rz\r", "é\n", "\n\r\n\r"] {
        let expected: Vec<String> = text.lines().map(|l| l.to_string()).collect();
        assert_eq!(split_lines(text), expected);
    }
}

#[test]
fn trim_removes_white_space_at_both_ends() {
    assert_eq!(trim("  hello world \t"), "hello world");
    assert_eq!(trim("hello"), "hello");
    assert_eq!(trim(""), "");
    assert_eq!(trim(" \t\r\n"), "");
    assert_eq!(trim("a b"), "a b");
    assert_eq!(trim("\u{a0}\u{3000}x\u{2003}\u{85}"), "x");
    assert_eq!(trim("\u{200b}x"), "\u{200b}x");
}

#[test]
fn trim_agrees_with_the_trim_of_a_string() {
    for code in 0u32..0x3100 {
        if let Some(c) = char::from_u32(code) {
            let text = format!("{}a{}", c, c);
            assert_eq!(trim(&text), text.trim());
        }
    }
}

#[test]
fn push_decimal_writes_the_numeral() {
    let mut out = String::from("n=");
    push_decimal(&mut out, 0);
    assert_eq!(out, "n=0");
    let mut out = String::new();
    push_decimal(&mut out, 7);
    push_decimal(&mut out, 10);
    push_decimal(&mut out, 1234567890);
    assert_eq!(out, "7101234567890");
    let mut out = String::new();
    push_decimal(&mut out, u128::MAX);
    assert_eq!(out, "340282366920938463463374607431768211455");
}

#[test]
fn pattern_answers_as_the_regex_engine_does() {
    let pattern = Pattern::new(r"(\w+)@(\w+)").unwrap();
    assert!(pattern.is_match("mail bob@example now"));
    assert!(!pattern.is_match("no address here"));
    assert_eq!(pattern.count_matches("a@b c@d e"), 2);
    assert_eq!(pattern.count_matches("none"), 0);
    assert_eq!(pattern.replace_all("a@b c@d e", "${2}@${1}"), "b@a d@c e");
    assert_eq!(pattern.replace_all("none", "${2}@${1}"), "none");
    assert_eq!(pattern.as_str(), r"(\w+)@(\w+)");
    assert!(Pattern::new("foo(bar").is_none());
    assert!(Pattern::new(r"\w{1000}").is_none());
}

#[test]
fn params_have_their_defaults() {
    let replace = ReplaceParams {
        pattern: "a".to_string(),
        replacement: "b".to_string(),
        files: "*".to_string(),
        dry_run: None,
    };
    assert!(!replace.dry_run_or_default());
    let dry = ReplaceParams { dry_run: Some(true), ..replace };
    assert!(dry.dry_run_or_default());
    let search = SearchParams { pattern: "a".to_string(), files: "*".to_string(), limit: None };
    assert_eq!(search.limit_or_default(), 50);
    assert_eq!(DEFAULT_LIMIT, 50);
    let limited = SearchParams { limit: Some(3), ..search };
    assert_eq!(limited.limit_or_default(), 3);
}

#[test]
fn errors_have_their_messages() {
    assert_eq!(EngineError::InvalidPattern.message(), "Invalid regex pattern");
    assert_eq!(EngineError::InvalidGlob.message(), "Invalid glob pattern");
    assert_eq!(
        EngineError::WriteFailed { path: "\"/tmp/x.txt\"".to_string() }.message(),
        "Failed to write \"/tmp/x.txt\""
    );
    assert_eq!(render_reply(Ok("fine".to_string())), "fine");
    assert_eq!(render_reply(Err(EngineError::InvalidGlob)), "Error: Invalid glob pattern");
    assert_eq!(
        render_reply(Err(EngineError::WriteFailed { path: "\"a\"".to_string() })),
        "Error: Failed to write \"a\""
    );
}

#[test]
fn collect_files_keeps_plain_files_in_order() {
    let entries = vec![
        GlobEntry::Found { path: "b.txt", is_file: true },
        GlobEntry::Found { path: "dir", is_file: false },
        GlobEntry::Failed { message: "attempting to read `x` resulted in an error: denied".to_string() },
        GlobEntry::Found { path: "a.txt", is_file: true },
    ];
    let set = collect_files(entries);
    assert_eq!(set.files, vec!["b.txt", "a.txt"]);
    assert_eq!(
        set.warnings,
        vec!["Glob error: attempting to read `x` resulted in an error: denied"]
    );
}

#[test]
fn collect_files_of_nothing_is_empty() {
    let set = collect_files(Vec::<GlobEntry<String>>::new());
    assert!(set.files.is_empty());
    assert!(set.warnings.is_empty());
    let only_dirs = collect_files(vec![GlobEntry::Found { path: 1u8, is_file: false }]);
    assert!(only_dirs.files.is_empty());
}

#[test]
fn same_text_compares_the_characters() {
    assert!(same_text("", ""));
    assert!(same_text("aé", "aé"));
    assert!(!same_text("a", "b"));
    assert!(!same_text("a", "a "));
    assert!(!same_text("", "a"));
}
