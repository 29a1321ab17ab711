use ronin::completions::file_completion_prefix;
use ronin::completions::{path_probe_targets, split_path_prefix};
use ronin::completions::completion_dir_prefix;
use ronin::completions::select_path_completions;
use ronin::completions::{
    artifact_completion_prefix, command_completion, file_path_completion_active,
    filter_artifact_completions, filter_memory_completions, memory_completion_prefix,
    token_before_cursor,
};

#[test]
fn command_completion_should_suggest_file_command_for_at_prefix() {
    let text = "hello @fi";
    let result = command_completion(text, text.len());
    assert_eq!(
        result,
        Some(("@file:".to_string(), "Attach file".to_string(), 6, 9))
    );
}

#[test]
fn command_completion_should_return_none_without_at_token() {
    let text = "hello world";
    assert_eq!(command_completion(text, text.len()), None);
}

#[test]
fn command_completion_should_return_none_when_command_fully_typed() {
    let text = "@clipboard";
    assert_eq!(command_completion(text, text.len()), None);
}

#[test]
fn filter_memory_completions_should_match_id_prefix_and_title_substring() {
    let memories = vec![
        ("abc123".to_string(), "Coffee preferences".to_string()),
        ("def456".to_string(), "Work notes".to_string()),
    ];
    let matches = filter_memory_completions("coffee", memories);
    assert_eq!(matches.len(), 1);
    assert_eq!(matches[0].0, "abc123");
}

#[test]
fn command_completion_should_suggest_artifact_command() {
    let text = "see @art";
    let result = command_completion(text, text.len());
    assert_eq!(
        result,
        Some((
            "@artifact:".to_string(),
            "Attach artifact".to_string(),
            4,
            8
        ))
    );
}

#[test]
fn command_completion_should_suggest_screenshot_command() {
    let text = "look @screen";
    let result = command_completion(text, text.len());
    assert_eq!(
        result,
        Some((
            "@screenshot".to_string(),
            "Capture screenshot".to_string(),
            5,
            12
        ))
    );
}

#[test]
fn artifact_completion_prefix_should_extract_typed_prefix() {
    let text = "use @artifact:ref";
    assert_eq!(artifact_completion_prefix(text, text.len()), Some("ref"));
}

#[test]
fn filter_artifact_completions_should_match_panel_list_by_id_or_title() {
    let artifacts = vec![
        ("art-aaa".to_string(), "API client".to_string()),
        ("art-bbb".to_string(), "UI mock".to_string()),
    ];
    let by_title = filter_artifact_completions("api", artifacts.clone());
    assert_eq!(by_title.len(), 1);
    assert_eq!(by_title[0].0, "art-aaa");

    let by_id = filter_artifact_completions("art-b", artifacts);
    assert_eq!(by_id.len(), 1);
    assert_eq!(by_id[0].0, "art-bbb");
}

#[test]
fn token_before_cursor_should_return_last_whitespace_delimited_token() {
    let text = "one two three";
    let (start, token) = token_before_cursor(text, text.len());
    assert_eq!(start, 8);
    assert_eq!(token, "three");
}

#[test]
fn token_before_cursor_counts_bytes_of_multibyte_chars() {
    let text = "héllo wörld";
    let (start, token) = token_before_cursor(text, text.len());
    assert_eq!(start, 7);
    assert_eq!(token, "wörld");
    let (start, token) = token_before_cursor(text, 6);
    assert_eq!(start, 0);
    assert_eq!(token, "héllo");
}

#[test]
fn token_before_cursor_clamps_cursor_past_end() {
    let (start, token) = token_before_cursor("ab cd", 99);
    assert_eq!((start, token), (3, "cd"));
    let (start, token) = token_before_cursor("", 0);
    assert_eq!((start, token), (0, ""));
}

#[test]
fn command_completion_matches_case_insensitively_and_ends_at_the_token() {
    let text = "x @MEM";
    assert_eq!(
        command_completion(text, 100),
        Some(("@memory:".to_string(), "Attach memory".to_string(), 2, 6))
    );
    assert_eq!(
        command_completion("@", 1),
        Some(("@file:".to_string(), "Attach file".to_string(), 0, 1))
    );
}

#[test]
fn memory_prefix_and_file_token_detection() {
    assert_eq!(memory_completion_prefix("a @memory:co", 12), Some("co"));
    assert_eq!(memory_completion_prefix("a @mem", 6), None);
    assert!(file_path_completion_active("@file:/tmp", 10));
    assert!(!file_path_completion_active("@fil", 4));
}

#[test]
fn filter_memory_completions_keeps_at_most_eight_in_order() {
    let items: Vec<(String, String)> = (0..12)
        .map(|i| (format!("id{i}"), format!("Note {i}")))
        .collect();
    let out = filter_memory_completions("id", items);
    assert_eq!(out.len(), 8);
    assert_eq!(out[0].0, "id0");
    assert_eq!(out[7].0, "id7");
}

#[test]
fn file_completion_prefix_strips_command_and_quotes() {
    let t = "see @file:src/ma";
    assert_eq!(file_completion_prefix(t, t.len()), Some("src/ma".to_string()));
    let q = "@file:\"abc\"\"";
    assert_eq!(file_completion_prefix(q, q.len()), Some("abc".to_string()));
    assert_eq!(file_completion_prefix("plain words", 11), None);
}

#[test]
fn split_path_prefix_follows_directory_probes() {
    assert_eq!(
        path_probe_targets("src/ma", "/home/u"),
        vec!["src/ma", "/home/u/src/ma", "src", "/home/u/src"]
    );
    let s = |p: &str, d: [bool; 4]| split_path_prefix(p, "/home/u", "/cwd", &d);
    assert_eq!(s("src/ma", [false, false, true, false]), ("src".into(), "ma".into()));
    assert_eq!(s("src/ma", [false, false, false, true]), ("/home/u/src".into(), "ma".into()));
    assert_eq!(s("src/ma", [false; 4]), ("src".into(), "ma".into()));
    assert_eq!(s("ma", [false; 4]), ("/cwd".into(), "ma".into()));
    assert_eq!(s("/etc/pa", [false; 4]), ("/etc".into(), "pa".into()));
    assert_eq!(s("docs/", [true, false, false, false]), ("docs/".into(), String::new()));
    assert_eq!(s("docs/", [false, true, false, false]), ("/home/u/docs/".into(), String::new()));
    assert_eq!(s("docs/", [false; 4]), ("/home/u".into(), "docs".into()));
    assert_eq!(s("", [false; 4]), ("/home/u".into(), String::new()));
    assert_eq!(s("/", [false; 4]), ("/home/u".into(), String::new()));
}

#[test]
fn completion_dir_prefix_ends_in_a_slash() {
    assert_eq!(completion_dir_prefix("src/ma", "/home/u", false), "src/");
    assert_eq!(completion_dir_prefix("ma", "/home/u", false), "/home/u/");
    assert_eq!(completion_dir_prefix("docs", "/home/u", true), "docs/");
    assert_eq!(completion_dir_prefix("/", "/home/u", false), "/home/u/");
    assert_eq!(completion_dir_prefix("a/", "/home/u", false), "a/");
    assert_eq!(completion_dir_prefix("", "/home/u", false), "/home/u/");
}

#[test]
fn path_completions_list_directories_first_then_by_name() {
    let entries: Vec<(String, bool)> = vec![
        ("b.txt".into(), false),
        ("A".into(), true),
        ("a.md".into(), false),
        (".".into(), true),
        ("..".into(), true),
        ("c".into(), true),
    ];
    assert_eq!(select_path_completions(&entries, ""), vec!["A/", "c/", "a.md", "b.txt"]);
    assert_eq!(select_path_completions(&entries, "a"), vec!["A/", "a.md"]);
    let many: Vec<(String, bool)> = (0..10).rev().map(|i| (format!("f{i}"), false)).collect();
    assert_eq!(
        select_path_completions(&many, "F"),
        vec!["f0", "f1", "f2", "f3", "f4", "f5", "f6", "f7"]
    );
}

#[test]
fn command_completion_token_end_is_clamped_to_text() {
    assert_eq!(
        command_completion("@fi", 10),
        Some(("@file:".to_string(), "Attach file".to_string(), 0, 3))
    );
}

#[test]
fn token_starts_after_multi_byte_whitespace() {
    let text = "a\u{3000}@fi";
    assert_eq!(token_before_cursor(text, text.len()), (4, "@fi"));
    assert_eq!(
        command_completion(text, text.len()),
        Some(("@file:".to_string(), "Attach file".to_string(), 4, 7))
    );
    let nb = "x\u{a0}@memory:ab";
    assert_eq!(memory_completion_prefix(nb, nb.len()), Some("ab"));
}
