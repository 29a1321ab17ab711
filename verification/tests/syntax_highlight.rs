use ronin::syntax_highlight::{
    finish_highlight, highlight_code, line_from_ranges, lines_with_endings, plain_lines,
    syntax_alias, ColorScheme, HighlightedLine, HighlightedSpan,
};

const DARK_FG: (u8, u8, u8) = (0xcd, 0xd6, 0xf4);
const LIGHT_FG: (u8, u8, u8) = (0x4c, 0x4f, 0x69);

fn texts(line: &HighlightedLine) -> String {
    line.spans.iter().map(|s| s.text.as_str()).collect()
}

#[test]
fn no_language_gives_plain_lines() {
    let lines = highlight_code(None, "a\nb\n", ColorScheme::Dark);
    assert_eq!(lines.len(), 3);
    assert_eq!(lines[0].spans, vec![HighlightedSpan { text: "a".into(), rgb: DARK_FG }]);
    assert_eq!(lines[2].spans, vec![HighlightedSpan { text: String::new(), rgb: DARK_FG }]);
    let blank = highlight_code(Some("   "), "x", ColorScheme::Light);
    assert_eq!(blank, plain_lines("x", LIGHT_FG));
}

#[test]
fn unknown_language_falls_back_to_plain() {
    let lines = highlight_code(Some("nosuchlang"), "let x = 1;", ColorScheme::Dark);
    assert_eq!(lines, plain_lines("let x = 1;", DARK_FG));
}

#[test]
fn rust_code_is_tokenized_and_keeps_its_text() {
    let src = "fn main() {}\nlet x = 1;\n";
    let lines = highlight_code(Some(" rust "), src, ColorScheme::Dark);
    assert_eq!(lines.len(), 3);
    assert_eq!(texts(&lines[0]), "fn main() {}");
    assert_eq!(texts(&lines[1]), "let x = 1;");
    assert!(lines[0].spans.len() > 1);
    assert_eq!(lines[2].spans, vec![HighlightedSpan { text: String::new(), rgb: DARK_FG }]);
}

#[test]
fn aliases_map_fence_languages_to_syntax_names() {
    assert_eq!(syntax_alias("rs"), "Rust");
    assert_eq!(syntax_alias("c++"), "C++");
    assert_eq!(syntax_alias("yml"), "YAML");
    assert_eq!(syntax_alias("zig"), "zig");
}

#[test]
fn lines_keep_their_newlines() {
    assert_eq!(lines_with_endings("a\nb"), vec!["a\n".to_string(), "b".to_string()]);
    assert_eq!(lines_with_endings("a\n"), vec!["a\n".to_string()]);
    assert!(lines_with_endings("").is_empty());
}

#[test]
fn ranges_drop_line_endings_and_empty_pieces() {
    let red = (255, 0, 0);
    let line = line_from_ranges(
        &[(red, "fn".to_string()), (DARK_FG, String::new()), (red, " x\r\n".to_string())],
        DARK_FG,
    );
    assert_eq!(
        line.spans,
        vec![
            HighlightedSpan { text: "fn".into(), rgb: red },
            HighlightedSpan { text: " x".into(), rgb: red },
        ]
    );
    let empty = line_from_ranges(&[(red, "\n".to_string())], LIGHT_FG);
    assert_eq!(empty.spans, vec![HighlightedSpan { text: String::new(), rgb: LIGHT_FG }]);
}

#[test]
fn finish_adds_trailing_empty_line_after_final_newline() {
    let red = (255, 0, 0);
    let raw = vec![vec![(red, "x\n".to_string())]];
    let lines = finish_highlight(Some(raw), "x\n", ColorScheme::Light);
    assert_eq!(lines.len(), 2);
    assert_eq!(lines[0].spans, vec![HighlightedSpan { text: "x".into(), rgb: red }]);
    assert_eq!(lines[1].spans, vec![HighlightedSpan { text: String::new(), rgb: LIGHT_FG }]);
    assert_eq!(finish_highlight(None, "q", ColorScheme::Dark), plain_lines("q", DARK_FG));
}

#[test]
fn dark_and_light_schemes_use_their_own_themes() {
    let src = "fn main() { let x = 1; }";
    let dark = highlight_code(Some("rust"), src, ColorScheme::Dark);
    let light = highlight_code(Some("rust"), src, ColorScheme::Light);
    assert_eq!(texts(&dark[0]), src);
    assert_eq!(texts(&light[0]), src);
    assert_ne!(dark, light);
}
