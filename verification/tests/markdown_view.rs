use ronin::markdown::Inline;
use ronin::markdown_view::styled_text_parts;
use ronin::markdown_view::{split_long_word, with_wrap_breaks};

#[test]
fn split_long_word_should_return_word_unchanged_when_short() {
    assert_eq!(split_long_word("hello", 40), vec!["hello"]);
}

#[test]
fn split_long_word_should_chunk_when_exceeding_max() {
    let word = "a".repeat(100);
    let chunks = split_long_word(&word, 40);
    assert_eq!(chunks.len(), 3);
    assert_eq!(chunks[0].len(), 40);
    assert_eq!(chunks[1].len(), 40);
    assert_eq!(chunks[2].len(), 20);
}

#[test]
fn split_long_word_should_respect_utf8_boundaries() {
    let word = "é".repeat(50);
    let chunks = split_long_word(&word, 40);
    assert_eq!(chunks.len(), 2);
    assert_eq!(chunks[0].chars().count(), 40);
    assert_eq!(chunks[1].chars().count(), 10);
}

#[test]
fn with_wrap_breaks_should_insert_zwsp_when_word_exceeds_max() {
    let word = "a".repeat(50);
    let broken = with_wrap_breaks(&word);
    assert!(broken.contains('\u{200B}'));
    assert_eq!(broken.chars().filter(|ch| *ch != '\u{200B}').count(), 50);
}

#[test]
fn split_long_word_with_zero_max_starts_with_an_empty_chunk() {
    assert_eq!(split_long_word("ab", 0), vec!["", "ab"]);
}

#[test]
fn with_wrap_breaks_keeps_whitespace_and_short_words() {
    let text = format!("hi {}\tok", "b".repeat(45));
    let broken = with_wrap_breaks(&text);
    assert_eq!(broken, format!("hi {}\u{200B}{}\tok", "b".repeat(40), "b".repeat(5)));
}

#[test]
fn styled_text_parts_should_cover_utf8_bytes_when_marks_present() {
    let inlines = vec![
        Inline::Text("Hello ".to_string()),
        Inline::Strong(vec![Inline::Text("world".to_string())]),
        Inline::Text(" ".to_string()),
        Inline::Code("x".to_string()),
        Inline::Text(" ".to_string()),
        Inline::Emphasis(vec![Inline::Text("y".to_string())]),
        Inline::Text(" ".to_string()),
        Inline::Link {
            text: vec![Inline::Text("z".to_string())],
            href: "https://example.com".to_string(),
        },
    ];
    let (text, runs) = styled_text_parts(&inlines, 400);
    assert_eq!(text, "Hello world x y z");
    assert_eq!(runs.iter().map(|run| run.len).sum::<usize>(), text.len());
    assert!(runs.iter().any(|run| run.style.underline));
    assert!(runs.iter().any(|run| run.style.italic));
    assert!(runs.iter().any(|run| run.style.monospace));
}

#[test]
fn styled_runs_merge_adjacent_pieces_of_one_style() {
    let inlines = vec![
        Inline::Text("ab".to_string()),
        Inline::Text("é".to_string()),
        Inline::Strong(vec![
            Inline::Text("c".to_string()),
            Inline::Emphasis(vec![Inline::Text("d".to_string())]),
        ]),
        Inline::Text(String::new()),
    ];
    let (text, runs) = styled_text_parts(&inlines, 400);
    assert_eq!(text, "abécd");
    assert_eq!(runs.len(), 3);
    assert_eq!(runs[0].len, 4);
    assert_eq!(runs[0].style.weight, 400);
    assert_eq!(runs[1].len, 1);
    assert_eq!(runs[1].style.weight, 700);
    assert!(!runs[1].style.italic);
    assert!(runs[2].style.italic && runs[2].style.weight == 700);
}

#[test]
fn wrap_breaks_leave_the_visible_text_unchanged() {
    let text = format!("short {} end\tx", "é".repeat(45));
    let broken = with_wrap_breaks(&text);
    assert_eq!(broken.matches('\u{200B}').count(), 1);
    let visible: String = broken.chars().filter(|c| *c != '\u{200B}').collect();
    assert_eq!(visible, text);
}

#[test]
fn long_word_chunks_rejoin() {
    let word = "abcdefghij".repeat(9);
    let chunks = split_long_word(&word, 40);
    assert_eq!(chunks.concat(), word);
    assert!(chunks.iter().all(|c| c.chars().count() <= 40));
    assert_eq!(chunks.len(), 3);
}
