use ronin::markdown::{markdown_blocks, parse_markdown, Inline, ListItem, MarkdownBlock, MdEvent};

#[test]
fn parse_plain_paragraph() {
    let text = "Hello world";
    let blocks = parse_markdown(text);
    assert_eq!(
        blocks,
        vec![MarkdownBlock::Paragraph(vec![Inline::Text(
            "Hello world".to_string()
        )])]
    );
}

#[test]
fn parse_paragraph_with_inline_code() {
    let text = "Here is `some code` inline.";
    let blocks = parse_markdown(text);
    assert_eq!(
        blocks,
        vec![MarkdownBlock::Paragraph(vec![
            Inline::Text("Here is ".to_string()),
            Inline::Code("some code".to_string()),
            Inline::Text(" inline.".to_string()),
        ])]
    );
}

#[test]
fn parse_fenced_code_block() {
    let text = "```rust\nfn main() {}\n```";
    let blocks = parse_markdown(text);
    assert_eq!(
        blocks,
        vec![MarkdownBlock::CodeBlock {
            language: Some("rust".to_string()),
            content: "fn main() {}\n".to_string(),
        }]
    );
}

#[test]
fn parse_bullet_list() {
    let text = "- Item 1\n- Item 2";
    let blocks = parse_markdown(text);
    assert_eq!(
        blocks,
        vec![MarkdownBlock::List(vec![
            ListItem {
                inlines: vec![Inline::Text("Item 1".to_string())],
            },
            ListItem {
                inlines: vec![Inline::Text("Item 2".to_string())],
            },
        ])]
    );
}

#[test]
fn parse_markdown_should_emit_heading_when_atx() {
    let cases = [
        ("# Title", 1, "Title"),
        ("## Sub", 2, "Sub"),
        ("### Small", 3, "Small"),
    ];
    for (src, level, title) in cases {
        assert_eq!(
            parse_markdown(src),
            vec![MarkdownBlock::Heading {
                level,
                inlines: vec![Inline::Text(title.to_string())],
            }],
            "{src}"
        );
    }
}

#[test]
fn parse_markdown_should_clamp_heading_level_when_deeper_than_three() {
    let blocks = parse_markdown("#### Deep");
    assert_eq!(
        blocks,
        vec![MarkdownBlock::Heading {
            level: 3,
            inlines: vec![Inline::Text("Deep".to_string())],
        }]
    );
}

#[test]
fn parse_markdown_should_emit_strong_and_emphasis_when_marked() {
    let blocks = parse_markdown("**bold** and *italic*");
    assert_eq!(
        blocks,
        vec![MarkdownBlock::Paragraph(vec![
            Inline::Strong(vec![Inline::Text("bold".to_string())]),
            Inline::Text(" and ".to_string()),
            Inline::Emphasis(vec![Inline::Text("italic".to_string())]),
        ])]
    );
}

#[test]
fn parse_markdown_should_emit_link_when_inline_link() {
    let blocks = parse_markdown("[links](url)");
    assert_eq!(
        blocks,
        vec![MarkdownBlock::Paragraph(vec![Inline::Link {
            text: vec![Inline::Text("links".to_string())],
            href: "url".to_string(),
        }])]
    );
}

#[test]
fn markdown_blocks_folds_nested_marks_inside_a_link() {
    let events = vec![
        MdEvent::StartParagraph,
        MdEvent::StartLink("u".to_string()),
        MdEvent::StartStrong,
        MdEvent::Text("a".to_string()),
        MdEvent::EndStrong,
        MdEvent::EndLink,
        MdEvent::EndParagraph,
    ];
    assert_eq!(
        markdown_blocks(&events),
        vec![MarkdownBlock::Paragraph(vec![Inline::Link {
            text: vec![Inline::Strong(vec![Inline::Text("a".to_string())])],
            href: "u".to_string(),
        }])]
    );
}

#[test]
fn markdown_blocks_drops_empty_fence_language_and_flattens_open_marks() {
    let events = vec![
        MdEvent::StartCodeBlock(Some(String::new())),
        MdEvent::Text("x\n".to_string()),
        MdEvent::EndCodeBlock,
        MdEvent::StartParagraph,
        MdEvent::StartEmphasis,
        MdEvent::Text("open".to_string()),
        MdEvent::EndParagraph,
    ];
    assert_eq!(
        markdown_blocks(&events),
        vec![
            MarkdownBlock::CodeBlock {
                language: None,
                content: "x\n".to_string(),
            },
            MarkdownBlock::Paragraph(vec![Inline::Text("open".to_string())]),
        ]
    );
}

#[test]
fn parse_markdown_indented_code_has_no_language() {
    let blocks = parse_markdown("    let x = 1;\n");
    assert_eq!(
        blocks,
        vec![MarkdownBlock::CodeBlock {
            language: None,
            content: "let x = 1;\n".to_string(),
        }]
    );
}

#[test]
fn parsed_blocks_clone_equal() {
    let blocks = parse_markdown("# T\n\nSome **bold _x_** and [l](u)\n\n- a\n- `b`\n\n```rs\nfn f() {}\n```\n");
    let copy = blocks.clone();
    assert_eq!(copy, blocks);
}
