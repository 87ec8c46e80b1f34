use kestrel::telegram_format::{markdown_to_html, markdown_to_telegram, strip_markdown};

#[test]
fn test_bold_and_italic_conversion() {
    let formatted = markdown_to_telegram("**bold** and *italic*").unwrap();
    assert_eq!(formatted, "*bold* and _italic_");
}

#[test]
fn test_code_block_preserved_without_escaping() {
    let formatted = markdown_to_telegram("Before\n```let x = a_b;```\nAfter").unwrap();
    assert_eq!(formatted, "Before\n`let x = a_b;`\nAfter");
}

#[test]
fn test_special_character_escaping() {
    let formatted = markdown_to_telegram("_*[]()~>#+-=|{}.!").unwrap();
    assert_eq!(
        formatted,
        "\\_\\*\\[\\]\\(\\)\\~\\>\\#\\+\\-\\=\\|\\{\\}\\.\\!"
    );
}

#[test]
fn test_invalid_input_falls_back() {
    assert!(markdown_to_telegram("[broken](https://example.com").is_none());
    assert!(markdown_to_telegram("```unterminated").is_none());
}

#[test]
fn test_header_conversion() {
    let formatted = markdown_to_telegram("## Heading").unwrap();
    assert_eq!(formatted, "*Heading*");
}

#[test]
fn test_list_marker_conversion() {
    let formatted = markdown_to_telegram("- item").unwrap();
    assert_eq!(formatted, "• item");
}

#[test]
fn test_mixed_content_conversion() {
    let formatted =
        markdown_to_telegram("**Title** uses `code` and [link](https://example.com/a)").unwrap();
    assert_eq!(
        formatted,
        "*Title* uses `code` and [link](https://example.com/a)"
    );
}

#[test]
fn test_multiline_fenced_code_block_stays_fenced() {
    let formatted = markdown_to_telegram("```rust\nlet x = 1;\nlet y = x + 1;\n```").unwrap();
    assert_eq!(formatted, "```rust\nlet x = 1;\nlet y = x + 1;\n```");
}

#[test]
fn test_html_bold_and_italic() {
    let html = markdown_to_html("**bold** and *italic*");
    assert_eq!(html, "<b>bold</b> and <i>italic</i>");
}

#[test]
fn test_html_code_block() {
    let html = markdown_to_html("```rust\nlet x = 1;\n```");
    assert!(html.contains("<pre><code"));
    assert!(html.contains("let x = 1;"));
}

#[test]
fn test_html_inline_code() {
    let html = markdown_to_html("Use `git status` to check");
    assert_eq!(html, "Use <code>git status</code> to check");
}

#[test]
fn test_html_header() {
    let html = markdown_to_html("## My Heading\nNext line");
    assert!(html.starts_with("<b>My Heading</b>"));
}

#[test]
fn test_html_link() {
    let html = markdown_to_html("[click here](https://example.com)");
    assert_eq!(html, r#"<a href="https://example.com">click here</a>"#);
}

#[test]
fn test_html_escapes_special() {
    let html = markdown_to_html("a < b > c & d");
    assert_eq!(html, "a &lt; b &gt; c &amp; d");
}

#[test]
fn test_html_table_content_preserved() {
    let html = markdown_to_html("| col1 | col2 |");
    assert!(html.contains("col1"));
    assert!(html.contains("col2"));
}

#[test]
fn test_strip_bold_italic() {
    assert_eq!(strip_markdown("**bold** and *italic*"), "bold and italic");
}

#[test]
fn test_strip_code() {
    assert_eq!(strip_markdown("Use `code` here"), "Use code here");
}

#[test]
fn test_strip_header() {
    assert_eq!(strip_markdown("## Heading"), "Heading");
}

#[test]
fn test_strip_link() {
    assert_eq!(strip_markdown("[text](https://example.com)"), "text");
}

#[test]
fn test_strip_code_block() {
    assert_eq!(
        strip_markdown("```rust\nlet x = 1;\n```"),
        "rust\nlet x = 1;\n"
    );
}

// ── further cases ──

#[test]
fn markdown_v2_html_code_block_with_language_class() {
    assert_eq!(
        markdown_to_html("```rust\nlet x = 1;\n```"),
        "<pre><code class=\"language-rust\">let x = 1;</code></pre>"
    );
}

#[test]
fn markdown_v2_inline_code_with_newline_is_rejected() {
    assert!(markdown_to_telegram("a `b\nc` d").is_none());
}

#[test]
fn markdown_v2_bad_language_tag_is_rejected() {
    assert!(markdown_to_telegram("```not a tag\nx```").is_none());
}

#[test]
fn markdown_v2_link_with_parenthesis_in_url() {
    assert_eq!(
        markdown_to_telegram("[a](b(c)d)").unwrap(),
        "[a](b(c\\)d)"
    );
}

#[test]
fn markdown_v2_empty_input() {
    assert_eq!(markdown_to_telegram("").unwrap(), "");
    assert_eq!(markdown_to_html(""), "");
    assert_eq!(strip_markdown(""), "");
}

#[test]
fn strip_markdown_link_text_runs_to_first_close() {
    assert_eq!(strip_markdown("[a] and [b](c)"), "a] and [b");
}

#[test]
fn stripped_text_has_no_markers() {
    let s = strip_markdown("**bold** *it* `code` ```block``` [x*y](u) ~~s~~");
    assert!(!s.contains('*'));
    assert!(!s.contains('`'));
}

#[test]
fn html_list_markers_become_bullets() {
    assert_eq!(markdown_to_html("- item"), "\u{2022} item");
    assert_eq!(markdown_to_html("a\n- b\n- c"), "a\n\u{2022} b\n\u{2022} c");
    assert_eq!(markdown_to_html("x - y"), "x - y");
}

#[test]
fn html_header_keeps_one_newline() {
    assert_eq!(markdown_to_html("## My Heading\nNext line"), "<b>My Heading</b>\nNext line");
}
