use takeoff::markdown::{collapse_events, render_markdown, MdEvent};
use takeoff::syntax_highlighting::highlight_code;

#[test]
fn paragraph_renders_exactly() {
    assert_eq!(render_markdown("hello"), "<p>hello</p>\n");
}

#[test]
fn heading_renders_exactly() {
    assert_eq!(render_markdown("# Hi"), "<h1>Hi</h1>\n");
}

#[test]
fn fenced_code_block_is_wrapped_and_highlighted() {
    let html = render_markdown("```rust\nlet x = 1;\n```\n");
    assert!(html.contains("<pre class=\"language-rust\"><code>"));
    assert!(html.contains("</code></pre>"));
    // The highlighter classified something: the content is not verbatim.
    assert!(html.contains("<span"));
}

#[test]
fn unknown_language_token_falls_back_to_plain_text() {
    let html = render_markdown("```zzznotalanguage\nsome text\n```\n");
    assert!(html.contains("<pre class=\"language-zzznotalanguage\"><code>"));
    assert!(html.contains("some text"));
}

#[test]
fn unknown_tokens_highlight_as_plain_text() {
    let plain = highlight_code("some text\n", "");
    let unknown = highlight_code("some text\n", "zzznotalanguage");
    assert_eq!(plain, unknown);
}

#[test]
fn highlighting_transforms_its_input() {
    let source = "fn main() { let x = 1; }\n";
    let highlighted = highlight_code(source, "rs");
    assert_ne!(highlighted, source);
    assert!(highlighted.contains("<span"));
}

#[test]
fn split_text_events_highlight_as_one_unit() {
    let split = vec![
        MdEvent::CodeStart { language: "rust".to_string() },
        MdEvent::Text { text: "let x".to_string() },
        MdEvent::Text { text: " = 1;\n".to_string() },
        MdEvent::CodeEnd,
    ];
    let joined = vec![
        MdEvent::CodeStart { language: "rust".to_string() },
        MdEvent::Text { text: "let x = 1;\n".to_string() },
        MdEvent::CodeEnd,
    ];
    assert_eq!(collapse_events(split), collapse_events(joined));
}

#[test]
fn events_outside_code_blocks_pass_through_in_order() {
    let html = render_markdown("before\n\n```\ncode\n```\n\nafter\n");
    let before = html.find("<p>before</p>").unwrap();
    let pre = html.find("<pre class=\"language-\"><code>").unwrap();
    let after = html.find("<p>after</p>").unwrap();
    assert!(before < pre);
    assert!(pre < after);
}

#[test]
fn text_outside_code_blocks_is_kept() {
    let collapsed = collapse_events(vec![MdEvent::Text { text: "plain".to_string() }]);
    assert_eq!(collapsed, vec![MdEvent::Text { text: "plain".to_string() }]);
}

#[test]
fn indented_code_blocks_pass_through_unhighlighted() {
    assert_eq!(
        render_markdown("    code\n"),
        "<pre><code>code\n</code></pre>\n"
    );
}

#[test]
fn json_grammar_is_resolved_by_token() {
    let highlighted = highlight_code("{\"a\": 1}\n", "JSON");
    assert!(highlighted.contains("<span"));
}
