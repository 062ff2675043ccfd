use nitro_agent::nitro::format::{escape_attr, html_escape, md_to_telegram_html, render_markdown, MdEvent, MdTag};

#[test]
fn plain_text_wraps_in_pre() {
    let result = md_to_telegram_html("hello world");
    assert!(result.contains("<pre>"));
    assert!(result.contains("hello world"));
}

#[test]
fn bold_converts() {
    let result = md_to_telegram_html("**bold text**");
    assert!(result.contains("<b>bold text</b>"));
}

#[test]
fn code_block_converts() {
    let result = md_to_telegram_html("```\nsome code\n```");
    assert!(result.contains("<pre>"));
    assert!(result.contains("some code"));
}

#[test]
fn inline_code_converts() {
    let result = md_to_telegram_html("use `foo()` here");
    assert!(result.contains("<code>foo()</code>"));
}

#[test]
fn empty_input() {
    assert_eq!(md_to_telegram_html(""), "(no output)");
}

#[test]
fn escapes_html_in_plain() {
    let result = md_to_telegram_html("<script>alert(1)</script>");
    assert!(!result.contains("<script>"));
    assert!(result.contains("&lt;script&gt;"));
}

#[test]
fn whitespace_only_is_no_output() {
    assert_eq!(md_to_telegram_html("  \n\t "), "(no output)");
}

#[test]
fn plain_text_exact_output() {
    assert_eq!(md_to_telegram_html("  a < b  "), "<pre>a &lt; b</pre>");
}

#[test]
fn bold_exact_output() {
    assert_eq!(md_to_telegram_html("**x** & y"), "<b>x</b> &amp; y");
}

#[test]
fn nested_list_is_indented() {
    let html = md_to_telegram_html("- a\n  - b\n\n**x**");
    assert!(html.contains("• a"));
    assert!(html.contains("  • b"));
}

#[test]
fn link_renders_with_escaped_href() {
    let html = md_to_telegram_html("[t](http://x.y/?a=1&b=\"2\")");
    assert!(html.contains("<a href=\"http://x.y/?a=1&amp;b=&quot;2&quot;\">t</a>"));
}

#[test]
fn render_events_directly() {
    let events = vec![
        MdEvent::Start(MdTag::Paragraph),
        MdEvent::Start(MdTag::Strong),
        MdEvent::Text("hi".to_string()),
        MdEvent::End(MdTag::Strong),
        MdEvent::Break,
        MdEvent::Code("x<y".to_string()),
        MdEvent::End(MdTag::Paragraph),
        MdEvent::Rule,
    ];
    assert_eq!(render_markdown("ignored", &events), "<b>hi</b>\n<code>x&lt;y</code>\n\n\n———");
}

#[test]
fn render_without_markdown_wraps_input() {
    let events = vec![
        MdEvent::Start(MdTag::Paragraph),
        MdEvent::Text("a&b".to_string()),
        MdEvent::End(MdTag::Paragraph),
    ];
    assert_eq!(render_markdown("a&b", &events), "<pre>a&amp;b</pre>");
}

#[test]
fn escape_functions_agree() {
    assert_eq!(html_escape("<a href=\"x\">&</a>"), "&lt;a href=&quot;x&quot;&gt;&amp;&lt;/a&gt;");
    assert_eq!(escape_attr("<a href=\"x\">&</a>"), html_escape("<a href=\"x\">&</a>"));
    assert_eq!(html_escape("plain"), "plain");
}

#[test]
fn list_alone_is_rendered() {
    assert_eq!(md_to_telegram_html("- a\n- b"), "\u{2022} a\n\u{2022} b");
}

const RENDERER_TAGS: [&str; 15] = [
    "<b>", "</b>", "<i>", "</i>", "<s>", "</s>", "<pre>", "</pre>", "<code>", "</code>",
    "<blockquote>", "</blockquote>", "<a href=\"", "\">", "</a>",
];

fn markup_only_in_tags(html: &str) -> bool {
    let chars: Vec<char> = html.chars().collect();
    let mut covered = vec![false; chars.len()];
    for tag in RENDERER_TAGS.iter() {
        let t: Vec<char> = tag.chars().collect();
        for p in 0..chars.len() {
            if p + t.len() <= chars.len() && chars[p..p + t.len()] == t[..] {
                for c in covered.iter_mut().skip(p).take(t.len()) {
                    *c = true;
                }
            }
        }
    }
    chars
        .iter()
        .zip(covered.iter())
        .all(|(c, ok)| !matches!(c, '<' | '>' | '"') || *ok)
}

#[test]
fn hostile_markup_stays_inside_tags() {
    let inputs = [
        "**x</b><script>alert(1)</script>** and `a<b>c`",
        "[click](http://e.com/?q=\"><img src=x>) <i>raw</i>",
        "<pre>not a block</pre> plain \"quoted\"",
        "> quote with <blockquote> inside\n\n- item <b>\n- other",
        "no markdown but <tags> and \"quotes\"",
    ];
    for md in inputs.iter() {
        let html = md_to_telegram_html(md);
        assert!(markup_only_in_tags(&html), "{html}");
    }
    assert!(!markup_only_in_tags("<b>ok</b> <script>"));
    let html = md_to_telegram_html("[x](http://e.com/?a=\"1\")");
    assert!(!html.contains("=\"1"));
    assert!(html.contains("&quot;1&quot;"));
}

#[test]
fn escaping_keeps_texts_apart() {
    assert_eq!(html_escape("&lt;"), "&amp;lt;");
    assert_eq!(html_escape("<"), "&lt;");
    assert_ne!(html_escape("<"), html_escape("&lt;"));
    assert_ne!(html_escape("a\"b"), html_escape("a&quot;b"));
}
