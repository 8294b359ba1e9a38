use ctb_core::formatting::code;
use ctb_core::formatting::convert_markdown_to_html;
use ctb_core::formatting::escape_html;
use ctb_core::formatting::format_tool_status;
use ctb_core::formatting::shorten_path;
use ctb_core::formatting::truncate_one_line;
use ctb_core::formatting::ToolInput;

#[test]
fn escapes_html() {
    let s = r#"<a href="x&y">"#;
    assert_eq!(escape_html(s), "&lt;a href=&quot;x&amp;y&quot;&gt;");
}

#[test]
fn converts_code_blocks_without_touching_contents() {
    let md = "hi\n```js\nconst x = '<b>';\n```\nbye";
    let html = convert_markdown_to_html(md);
    assert!(html.contains("<pre>"));
    assert!(html.contains("const x = '&lt;b&gt;';"));
    assert!(!html.contains("<b>"));
}

#[test]
fn converts_blockquotes_multiline() {
    let md = "> hello\n> world\nok";
    let html = convert_markdown_to_html(md);
    assert!(html.contains("<blockquote>hello\nworld</blockquote>"));
    assert!(html.contains("ok"));
}

#[test]
fn converts_links() {
    let md = "[x](https://example.com)";
    let html = convert_markdown_to_html(md);
    assert_eq!(html, r#"<a href="https://example.com">x</a>"#);
}

#[test]
fn converts_headers_and_bullets() {
    let md = "# Title\n- item\n* other";
    let html = convert_markdown_to_html(md);
    assert!(html.contains("<b>Title</b>"));
    assert!(html.contains("\u{2022} item"));
    assert!(html.contains("\u{2022} other"));
}

#[test]
fn converts_emphasis() {
    assert_eq!(convert_markdown_to_html("a **bold** b"), "a <b>bold</b> b");
    assert_eq!(convert_markdown_to_html("a _it_ b"), "a <i>it</i> b");
    assert_eq!(convert_markdown_to_html("a *bold* b"), "a <b>bold</b> b");
}

#[test]
fn removes_horizontal_rules_and_collapses_newlines() {
    let md = "a\n---\nb\n\n\n\nc";
    let html = convert_markdown_to_html(md);
    assert_eq!(html, "a\nb\n\nc");
}

#[test]
fn inline_code_is_escaped_and_wrapped() {
    let html = convert_markdown_to_html("use `a < b` here");
    assert_eq!(html, "use <code>a &lt; b</code> here");
}

#[test]
fn emphasis_markers_inside_code_stay_literal() {
    assert_eq!(
        convert_markdown_to_html("`**x**`"),
        "<code>**x**</code>"
    );
    assert_eq!(
        convert_markdown_to_html("```
_not italic_
```"),
        "<pre>_not italic_\n</pre>"
    );
}

#[test]
fn conversion_is_deterministic() {
    let md = "# T\n`code` **x** [l](u)\n> q";
    assert_eq!(convert_markdown_to_html(md), convert_markdown_to_html(md));
}

#[test]
fn tool_status_read_image() {
    let mut ti = ToolInput {
        file_path: "/tmp/a.png".to_string(),
        command: String::new(),
        description: String::new(),
        pattern: String::new(),
        path: String::new(),
        query: String::new(),
        url: String::new(),
    };
    assert_eq!(format_tool_status("Read", &ti), "\u{1F440} Viewing");
    ti.file_path = "/srv/dir/file.txt".to_string();
    let s = format_tool_status("Read", &ti);
    assert_eq!(s, "\u{1F4D6} Reading <code>dir/file.txt</code>");
}

#[test]
fn tool_status_write_and_bash() {
    let ti = ToolInput {
        file_path: "/tmp/x.txt".to_string(),
        command: "echo hi".to_string(),
        description: String::new(),
        pattern: String::new(),
        path: String::new(),
        query: String::new(),
        url: String::new(),
    };
    let w = format_tool_status("Write", &ti);
    assert_eq!(w, "\u{1F4DD} Writing <code>tmp/x.txt</code>");
    let b = format_tool_status("Bash", &ti);
    assert_eq!(b, "\u{25B6}\u{FE0F} <code>echo hi</code>");
}

#[test]
fn shorten_path_keeps_last_two_components() {
    assert_eq!(shorten_path("/a/b/c/d.txt"), "c/d.txt");
    assert_eq!(shorten_path("file.txt"), "file.txt");
    assert_eq!(shorten_path(""), "file");
}

#[test]
fn truncate_one_line_flattens_and_cuts() {
    assert_eq!(truncate_one_line("a\nb", 50), "a b");
    assert_eq!(truncate_one_line("  hi  ", 50), "hi");
    assert_eq!(truncate_one_line("abcdef", 3), "abc...");
}

#[test]
fn code_wraps_and_escapes() {
    assert_eq!(code("a<b"), "<code>a&lt;b</code>");
}
