use book_writer_chat::html::{escape_html, escape_html_attr, render_reader_shell_html};

#[test]
fn escapes_markup_characters() {
    assert_eq!(escape_html("<a href=\"x\">&'"), "&lt;a href=&quot;x&quot;&gt;&amp;&#39;");
    assert_eq!(escape_html_attr("a\"b<c>&'"), "a&quot;b&lt;c&gt;&amp;'");
}

#[test]
fn reader_shell_escapes_its_inputs() {
    let html = render_reader_shell_html("tok", "<Title>", "Sub", Some("rev-1"), "<p>x</p>", None);
    assert!(html.contains("&lt;Title&gt;"));
    assert!(html.contains("<p>x</p>"));
    assert!(!html.contains("<Title>"));
}
