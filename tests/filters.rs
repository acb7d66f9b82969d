use protodoc::filters::{page_file_name, render_multiline_comment};

#[test]
fn render_multiline_comments() {
    assert_eq!(render_multiline_comment("foo\nbar"), "//foo\n//bar");
}

#[test]
fn multiline_comment_drops_final_line_ending() {
    assert_eq!(render_multiline_comment(" one\r\n two\n"), "// one\n// two");
}

#[test]
fn multiline_comment_keeps_empty_inner_lines() {
    assert_eq!(render_multiline_comment("a\n\nb"), "//a\n//\n//b");
}

#[test]
fn multiline_comment_of_empty_text() {
    assert_eq!(render_multiline_comment(""), "");
}

#[test]
fn page_name_replaces_slashes() {
    assert_eq!(page_file_name("a/b/c.proto"), "a.b.c.proto.md");
    assert_eq!(page_file_name("plain.proto"), "plain.proto.md");
}
