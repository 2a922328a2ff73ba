use sqlite_md::render::render_html;

#[test]
fn render_heading() {
    assert_eq!(render_html("# Hi Mercury!"), "<h1>Hi Mercury!</h1>");
}

#[test]
fn render_emphasis() {
    assert_eq!(render_html("*a*"), "<p><em>a</em></p>");
}
