use italic::frontmatter::split;

#[test]
fn empty_input() {
    assert_eq!(split(""), (None, ""));
}

#[test]
fn body_only() {
    assert_eq!(split("# Hello\n"), (None, "# Hello\n"));
}

#[test]
fn valid_frontmatter() {
    let source = "---\ntitle: Hi\n---\n# Hello\n";
    let (fm, body) = split(source);
    assert_eq!(fm, Some("title: Hi\n"));
    assert_eq!(body, "# Hello\n");
}

#[test]
fn missing_close_fence_is_graceful() {
    let source = "---\ntitle: Hi\nno closing fence";
    assert_eq!(split(source), (None, source));
}

#[test]
fn crlf_line_endings() {
    let source = "---\r\ntitle: Hi\r\n---\r\n# Hello\r\n";
    let (fm, body) = split(source);
    assert_eq!(fm, Some("title: Hi\r\n"));
    assert_eq!(body, "# Hello\r\n");
}

#[test]
fn empty_frontmatter_block() {
    let source = "---\n---\nbody";
    let (fm, body) = split(source);
    assert_eq!(fm, Some(""));
    assert_eq!(body, "body");
}

#[test]
fn fence_with_trailing_text_is_not_a_fence() {
    let source = "---x\ntitle: Hi\n---\nbody";
    assert_eq!(split(source), (None, source));
}

#[test]
fn no_body_after_close_fence() {
    let source = "---\ntitle: Hi\n---";
    let (fm, body) = split(source);
    assert_eq!(fm, Some("title: Hi\n"));
    assert_eq!(body, "");
}

#[test]
fn fence_inside_a_line_does_not_close() {
    let source = "---\na: x---\n---\nbody";
    let (fm, body) = split(source);
    assert_eq!(fm, Some("a: x---\n"));
    assert_eq!(body, "body");
}

#[test]
fn split_reassembles_to_the_source() {
    let source = "---\r\nk: v\r\n---\r\nrest\n";
    let (fm, body) = split(source);
    assert_eq!(format!("---\r\n{}---\r\n{}", fm.unwrap(), body), source);
}

#[test]
fn multibyte_yaml_is_split_on_characters() {
    let source = "---\ntitle: café 你好\n---\nbödy";
    let (fm, body) = split(source);
    assert_eq!(fm, Some("title: café 你好\n"));
    assert_eq!(body, "bödy");
}
