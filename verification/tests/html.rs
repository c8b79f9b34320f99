use italic::html::{escape, strip_tags, truncate_words};

#[test]
fn escapes_all_five() {
    assert_eq!(escape("a & b < c > d \" e ' f"), "a &amp; b &lt; c &gt; d &quot; e &#39; f");
}

#[test]
fn leaves_plain_text_untouched() {
    assert_eq!(escape("hello world"), "hello world");
}

#[test]
fn preserves_non_ascii() {
    assert_eq!(escape("café · 你好"), "café · 你好");
}

#[test]
fn empty_string() {
    assert_eq!(escape(""), "");
}

#[test]
fn strip_tags_removes_simple_tags() {
    assert_eq!(strip_tags("<p>hello <b>world</b></p>"), "hello world");
}

#[test]
fn strip_tags_handles_attributes() {
    assert_eq!(
        strip_tags(r#"<a href="https://x.test" class="ext">click</a>"#),
        "click"
    );
}

#[test]
fn strip_tags_collapses_whitespace() {
    assert_eq!(strip_tags("a\n\n  b   c"), "a b c");
}

#[test]
fn strip_tags_trims_edges() {
    assert_eq!(strip_tags("  <p>hi</p>  "), "hi");
}

#[test]
fn strip_tags_empty_input() {
    assert_eq!(strip_tags(""), "");
}

#[test]
fn strip_tags_preserves_entities() {
    assert_eq!(
        strip_tags("<p>caf&eacute; &amp; tea</p>"),
        "caf&eacute; &amp; tea"
    );
}

#[test]
fn strip_tags_nested() {
    assert_eq!(
        strip_tags("<div><p>one</p><p>two <em>three</em></p></div>"),
        "one two three"
    );
}

#[test]
fn truncate_words_returns_unchanged_when_within_limit() {
    assert_eq!(truncate_words("hello world", 250), "hello world");
}

#[test]
fn truncate_words_empty_input() {
    assert_eq!(truncate_words("", 250), "");
}

#[test]
fn truncate_words_breaks_on_word_boundary() {
    let out = truncate_words("hello world foo bar baz", 15);
    assert_eq!(out, "hello world…");
    assert!(out.chars().count() <= 15);
}

#[test]
fn truncate_words_hard_cuts_when_no_whitespace() {
    let out = truncate_words("abcdefghijklmnop", 8);
    assert_eq!(out, "abcdefg…");
    assert_eq!(out.chars().count(), 8);
}

#[test]
fn truncate_words_counts_unicode_scalar_values() {
    assert_eq!(truncate_words("café", 4), "café");
}

#[test]
fn truncate_words_handles_multibyte_in_truncation() {
    let out = truncate_words("你好 世界 abc", 7);
    assert_eq!(out, "你好 世界…");
}

#[test]
fn truncate_words_zero_limit() {
    assert_eq!(truncate_words("hello", 0), "");
}

#[test]
fn escape_output_has_no_raw_markup_characters() {
    let out = escape("<script>alert('x' & \"y\")</script>");
    assert!(!out.contains('<') && !out.contains('>') && !out.contains('"') && !out.contains('\''));
}

#[test]
fn strip_tags_output_is_collapsed() {
    let out = strip_tags("\t<ul>\n<li> a </li>\n\n<li>b</li></ul> ");
    assert_eq!(out, "a b");
    assert!(!out.contains("  ") && !out.starts_with(' ') && !out.ends_with(' '));
}

#[test]
fn strip_tags_keeps_lone_closing_angle() {
    assert_eq!(strip_tags("a > b"), "a > b");
}

#[test]
fn truncate_words_trims_space_before_ellipsis() {
    assert_eq!(truncate_words("ab   cdefgh", 6), "ab…");
}

#[test]
fn truncate_words_keeps_word_ending_at_last_slot() {
    assert_eq!(truncate_words("ab cd ef", 6), "ab cd…");
}

#[test]
fn strip_tags_twice_equals_once() {
    let html = "<p>Hello,\n  <em>world</em></p>\t<br/> again <a href='x'>link</a> ";
    let once = strip_tags(html);
    assert_eq!(once, "Hello, world again link");
    assert_eq!(strip_tags(&once), once);
}
