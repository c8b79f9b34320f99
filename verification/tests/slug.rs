use italic::slug::{is_permitted_char, slugify};

#[test]
fn drops_apostrophes_and_punctuation() {
    assert_eq!(slugify("Isn't it grand?"), "isnt-it-grand");
    assert_eq!(slugify("Foo: Bar / Baz"), "foo-bar--baz");
}

#[test]
fn does_not_collapse_runs() {
    assert_eq!(slugify("a  b"), "a--b");
}

#[test]
fn does_not_trim_separators() {
    assert_eq!(slugify(" foo "), "-foo-");
}

#[test]
fn keeps_unicode_letters() {
    assert_eq!(slugify("Café"), "café");
}

#[test]
fn keeps_underscore_and_hyphen() {
    assert_eq!(slugify("under_score-dash"), "under_score-dash");
}

#[test]
fn common_case_is_unchanged() {
    assert_eq!(slugify("Hello World"), "hello-world");
}

#[test]
fn empty_and_all_dropped() {
    assert_eq!(slugify(""), "");
    assert_eq!(slugify("!!!"), "");
}

#[test]
fn slug_never_contains_a_space() {
    let s = slugify("  Many   Words  Here ");
    assert!(!s.contains(' '));
    assert_eq!(s, "--many---words--here-");
}

#[test]
fn permitted_chars() {
    assert!(is_permitted_char(&' '));
    assert!(is_permitted_char(&'_'));
    assert!(is_permitted_char(&'é'));
    assert!(!is_permitted_char(&'!'));
}
