use chrono::TimeZone;
use italic::doc::DateTime;
use italic::permalink::{default_for, expand, expand_ymd, to_url};

fn date(y: i32, m: u32, d: u32) -> DateTime {
    let t = chrono::Utc.with_ymd_and_hms(y, m, d, 0, 0, 0).unwrap();
    DateTime { secs: t.timestamp(), nanos: 0 }
}

#[test]
fn default_for_swaps_extension_to_html() {
    assert_eq!(default_for("blog/post.md"), "blog/post.html");
}

#[test]
fn expand_substitutes_slug_from_stem() {
    let p = expand("/blog/:slug/", "posts/Hello World.md", &date(2025, 1, 1));
    assert_eq!(p, "blog/hello-world/index.html");
}

#[test]
fn expand_zero_pads_date_components() {
    let p = expand("/:yyyy/:mm/:dd/:slug.html", "hi.md", &date(2025, 3, 7));
    assert_eq!(p, "2025/03/07/hi.html");
}

#[test]
fn expand_trailing_slash_appends_index_html() {
    let p = expand("/blog/:slug/", "hello.md", &date(2025, 10, 31));
    assert_eq!(p, "blog/hello/index.html");
}

#[test]
fn expand_no_trailing_slash_is_verbatim() {
    let p = expand("/feed.xml", "rss.md", &date(2025, 1, 1));
    assert_eq!(p, "feed.xml");
}

#[test]
fn expand_strips_leading_slash() {
    let p = expand("/:slug.html", "hi.md", &date(2025, 1, 1));
    assert_eq!(p, "hi.html");
}

#[test]
fn expand_handles_no_leading_slash() {
    let p = expand(":slug.html", "hi.md", &date(2025, 1, 1));
    assert_eq!(p, "hi.html");
}

#[test]
fn expand_takes_the_utc_day_of_a_late_instant() {
    // 23:59:59 on the last day of February in a leap year.
    let t = chrono::Utc.with_ymd_and_hms(2024, 2, 29, 23, 59, 59).unwrap();
    let p = expand(":yyyy-:mm-:dd", "x.md", &DateTime { secs: t.timestamp(), nanos: 999_000_000 });
    assert_eq!(p, "2024-02-29");
}

#[test]
fn expand_pads_small_and_negative_years() {
    assert_eq!(expand_ymd(":yyyy", "a.md", 7, 1, 1), "0007");
    assert_eq!(expand_ymd(":yyyy", "a.md", -5, 1, 1), "-005");
    assert_eq!(expand_ymd(":yyyy", "a.md", 12345, 1, 1), "12345");
}

#[test]
fn expand_only_slashes_with_trailing_slash_is_index() {
    assert_eq!(expand_ymd("/", "a.md", 2025, 1, 1), "index.html");
    assert_eq!(expand_ymd("//", "a.md", 2025, 1, 1), "index.html");
}

#[test]
fn expand_uses_the_last_extension_only() {
    assert_eq!(expand_ymd(":slug", "dir/archive.tar.gz", 2025, 1, 1), "archivetar");
    assert_eq!(expand_ymd(":slug", ".hidden", 2025, 1, 1), "hidden");
}

#[test]
fn expand_replaces_every_occurrence() {
    assert_eq!(expand_ymd(":mm-:mm/:dd", "a.md", 2025, 4, 9), "04-04/09");
}

#[test]
fn default_for_appends_when_there_is_no_extension() {
    assert_eq!(default_for("notes/README"), "notes/README.html");
    assert_eq!(default_for("a/.profile"), "a/.profile.html");
}

#[test]
fn to_url_drops_index_html() {
    assert_eq!(to_url("blog/post/index.html"), "/blog/post/");
    assert_eq!(to_url("index.html"), "/");
    assert_eq!(to_url("posts/p.html"), "/posts/p.html");
}

#[test]
fn default_for_reads_the_name_past_trailing_slashes() {
    assert_eq!(default_for("blog/"), "blog.html");
    assert_eq!(default_for("blog/post.md/"), "blog/post.html");
    assert_eq!(default_for("blog/."), "blog.html");
    assert_eq!(default_for("a/.."), "a/..");
    assert_eq!(default_for("/"), "/");
}
