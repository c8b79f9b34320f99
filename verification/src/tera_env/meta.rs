//! Built-in `<head>` metadata: SEO, social-card and feed-discovery markup
//! rendered from the `page` and `site` template values, with absolute URLs
//! composed from the configured site origin and base path (root-relative
//! when there is no origin).
use vstd::prelude::*;
use crate::atproto::cover::{strip_leading_slashes, external_spec};
use crate::doc::{yaml_get, yget, Yaml};
use crate::html::{escape, escape_spec};
use crate::permalink::{to_url, to_url_spec};
use crate::text::{join, join_seq, starts_with, has_prefix, trim, trim_seq, views};

verus! {

/// Registration-time settings shared by the metadata renderers.
pub struct MetaCfg {
    pub site_url: Option<String>,
    pub base_path: String,
    pub feed_names: Vec<String>,
}

/// The configured origin, or nothing.
pub open spec fn origin(cfg: MetaCfg) -> Seq<char> {
    match cfg.site_url {
        Some(u) => u@,
        None => Seq::empty(),
    }
}

fn origin_text(cfg: &MetaCfg) -> (r: String)
    ensures
        r@ == origin(*cfg),
{
    match &cfg.site_url {
        Some(u) => u.clone(),
        None => String::new(),
    }
}

/// A trimmed, non-empty string member of `v`.
pub open spec fn field(v: Yaml, key: Seq<char>) -> Option<Seq<char>> {
    match yget(v, key) {
        Some(Yaml::Str(s)) => if trim_seq(s@).len() > 0 {
            Some(trim_seq(s@))
        } else {
            None
        },
        _ => None,
    }
}

fn field_text(v: &Yaml, key: &str) -> (r: Option<String>)
    ensures
        r matches Some(s) ==> field(*v, key@) == Some(s@),
        r is None ==> field(*v, key@) is None,
{
    match yaml_get(v, key) {
        Some(Yaml::Str(s)) => {
            let t = trim(s.as_str());
            if t.as_str().is_empty() {
                None
            } else {
                Some(t)
            }
        },
        _ => None,
    }
}

/// A trimmed, non-empty `page.data.<key>` string.
pub open spec fn data_field(page: Yaml, key: Seq<char>) -> Option<Seq<char>> {
    match yget(page, "data"@) {
        Some(d) => field(d, key),
        None => None,
    }
}

fn data_field_text(page: &Yaml, key: &str) -> (r: Option<String>)
    ensures
        r matches Some(s) ==> data_field(*page, key@) == Some(s@),
        r is None ==> data_field(*page, key@) is None,
{
    match yaml_get(page, "data") {
        Some(d) => field_text(d, key),
        None => None,
    }
}

/// The first of two optional values that is present.
pub open spec fn or_else(a: Option<Seq<char>>, b: Option<Seq<char>>) -> Option<Seq<char>> {
    match a {
        Some(x) => Some(x),
        None => b,
    }
}

fn or_else_text(a: Option<String>, b: Option<String>) -> (r: Option<String>)
    ensures
        a matches Some(x) ==> r == Some(x),
        a is None ==> r == b,
{
    match a {
        Some(x) => Some(x),
        None => b,
    }
}

/// Page title, falling back to the site title.
pub open spec fn title(page: Yaml, site: Yaml) -> Option<Seq<char>> {
    or_else(field(page, "title"@), field(site, "title"@))
}

/// Meta description: the page summary, else the site description.
pub open spec fn description(page: Yaml, site: Yaml) -> Option<Seq<char>> {
    or_else(field(page, "summary"@), field(site, "description"@))
}

/// The string values of mapping entries, in order.
pub open spec fn str_values(m: Seq<(Yaml, Yaml)>) -> Seq<Seq<char>>
    decreases m.len(),
{
    if m.len() == 0 {
        Seq::empty()
    } else {
        let rest = str_values(m.drop_last());
        match m.last().1 {
            Yaml::Str(s) => rest.push(s@),
            _ => rest,
        }
    }
}

/// The string items of a list, in order.
pub open spec fn str_items(items: Seq<Yaml>) -> Seq<Seq<char>>
    decreases items.len(),
{
    if items.len() == 0 {
        Seq::empty()
    } else {
        let rest = str_items(items.drop_last());
        match items.last() {
            Yaml::Str(s) => rest.push(s@),
            _ => rest,
        }
    }
}

/// Tag display texts from `page.terms.tags` (the value side of slug → text).
pub open spec fn tags(page: Yaml) -> Seq<Seq<char>> {
    match yget(page, "terms"@) {
        Some(t) => match yget(t, "tags"@) {
            Some(Yaml::Mapping(m)) => str_values(m@),
            _ => Seq::empty(),
        },
        None => Seq::empty(),
    }
}

fn tags_text(page: &Yaml) -> (r: Vec<String>)
    ensures
        views(r@) == tags(*page),
{
    let mut r: Vec<String> = Vec::new();
    if let Some(t) = yaml_get(page, "terms") {
        if let Some(Yaml::Mapping(m)) = yaml_get(t, "tags") {
            let mut i: usize = 0;
            while i < m.len()
                invariant
                    i <= m@.len(),
                    views(r@) == str_values(m@.take(i as int)),
                decreases m@.len() - i,
            {
                proof {
                    assert(m@.take(i + 1).drop_last() =~= m@.take(i as int));
                }
                if let Yaml::Str(s) = &m[i].1 {
                    r.push(s.clone());
                    proof {
                        assert(views(r@) =~= str_values(m@.take(i as int)).push(s@));
                    }
                }
                i = i + 1;
            }
            proof {
                assert(m@.take(m@.len() as int) =~= m@);
            }
        }
    }
    r
}

/// Keyword string: tag texts joined, else `page.data.keywords` (a string, or
/// a list whose string items are joined).
pub open spec fn keywords(page: Yaml) -> Option<Seq<char>> {
    if tags(page).len() > 0 {
        Some(join_seq(tags(page), ", "@))
    } else {
        match yget(page, "data"@) {
            Some(d) => match yget(d, "keywords"@) {
                Some(Yaml::Str(s)) => if trim_seq(s@).len() > 0 {
                    Some(trim_seq(s@))
                } else {
                    None
                },
                Some(Yaml::List(items)) => if str_items(items@).len() > 0 {
                    Some(join_seq(str_items(items@), ", "@))
                } else {
                    None
                },
                _ => None,
            },
            None => None,
        }
    }
}

fn keywords_text(page: &Yaml) -> (r: Option<String>)
    ensures
        r matches Some(s) ==> keywords(*page) == Some(s@),
        r is None ==> keywords(*page) is None,
{
    let tags = tags_text(page);
    if tags.len() > 0 {
        return Some(join(&tags, ", "));
    }
    let d = match yaml_get(page, "data") {
        Some(d) => d,
        None => {
            return None;
        },
    };
    match yaml_get(d, "keywords") {
        Some(Yaml::Str(s)) => {
            let t = trim(s.as_str());
            if t.as_str().is_empty() {
                None
            } else {
                Some(t)
            }
        },
        Some(Yaml::List(items)) => {
            let mut parts: Vec<String> = Vec::new();
            let mut i: usize = 0;
            while i < items.len()
                invariant
                    i <= items@.len(),
                    views(parts@) == str_items(items@.take(i as int)),
                decreases items@.len() - i,
            {
                proof {
                    assert(items@.take(i + 1).drop_last() =~= items@.take(i as int));
                }
                if let Yaml::Str(s) = &items[i] {
                    parts.push(s.clone());
                    proof {
                        assert(views(parts@) =~= str_items(items@.take(i as int)).push(s@));
                    }
                }
                i = i + 1;
            }
            proof {
                assert(items@.take(items@.len() as int) =~= items@);
            }
            if parts.len() > 0 {
                Some(join(&parts, ", "))
            } else {
                None
            }
        },
        _ => None,
    }
}

/// Absolute URL for `path`: passed through when already absolute, otherwise
/// `site_url + base_path + "/" + path` (leading slashes of `path` dropped).
pub open spec fn abs_url(path: Seq<char>, cfg: MetaCfg) -> Seq<char> {
    if has_prefix(path, "http://"@) || has_prefix(path, "https://"@) || has_prefix(path, "//"@) {
        path
    } else {
        origin(cfg) + cfg.base_path@ + seq!['/'] + strip_leading_slashes(path)
    }
}

fn abs_url_text(path: &str, cfg: &MetaCfg) -> (r: String)
    ensures
        r@ == abs_url(path@, *cfg),
{
    if starts_with(path, "http://") || starts_with(path, "https://") || starts_with(path, "//") {
        return String::from_str(path);
    }
    let mut r = origin_text(cfg);
    r.append(cfg.base_path.as_str());
    crate::text::push_char(&mut r, '/');
    r.append(crate::atproto::cover::strip_slashes(path).as_str());
    r
}

/// The page's canonical absolute URL, from its `output_path`.
pub open spec fn page_url(page: Yaml, cfg: MetaCfg) -> Option<Seq<char>> {
    match yget(page, "output_path"@) {
        Some(Yaml::Str(op)) => Some(origin(cfg) + cfg.base_path@ + to_url_spec(op@)),
        _ => None,
    }
}

fn page_url_text(page: &Yaml, cfg: &MetaCfg) -> (r: Option<String>)
    ensures
        r matches Some(s) ==> page_url(*page, *cfg) == Some(s@),
        r is None ==> page_url(*page, *cfg) is None,
{
    match yaml_get(page, "output_path") {
        Some(Yaml::Str(op)) => {
            let mut r = origin_text(cfg);
            r.append(cfg.base_path.as_str());
            r.append(to_url(op.as_str()).as_str());
            Some(r)
        },
        _ => None,
    }
}

/// The site's root absolute URL (`site_url + base_path + "/"`).
pub open spec fn site_root(cfg: MetaCfg) -> Seq<char> {
    origin(cfg) + cfg.base_path@ + seq!['/']
}

/// Resolved social image: `page.data.image`, else `site.image`, made
/// absolute, with `page.data.image_alt` when present.
pub open spec fn image(page: Yaml, site: Yaml, cfg: MetaCfg) -> Option<(Seq<char>, Option<Seq<char>>)> {
    match or_else(data_field(page, "image"@), field(site, "image"@)) {
        Some(raw) => Some((abs_url(raw, cfg), data_field(page, "image_alt"@))),
        None => None,
    }
}

fn image_text(page: &Yaml, site: &Yaml, cfg: &MetaCfg) -> (r: Option<(String, Option<String>)>)
    ensures
        image(*page, *site, *cfg) is None ==> r is None,
        image(*page, *site, *cfg) matches Some((u, a)) ==> (r matches Some((ru, ra)) && ru@ == u && (
        a is None ==> ra is None) && (a matches Some(x) ==> (ra matches Some(y) && y@ == x))),
{
    let raw = or_else_text(data_field_text(page, "image"), field_text(site, "image"));
    match raw {
        Some(r) => Some((abs_url_text(r.as_str(), cfg), data_field_text(page, "image_alt"))),
        None => None,
    }
}

/// `<meta name="…" content="…">` with the content escaped.
pub open spec fn meta_name(name: Seq<char>, content: Seq<char>) -> Seq<char> {
    "<meta name=\""@ + name + "\" content=\""@ + escape_spec(content) + "\">"@
}

/// `<meta property="…" content="…">` with the content escaped.
pub open spec fn meta_prop(prop: Seq<char>, content: Seq<char>) -> Seq<char> {
    "<meta property=\""@ + prop + "\" content=\""@ + escape_spec(content) + "\">"@
}

fn meta_name_text(name: &str, content: &str) -> (r: String)
    ensures
        r@ == meta_name(name@, content@),
{
    let mut r = String::from_str("<meta name=\"");
    r.append(name);
    r.append("\" content=\"");
    r.append(escape(content).as_str());
    r.append("\">");
    r
}

fn meta_prop_text(prop: &str, content: &str) -> (r: String)
    ensures
        r@ == meta_prop(prop@, content@),
{
    let mut r = String::from_str("<meta property=\"");
    r.append(prop);
    r.append("\" content=\"");
    r.append(escape(content).as_str());
    r.append("\">");
    r
}

/// One line when the content is present, none otherwise.
pub open spec fn opt_name(name: Seq<char>, content: Option<Seq<char>>) -> Seq<Seq<char>> {
    match content {
        Some(c) => seq![meta_name(name, c)],
        None => Seq::empty(),
    }
}

/// One line when the content is present, none otherwise.
pub open spec fn opt_prop(prop: Seq<char>, content: Option<Seq<char>>) -> Seq<Seq<char>> {
    match content {
        Some(c) => seq![meta_prop(prop, c)],
        None => Seq::empty(),
    }
}

fn push_opt_name(lines: &mut Vec<String>, name: &str, content: &Option<String>)
    ensures
        views(final(lines)@) == views(old(lines)@) + opt_name(name@, oview(*content)),
{
    let ghost before = views(lines@);
    match content {
        Some(c) => {
            lines.push(meta_name_text(name, c.as_str()));
            proof {
                assert(views(lines@) =~= before + seq![meta_name(name@, c@)]);
            }
        },
        None => {
            proof {
                assert(views(lines@) =~= before + Seq::<Seq<char>>::empty());
            }
        },
    }
}

fn push_opt_prop(lines: &mut Vec<String>, prop: &str, content: &Option<String>)
    ensures
        views(final(lines)@) == views(old(lines)@) + opt_prop(prop@, oview(*content)),
{
    let ghost before = views(lines@);
    match content {
        Some(c) => {
            lines.push(meta_prop_text(prop, c.as_str()));
            proof {
                assert(views(lines@) =~= before + seq![meta_prop(prop@, c@)]);
            }
        },
        None => {
            proof {
                assert(views(lines@) =~= before + Seq::<Seq<char>>::empty());
            }
        },
    }
}

/// `<meta name="generator">` content — the engine and its version.
pub const GENERATOR: &'static str = "italic 0.1.0";

/// Engine-owned tags: the generator tag.
pub open spec fn system_meta() -> Seq<Seq<char>> {
    seq![meta_name("generator"@, GENERATOR@)]
}

pub fn render_system_meta() -> (lines: Vec<String>)
    ensures
        views(lines@) == system_meta(),
{
    let mut lines: Vec<String> = Vec::new();
    lines.push(meta_name_text("generator", GENERATOR));
    proof {
        assert(views(lines@) =~= system_meta());
    }
    lines
}

pub fn render_description(page: &Yaml, site: &Yaml) -> (lines: Vec<String>)
    ensures
        views(lines@) == opt_name("description"@, description(*page, *site)),
{
    let d = or_else_text(field_text(page, "summary"), field_text(site, "description"));
    let mut lines: Vec<String> = Vec::new();
    push_opt_name(&mut lines, "description", &d);
    proof {
        assert(views(lines@) =~= opt_name("description"@, description(*page, *site)));
    }
    lines
}

pub fn render_keywords(page: &Yaml) -> (lines: Vec<String>)
    ensures
        views(lines@) == opt_name("keywords"@, keywords(*page)),
{
    let k = keywords_text(page);
    let mut lines: Vec<String> = Vec::new();
    push_opt_name(&mut lines, "keywords", &k);
    proof {
        assert(views(lines@) =~= opt_name("keywords"@, keywords(*page)));
    }
    lines
}

/// `<link rel="canonical">` for the page's URL.
pub open spec fn canonical(page: Yaml, cfg: MetaCfg) -> Seq<Seq<char>> {
    match page_url(page, cfg) {
        Some(url) => seq!["<link rel=\"canonical\" href=\""@ + escape_spec(url) + "\">"@],
        None => Seq::empty(),
    }
}

pub fn render_canonical(page: &Yaml, cfg: &MetaCfg) -> (lines: Vec<String>)
    ensures
        views(lines@) == canonical(*page, *cfg),
{
    let mut lines: Vec<String> = Vec::new();
    if let Some(url) = page_url_text(page, cfg) {
        let mut l = String::from_str("<link rel=\"canonical\" href=\"");
        l.append(escape(url.as_str()).as_str());
        l.append("\">");
        lines.push(l);
    }
    proof {
        assert(views(lines@) =~= canonical(*page, *cfg));
    }
    lines
}

/// The standard.site per-document ownership proof link, from
/// `page.data.atproto_uri` (already absolute; not passed through `abs_url`).
pub open spec fn standard_link(page: Yaml) -> Seq<Seq<char>> {
    match data_field(page, "atproto_uri"@) {
        Some(uri) => seq!["<link rel=\"site.standard.document\" href=\""@ + escape_spec(uri) + "\">"@],
        None => Seq::empty(),
    }
}

pub fn render_standard_link(page: &Yaml) -> (lines: Vec<String>)
    ensures
        views(lines@) == standard_link(*page),
{
    let mut lines: Vec<String> = Vec::new();
    if let Some(uri) = data_field_text(page, "atproto_uri") {
        let mut l = String::from_str("<link rel=\"site.standard.document\" href=\"");
        l.append(escape(uri.as_str()).as_str());
        l.append("\">");
        lines.push(l);
    }
    proof {
        assert(views(lines@) =~= standard_link(*page));
    }
    lines
}

/// The leading open-graph lines: type, title, description, URL, site name
/// and locale.
pub open spec fn og_base(page: Yaml, site: Yaml, og_type: Seq<char>, cfg: MetaCfg) -> Seq<Seq<char>> {
    seq![meta_prop("og:type"@, og_type)] + opt_prop("og:title"@, title(page, site)) + opt_prop(
        "og:description"@,
        description(page, site),
    ) + opt_prop("og:url"@, page_url(page, cfg)) + opt_prop("og:site_name"@, field(site, "title"@))
        + seq![
        meta_prop(
            "og:locale"@,
            match field(site, "locale"@) {
                Some(l) => l,
                None => "en_US"@,
            },
        ),
    ]
}

/// The image lines of a card, with the given property or name builder.
pub open spec fn og_image(page: Yaml, site: Yaml, cfg: MetaCfg) -> Seq<Seq<char>> {
    match image(page, site, cfg) {
        Some((url, alt)) => seq![meta_prop("og:image"@, url)] + opt_prop("og:image:alt"@, alt),
        None => Seq::empty(),
    }
}

/// The `article:*` lines: dates, author, and one line per tag.
pub open spec fn og_article(page: Yaml, site: Yaml) -> Seq<Seq<char>> {
    opt_prop("article:published_time"@, field(page, "date"@)) + opt_prop(
        "article:modified_time"@,
        field(page, "updated"@),
    ) + opt_prop("article:author"@, or_else(data_field(page, "author"@), field(site, "author"@)))
        + tags(page).map_values(|t: Seq<char>| meta_prop("article:tag"@, t))
}

/// The open-graph lines of a page (`og_type` is `og:type`; `article` pages
/// also get the `article:*` tags).
pub open spec fn open_graph(page: Yaml, site: Yaml, og_type: Seq<char>, cfg: MetaCfg) -> Seq<Seq<char>> {
    og_base(page, site, og_type, cfg) + og_image(page, site, cfg) + if og_type == "article"@ {
        og_article(page, site)
    } else {
        Seq::empty()
    }
}

/// The view of an optional string.
pub open spec fn oview(o: Option<String>) -> Option<Seq<char>> {
    match o {
        Some(c) => Some(c@),
        None => None,
    }
}

fn push_line(lines: &mut Vec<String>, line: String)
    ensures
        views(final(lines)@) == views(old(lines)@).push(line@),
{
    let ghost before = views(lines@);
    lines.push(line);
    proof {
        assert(views(lines@) =~= before.push(line@));
    }
}

fn push_og_base(lines: &mut Vec<String>, page: &Yaml, site: &Yaml, og_type: &str, cfg: &MetaCfg)
    ensures
        views(final(lines)@) == views(old(lines)@) + og_base(*page, *site, og_type@, *cfg),
{
    let ghost l0 = views(lines@);
    push_line(lines, meta_prop_text("og:type", og_type));
    let t = or_else_text(field_text(page, "title"), field_text(site, "title"));
    push_opt_prop(lines, "og:title", &t);
    let d = or_else_text(field_text(page, "summary"), field_text(site, "description"));
    push_opt_prop(lines, "og:description", &d);
    let u = page_url_text(page, cfg);
    push_opt_prop(lines, "og:url", &u);
    let n = field_text(site, "title");
    push_opt_prop(lines, "og:site_name", &n);
    let locale = match field_text(site, "locale") {
        Some(l) => l,
        None => String::from_str("en_US"),
    };
    push_line(lines, meta_prop_text("og:locale", locale.as_str()));
    proof {
        assert(views(lines@) =~= l0 + og_base(*page, *site, og_type@, *cfg));
    }
}

fn push_og_image(lines: &mut Vec<String>, page: &Yaml, site: &Yaml, cfg: &MetaCfg)
    ensures
        views(final(lines)@) == views(old(lines)@) + og_image(*page, *site, *cfg),
{
    let ghost l1 = views(lines@);
    match image_text(page, site, cfg) {
        Some((url, alt)) => {
            push_line(lines, meta_prop_text("og:image", url.as_str()));
            push_opt_prop(lines, "og:image:alt", &alt);
            proof {
                assert(views(lines@) =~= l1 + og_image(*page, *site, *cfg));
            }
        },
        None => {
            proof {
                assert(views(lines@) =~= l1 + og_image(*page, *site, *cfg));
            }
        },
    }
}

fn push_og_article(lines: &mut Vec<String>, page: &Yaml, site: &Yaml)
    ensures
        views(final(lines)@) == views(old(lines)@) + og_article(*page, *site),
{
    let ghost l2 = views(lines@);
    let date = field_text(page, "date");
    push_opt_prop(lines, "article:published_time", &date);
    let updated = field_text(page, "updated");
    push_opt_prop(lines, "article:modified_time", &updated);
    let author = or_else_text(data_field_text(page, "author"), field_text(site, "author"));
    push_opt_prop(lines, "article:author", &author);
    let ghost l3 = views(lines@);
    let tag_texts = tags_text(page);
    let mut i: usize = 0;
    while i < tag_texts.len()
        invariant
            i <= tag_texts@.len(),
            views(lines@) == l3 + views(tag_texts@).take(i as int).map_values(
                |x: Seq<char>| meta_prop("article:tag"@, x),
            ),
        decreases tag_texts@.len() - i,
    {
        push_line(lines, meta_prop_text("article:tag", tag_texts[i].as_str()));
        proof {
            assert(views(tag_texts@).take(i + 1).map_values(|x: Seq<char>| meta_prop("article:tag"@, x))
                =~= views(tag_texts@).take(i as int).map_values(
                |x: Seq<char>| meta_prop("article:tag"@, x),
            ).push(meta_prop("article:tag"@, tag_texts@[i as int]@)));
        }
        i = i + 1;
    }
    proof {
        assert(views(tag_texts@).take(tag_texts@.len() as int) =~= views(tag_texts@));
        assert(views(lines@) =~= l2 + og_article(*page, *site));
    }
}

pub fn render_open_graph(page: &Yaml, site: &Yaml, og_type: &str, cfg: &MetaCfg) -> (lines: Vec<String>)
    ensures
        views(lines@) == open_graph(*page, *site, og_type@, *cfg),
{
    let mut lines: Vec<String> = Vec::new();
    push_og_base(&mut lines, page, site, og_type, cfg);
    push_og_image(&mut lines, page, site, cfg);
    let ghost l2 = views(lines@);
    if crate::text::str_eq(og_type, "article") {
        push_og_article(&mut lines, page, site);
    } else {
        proof {
            assert(views(lines@) =~= l2 + Seq::<Seq<char>>::empty());
        }
    }
    proof {
        assert(views(lines@) =~= open_graph(*page, *site, og_type@, *cfg));
    }
    lines
}

/// Rendered lines joined with newlines (empty when there are none).
pub fn join_lines(lines: &Vec<String>) -> (s: String)
    ensures
        s@ == join_seq(views(lines@), "\n"@),
{
    join(lines, "\n")
}

/// The twitter-card lines of a page: a large-image card when there is an
/// image, the site's handle as site and creator, title, description, image.
pub open spec fn twitter_card(page: Yaml, site: Yaml, cfg: MetaCfg) -> Seq<Seq<char>> {
    seq![
        meta_name(
            "twitter:card"@,
            if image(page, site, cfg) is Some {
                "summary_large_image"@
            } else {
                "summary"@
            },
        ),
    ] + match field(site, "twitter"@) {
        Some(h) => seq![meta_name("twitter:site"@, h), meta_name("twitter:creator"@, h)],
        None => Seq::empty(),
    } + opt_name("twitter:title"@, title(page, site)) + opt_name(
        "twitter:description"@,
        description(page, site),
    ) + match image(page, site, cfg) {
        Some((url, alt)) => seq![meta_name("twitter:image"@, url)] + opt_name("twitter:image:alt"@, alt),
        None => Seq::empty(),
    }
}

/// The social image a page shows: its own `data.image` when set, otherwise
/// the site-wide `image` — in both cases made absolute. Open graph then
/// carries an `og:image` line for it, and the twitter card is a large-image
/// card with a `twitter:image` line for it.
pub proof fn lemma_social_image_source(page: Yaml, site: Yaml, og_type: Seq<char>, cfg: MetaCfg, raw: Seq<char>)
    requires
        data_field(page, "image"@) == Some(raw) || (data_field(page, "image"@) is None && (yget(
            site,
            "image"@,
        ) matches Some(Yaml::Str(s)) && trim_seq(s@).len() > 0 && raw == trim_seq(s@))),
    ensures
        open_graph(page, site, og_type, cfg).contains(meta_prop("og:image"@, abs_url(raw, cfg))),
        twitter_card(page, site, cfg)[0] == meta_name("twitter:card"@, "summary_large_image"@),
        twitter_card(page, site, cfg).contains(meta_name("twitter:image"@, abs_url(raw, cfg))),
{
    let url = abs_url(raw, cfg);
    assert(image(page, site, cfg) == Some((url, data_field(page, "image_alt"@))));
    let base = og_base(page, site, og_type, cfg);
    let og = open_graph(page, site, og_type, cfg);
    assert(og[base.len() as int] == meta_prop("og:image"@, url));
    let tc = twitter_card(page, site, cfg);
    let head = seq![meta_name("twitter:card"@, "summary_large_image"@)] + match field(site, "twitter"@) {
        Some(h) => seq![meta_name("twitter:site"@, h), meta_name("twitter:creator"@, h)],
        None => Seq::empty(),
    } + opt_name("twitter:title"@, title(page, site)) + opt_name(
        "twitter:description"@,
        description(page, site),
    );
    let img = seq![meta_name("twitter:image"@, url)] + opt_name("twitter:image:alt"@, data_field(page, "image_alt"@));
    assert(tc == head + img);
    assert(tc[head.len() as int] == meta_name("twitter:image"@, url));
}

/// With no `data.image` on the page and no site-wide `image`, there is no
/// social image: a plain `summary` card and no image lines.
pub proof fn lemma_no_social_image(page: Yaml, site: Yaml, og_type: Seq<char>, cfg: MetaCfg)
    requires
        data_field(page, "image"@) is None,
        !(yget(site, "image"@) matches Some(Yaml::Str(s)) && trim_seq(s@).len() > 0),
    ensures
        twitter_card(page, site, cfg)[0] == meta_name("twitter:card"@, "summary"@),
        og_image(page, site, cfg) == Seq::<Seq<char>>::empty(),
{
}

pub fn render_twitter_card(page: &Yaml, site: &Yaml, cfg: &MetaCfg) -> (lines: Vec<String>)
    ensures
        views(lines@) == twitter_card(*page, *site, *cfg),
{
    let img = image_text(page, site, cfg);
    let mut lines: Vec<String> = Vec::new();
    let card = if img.is_some() {
        "summary_large_image"
    } else {
        "summary"
    };
    push_line(&mut lines, meta_name_text("twitter:card", card));
    let ghost l0 = views(lines@);
    match field_text(site, "twitter") {
        Some(h) => {
            push_line(&mut lines, meta_name_text("twitter:site", h.as_str()));
            push_line(&mut lines, meta_name_text("twitter:creator", h.as_str()));
        },
        None => {},
    }
    let ghost l1 = views(lines@);
    proof {
        match field(*site, "twitter"@) {
            Some(h) => {
                assert(l1 =~= l0 + seq![meta_name("twitter:site"@, h), meta_name("twitter:creator"@, h)]);
            },
            None => {
                assert(l1 =~= l0 + Seq::<Seq<char>>::empty());
            },
        }
    }
    let t = or_else_text(field_text(page, "title"), field_text(site, "title"));
    push_opt_name(&mut lines, "twitter:title", &t);
    let d = or_else_text(field_text(page, "summary"), field_text(site, "description"));
    push_opt_name(&mut lines, "twitter:description", &d);
    let ghost l2 = views(lines@);
    match img {
        Some((url, alt)) => {
            push_line(&mut lines, meta_name_text("twitter:image", url.as_str()));
            push_opt_name(&mut lines, "twitter:image:alt", &alt);
        },
        None => {},
    }
    proof {
        match image(*page, *site, *cfg) {
            Some((url, alt)) => {
                assert(views(lines@) =~= l2 + (seq![meta_name("twitter:image"@, url)] + opt_name(
                    "twitter:image:alt"@,
                    alt,
                )));
            },
            None => {
                assert(views(lines@) =~= l2 + Seq::<Seq<char>>::empty());
            },
        }
        assert(views(lines@) =~= twitter_card(*page, *site, *cfg));
    }
    lines
}

/// The text `serde_json` writes for the object built by inserting, in order,
/// the string members `strings` and then the members `objects`, each of
/// whose values is an object of string members.
pub uninterp spec fn json_object_text_of(
    strings: Seq<(Seq<char>, Seq<char>)>,
    objects: Seq<(Seq<char>, Seq<(Seq<char>, Seq<char>)>)>,
) -> Seq<char>;

/// The views of string pairs.
pub open spec fn pair_views(v: Seq<(String, String)>) -> Seq<(Seq<char>, Seq<char>)> {
    v.map_values(|p: (String, String)| (p.0@, p.1@))
}

/// The views of object members.
pub open spec fn nested_views(v: Seq<(String, Vec<(String, String)>)>) -> Seq<(Seq<char>, Seq<(Seq<char>, Seq<char>)>)> {
    v.map_values(|p: (String, Vec<(String, String)>)| (p.0@, pair_views(p.1@)))
}

/// `serde_json::Value::Object(map).to_string()` for the map built by
/// inserting each string member as a JSON string, then each object member as
/// an object of JSON strings. The text is named by [`json_object_text_of`].
#[verifier::external_body]
fn json_object_text(strings: &Vec<(String, String)>, objects: &Vec<(String, Vec<(String, String)>)>) -> (r: String)
    ensures
        r@ == json_object_text_of(pair_views(strings@), nested_views(objects@)),
{
    let text = |v: &Vec<(String, String)>| -> serde_json::Map<String, serde_json::Value> {
        v.iter().map(|(k, x)| (k.clone(), serde_json::Value::from(x.as_str()))).collect()
    };
    let mut map = text(strings);
    for (k, inner) in objects.iter() {
        map.insert(k.clone(), serde_json::Value::Object(text(inner)));
    }
    serde_json::Value::Object(map).to_string()
}

/// A string member when the value is present.
pub open spec fn opt_member(key: Seq<char>, value: Option<Seq<char>>) -> Seq<(Seq<char>, Seq<char>)> {
    match value {
        Some(v) => seq![(key, v)],
        None => Seq::empty(),
    }
}

/// The string members of the JSON-LD object for a page titled `t`: a
/// `BlogPosting` for `article`, else a `WebSite`.
pub open spec fn ld_strings(page: Yaml, site: Yaml, og_type: Seq<char>, cfg: MetaCfg, t: Seq<char>) -> Seq<(Seq<char>, Seq<char>)> {
    if og_type == "article"@ {
        seq![("@context"@, "https://schema.org"@), ("@type"@, "BlogPosting"@), ("headline"@, t)]
            + opt_member("description"@, description(page, site)) + opt_member("url"@, page_url(page, cfg))
            + opt_member("datePublished"@, field(page, "date"@)) + opt_member(
            "dateModified"@,
            field(page, "updated"@),
        ) + opt_member(
            "image"@,
            match image(page, site, cfg) {
                Some((u, _)) => Some(u),
                None => None,
            },
        )
    } else {
        seq![("@context"@, "https://schema.org"@), ("@type"@, "WebSite"@), ("name"@, t)]
            + opt_member("description"@, description(page, site)) + seq![("url"@, site_root(cfg))]
    }
}

/// The object members of the JSON-LD object: a `BlogPosting`'s author, as a
/// `Person`, when the page or the site names one.
pub open spec fn ld_objects(page: Yaml, site: Yaml, og_type: Seq<char>) -> Seq<(Seq<char>, Seq<(Seq<char>, Seq<char>)>)> {
    if og_type == "article"@ {
        match or_else(data_field(page, "author"@), field(site, "author"@)) {
            Some(a) => seq![("author"@, seq![("@type"@, "Person"@), ("name"@, a)])],
            None => Seq::empty(),
        }
    } else {
        Seq::empty()
    }
}

/// `s` with every `<` written as the JSON escape `\u003c`.
pub open spec fn escape_lt(s: Seq<char>) -> Seq<char>
    decreases s.len(),
{
    if s.len() == 0 {
        Seq::empty()
    } else {
        escape_lt(s.drop_last()) + if s.last() == '<' {
            "\\u003c"@
        } else {
            seq![s.last()]
        }
    }
}

/// The JSON-LD body can never close its `<script>` element: after escaping
/// it holds no `<` at all.
pub proof fn lemma_json_ld_script_safe(s: Seq<char>)
    ensures
        forall|i: int| 0 <= i < escape_lt(s).len() ==> escape_lt(s)[i] != '<',
    decreases s.len(),
{
    reveal_strlit("\\u003c");
    if s.len() > 0 {
        lemma_json_ld_script_safe(s.drop_last());
        let head = escape_lt(s.drop_last());
        let tail: Seq<char> = if s.last() == '<' {
            "\\u003c"@
        } else {
            seq![s.last()]
        };
        assert(escape_lt(s) == head + tail);
        assert forall|i: int| 0 <= i < escape_lt(s).len() implies escape_lt(s)[i] != '<' by {
            if i < head.len() {
                assert(escape_lt(s)[i] == head[i]);
            } else {
                assert(escape_lt(s)[i] == tail[i - head.len()]);
            }
        }
    }
}

fn escape_lt_text(s: &str) -> (r: String)
    ensures
        r@ == escape_lt(s@),
{
    let mut r = String::new();
    for c in it: s.chars()
        invariant
            it.seq() == s@,
            r@ == escape_lt(it.seq().take(it.index() as int)),
    {
        proof {
            let t = it.seq().take(it.index() + 1);
            assert(t.drop_last() =~= it.seq().take(it.index() as int));
            assert(t.last() == c);
        }
        if c == '<' {
            r.append("\\u003c");
        } else {
            crate::text::push_char(&mut r, c);
        }
    }
    proof {
        assert(s@.take(s@.len() as int) =~= s@);
    }
    r
}

/// The JSON-LD element around the object's text, with `<` escaped so the
/// text can never close the element.
pub open spec fn json_ld_element(json: Seq<char>) -> Seq<char> {
    "<script type=\"application/ld+json\">"@ + escape_lt(json) + "</script>"@
}

/// JSON-LD for the page: nothing without a title; otherwise the object in
/// a `<script type="application/ld+json">` element.
pub open spec fn json_ld(page: Yaml, site: Yaml, og_type: Seq<char>, cfg: MetaCfg) -> Seq<char> {
    match title(page, site) {
        None => Seq::empty(),
        Some(t) => json_ld_element(
            json_object_text_of(ld_strings(page, site, og_type, cfg, t), ld_objects(page, site, og_type)),
        ),
    }
}

/// Wrap the JSON text of the object in its `<script>` element.
pub fn json_ld_script(json: &str) -> (s: String)
    ensures
        s@ == json_ld_element(json@),
{
    let mut s = String::from_str("<script type=\"application/ld+json\">");
    s.append(escape_lt_text(json).as_str());
    s.append("</script>");
    s
}

fn push_opt_member(members: &mut Vec<(String, String)>, key: &str, value: Option<String>)
    ensures
        pair_views(final(members)@) == pair_views(old(members)@) + opt_member(key@, oview(value)),
{
    let ghost before = pair_views(members@);
    match value {
        Some(v) => members.push((String::from_str(key), v)),
        None => {},
    }
    proof {
        assert(pair_views(members@) =~= before + opt_member(key@, oview(value)));
    }
}

fn pair(key: &str, value: &str) -> (p: (String, String))
    ensures
        p.0@ == key@,
        p.1@ == value@,
{
    (String::from_str(key), String::from_str(value))
}

fn ld_strings_of(page: &Yaml, site: &Yaml, og_type: &str, cfg: &MetaCfg, t: &str) -> (m: Vec<(String, String)>)
    ensures
        pair_views(m@) == ld_strings(*page, *site, og_type@, *cfg, t@),
{
    let mut m: Vec<(String, String)> = Vec::new();
    m.push(pair("@context", "https://schema.org"));
    let d = or_else_text(field_text(page, "summary"), field_text(site, "description"));
    if crate::text::str_eq(og_type, "article") {
        m.push(pair("@type", "BlogPosting"));
        m.push(pair("headline", t));
        proof {
            assert(pair_views(m@) =~= seq![("@context"@, "https://schema.org"@), ("@type"@, "BlogPosting"@), ("headline"@, t@)]);
        }
        push_opt_member(&mut m, "description", d);
        push_opt_member(&mut m, "url", page_url_text(page, cfg));
        push_opt_member(&mut m, "datePublished", field_text(page, "date"));
        push_opt_member(&mut m, "dateModified", field_text(page, "updated"));
        let img = match image_text(page, site, cfg) {
            Some((u, _)) => Some(u),
            None => None,
        };
        push_opt_member(&mut m, "image", img);
    } else {
        m.push(pair("@type", "WebSite"));
        m.push(pair("name", t));
        proof {
            assert(pair_views(m@) =~= seq![("@context"@, "https://schema.org"@), ("@type"@, "WebSite"@), ("name"@, t@)]);
        }
        push_opt_member(&mut m, "description", d);
        let mut root = origin_text(cfg);
        root.append(cfg.base_path.as_str());
        crate::text::push_char(&mut root, '/');
        proof {
            assert(root@ =~= site_root(*cfg));
        }
        let ghost before = pair_views(m@);
        m.push((String::from_str("url"), root));
        proof {
            assert(pair_views(m@) =~= before + seq![("url"@, site_root(*cfg))]);
        }
    }
    m
}

fn ld_objects_of(page: &Yaml, site: &Yaml, og_type: &str) -> (m: Vec<(String, Vec<(String, String)>)>)
    ensures
        nested_views(m@) == ld_objects(*page, *site, og_type@),
{
    let mut m: Vec<(String, Vec<(String, String)>)> = Vec::new();
    if crate::text::str_eq(og_type, "article") {
        match or_else_text(data_field_text(page, "author"), field_text(site, "author")) {
            Some(a) => {
                let mut person: Vec<(String, String)> = Vec::new();
                person.push(pair("@type", "Person"));
                person.push((String::from_str("name"), a));
                proof {
                    assert(pair_views(person@) =~= seq![("@type"@, "Person"@), ("name"@, a@)]);
                }
                m.push((String::from_str("author"), person));
                proof {
                    assert(nested_views(m@) =~= seq![("author"@, pair_views(person@))]);
                }
            },
            None => {},
        }
    }
    proof {
        assert(nested_views(m@) =~= ld_objects(*page, *site, og_type@));
    }
    m
}

pub fn render_json_ld(page: &Yaml, site: &Yaml, og_type: &str, cfg: &MetaCfg) -> (s: String)
    ensures
        s@ == json_ld(*page, *site, og_type@, *cfg),
{
    let t = match or_else_text(field_text(page, "title"), field_text(site, "title")) {
        Some(t) => t,
        None => {
            return String::new();
        },
    };
    let strings = ld_strings_of(page, site, og_type, cfg, t.as_str());
    let objects = ld_objects_of(page, site, og_type);
    let json = json_object_text(&strings, &objects);
    json_ld_script(json.as_str())
}

/// A feed's link title: the site title for the `all` feed, else
/// `"{site title} — {feed}"`.
pub open spec fn feed_title(base_title: Seq<char>, name: Seq<char>) -> Seq<char> {
    if name == "all"@ {
        base_title
    } else {
        base_title + " — "@ + name
    }
}

/// The discovery link of one feed.
pub open spec fn feed_line(cfg: MetaCfg, base_title: Seq<char>, name: Seq<char>) -> Seq<char> {
    "<link rel=\"alternate\" type=\"application/rss+xml\" title=\""@ + escape_spec(
        feed_title(base_title, name),
    ) + "\" href=\""@ + escape_spec(abs_url("/feed/"@ + name + ".xml"@, cfg)) + "\">"@
}

/// One discovery link per configured feed, newline-joined.
pub open spec fn feed_links(site: Yaml, cfg: MetaCfg) -> Seq<char> {
    let base_title = match field(site, "title"@) {
        Some(t) => t,
        None => "Feed"@,
    };
    join_seq(
        views(cfg.feed_names@).map_values(|n: Seq<char>| feed_line(cfg, base_title, n)),
        "\n"@,
    )
}

pub fn render_feed_links(site: &Yaml, cfg: &MetaCfg) -> (s: String)
    ensures
        s@ == feed_links(*site, *cfg),
{
    let base_title = match field_text(site, "title") {
        Some(t) => t,
        None => String::from_str("Feed"),
    };
    let mut links: Vec<String> = Vec::new();
    let mut i: usize = 0;
    while i < cfg.feed_names.len()
        invariant
            i <= cfg.feed_names@.len(),
            base_title@ == match field(*site, "title"@) {
                Some(t) => t,
                None => "Feed"@,
            },
            views(links@) == views(cfg.feed_names@).take(i as int).map_values(
                |n: Seq<char>| feed_line(*cfg, base_title@, n),
            ),
        decreases cfg.feed_names@.len() - i,
    {
        let name = cfg.feed_names[i].as_str();
        let title = if crate::text::str_eq(name, "all") {
            base_title.clone()
        } else {
            let mut t = base_title.clone();
            t.append(" — ");
            t.append(name);
            t
        };
        let mut path = String::from_str("/feed/");
        path.append(name);
        path.append(".xml");
        let href = abs_url_text(path.as_str(), cfg);
        let mut l = String::from_str("<link rel=\"alternate\" type=\"application/rss+xml\" title=\"");
        l.append(escape(title.as_str()).as_str());
        l.append("\" href=\"");
        l.append(escape(href.as_str()).as_str());
        l.append("\">");
        push_line(&mut links, l);
        proof {
            assert(views(cfg.feed_names@).take(i + 1).map_values(|n: Seq<char>| feed_line(*cfg, base_title@, n))
                =~= views(cfg.feed_names@).take(i as int).map_values(
                |n: Seq<char>| feed_line(*cfg, base_title@, n),
            ).push(feed_line(*cfg, base_title@, cfg.feed_names@[i as int]@)));
        }
        i = i + 1;
    }
    proof {
        assert(views(cfg.feed_names@).take(cfg.feed_names@.len() as int) =~= views(cfg.feed_names@));
    }
    join(&links, "\n")
}

/// The blocks of the umbrella metadata, in order.
pub open spec fn metadata_blocks(page: Yaml, site: Yaml, og_type: Seq<char>, cfg: MetaCfg) -> Seq<Seq<char>> {
    seq![
        "<meta charset=\"utf-8\">"@,
        "<meta name=\"viewport\" content=\"width=device-width, initial-scale=1\">"@,
    ] + system_meta() + opt_name("description"@, description(page, site)) + opt_name(
        "keywords"@,
        keywords(page),
    ) + (if yget(page, "draft"@) == Some(Yaml::Bool(true)) {
        seq![meta_name("robots"@, "noindex"@)]
    } else {
        Seq::empty()
    }) + canonical(page, cfg) + standard_link(page) + open_graph(page, site, og_type, cfg)
        + twitter_card(page, site, cfg) + (if json_ld(page, site, og_type, cfg).len() > 0 {
        seq![json_ld(page, site, og_type, cfg)]
    } else {
        Seq::empty()
    }) + (if feed_links(site, cfg).len() > 0 {
        seq![feed_links(site, cfg)]
    } else {
        Seq::empty()
    })
}

/// The umbrella: a complete `<head>` block in one call — everything except
/// `<title>` — with drafts marked `noindex`.
pub open spec fn metadata(page: Yaml, site: Yaml, og_type: Seq<char>, cfg: MetaCfg) -> Seq<char> {
    join_seq(metadata_blocks(page, site, og_type, cfg), "\n"@)
}

fn append_all(lines: &mut Vec<String>, more: Vec<String>)
    ensures
        views(final(lines)@) == views(old(lines)@) + views(more@),
{
    let ghost before = views(lines@);
    let mut i: usize = 0;
    while i < more.len()
        invariant
            i <= more@.len(),
            views(lines@) == before + views(more@).take(i as int),
        decreases more@.len() - i,
    {
        push_line(lines, more[i].clone());
        proof {
            assert(views(more@).take(i + 1) =~= views(more@).take(i as int).push(more@[i as int]@));
        }
        i = i + 1;
    }
    proof {
        assert(views(more@).take(more@.len() as int) =~= views(more@));
    }
}

fn is_draft(page: &Yaml) -> (r: bool)
    ensures
        r == (yget(*page, "draft"@) == Some(Yaml::Bool(true))),
{
    match yaml_get(page, "draft") {
        Some(Yaml::Bool(b)) => *b,
        _ => false,
    }
}

#[verifier::spinoff_prover]
#[verifier::rlimit(40)]
pub fn render_metadata(page: &Yaml, site: &Yaml, og_type: &str, cfg: &MetaCfg) -> (s: String)
    ensures
        s@ == metadata(*page, *site, og_type@, *cfg),
{
    let mut blocks: Vec<String> = Vec::new();
    push_line(&mut blocks, String::from_str("<meta charset=\"utf-8\">"));
    push_line(
        &mut blocks,
        String::from_str("<meta name=\"viewport\" content=\"width=device-width, initial-scale=1\">"),
    );
    append_all(&mut blocks, render_system_meta());
    append_all(&mut blocks, render_description(page, site));
    append_all(&mut blocks, render_keywords(page));
    let ghost l0 = views(blocks@);
    if is_draft(page) {
        push_line(&mut blocks, meta_name_text("robots", "noindex"));
    }
    proof {
        assert(views(blocks@) =~= l0 + (if yget(*page, "draft"@) == Some(Yaml::Bool(true)) {
            seq![meta_name("robots"@, "noindex"@)]
        } else {
            Seq::empty()
        }));
    }
    append_all(&mut blocks, render_canonical(page, cfg));
    append_all(&mut blocks, render_standard_link(page));
    append_all(&mut blocks, render_open_graph(page, site, og_type, cfg));
    append_all(&mut blocks, render_twitter_card(page, site, cfg));
    let ghost l1 = views(blocks@);
    let ld = render_json_ld(page, site, og_type, cfg);
    if !ld.as_str().is_empty() {
        push_line(&mut blocks, ld);
    }
    proof {
        assert(views(blocks@) =~= l1 + (if json_ld(*page, *site, og_type@, *cfg).len() > 0 {
            seq![json_ld(*page, *site, og_type@, *cfg)]
        } else {
            Seq::empty()
        }));
    }
    let ghost l2 = views(blocks@);
    let feeds = render_feed_links(site, cfg);
    if !feeds.as_str().is_empty() {
        push_line(&mut blocks, feeds);
    }
    proof {
        assert(views(blocks@) =~= l2 + (if feed_links(*site, *cfg).len() > 0 {
            seq![feed_links(*site, *cfg)]
        } else {
            Seq::empty()
        }));
        assert(views(blocks@) =~= metadata_blocks(*page, *site, og_type@, *cfg));
    }
    join(&blocks, "\n")
}

} // verus!

