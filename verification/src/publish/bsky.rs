//! `app.bsky.feed.post` summary records: a short Bluesky post that announces
//! a long-form document and links back to it via an `app.bsky.embed.external`
//! card. The text is capped at 300 grapheme clusters (not bytes); posts are
//! create-once, recorded in the sidecar state.
use vstd::prelude::*;
use crate::atproto::document::BlobRef;
use crate::doc::{data_get, lookup, rfc3339, rfc3339_millis_of, Doc, Yaml};
use crate::text::{
    concat_prefix, grapheme_clusters, graphemes, trim, trim_end, trim_end_seq,
    trim_seq, views,
};

verus! {

pub const FEED_POST_NSID: &'static str = "app.bsky.feed.post";
pub const EXTERNAL_EMBED_NSID: &'static str = "app.bsky.embed.external";

/// Bluesky's post-text limit, counted in grapheme clusters.
pub const MAX_GRAPHEMES: usize = 300;

/// An `app.bsky.feed.post` record.
pub struct FeedPost {
    pub type_: &'static str,
    pub text: String,
    pub created_at: String,
    pub embed: Option<ExternalEmbed>,
    pub langs: Vec<String>,
}

/// An `app.bsky.embed.external` link card.
pub struct ExternalEmbed {
    pub type_: &'static str,
    pub external: External,
}

/// The card contents.
pub struct External {
    pub uri: String,
    pub title: String,
    pub description: String,
    pub thumb: Option<BlobRef>,
}

/// True when a doc opts out of being announced via `bsky: false` frontmatter.
pub fn opted_out(doc: &Doc) -> (r: bool)
    ensures
        r == (lookup(doc.data@, "bsky"@) == Some(Yaml::Bool(false))),
{
    match data_get(&doc.data, "bsky") {
        Some(Yaml::Bool(b)) => !*b,
        _ => false,
    }
}

/// `text` cut to at most `max` grapheme clusters: unchanged when it fits;
/// otherwise its first `max - 1` clusters, trailing whitespace trimmed, then
/// `…` (empty when `max` is 0).
pub open spec fn truncate_spec(text: Seq<char>, max: nat) -> Seq<char> {
    let g = grapheme_clusters(text);
    if g.len() <= max {
        text
    } else if max == 0 {
        Seq::empty()
    } else {
        trim_end_seq(g.take(max - 1).flatten()) + seq!['…']
    }
}

/// Truncate `text` to at most `max` grapheme clusters, appending `…` (one
/// grapheme) when truncation occurs. Trailing whitespace before the ellipsis
/// is trimmed.
pub fn truncate_graphemes(text: &str, max: usize) -> (r: String)
    ensures
        r@ == truncate_spec(text@, max as nat),
{
    let gs = graphemes(text);
    if gs.len() <= max {
        return String::from_str(text);
    }
    if max == 0 {
        return String::new();
    }
    let kept = concat_prefix(&gs, max - 1);
    let mut r = trim_end(kept.as_str());
    r.append("…");
    proof {
        reveal_strlit("…");
    }
    r
}

/// `tera::Tera::one_off(template, &context, false)` with a context holding
/// `vars`, its error turned into text. Nothing is stated of the result: a
/// template may walk a map literal, whose order Tera takes from a hash map
/// seeded anew in each process, so the same template can render differently
/// from one run to the next.
#[verifier::external_body]
fn tera_one_off(template: &str, vars: &Vec<(String, String)>) -> (r: Result<String, String>) {
    let mut context = tera::Context::new();
    for (name, value) in vars.iter() {
        context.insert(name.clone(), value);
    }
    tera::Tera::one_off(template, &context, false).map_err(|e| e.to_string())
}

/// The variables an announcement template is rendered with.
pub open spec fn post_vars(doc: Doc) -> Seq<(Seq<char>, Seq<char>)> {
    seq![("title"@, doc.title@), ("summary"@, doc.summary@)]
}

/// The template context for `doc`: its `title` and `summary`.
pub fn template_vars(doc: &Doc) -> (v: Vec<(String, String)>)
    ensures
        v@.map_values(|p: (String, String)| (p.0@, p.1@)) == post_vars(*doc),
{
    let mut v: Vec<(String, String)> = Vec::new();
    v.push((String::from_str("title"), doc.title.clone()));
    v.push((String::from_str("summary"), doc.summary.clone()));
    proof {
        assert(v@.map_values(|p: (String, String)| (p.0@, p.1@)) =~= post_vars(*doc));
    }
    v
}

/// The announcement text made of what a template rendered to: trimmed and
/// grapheme-truncated, or, when rendering failed, the error under a prefix.
pub open spec fn text_from_rendered_spec(rendered: Result<Seq<char>, Seq<char>>) -> Result<
    Seq<char>,
    Seq<char>,
> {
    match rendered {
        Ok(out) => Ok(truncate_spec(trim_seq(out), MAX_GRAPHEMES as nat)),
        Err(e) => Err("rendering bsky post_template: "@ + e),
    }
}

/// The views of a text result.
pub open spec fn text_result_view(r: Result<String, String>) -> Result<Seq<char>, Seq<char>> {
    match r {
        Ok(t) => Ok(t@),
        Err(e) => Err(e@),
    }
}

/// Turn the outcome of rendering the post template into the announcement
/// text: the rendered text trimmed and truncated to [`MAX_GRAPHEMES`], or the
/// rendering error reported under `rendering bsky post_template: `.
pub fn text_from_rendered(rendered: Result<String, String>) -> (r: Result<String, String>)
    ensures
        text_result_view(r) == text_from_rendered_spec(text_result_view(rendered)),
{
    match rendered {
        Ok(out) => {
            let t = trim(out.as_str());
            Ok(truncate_graphemes(t.as_str(), MAX_GRAPHEMES))
        },
        Err(e) => {
            let mut m = String::from_str("rendering bsky post_template: ");
            m.append(e.as_str());
            Err(m)
        },
    }
}

/// Render the announcement text for `doc`. A `bsky_text:` frontmatter
/// override wins; otherwise the optional Tera `template` is rendered with
/// `title`/`summary` in scope; otherwise the text is `doc.summary`. The
/// result is trimmed and grapheme-truncated to [`MAX_GRAPHEMES`].
pub fn render_text(doc: &Doc, template: Option<&str>) -> (r: Result<String, String>)
    ensures
        lookup(doc.data@, "bsky_text"@) matches Some(Yaml::Str(s)) ==> (r matches Ok(t) && t@
            == truncate_spec(trim_seq(s@), MAX_GRAPHEMES as nat)),
        !(lookup(doc.data@, "bsky_text"@) matches Some(Yaml::Str(_))) ==> match template {
            None => r matches Ok(t) && t@ == truncate_spec(trim_seq(doc.summary@), MAX_GRAPHEMES as nat),
            Some(tpl) => exists|rendered: Result<Seq<char>, Seq<char>>|
                text_result_view(r) == #[trigger] text_from_rendered_spec(rendered),
        },
{
    if let Some(Yaml::Str(s)) = data_get(&doc.data, "bsky_text") {
        let t = trim(s.as_str());
        return Ok(truncate_graphemes(t.as_str(), MAX_GRAPHEMES));
    }
    match template {
        Some(tpl) => {
            let vars = template_vars(doc);
            let rendered = tera_one_off(tpl, &vars);
            let r = text_from_rendered(rendered);
            proof {
                assert(text_result_view(r) == text_from_rendered_spec(text_result_view(rendered)));
            }
            r
        },
        None => {
            let t = trim(doc.summary.as_str());
            Ok(truncate_graphemes(t.as_str(), MAX_GRAPHEMES))
        },
    }
}

/// Build the `app.bsky.embed.external` link card for `doc`.
pub fn external_embed(url: String, doc: &Doc, thumb: Option<BlobRef>) -> (e: ExternalEmbed)
    ensures
        e.type_@ == EXTERNAL_EMBED_NSID@,
        e.external.uri == url,
        e.external.title@ == doc.title@,
        e.external.description@ == doc.summary@,
        e.external.thumb == thumb,
{
    ExternalEmbed {
        type_: EXTERNAL_EMBED_NSID,
        external: External {
            uri: url,
            title: doc.title.clone(),
            description: doc.summary.clone(),
            thumb,
        },
    }
}

/// Assemble the `app.bsky.feed.post` record: created at the doc's date, in
/// English.
pub fn feed_post(doc: &Doc, text: String, embed: Option<ExternalEmbed>) -> (p: FeedPost)
    requires
        doc.wf(),
    ensures
        p.type_@ == FEED_POST_NSID@,
        p.text == text,
        p.created_at@ == rfc3339_millis_of(doc.date.secs as int, doc.date.nanos as int),
        p.embed == embed,
        views(p.langs@) == seq!["en"@],
{
    let mut langs: Vec<String> = Vec::new();
    langs.push(String::from_str("en"));
    proof {
        assert(views(langs@) =~= seq!["en"@]);
    }
    FeedPost { type_: FEED_POST_NSID, text, created_at: rfc3339(&doc.date), embed, langs }
}

} // verus!
