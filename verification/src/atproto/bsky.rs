//! `app.bsky.feed.post` records and the doc → post mapping: the author-written
//! `bsky:` frontmatter text plus an `app.bsky.embed.external` link card
//! pointing at the canonical URL. Posts are create-once (see
//! [`crate::atproto::state`]).
use vstd::prelude::*;
use crate::atproto::document::BlobRef;
use crate::doc::{data_get, lookup, Doc, Yaml};
use crate::text::{
    concat_prefix, decimal, decimal_string, grapheme_clusters, graphemes, trim, trim_seq, views,
};

verus! {

pub const POST_NSID: &'static str = "app.bsky.feed.post";
pub const EMBED_EXTERNAL_NSID: &'static str = "app.bsky.embed.external";

/// Bluesky's post-length cap, counted in extended grapheme clusters (not bytes
/// or chars).
pub const MAX_GRAPHEMES: usize = 300;

/// An `app.bsky.feed.post` record.
pub struct Post {
    pub type_: &'static str,
    pub text: String,
    /// RFC 3339, e.g. `2026-07-20T14:30:00.000Z` — wall-clock time at create.
    pub created_at: String,
    pub embed: Option<ExternalEmbed>,
}

/// An `app.bsky.embed.external` link card.
pub struct ExternalEmbed {
    pub type_: &'static str,
    pub external: External,
}

/// The card contents: canonical URL + title + description, with the doc's
/// cover image as the optional thumbnail.
pub struct External {
    pub uri: String,
    pub title: String,
    /// Required by the lexicon — empty when the doc has no summary.
    pub description: String,
    pub thumb: Option<BlobRef>,
}

/// Build a post: `text` from `bsky:` frontmatter, link card from the doc's
/// canonical URL/title/summary, `thumb` from the cover machinery.
pub fn post(
    text: &str,
    url: &str,
    title: &str,
    description: &str,
    thumb: Option<BlobRef>,
    created_at: &str,
) -> (p: Post)
    ensures
        p.type_@ == POST_NSID@,
        p.text@ == text@,
        p.created_at@ == created_at@,
        p.embed matches Some(e) && e.type_@ == EMBED_EXTERNAL_NSID@ && e.external.uri@ == url@
            && e.external.title@ == title@ && e.external.description@ == description@
            && e.external.thumb == thumb,
{
    Post {
        type_: POST_NSID,
        text: String::from_str(text),
        created_at: String::from_str(created_at),
        embed: Some(
            ExternalEmbed {
                type_: EMBED_EXTERNAL_NSID,
                external: External {
                    uri: String::from_str(url),
                    title: String::from_str(title),
                    description: String::from_str(description),
                    thumb,
                },
            },
        ),
    }
}

/// Why a doc's `bsky:` frontmatter cannot become a post. Each variant carries
/// the doc's `id_path`.
pub enum BskyTextError {
    /// The value is not a string.
    NotAString(String),
    /// The string is empty once trimmed.
    Empty(String),
    /// The trimmed text has this many grapheme clusters, over the cap.
    TooLong(String, usize),
}

impl BskyTextError {
    /// The error as the user sees it.
    pub fn message(&self) -> (m: String)
        ensures
            self matches BskyTextError::NotAString(p) ==> m@ == p@
                + ": `bsky:` must be a string (the post text)"@,
            self matches BskyTextError::Empty(p) ==> m@ == p@
                + ": `bsky:` is empty — write the post text, or remove the key to skip the post"@,
            self matches BskyTextError::TooLong(p, n) ==> m@ == p@ + ": `bsky:` text is "@
                + decimal(*n as nat) + " graphemes — Bluesky caps posts at "@ + decimal(
                MAX_GRAPHEMES as nat,
            ),
    {
        match self {
            BskyTextError::NotAString(p) => {
                let mut m = p.clone();
                m.append(": `bsky:` must be a string (the post text)");
                m
            },
            BskyTextError::Empty(p) => {
                let mut m = p.clone();
                m.append(
                    ": `bsky:` is empty — write the post text, or remove the key to skip the post",
                );
                m
            },
            BskyTextError::TooLong(p, n) => {
                let mut m = p.clone();
                m.append(": `bsky:` text is ");
                m.append(decimal_string(*n).as_str());
                m.append(" graphemes — Bluesky caps posts at ");
                m.append(decimal_string(MAX_GRAPHEMES).as_str());
                m
            },
        }
    }
}

/// What a doc's `bsky:` frontmatter amounts to: `Some(None)` when the key is
/// absent, `Some(Some(text))` for a usable post text (trimmed, non-empty,
/// within the grapheme cap), `None` when the value is unusable.
pub open spec fn bsky_text(doc: Doc) -> Option<Option<Seq<char>>> {
    match lookup(doc.data@, "bsky"@) {
        None => Some(None),
        Some(Yaml::Str(s)) => if trim_seq(s@).len() > 0 && grapheme_clusters(trim_seq(s@)).len()
            <= MAX_GRAPHEMES {
            Some(Some(trim_seq(s@)))
        } else {
            None
        },
        Some(_) => None,
    }
}

/// `e` is the error an unusable `bsky:` value of `doc` is reported with.
pub open spec fn text_error(doc: Doc, e: BskyTextError) -> bool {
    match lookup(doc.data@, "bsky"@) {
        None => false,
        Some(Yaml::Str(s)) => if trim_seq(s@).len() == 0 {
            e matches BskyTextError::Empty(p) && p@ == doc.id_path@
        } else {
            e matches BskyTextError::TooLong(p, n) && p@ == doc.id_path@ && n
                == grapheme_clusters(trim_seq(s@)).len()
        },
        Some(_) => e matches BskyTextError::NotAString(p) && p@ == doc.id_path@,
    }
}

/// The doc's `bsky:` frontmatter text, validated. `Ok(None)` when the key is
/// absent — the author opted out. A present key must be a non-empty string
/// (once trimmed) within Bluesky's grapheme cap; anything else is an error
/// naming the doc.
pub fn frontmatter_text(doc: &Doc) -> (r: Result<Option<String>, BskyTextError>)
    ensures
        lookup(doc.data@, "bsky"@) is None ==> r matches Ok(None),
        lookup(doc.data@, "bsky"@) matches Some(v) && !(v is Str) ==> (r matches Err(
            BskyTextError::NotAString(p),
        ) && p@ == doc.id_path@),
        lookup(doc.data@, "bsky"@) matches Some(Yaml::Str(s)) ==> (trim_seq(s@).len() == 0 ==> (r matches Err(
            BskyTextError::Empty(p),
        ) && p@ == doc.id_path@)),
        lookup(doc.data@, "bsky"@) matches Some(Yaml::Str(s)) ==> (trim_seq(s@).len() > 0
            && grapheme_clusters(trim_seq(s@)).len() > MAX_GRAPHEMES ==> (r matches Err(
            BskyTextError::TooLong(p, n),
        ) && p@ == doc.id_path@ && n == grapheme_clusters(trim_seq(s@)).len())),
        lookup(doc.data@, "bsky"@) matches Some(Yaml::Str(s)) ==> (trim_seq(s@).len() > 0
            && grapheme_clusters(trim_seq(s@)).len() <= MAX_GRAPHEMES ==> (r matches Ok(Some(t))
            && t@ == trim_seq(s@))),
        r matches Ok(None) ==> bsky_text(*doc) == Some(None::<Seq<char>>),
        r matches Ok(Some(t)) ==> bsky_text(*doc) == Some(Some(t@)),
        r matches Err(e) ==> bsky_text(*doc) is None && text_error(*doc, e),
{
    let value = match data_get(&doc.data, "bsky") {
        Some(v) => v,
        None => {
            return Ok(None);
        },
    };
    let raw = match value {
        Yaml::Str(s) => s,
        _ => {
            return Err(BskyTextError::NotAString(doc.id_path.clone()));
        },
    };
    let text = trim(raw.as_str());
    if text.as_str().is_empty() {
        return Err(BskyTextError::Empty(doc.id_path.clone()));
    }
    let count = graphemes(text.as_str()).len();
    if count > MAX_GRAPHEMES {
        return Err(BskyTextError::TooLong(doc.id_path.clone(), count));
    }
    Ok(Some(text))
}

/// The first `max` grapheme clusters of `text`, with `…` appended when some
/// were cut.
pub open spec fn preview_spec(text: Seq<char>, max: nat) -> Seq<char> {
    let g = grapheme_clusters(text);
    if g.len() > max {
        g.take(max as int).flatten() + seq!['…']
    } else {
        g.flatten()
    }
}

/// The first `max` graphemes of `text`, with an ellipsis when truncated — for
/// confirmation prompts and dry-run listings.
pub fn preview(text: &str, max: usize) -> (r: String)
    ensures
        r@ == preview_spec(text@, max as nat),
        grapheme_clusters(text@).len() <= max ==> r@ == text@,
{
    let gs = graphemes(text);
    if gs.len() > max {
        let mut head = concat_prefix(&gs, max);
        head.append("…");
        proof {
            reveal_strlit("…");
        }
        head
    } else {
        let head = concat_prefix(&gs, gs.len());
        proof {
            assert(views(gs@).take(gs@.len() as int) =~= views(gs@));
        }
        head
    }
}

} // verus!
