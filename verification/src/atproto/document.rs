//! `site.standard.document` / `site.standard.publication` records, their
//! deterministic record keys and AT-URIs, and the doc → record mapping.
use vstd::prelude::*;
use vstd::utf8::encode_utf8;
use sha2::Digest;
use crate::atproto::config;
use crate::atproto::state::PostRef;
use crate::doc::{data_get, find_key, is_later, lookup, rfc3339, rfc3339_millis_of, Doc};
use crate::html::{strip_tags, strip_tags_spec};
use crate::permalink::{to_url, to_url_spec};
use crate::text::{
    all_ascii, ascii_lower, concat, is_ws, lowercase, to_lowercase, trim, trim_seq,
};

verus! {

pub const DOCUMENT_NSID: &'static str = "site.standard.document";
pub const PUBLICATION_NSID: &'static str = "site.standard.publication";
pub const THEME_BASIC_NSID: &'static str = "site.standard.theme.basic";
pub const THEME_COLOR_RGB_NSID: &'static str = "site.standard.theme.color#rgb";
/// External content lexicon used to carry the full body as Markdown.
pub const MARKDOWN_NSID: &'static str = "at.markpub.markdown";
pub const MARKDOWN_TEXT_NSID: &'static str = "at.markpub.text";

/// The SHA-256 digest of `data`, as `sha2::Sha256::digest` computes it.
pub uninterp spec fn sha256_of(data: Seq<u8>) -> Seq<u8>;

/// The unpadded RFC 4648 base32 text of `data`, as
/// `data_encoding::BASE32_NOPAD.encode` computes it.
pub uninterp spec fn base32_of(data: Seq<u8>) -> Seq<char>;

/// Whether `s` parses as a CID, as `atrium_api::types::CidLink::try_from` decides.
pub uninterp spec fn cid_parses(s: Seq<char>) -> bool;

/// The base32 alphabet: `A`-`Z` and `2`-`7`.
pub open spec fn base32_symbol(c: char) -> bool {
    ('A' <= c && c <= 'Z') || ('2' <= c && c <= '7')
}

/// `sha2::Sha256::digest`: a 32-byte digest named by [`sha256_of`].
#[verifier::external_body]
fn sha256(data: &[u8]) -> (r: Vec<u8>)
    ensures
        r@ == sha256_of(data@),
        r@.len() == 32,
{
    sha2::Sha256::digest(data).to_vec()
}

/// `data_encoding::BASE32_NOPAD.encode`. The crate's source fixes the output
/// length at `ceil(8 * len / 5)` symbols from `A`-`Z2`-`7`, and asserts the
/// input length is at most `usize::MAX / 512`.
#[verifier::external_body]
fn base32_nopad(data: &[u8]) -> (r: String)
    requires
        data@.len() <= usize::MAX / 512,
    ensures
        r@ == base32_of(data@),
        r@.len() == (8 * data@.len() + 4) / 5,
        forall|i: int| 0 <= i < r@.len() ==> base32_symbol(#[trigger] r@[i]),
{
    data_encoding::BASE32_NOPAD.encode(data)
}

/// `atrium_api::types::CidLink::try_from(&str)`, reduced to whether it succeeds.
#[verifier::external_body]
fn cid_link_parses(s: &str) -> (r: bool)
    ensures
        r == cid_parses(s@),
{
    atrium_api::types::CidLink::try_from(s).is_ok()
}

/// The record key of `input`: lowercase unpadded base32 of its SHA-256.
pub open spec fn rkey_spec(input: Seq<char>) -> Seq<char> {
    lowercase(base32_of(sha256_of(encode_utf8(input))))
}

/// The lowercase base32 alphabet that record keys use.
pub open spec fn rkey_safe(c: char) -> bool {
    ('a' <= c && c <= 'z') || ('2' <= c && c <= '7')
}

/// Stable record key: the full SHA-256 of `input`, base32-encoded and
/// lowercased (52 chars, rkey-safe `a`–`z` / `2`–`7`).
fn rkey_hash(input: &str) -> (r: String)
    ensures
        r@ == rkey_spec(input@),
        r@.len() == 52,
        forall|i: int| 0 <= i < r@.len() ==> rkey_safe(#[trigger] r@[i]),
{
    let digest = sha256(input.as_bytes());
    let encoded = base32_nopad(digest.as_slice());
    proof {
        assert(all_ascii(encoded@)) by {
            assert forall|i: int| 0 <= i < encoded@.len() implies (#[trigger] encoded@[i] as u32)
                < 128 by {
                assert(base32_symbol(encoded@[i]));
            }
        }
    }
    let r = to_lowercase(encoded.as_str());
    proof {
        assert forall|i: int| 0 <= i < r@.len() implies rkey_safe(#[trigger] r@[i]) by {
            assert(base32_symbol(encoded@[i]));
            assert(r@[i] == ascii_lower(encoded@[i]));
        }
    }
    r
}

/// The CID bytes prefix for a raw-codec sha-256 CIDv1.
pub open spec fn cid_prefix() -> Seq<u8> {
    seq![0x01u8, 0x55u8, 0x12u8, 0x20u8]
}

/// CIDv1 string (raw codec, sha-256) for blob bytes.
pub open spec fn blob_cid_spec(bytes: Seq<u8>) -> Seq<char> {
    seq!['b'] + lowercase(base32_of(cid_prefix() + sha256_of(bytes)))
}

/// CIDv1 string (raw codec, sha-256) for blob bytes, exactly as the PDS mints
/// for `uploadBlob`: multibase `b` + base32-lower of the CID bytes
/// `[0x01 (v1), 0x55 (raw), 0x12 (sha2-256), 0x20 (32 bytes)] ++ sha256(bytes)`.
pub fn blob_cid(bytes: &[u8]) -> (r: String)
    ensures
        r@ == blob_cid_spec(bytes@),
{
    let digest = sha256(bytes);
    let mut cid: Vec<u8> = Vec::new();
    cid.push(0x01u8);
    cid.push(0x55u8);
    cid.push(0x12u8);
    cid.push(0x20u8);
    let mut i: usize = 0;
    while i < digest.len()
        invariant
            i <= digest@.len(),
            digest@.len() == 32,
            cid@ == cid_prefix() + digest@.take(i as int),
        decreases digest@.len() - i,
    {
        cid.push(digest[i]);
        proof {
            assert(digest@.take(i + 1) =~= digest@.take(i as int).push(digest@[i as int]));
        }
        i = i + 1;
    }
    proof {
        assert(digest@.take(32) =~= digest@);
    }
    let encoded = base32_nopad(cid.as_slice());
    let lower = to_lowercase(encoded.as_str());
    let mut r = String::from_str("b");
    r.append(lower.as_str());
    proof {
        reveal_strlit("b");
    }
    r
}

/// A blob reference embedded in a record (`$type: blob`): the content CID,
/// MIME type and byte size.
pub struct BlobRef {
    pub link: String,
    pub mime_type: String,
    pub size: usize,
}

/// Why a blob reference could not be derived.
pub enum BlobError {
    /// The computed CID string is not accepted as a CID link.
    InvalidCid(String),
}

/// A [`BlobRef`] derived locally from file bytes — same link and size the PDS
/// would return from `uploadBlob`, with the placeholder MIME type `*/*`.
pub fn derived_blob_ref(bytes: &[u8]) -> (r: Result<BlobRef, BlobError>)
    ensures
        cid_parses(blob_cid_spec(bytes@)) ==> (r matches Ok(b) && b.link@ == blob_cid_spec(bytes@)
            && b.mime_type@ == "*/*"@ && b.size == bytes@.len()),
        !cid_parses(blob_cid_spec(bytes@)) ==> (r matches Err(BlobError::InvalidCid(c)) && c@
            == blob_cid_spec(bytes@)),
{
    let cid = blob_cid(bytes);
    if !cid_link_parses(cid.as_str()) {
        return Err(BlobError::InvalidCid(cid));
    }
    let r = Ok(BlobRef { link: cid, mime_type: String::from_str("*/*"), size: bytes.len() });
    r
}

/// Record key for a doc's `site.standard.document`, derived from its absolute
/// canonical URL so two sites published to one PDS never collide.
pub fn document_rkey(canonical_url: &str) -> (r: String)
    ensures
        r@ == rkey_spec(canonical_url@),
        r@.len() == 52,
        forall|i: int| 0 <= i < r@.len() ==> rkey_safe(#[trigger] r@[i]),
{
    rkey_hash(canonical_url)
}

/// Record key for the `site.standard.publication`, derived from the site origin.
pub fn publication_rkey(site_url: &str) -> (r: String)
    ensures
        r@ == rkey_spec(site_url@),
        r@.len() == 52,
        forall|i: int| 0 <= i < r@.len() ==> rkey_safe(#[trigger] r@[i]),
{
    rkey_hash(site_url)
}

/// `at://{did}/{nsid}/{rkey}`.
pub open spec fn at_uri(did: Seq<char>, nsid: Seq<char>, rkey: Seq<char>) -> Seq<char> {
    seq!['a', 't', ':', '/', '/'] + did + seq!['/'] + nsid + seq!['/'] + rkey
}

fn make_at_uri(did: &str, nsid: &str, rkey: &str) -> (r: String)
    ensures
        r@ == at_uri(did@, nsid@, rkey@),
{
    let mut r = String::from_str("at://");
    r.append(did);
    r.append("/");
    r.append(nsid);
    r.append("/");
    r.append(rkey);
    proof {
        reveal_strlit("at://");
        reveal_strlit("/");
    }
    r
}

/// AT-URI of a doc's `site.standard.document` record.
pub fn document_uri(did: &str, canonical_url: &str) -> (r: String)
    ensures
        r@ == at_uri(did@, DOCUMENT_NSID@, rkey_spec(canonical_url@)),
{
    let rkey = document_rkey(canonical_url);
    make_at_uri(did, DOCUMENT_NSID, rkey.as_str())
}

/// AT-URI of the site's `site.standard.publication` record.
pub fn publication_uri(did: &str, site_url: &str) -> (r: String)
    ensures
        r@ == at_uri(did@, PUBLICATION_NSID@, rkey_spec(site_url@)),
{
    let rkey = publication_rkey(site_url);
    make_at_uri(did, PUBLICATION_NSID, rkey.as_str())
}

/// Site-root-relative path for a doc, e.g. `/blog/post/` or `/posts/p.html`.
pub fn canonical_path(doc: &Doc, base_path: &str) -> (r: String)
    ensures
        r@ == base_path@ + to_url_spec(doc.output_path@),
{
    let url = to_url(doc.output_path.as_str());
    concat(base_path, url.as_str())
}

/// Full canonical URL for a doc; the root-relative path when there is no
/// site origin.
pub fn canonical_url(doc: &Doc, site_url: Option<&str>, base_path: &str) -> (r: String)
    ensures
        site_url matches Some(o) ==> r@ == o@ + base_path@ + to_url_spec(doc.output_path@),
        site_url is None ==> r@ == base_path@ + to_url_spec(doc.output_path@),
{
    let path = canonical_path(doc, base_path);
    match site_url {
        Some(origin) => concat(origin, path.as_str()),
        None => path,
    }
}

/// A `site.standard.document` record.
pub struct Document {
    pub type_: &'static str,
    /// AT-URI of the owning `site.standard.publication` record.
    pub site: String,
    pub title: String,
    /// RFC3339, e.g. `2024-01-20T14:30:00.000Z`.
    pub published_at: String,
    pub updated_at: Option<String>,
    /// Site-root-relative path, e.g. `/blog/getting-started/`.
    pub path: Option<String>,
    pub description: Option<String>,
    pub cover_image: Option<BlobRef>,
    /// Full body as Markdown via the `at.markpub.markdown` open-union entry.
    pub content: Option<MarkdownContent>,
    /// Plaintext rendering of the body.
    pub text_content: Option<String>,
    pub tags: Vec<String>,
    /// Strong reference to the doc's Bluesky announcement post.
    pub bsky_post_ref: Option<StrongRef>,
}

/// A `com.atproto.repo.strongRef` — a plain `{uri, cid}` object.
pub struct StrongRef {
    pub uri: String,
    pub cid: String,
}

impl StrongRef {
    /// The strong reference to a recorded post.
    pub fn from(post: &PostRef) -> (r: StrongRef)
        ensures
            r.uri == post.uri,
            r.cid == post.cid,
    {
        StrongRef { uri: post.uri.clone(), cid: post.cid.clone() }
    }
}

/// An `at.markpub.markdown` content entry: the full document body as Markdown.
pub struct MarkdownContent {
    pub type_: &'static str,
    pub flavor: &'static str,
    pub rendering_rules: &'static str,
    pub text: MarkdownText,
}

/// The `at.markpub.text` object holding the raw Markdown string.
pub struct MarkdownText {
    pub type_: &'static str,
    pub markdown: String,
}

/// A `site.standard.publication` record (the site/blog itself).
pub struct Publication {
    pub type_: &'static str,
    pub url: String,
    pub name: String,
    pub description: Option<String>,
    pub icon: Option<BlobRef>,
    pub basic_theme: Option<BasicTheme>,
}

/// The `site.standard.theme.basic` object embedded on a [`Publication`].
pub struct BasicTheme {
    pub type_: &'static str,
    pub background: RgbColor,
    pub foreground: RgbColor,
    pub accent: RgbColor,
    pub accent_foreground: RgbColor,
}

/// A `site.standard.theme.color#rgb` object.
pub struct RgbColor {
    pub type_: &'static str,
    pub r: u8,
    pub g: u8,
    pub b: u8,
}

impl RgbColor {
    /// The record form of a config color.
    pub fn from(rgb: config::Rgb) -> (c: RgbColor)
        ensures
            c.type_@ == THEME_COLOR_RGB_NSID@,
            c.r == rgb.r && c.g == rgb.g && c.b == rgb.b,
    {
        RgbColor { type_: THEME_COLOR_RGB_NSID, r: rgb.r, g: rgb.g, b: rgb.b }
    }
}

/// The record color carries exactly the config color's channels.
pub open spec fn same_color(c: RgbColor, rgb: config::Rgb) -> bool {
    c.type_@ == THEME_COLOR_RGB_NSID@ && c.r == rgb.r && c.g == rgb.g && c.b == rgb.b
}

/// Map the config-side theme colors to the `site.standard.theme.basic` record
/// object.
pub fn basic_theme(theme: &config::BasicTheme) -> (t: BasicTheme)
    ensures
        t.type_@ == THEME_BASIC_NSID@,
        same_color(t.background, theme.background),
        same_color(t.foreground, theme.foreground),
        same_color(t.accent, theme.accent),
        same_color(t.accent_foreground, theme.accent_foreground),
{
    BasicTheme {
        type_: THEME_BASIC_NSID,
        background: RgbColor::from(theme.background),
        foreground: RgbColor::from(theme.foreground),
        accent: RgbColor::from(theme.accent),
        accent_foreground: RgbColor::from(theme.accent_foreground),
    }
}

/// The display-text-free keys (term slugs) of a taxonomy bucket.
pub open spec fn bucket_keys(bucket: Seq<(String, String)>) -> Seq<Seq<char>> {
    bucket.map_values(|e: (String, String)| e.0@)
}

/// The tag slugs of a doc: the keys of its `tags` taxonomy bucket.
pub open spec fn doc_tags(doc: &Doc) -> Seq<Seq<char>> {
    match lookup(doc.terms@, "tags"@) {
        Some(bucket) => bucket_keys(bucket@),
        None => Seq::empty(),
    }
}

fn tag_keys(doc: &Doc) -> (tags: Vec<String>)
    ensures
        tags@.map_values(|t: String| t@) == doc_tags(doc),
{
    let mut tags: Vec<String> = Vec::new();
    match find_key(&doc.terms, "tags") {
        Some(i) => {
            let bucket = &doc.terms[i].1;
            let mut j: usize = 0;
            while j < bucket.len()
                invariant
                    j <= bucket@.len(),
                    tags@.map_values(|t: String| t@) == bucket_keys(bucket@.take(j as int)),
                decreases bucket@.len() - j,
            {
                tags.push(bucket[j].0.clone());
                proof {
                    assert(bucket_keys(bucket@.take(j + 1)) =~= bucket_keys(bucket@.take(j as int)).push(
                        bucket@[j as int].0@,
                    ));
                    assert(tags@.map_values(|t: String| t@) =~= bucket_keys(bucket@.take(j as int)).push(
                        bucket@[j as int].0@,
                    ));
                }
                j = j + 1;
            }
            proof {
                assert(bucket@.take(bucket@.len() as int) =~= bucket@);
            }
        },
        None => {
            proof {
                assert(tags@.map_values(|t: String| t@) =~= Seq::<Seq<char>>::empty());
            }
        },
    }
    tags
}

/// Map a [`Doc`] to a `site.standard.document` record. `site_uri` is the
/// publication AT-URI; `cover` is the pre-uploaded cover blob (if any);
/// `bsky_post_ref` is the doc's announcement post (if one has been created).
pub fn document(
    doc: &Doc,
    site_uri: &str,
    base_path: &str,
    cover: Option<BlobRef>,
    bsky_post_ref: Option<StrongRef>,
) -> (r: Document)
    requires
        doc.wf(),
    ensures
        r.type_@ == DOCUMENT_NSID@,
        r.site@ == site_uri@,
        r.title@ == doc.title@,
        r.published_at@ == rfc3339_millis_of(doc.date.secs as int, doc.date.nanos as int),
        crate::doc::later(doc.updated, doc.date) ==> (r.updated_at matches Some(u) && u@
            == rfc3339_millis_of(doc.updated.secs as int, doc.updated.nanos as int)),
        !crate::doc::later(doc.updated, doc.date) ==> r.updated_at is None,
        r.path matches Some(p) && p@ == base_path@ + to_url_spec(doc.output_path@),
        doc.summary@.len() == 0 ==> r.description is None,
        doc.summary@.len() > 0 ==> (r.description matches Some(d) && d@ == doc.summary@),
        r.cover_image == cover,
        doc.markdown is None ==> r.content is None,
        doc.markdown matches Some(md) ==> (r.content matches Some(c) && c.type_@ == MARKDOWN_NSID@
            && c.flavor@ == "gfm"@ && c.rendering_rules@ == "comrak"@ && c.text.type_@
            == MARKDOWN_TEXT_NSID@ && c.text.markdown == md),
        trim_seq(strip_tags_spec(doc.content@)).len() == 0 ==> r.text_content is None,
        trim_seq(strip_tags_spec(doc.content@)).len() > 0 ==> (r.text_content matches Some(t) && t@
            == strip_tags_spec(doc.content@)),
        r.tags@.map_values(|t: String| t@) == doc_tags(doc),
        r.bsky_post_ref == bsky_post_ref,
{
    let text = strip_tags(doc.content.as_str());
    let trimmed = trim(text.as_str());
    let text_content = if trimmed.as_str().is_empty() {
        None
    } else {
        Some(text)
    };
    let description = if doc.summary.as_str().is_empty() {
        None
    } else {
        Some(doc.summary.clone())
    };
    let updated_at = if is_later(&doc.updated, &doc.date) {
        Some(rfc3339(&doc.updated))
    } else {
        None
    };
    let tags = tag_keys(doc);
    let content = match &doc.markdown {
        Some(md) => Some(
            MarkdownContent {
                type_: MARKDOWN_NSID,
                flavor: "gfm",
                rendering_rules: "comrak",
                text: MarkdownText { type_: MARKDOWN_TEXT_NSID, markdown: md.clone() },
            },
        ),
        None => None,
    };
    Document {
        type_: DOCUMENT_NSID,
        site: String::from_str(site_uri),
        title: doc.title.clone(),
        published_at: rfc3339(&doc.date),
        updated_at,
        path: Some(canonical_path(doc, base_path)),
        description,
        cover_image: cover,
        content,
        text_content,
        tags,
        bsky_post_ref,
    }
}

/// Build the `site.standard.publication` record from plain values.
pub fn publication(
    name: String,
    url: String,
    description: Option<String>,
    icon: Option<BlobRef>,
    basic_theme: Option<BasicTheme>,
) -> (p: Publication)
    ensures
        p.type_@ == PUBLICATION_NSID@,
        p.url == url,
        p.name == name,
        p.description == description,
        p.icon == icon,
        p.basic_theme == basic_theme,
{
    Publication { type_: PUBLICATION_NSID, url, name, description, icon, basic_theme }
}

} // verus!
