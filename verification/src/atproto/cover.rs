//! Cover-image resolution for the `site.standard.document` record's
//! `coverImage` blob: the page's `image:` frontmatter, else the site-wide
//! `site.image`, as a site-root-relative URL path looked up under the static
//! roots in priority order (site first, then theme).
use vstd::prelude::*;
use crate::doc::{data_get, lookup, Doc, Yaml};
use crate::text::{chars_of, has_prefix, join_path, path_join, starts_with, string_of_range, trim, trim_seq};

verus! {

/// How a doc's cover image resolved. Anything but `Resolved` skips the blob.
#[derive(Debug, PartialEq, Eq)]
pub enum Cover {
    /// A local file to upload, with the name of the field it came from
    /// (`"image: frontmatter"` / `"site.image"`).
    Resolved(String, &'static str),
    /// The selected field is an external URL — it can't be uploaded as a blob.
    External(String),
    /// The selected field's file exists under no static root: the raw field
    /// value and its source name.
    Missing(String, &'static str),
    /// No image field anywhere.
    Absent,
}

pub const IMAGE_SOURCE: &'static str = "image: frontmatter";
pub const SITE_IMAGE_SOURCE: &'static str = "site.image";

/// A trimmed, non-empty string field of the doc's raw frontmatter.
pub open spec fn data_field_spec(doc: Doc, key: Seq<char>) -> Option<Seq<char>> {
    match lookup(doc.data@, key) {
        Some(Yaml::Str(s)) => if trim_seq(s@).len() > 0 {
            Some(trim_seq(s@))
        } else {
            None
        },
        _ => None,
    }
}

/// A trimmed, non-empty string field of the doc's raw frontmatter.
pub fn data_field(doc: &Doc, key: &str) -> (r: Option<String>)
    ensures
        r matches Some(s) ==> data_field_spec(*doc, key@) == Some(s@),
        r is None ==> data_field_spec(*doc, key@) is None,
{
    match data_get(&doc.data, key) {
        Some(Yaml::Str(s)) => {
            let t = trim(s.as_str());
            if t.as_str().is_empty() {
                None
            } else {
                Some(t)
            }
        },
        _ => None,
    }
}

/// `http://`, `https://` and protocol-relative `//` URLs.
pub open spec fn external_spec(s: Seq<char>) -> bool {
    has_prefix(s, "http://"@) || has_prefix(s, "https://"@) || has_prefix(s, "//"@)
}

/// True for `http://`, `https://`, and protocol-relative `//` URLs.
pub fn is_external(s: &str) -> (r: bool)
    ensures
        r == external_spec(s@),
{
    starts_with(s, "http://") || starts_with(s, "https://") || starts_with(s, "//")
}

/// The image field that decides a doc's cover: `image:` frontmatter, else a
/// non-blank `site_image`, each with its source name.
pub open spec fn cover_field(doc: Doc, site_image: Option<Seq<char>>) -> Option<(Seq<char>, Seq<char>)> {
    match data_field_spec(doc, "image"@) {
        Some(raw) => Some((raw, IMAGE_SOURCE@)),
        None => match site_image {
            Some(s) => if trim_seq(s).len() > 0 {
                Some((trim_seq(s), SITE_IMAGE_SOURCE@))
            } else {
                None
            },
            None => None,
        },
    }
}

/// `s` without its leading `/`s (`trim_start_matches('/')`).
pub open spec fn strip_leading_slashes(s: Seq<char>) -> Seq<char>
    decreases s.len(),
{
    if s.len() > 0 && s[0] == '/' {
        strip_leading_slashes(s.drop_first())
    } else {
        s
    }
}

pub fn strip_slashes(s: &str) -> (r: String)
    ensures
        r@ == strip_leading_slashes(s@),
{
    let v = chars_of(s);
    let mut i: usize = 0;
    proof {
        assert(v@.subrange(0, v@.len() as int) =~= v@);
    }
    while i < v.len() && v[i] == '/'
        invariant
            i <= v@.len(),
            strip_leading_slashes(v@.subrange(i as int, v@.len() as int)) == strip_leading_slashes(
                v@,
            ),
        decreases v@.len() - i,
    {
        proof {
            assert(v@.subrange(i as int, v@.len() as int).drop_first() =~= v@.subrange(
                i + 1,
                v@.len() as int,
            ));
        }
        i = i + 1;
    }
    string_of_range(&v, i, v.len())
}

/// The relative path `raw` names under a static root.
pub open spec fn rel_path(raw: Seq<char>) -> Seq<char> {
    strip_leading_slashes(raw)
}

/// The file each static root would serve `raw` from, in lookup order.
pub fn candidate_paths(raw: &str, roots: &Vec<String>) -> (r: Vec<String>)
    ensures
        r@.len() == roots@.len(),
        forall|i: int| 0 <= i < r@.len() ==> (#[trigger] r@[i])@ == join_path(
            roots@[i]@,
            rel_path(raw@),
        ),
{
    let rel = strip_slashes(raw);
    let mut r: Vec<String> = Vec::new();
    let mut i: usize = 0;
    while i < roots.len()
        invariant
            i <= roots@.len(),
            rel@ == rel_path(raw@),
            r@.len() == i,
            forall|k: int| 0 <= k < i ==> (#[trigger] r@[k])@ == join_path(
                roots@[k]@,
                rel_path(raw@),
            ),
        decreases roots@.len() - i,
    {
        r.push(path_join(roots[i].as_str(), rel.as_str()));
        i = i + 1;
    }
    r
}

/// The view of an optional string.
pub open spec fn opt_view(o: Option<&str>) -> Option<Seq<char>> {
    match o {
        Some(s) => Some(s@),
        None => None,
    }
}

/// The files that would serve `doc`'s cover, one per static root in lookup
/// order — none when it has no cover field or the field is an external URL.
/// Whether each is a file is for the caller to find out (see [`resolve`]).
pub fn cover_candidates(doc: &Doc, site_image: Option<&str>, roots: &Vec<String>) -> (r: Vec<String>)
    ensures
        cover_field(*doc, opt_view(site_image)) matches Some((raw, source)) ==> (!external_spec(raw) ==> (
        r@.len() == roots@.len() && forall|i: int| 0 <= i < r@.len() ==> (#[trigger] r@[i])@ == join_path(
            roots@[i]@,
            rel_path(raw),
        ))),
        cover_field(*doc, opt_view(site_image)) is None ==> r@.len() == 0,
        cover_field(*doc, opt_view(site_image)) matches Some((raw, source)) ==> (external_spec(raw) ==> r@.len() == 0),
{
    let raw: String = match data_field(doc, "image") {
        Some(raw) => raw,
        None => match site_image {
            Some(s) => {
                let t = trim(s);
                if t.as_str().is_empty() {
                    return Vec::new();
                }
                t
            },
            None => {
                return Vec::new();
            },
        },
    };
    if is_external(raw.as_str()) {
        return Vec::new();
    }
    candidate_paths(raw.as_str(), roots)
}

/// Resolve a doc's cover: `image:` frontmatter → `site_image`. The first
/// present field wins; an external URL or a file under no root does not
/// cascade to the next field. `present[i]` tells whether `roots[i]` holds the
/// file (see [`candidate_paths`]); the first root that does serves it.
pub fn resolve(doc: &Doc, site_image: Option<&str>, roots: &Vec<String>, present: &Vec<bool>) -> (r:
    Cover)
    requires
        present@.len() == roots@.len(),
    ensures
        cover_field(*doc, opt_view(site_image)) is None ==> r is Absent,
        cover_field(*doc, opt_view(site_image)) matches Some((raw, source)) ==> (external_spec(raw)
            ==> (r matches Cover::External(u) && u@ == raw)),
        cover_field(*doc, opt_view(site_image)) matches Some((raw, source)) ==> (!external_spec(raw)
            && (exists|i: int| 0 <= i < present@.len() && present@[i]) ==> (r matches Cover::Resolved(
            p,
            s,
        ) && s@ == source && exists|i: int|
            0 <= i < present@.len() && present@[i] && (forall|k: int| 0 <= k < i ==> !present@[k])
                && p@ == join_path(roots@[i]@, rel_path(raw)))),
        cover_field(*doc, opt_view(site_image)) matches Some((raw, source)) ==> (!external_spec(raw)
            && !(exists|i: int| 0 <= i < present@.len() && present@[i]) ==> (r matches Cover::Missing(
            u,
            s,
        ) && u@ == raw && s@ == source)),
{
    let (raw, source): (String, &'static str) = match data_field(doc, "image") {
        Some(raw) => (raw, IMAGE_SOURCE),
        None => match site_image {
            Some(s) => {
                let t = trim(s);
                if t.as_str().is_empty() {
                    return Cover::Absent;
                }
                (t, SITE_IMAGE_SOURCE)
            },
            None => {
                return Cover::Absent;
            },
        },
    };
    if is_external(raw.as_str()) {
        return Cover::External(raw);
    }
    let paths = candidate_paths(raw.as_str(), roots);
    let mut i: usize = 0;
    while i < present.len()
        invariant
            i <= present@.len(),
            cover_field(*doc, opt_view(site_image)) == Some((raw@, source@)),
            !external_spec(raw@),
            forall|k: int| 0 <= k < paths@.len() ==> (#[trigger] paths@[k])@ == join_path(
                roots@[k]@,
                rel_path(raw@),
            ),
            present@.len() == roots@.len(),
            paths@.len() == roots@.len(),
            forall|k: int| 0 <= k < i ==> !present@[k],
        decreases present@.len() - i,
    {
        if present[i] {
            let p = paths[i].clone();
            proof {
                let w = i as int;
                assert(p@ == join_path(roots@[w]@, rel_path(raw@)));
                assert(exists|j: int|
                    0 <= j < present@.len() && present@[j] && (forall|k: int|
                        0 <= k < j ==> !present@[k]) && p@ == join_path(roots@[j]@, rel_path(raw@)));
            }
            return Cover::Resolved(p, source);
        }
        i = i + 1;
    }
    Cover::Missing(raw, source)
}

} // verus!
