//! The URL filters' computations: a doc's URL by `id_path`, and the
//! composition of site URL, base path and page path.
use vstd::prelude::*;
use crate::atproto::cover::{strip_leading_slashes, strip_slashes};
use crate::doc::Doc;
use crate::index::Index;
use crate::paths::{paths_equal, same_path};
use crate::permalink::{to_url, to_url_spec};
use crate::text::opt_chars;

verus! {

/// The URL (`to_url` of the output path) of the first doc of `docs` whose
/// `id_path` is the same path as `id_path`.
pub open spec fn doc_url(docs: Seq<Doc>, id_path: Seq<char>) -> Option<Seq<char>>
    decreases docs.len(),
{
    if docs.len() == 0 {
        None
    } else if same_path(docs[0].id_path@, id_path) {
        Some(to_url_spec(docs[0].output_path@))
    } else {
        doc_url(docs.drop_first(), id_path)
    }
}

/// Resolve `id_path` to its doc's URL through a snapshot of the docs, or
/// `None` when no doc has that `id_path`.
pub fn lookup_from_metas(docs: &Vec<Doc>, id_path: &str) -> (r: Option<String>)
    ensures
        opt_chars(r) == doc_url(docs@, id_path@),
{
    let mut i: usize = 0;
    proof {
        assert(docs@.skip(0) =~= docs@);
    }
    while i < docs.len()
        invariant
            i <= docs@.len(),
            doc_url(docs@, id_path@) == doc_url(docs@.skip(i as int), id_path@),
        decreases docs@.len() - i,
    {
        proof {
            assert(docs@.skip(i as int).drop_first() =~= docs@.skip(i + 1));
            assert(docs@.skip(i as int)[0] == docs@[i as int]);
        }
        if paths_equal(docs[i].id_path.as_str(), id_path) {
            return Some(to_url(docs[i].output_path.as_str()));
        }
        i = i + 1;
    }
    None
}

/// Resolve `id_path` to its doc's URL through the shared index.
pub fn lookup_from_index(index: &Index, id_path: &str) -> (r: Option<String>)
    ensures
        opt_chars(r) == doc_url(index.docs@, id_path@),
{
    lookup_from_metas(&index.docs, id_path)
}

/// The error of a URL filter given an unknown `id_path`.
pub open spec fn missing_doc_msg(filter_name: Seq<char>, id_path: Seq<char>) -> Seq<char> {
    filter_name + " filter: no doc with id_path `"@ + id_path + "`"@
}

/// The looked-up URL, or the filter's error when there was none.
pub fn lookup_doc_url(found: Option<String>, id_path: &str, filter_name: &str) -> (r: Result<String, String>)
    ensures
        found matches Some(u) ==> r == Ok::<String, String>(u),
        found is None ==> (r matches Err(e) && e@ == missing_doc_msg(filter_name@, id_path@)),
{
    match found {
        Some(u) => Ok(u),
        None => {
            let mut e = String::from_str(filter_name);
            e.append(" filter: no doc with id_path `");
            e.append(id_path);
            e.append("`");
            Err(e)
        },
    }
}

/// The site URL, or nothing when the site has none.
pub open spec fn site_prefix(site_url: Option<&str>) -> Seq<char> {
    match site_url {
        Some(s) => s@,
        None => Seq::empty(),
    }
}

/// `permalink`: the doc's absolute URL, `site_url + base_path + doc_url`
/// (root-relative when there is no site URL).
pub fn permalink_filter(found: Option<String>, site_url: Option<&str>, base_path: &str, id_path: &str) -> (r: Result<String, String>)
    ensures
        found matches Some(u) ==> (r matches Ok(x) && x@ == site_prefix(site_url) + base_path@ + u@),
        found is None ==> (r matches Err(e) && e@ == missing_doc_msg("permalink"@, id_path@)),
{
    proof {
        reveal_strlit("permalink");
    }
    match lookup_doc_url(found, id_path, "permalink") {
        Ok(url) => {
            let mut out = match site_url {
                Some(s) => String::from_str(s),
                None => String::new(),
            };
            out.append(base_path);
            out.append(url.as_str());
            Ok(out)
        },
        Err(e) => Err(e),
    }
}

/// `link`: the doc's root-relative URL, `base_path + doc_url`.
pub fn link_filter(found: Option<String>, base_path: &str, id_path: &str) -> (r: Result<String, String>)
    ensures
        found matches Some(u) ==> (r matches Ok(x) && x@ == base_path@ + u@),
        found is None ==> (r matches Err(e) && e@ == missing_doc_msg("link"@, id_path@)),
{
    proof {
        reveal_strlit("link");
    }
    match lookup_doc_url(found, id_path, "link") {
        Ok(url) => {
            let mut out = String::from_str(base_path);
            out.append(url.as_str());
            Ok(out)
        },
        Err(e) => Err(e),
    }
}

/// `relative_url`: `base_path + "/" + path`, the path's leading `/`s dropped.
pub fn relative_url(base_path: &str, path: &str) -> (r: String)
    ensures
        r@ == base_path@ + seq!['/'] + strip_leading_slashes(path@),
{
    let stripped = strip_slashes(path);
    let mut out = String::from_str(base_path);
    out.append("/");
    out.append(stripped.as_str());
    proof {
        reveal_strlit("/");
    }
    out
}

/// `absolute_url`: `site_url + base_path + "/" + path`, the path's leading
/// `/`s dropped (root-relative when there is no site URL).
pub fn absolute_url(site_url: Option<&str>, base_path: &str, path: &str) -> (r: String)
    ensures
        r@ == site_prefix(site_url) + base_path@ + seq!['/'] + strip_leading_slashes(path@),
{
    let rel = relative_url(base_path, path);
    let mut out = match site_url {
        Some(s) => String::from_str(s),
        None => String::new(),
    };
    out.append(rel.as_str());
    out
}

} // verus!
