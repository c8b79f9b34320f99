//! Co-located media resolution: references to media files that sit next to
//! the content are rewritten to root-relative, base-path-aware URLs of the
//! mirrored asset. Standard markdown refs resolve relative to the note's
//! directory; Obsidian embeds `![[…]]` and attachment links `[[…]]` resolve by
//! slugified file name across the vault — an optional `dir/` prefix must
//! match the end of the asset's directory, then the nearest directory wins,
//! then the path that sorts first.
use vstd::prelude::*;
use crate::atproto::{last_slash_end, lemma_last_slash_end_bounds};
use crate::doc::Doc;
use crate::html::{escape, escape_spec};
use crate::paths::{
    comps_less, dir_distance, distance, file_name, file_name_of, normal_components, normal_parts,
    normalize, normalize_spec, parent, parent_segments, path_less, path_segments, segments,
};
use crate::text::{join, join_path, join_seq, path_join, trim, trim_seq};
use crate::slug::{slugify, slugify_spec};
use crate::text::{chars_of, has_prefix, starts_with, starts_with_at, str_eq, string_of_range, views};

verus! {

/// Lookup tables over the vault's co-located media: every asset's
/// `content/`-relative path, and beside it the slug of its file name.
pub struct AssetIndex {
    pub paths: Vec<String>,
    pub names: Vec<Option<String>>,
}

/// The slug of a path's file name.
pub open spec fn name_slug(p: Seq<char>) -> Option<Seq<char>> {
    match file_name(p) {
        Some(n) => Some(slugify_spec(n)),
        None => None,
    }
}

impl AssetIndex {
    /// Each name is the slug of its path's file name.
    pub open spec fn wf(&self) -> bool {
        &&& self.paths@.len() == self.names@.len()
        &&& forall|i: int|
            0 <= i < self.paths@.len() ==> match #[trigger] self.names@[i] {
                Some(n) => name_slug(self.paths@[i]@) == Some(n@),
                None => name_slug(self.paths@[i]@) is None,
            }
    }

    /// Build the lookup tables from the read phase's asset list.
    pub fn build(assets: &Vec<String>) -> (a: AssetIndex)
        ensures
            a.wf(),
            views(a.paths@) == views(assets@),
    {
        let mut paths: Vec<String> = Vec::new();
        let mut names: Vec<Option<String>> = Vec::new();
        let mut i: usize = 0;
        while i < assets.len()
            invariant
                i <= assets@.len(),
                paths@.len() == i,
                names@.len() == i,
                forall|k: int| 0 <= k < i ==> (#[trigger] paths@[k])@ == assets@[k]@,
                forall|k: int|
                    0 <= k < i ==> match #[trigger] names@[k] {
                        Some(n) => name_slug(paths@[k]@) == Some(n@),
                        None => name_slug(paths@[k]@) is None,
                    },
            decreases assets@.len() - i,
        {
            let name = match file_name_of(assets[i].as_str()) {
                Some(n) => Some(slugify(n.as_str())),
                None => None,
            };
            paths.push(assets[i].clone());
            names.push(name);
            i = i + 1;
        }
        let a = AssetIndex { paths, names };
        proof {
            assert(views(a.paths@) =~= views(assets@));
        }
        a
    }

    /// No assets at all.
    pub fn is_empty(&self) -> (r: bool)
        ensures
            r == (self.paths@.len() == 0),
    {
        self.paths.len() == 0
    }
}

/// A link target split into its optional `dir/` prefix and its name.
pub open spec fn split_prefix_stem(target: Seq<char>) -> (Option<Seq<char>>, Seq<char>) {
    let e = last_slash_end(target);
    if e == 0 {
        (None, target)
    } else {
        (Some(target.take(e - 1)), target.skip(e))
    }
}

fn split_target(target: &str) -> (r: (Option<String>, String))
    ensures
        split_prefix_stem(target@).0 is None ==> r.0 is None,
        split_prefix_stem(target@).0 matches Some(p) ==> (r.0 matches Some(x) && x@ == p),
        r.1@ == split_prefix_stem(target@).1,
{
    let v = chars_of(target);
    let mut i = v.len();
    proof {
        assert(v@.take(v@.len() as int) =~= v@);
    }
    while i > 0 && v[i - 1] != '/'
        invariant
            i <= v@.len(),
            last_slash_end(v@.take(i as int)) == last_slash_end(v@),
        decreases i,
    {
        proof {
            assert(v@.take(i as int).drop_last() =~= v@.take(i - 1));
        }
        i = i - 1;
    }
    proof {
        if i > 0 {
            assert(v@.take(i as int).last() == '/');
        }
        lemma_last_slash_end_bounds(v@);
    }
    if i == 0 {
        (None, String::from_str(target))
    } else {
        let prefix = string_of_range(&v, 0, i - 1);
        let stem = string_of_range(&v, i, v.len());
        proof {
            assert(v@.subrange(0, i - 1) =~= v@.take(i - 1));
            assert(v@.subrange(i as int, v@.len() as int) =~= v@.skip(i as int));
        }
        (Some(prefix), stem)
    }
}

/// The prefix's components end the candidate's directory components.
pub open spec fn prefix_matches(cand_dir: Seq<Seq<char>>, prefix: Seq<char>) -> bool {
    let p = segments(prefix);
    p.len() <= cand_dir.len() && cand_dir.skip(cand_dir.len() - p.len()) == p
}

fn prefix_matches_exec(cand_dir: &Vec<String>, prefix: &str) -> (r: bool)
    ensures
        r == prefix_matches(views(cand_dir@), prefix@),
{
    let p = path_segments(prefix);
    if p.len() > cand_dir.len() {
        return false;
    }
    let off = cand_dir.len() - p.len();
    let mut k: usize = 0;
    while k < p.len()
        invariant
            k <= p@.len(),
            off + p@.len() == cand_dir@.len(),
            cand_dir@.len() <= usize::MAX,
            views(p@) == segments(prefix@),
            forall|q: int| 0 <= q < k ==> (#[trigger] cand_dir@[off + q])@ == p@[q]@,
        decreases p@.len() - k,
    {
        if !str_eq(cand_dir[off + k].as_str(), p[k].as_str()) {
            proof {
                assert(views(cand_dir@).skip(off as int)[k as int] == cand_dir@[off + k]@);
                assert(views(cand_dir@).skip(off as int)[k as int] != views(p@)[k as int]);
            }
            return false;
        }
        k = k + 1;
    }
    proof {
        assert(views(cand_dir@).skip(off as int) =~= views(p@)) by {
            assert forall|q: int| 0 <= q < p@.len() implies views(cand_dir@).skip(off as int)[q] == views(p@)[q] by {
                assert(cand_dir@[off + q]@ == p@[q]@);
            }
        }
    }
    true
}

/// Whether asset `i` is a candidate for the name slug and optional prefix.
pub open spec fn candidate(assets: AssetIndex, i: int, slug: Seq<char>, prefix: Option<Seq<char>>) -> bool {
    &&& assets.names@[i] matches Some(n) && n@ == slug
    &&& match prefix {
        Some(p) => prefix_matches(parent(assets.paths@[i]@), p),
        None => true,
    }
}

/// The best of the first `n` assets for a reference from a note in
/// `src_dir`: the nearest candidate, ties going to the path that sorts
/// first, earlier assets kept on exact ties. Gives the index and distance.
pub open spec fn best_of(
    assets: AssetIndex,
    slug: Seq<char>,
    prefix: Option<Seq<char>>,
    src_dir: Seq<Seq<char>>,
    n: int,
) -> Option<(int, int)>
    decreases n,
{
    if n <= 0 {
        None
    } else {
        let prev = best_of(assets, slug, prefix, src_dir, n - 1);
        let i = n - 1;
        if !candidate(assets, i, slug, prefix) {
            prev
        } else {
            let d = distance(src_dir, parent(assets.paths@[i]@));
            match prev {
                None => Some((i, d)),
                Some((b, bd)) => if d < bd || (d == bd && comps_less(
                    segments(assets.paths@[i]@),
                    segments(assets.paths@[b]@),
                )) {
                    Some((i, d))
                } else {
                    Some((b, bd))
                },
            }
        }
    }
}

/// The asset a `[[…]]`/`![[…]]` target names, by slugified full file name.
pub open spec fn resolve_by_name_spec(target: Seq<char>, source_id: Seq<char>, assets: AssetIndex) -> Option<Seq<char>> {
    let (prefix, name) = split_prefix_stem(target);
    let slug = slugify_spec(name);
    if slug.len() == 0 {
        None
    } else {
        match best_of(assets, slug, prefix, parent(source_id), assets.paths@.len() as int) {
            Some((i, _)) => Some(assets.paths@[i]@),
            None => None,
        }
    }
}

proof fn lemma_best_of_range(
    assets: AssetIndex,
    slug: Seq<char>,
    prefix: Option<Seq<char>>,
    src_dir: Seq<Seq<char>>,
    n: int,
)
    ensures
        best_of(assets, slug, prefix, src_dir, n) matches Some((i, d)) ==> 0 <= i < n && d == distance(
            src_dir,
            parent(assets.paths@[i]@),
        ),
    decreases n,
{
    if n > 0 {
        lemma_best_of_range(assets, slug, prefix, src_dir, n - 1);
    }
}

/// Resolve a `[[…]]`/`![[…]]` target to an asset by slugified full file
/// name, mirroring wikilink resolution: optional `dir/Name` prefix, then
/// minimum directory distance to the source, then the smallest path.
pub fn resolve_by_name(target: &str, source_id: &str, assets: &AssetIndex) -> (r: Option<String>)
    requires
        assets.wf(),
    ensures
        r matches Some(p) ==> resolve_by_name_spec(target@, source_id@, *assets) == Some(p@),
        r is None ==> resolve_by_name_spec(target@, source_id@, *assets) is None,
{
    let (prefix, name) = split_target(target);
    let name_slug = slugify(name.as_str());
    if name_slug.as_str().is_empty() {
        return None;
    }
    let ghost pv = match &prefix {
        Some(p) => Some(p@),
        None => None,
    };
    let source_dir = parent_segments(source_id);
    let mut best: Option<(usize, u128)> = None;
    let mut i: usize = 0;
    while i < assets.paths.len()
        invariant
            i <= assets.paths@.len(),
            assets.wf(),
            views(source_dir@) == parent(source_id@),
            pv == split_prefix_stem(target@).0,
            (prefix is None) == (pv is None),
            prefix matches Some(p) ==> pv == Some(p@),
            match best {
                None => best_of(*assets, name_slug@, pv, views(source_dir@), i as int) is None,
                Some((b, bd)) => best_of(*assets, name_slug@, pv, views(source_dir@), i as int) == Some(
                    (b as int, bd as int),
                ),
            },
        decreases assets.paths@.len() - i,
    {
        proof {
            lemma_best_of_range(*assets, name_slug@, pv, views(source_dir@), i as int);
        }
        let is_candidate = match &assets.names[i] {
            Some(n) => str_eq(n.as_str(), name_slug.as_str()),
            None => false,
        };
        if is_candidate {
            let cand_dir = parent_segments(assets.paths[i].as_str());
            let prefix_ok = match &prefix {
                Some(p) => prefix_matches_exec(&cand_dir, p.as_str()),
                None => true,
            };
            if prefix_ok {
                let dist = dir_distance(&source_dir, &cand_dir);
                best = match best {
                    None => Some((i, dist)),
                    Some((b, bd)) => {
                        if dist < bd || (dist == bd && path_less(assets.paths[i].as_str(), assets.paths[b].as_str())) {
                            Some((i, dist))
                        } else {
                            Some((b, bd))
                        }
                    },
                };
            }
        }
        i = i + 1;
    }
    proof {
        lemma_best_of_range(*assets, name_slug@, pv, views(source_dir@), i as int);
    }
    match best {
        Some((b, _)) => Some(assets.paths[b].clone()),
        None => None,
    }
}

/// A `:` comes before any `/` (the URL carries a scheme).
pub open spec fn colon_before_slash(s: Seq<char>) -> bool
    decreases s.len(),
{
    if s.len() == 0 || s[0] == '/' {
        false
    } else if s[0] == ':' {
        true
    } else {
        colon_before_slash(s.drop_first())
    }
}

/// URLs never rewritten: protocol-relative (`//host/…`), or carrying a
/// scheme — a `:` before the first `/` (`mailto:x`, `https://…`).
pub open spec fn external_url(s: Seq<char>) -> bool {
    has_prefix(s, "//"@) || colon_before_slash(s)
}

/// True for URLs we must never rewrite: those carrying a scheme (`https:`,
/// `mailto:`, `data:`, …) or protocol-relative (`//host/…`).
pub fn is_external(url: &str) -> (r: bool)
    ensures
        r == external_url(url@),
{
    if starts_with(url, "//") {
        return true;
    }
    let v = chars_of(url);
    let mut i: usize = 0;
    proof {
        assert(v@.skip(0) =~= v@);
    }
    while i < v.len() && v[i] != ':' && v[i] != '/'
        invariant
            i <= v@.len(),
            v@ == url@,
            colon_before_slash(v@) == colon_before_slash(v@.skip(i as int)),
        decreases v@.len() - i,
    {
        proof {
            assert(v@.skip(i as int).drop_first() =~= v@.skip(i + 1));
            assert(v@.skip(i as int)[0] == v@[i as int]);
        }
        i = i + 1;
    }
    proof {
        if i < v.len() {
            assert(v@.skip(i as int)[0] == v@[i as int]);
        }
    }
    i < v.len() && v[i] == ':'
}

/// Index of the first occurrence of `pat` in `s` (-1 when there is none).
pub open spec fn find_from(s: Seq<char>, pat: Seq<char>) -> int
    decreases s.len(),
{
    if has_prefix(s, pat) {
        0
    } else if s.len() == 0 {
        -1
    } else {
        let r = find_from(s.drop_first(), pat);
        if r < 0 {
            -1
        } else {
            r + 1
        }
    }
}

/// A found pattern lies within the string and starts where it was found.
pub proof fn lemma_find_from_bounds(s: Seq<char>, pat: Seq<char>)
    requires
        pat.len() > 0,
    ensures
        -1 <= find_from(s, pat),
        find_from(s, pat) >= 0 ==> find_from(s, pat) + pat.len() <= s.len() && has_prefix(
            s.skip(find_from(s, pat)),
            pat,
        ),
    decreases s.len(),
{
    if !has_prefix(s, pat) && s.len() > 0 {
        lemma_find_from_bounds(s.drop_first(), pat);
        let r = find_from(s.drop_first(), pat);
        if r >= 0 {
            assert(s.skip(r + 1) =~= s.drop_first().skip(r));
        }
    } else if has_prefix(s, pat) {
        assert(s.skip(0) =~= s);
    }
}

/// The first occurrence of `pat` at or after `from`, as an absolute index.
fn find_at(v: &Vec<char>, from: usize, pat: &str) -> (r: Option<usize>)
    requires
        from <= v@.len(),
        pat@.len() > 0,
    ensures
        find_from(v@.skip(from as int), pat@) < 0 <==> r is None,
        r matches Some(i) ==> from <= i && i - from == find_from(v@.skip(from as int), pat@) && i + pat@.len() <= v@.len(),
{
    let mut i = from;
    proof {
        lemma_find_from_bounds(v@.skip(from as int), pat@);
    }
    while i < v.len()
        invariant
            from <= i <= v@.len(),
            pat@.len() > 0,
            find_from(v@.skip(from as int), pat@) == if find_from(v@.skip(i as int), pat@) < 0 {
                -1
            } else {
                (i - from) + find_from(v@.skip(i as int), pat@)
            },
        decreases v@.len() - i,
    {
        proof {
            assert(v@.subrange(i as int, v@.len() as int) =~= v@.skip(i as int));
        }
        if starts_with_at(v, i, pat) {
            return Some(i);
        }
        proof {
            assert(v@.skip(i as int).drop_first() =~= v@.skip(i + 1));
        }
        i = i + 1;
    }
    proof {
        assert(v@.skip(i as int).len() == 0);
        assert(!has_prefix(v@.skip(i as int), pat@));
    }
    None
}

/// A URL's path portion and its trailing `#fragment`/`?query` suffix
/// (whichever comes first).
pub open spec fn suffix_start(s: Seq<char>) -> int
    decreases s.len(),
{
    if s.len() == 0 || s[0] == '#' || s[0] == '?' {
        0
    } else {
        1 + suffix_start(s.drop_first())
    }
}

proof fn lemma_suffix_start_bounds(s: Seq<char>)
    ensures
        0 <= suffix_start(s) <= s.len(),
    decreases s.len(),
{
    if !(s.len() == 0 || s[0] == '#' || s[0] == '?') {
        lemma_suffix_start_bounds(s.drop_first());
    }
}

/// Split a URL into its path portion and its `#`/`?` suffix.
pub fn split_suffix(url: &str) -> (r: (String, String))
    ensures
        r.0@ == url@.take(suffix_start(url@)),
        r.1@ == url@.skip(suffix_start(url@)),
{
    let v = chars_of(url);
    let mut i: usize = 0;
    proof {
        assert(v@.skip(0) =~= v@);
        lemma_suffix_start_bounds(v@);
    }
    while i < v.len() && v[i] != '#' && v[i] != '?'
        invariant
            i <= v@.len(),
            suffix_start(v@) == i + suffix_start(v@.skip(i as int)),
        decreases v@.len() - i,
    {
        proof {
            assert(v@.skip(i as int).drop_first() =~= v@.skip(i + 1));
            assert(v@.skip(i as int)[0] == v@[i as int]);
        }
        i = i + 1;
    }
    proof {
        if i < v.len() {
            assert(v@.skip(i as int)[0] == v@[i as int]);
        }
        assert(v@.subrange(0, i as int) =~= v@.take(i as int));
        assert(v@.subrange(i as int, v@.len() as int) =~= v@.skip(i as int));
    }
    (string_of_range(&v, 0, i), string_of_range(&v, i, v.len()))
}

/// Index of the last `.` in `s` (-1 when there is none).
pub open spec fn last_dot(s: Seq<char>) -> int
    decreases s.len(),
{
    if s.len() == 0 {
        -1
    } else if s.last() == '.' {
        s.len() - 1
    } else {
        last_dot(s.drop_last())
    }
}

proof fn lemma_last_dot_bounds(s: Seq<char>)
    ensures
        -1 <= last_dot(s) < s.len(),
        last_dot(s) >= 0 ==> s[last_dot(s)] == '.',
    decreases s.len(),
{
    if s.len() > 0 && s.last() != '.' {
        lemma_last_dot_bounds(s.drop_last());
    }
}

/// A path's extension (`Path::extension`): what follows the last `.` of the
/// file name, unless that `.` starts the name.
pub open spec fn extension(p: Seq<char>) -> Option<Seq<char>> {
    match file_name(p) {
        Some(n) => if last_dot(n) <= 0 {
            None
        } else {
            Some(n.skip(last_dot(n) + 1))
        },
        None => None,
    }
}

/// Extensions rendered as inline images for embeds.
pub open spec fn image_ext(e: Seq<char>) -> bool {
    let l = e.map_values(|c: char| crate::text::ascii_lower(c));
    l == "png"@ || l == "jpg"@ || l == "jpeg"@ || l == "gif"@ || l == "webp"@ || l == "svg"@
        || l == "avif"@ || l == "bmp"@ || l == "ico"@
}

fn lower_ascii_from(v: &Vec<char>, from: usize) -> (r: String)
    requires
        from <= v@.len(),
    ensures
        r@ == v@.skip(from as int).map_values(|c: char| crate::text::ascii_lower(c)),
{
    let mut ext = String::new();
    let mut k = from;
    while k < v.len()
        invariant
            from <= k <= v@.len(),
            ext@ == v@.subrange(from as int, k as int).map_values(|c: char| crate::text::ascii_lower(c)),
        decreases v@.len() - k,
    {
        let c = v[k];
        let lc = if 'A' <= c && c <= 'Z' {
            ((c as u8) + 32) as char
        } else {
            c
        };
        proof {
            if 'A' <= c && c <= 'Z' {
                assert((c as u8) as u32 == c as u32);
            }
            assert(lc == crate::text::ascii_lower(c));
        }
        crate::text::push_char(&mut ext, lc);
        proof {
            assert(v@.subrange(from as int, k + 1).map_values(|c: char| crate::text::ascii_lower(c)) =~= v@.subrange(
                from as int,
                k as int,
            ).map_values(|c: char| crate::text::ascii_lower(c)).push(crate::text::ascii_lower(c)));
        }
        k = k + 1;
    }
    proof {
        assert(v@.subrange(from as int, v@.len() as int) =~= v@.skip(from as int));
    }
    ext
}

fn last_dot_end(v: &Vec<char>) -> (i: usize)
    ensures
        i as int == last_dot(v@) + 1,
        i <= v@.len(),
{
    let mut i = v.len();
    proof {
        assert(v@.take(v@.len() as int) =~= v@);
    }
    while i > 0 && v[i - 1] != '.'
        invariant
            i <= v@.len(),
            last_dot(v@.take(i as int)) == last_dot(v@),
        decreases i,
    {
        proof {
            assert(v@.take(i as int).drop_last() =~= v@.take(i - 1));
        }
        i = i - 1;
    }
    proof {
        lemma_last_dot_bounds(v@);
        if i > 0 {
            assert(v@.take(i as int).last() == '.');
        } else {
            assert(v@.take(0).len() == 0);
        }
    }
    i
}

fn is_image_ext(e: &str) -> (r: bool)
    ensures
        r == (e@ == "png"@ || e@ == "jpg"@ || e@ == "jpeg"@ || e@ == "gif"@ || e@ == "webp"@ || e@
            == "svg"@ || e@ == "avif"@ || e@ == "bmp"@ || e@ == "ico"@),
{
    str_eq(e, "png") || str_eq(e, "jpg") || str_eq(e, "jpeg") || str_eq(e, "gif") || str_eq(e, "webp")
        || str_eq(e, "svg") || str_eq(e, "avif") || str_eq(e, "bmp") || str_eq(e, "ico")
}

/// Whether the path names an image (by case-insensitive extension).
pub fn is_image(path: &str) -> (r: bool)
    ensures
        r == (extension(path@) matches Some(e) && image_ext(e)),
{
    let name = match file_name_of(path) {
        Some(n) => n,
        None => {
            return false;
        },
    };
    let v = chars_of(name.as_str());
    let i = last_dot_end(&v);
    if i <= 1 {
        return false;
    }
    let ext = lower_ascii_from(&v, i);
    is_image_ext(ext.as_str())
}

/// `s` without its trailing `/`s (`trim_end_matches('/')`).
pub open spec fn strip_trailing_slashes(s: Seq<char>) -> Seq<char>
    decreases s.len(),
{
    if s.len() > 0 && s.last() == '/' {
        strip_trailing_slashes(s.drop_last())
    } else {
        s
    }
}

fn strip_trailing(s: &str) -> (r: String)
    ensures
        r@ == strip_trailing_slashes(s@),
{
    let v = chars_of(s);
    let mut i = v.len();
    proof {
        assert(v@.take(v@.len() as int) =~= v@);
    }
    while i > 0 && v[i - 1] == '/'
        invariant
            i <= v@.len(),
            strip_trailing_slashes(v@.take(i as int)) == strip_trailing_slashes(v@),
        decreases i,
    {
        proof {
            assert(v@.take(i as int).drop_last() =~= v@.take(i - 1));
        }
        i = i - 1;
    }
    proof {
        assert(v@.subrange(0, i as int) =~= v@.take(i as int));
    }
    string_of_range(&v, 0, i)
}

/// The mirrored output URL of an asset: the base path (trailing slashes
/// dropped), `/`, then the asset's normal components joined by `/`.
pub open spec fn asset_url_spec(id: Seq<char>, base_path: Seq<char>) -> Seq<char> {
    strip_trailing_slashes(base_path) + "/"@ + join_seq(normal_parts(segments(id)), "/"@)
}

/// The mirrored output URL for an asset — root-relative, so correct
/// wherever the referencing page lands.
pub fn asset_url(id_path: &str, base_path: &str) -> (r: String)
    ensures
        r@ == asset_url_spec(id_path@, base_path@),
{
    let mut r = strip_trailing(base_path);
    r.append("/");
    r.append(join(&normal_components(id_path), "/").as_str());
    r
}

/// `<a class="…" href="…">label</a>`, every part escaped.
pub open spec fn anchor_spec(url: Seq<char>, label: Seq<char>, class: Seq<char>) -> Seq<char> {
    "<a class=\""@ + escape_spec(class) + "\" href=\""@ + escape_spec(url) + "\">"@ + escape_spec(label)
        + "</a>"@
}

pub fn render_anchor(url: &str, label: &str, class: &str) -> (r: String)
    ensures
        r@ == anchor_spec(url@, label@, class@),
{
    let mut r = String::from_str("<a class=\"");
    r.append(escape(class).as_str());
    r.append("\" href=\"");
    r.append(escape(url).as_str());
    r.append("\">");
    r.append(escape(label).as_str());
    r.append("</a>");
    r
}

/// The anchor an attachment wikilink becomes: a link to the asset's URL,
/// labelled with the link's own text, or with the target when it has none.
pub fn wikilink_anchor(id_path: &str, target: &str, display: &str, base_path: &str) -> (r: String)
    ensures
        r@ == anchor_spec(
            asset_url_spec(id_path@, base_path@),
            if display@.len() == 0 { target@ } else { display@ },
            "wikilink"@,
        ),
{
    let url = asset_url(id_path, base_path);
    let label = if display.is_empty() { target } else { display };
    render_anchor(url.as_str(), label, "wikilink")
}

/// A resolved embed: an `<img>` for image extensions, otherwise a download
/// link.
pub open spec fn embed_spec(id: Seq<char>, label: Seq<char>, base_path: Seq<char>) -> Seq<char> {
    let url = asset_url_spec(id, base_path);
    if extension(id) matches Some(e) && image_ext(e) {
        "<img class=\"embed\" src=\""@ + escape_spec(url) + "\" alt=\""@ + escape_spec(label) + "\">"@
    } else {
        anchor_spec(url, label, "embed"@)
    }
}

pub fn render_embed(id: &str, label: &str, base_path: &str) -> (r: String)
    ensures
        r@ == embed_spec(id@, label@, base_path@),
{
    let url = asset_url(id, base_path);
    if is_image(id) {
        let mut r = String::from_str("<img class=\"embed\" src=\"");
        r.append(escape(url.as_str()).as_str());
        r.append("\" alt=\"");
        r.append(escape(label).as_str());
        r.append("\">");
        r
    } else {
        render_anchor(url.as_str(), label, "embed")
    }
}

/// The components of a path string's parent directory, joined by `/`.
pub open spec fn parent_path(id: Seq<char>) -> Seq<char> {
    join_seq(parent(id), "/"@)
}

/// A relative markdown URL resolved against the note's directory: the
/// rewritten root-relative URL (keeping any `#`/`?` suffix) when it lands
/// on a known asset; `None` for external, root-absolute and unmatched refs.
pub open spec fn resolve_relative_spec(url: Seq<char>, source_id: Seq<char>, assets: AssetIndex, base_path: Seq<char>) -> Option<Seq<char>> {
    let path_part = url.take(suffix_start(url));
    let suffix = url.skip(suffix_start(url));
    if path_part.len() == 0 || external_url(path_part) || path_part[0] == '/' {
        None
    } else {
        match normalize_spec(join_path(parent_path(source_id), path_part)) {
            None => None,
            Some(n) => if exists|i: int| 0 <= i < assets.paths@.len() && segments(#[trigger] assets.paths@[i]@) == segments(n) {
                Some(asset_url_spec(n, base_path) + suffix)
            } else {
                None
            },
        }
    }
}

fn same_components(a: &str, b: &str) -> (r: bool)
    ensures
        r == (segments(a@) == segments(b@)),
{
    let x = path_segments(a);
    let y = path_segments(b);
    if x.len() != y.len() {
        proof {
            assert(views(x@).len() != views(y@).len());
        }
        return false;
    }
    let mut k: usize = 0;
    while k < x.len()
        invariant
            k <= x@.len(),
            x@.len() == y@.len(),
            views(x@) == segments(a@),
            views(y@) == segments(b@),
            forall|q: int| 0 <= q < k ==> (#[trigger] x@[q])@ == y@[q]@,
        decreases x@.len() - k,
    {
        if !str_eq(x[k].as_str(), y[k].as_str()) {
            proof {
                assert(views(x@)[k as int] != views(y@)[k as int]);
            }
            return false;
        }
        k = k + 1;
    }
    proof {
        assert(views(x@) =~= views(y@));
    }
    true
}

fn known_asset(assets: &AssetIndex, n: &str) -> (r: bool)
    ensures
        r == exists|i: int| 0 <= i < assets.paths@.len() && segments(#[trigger] assets.paths@[i]@) == segments(n@),
{
    let mut i: usize = 0;
    while i < assets.paths.len()
        invariant
            i <= assets.paths@.len(),
            forall|q: int| 0 <= q < i ==> segments(#[trigger] assets.paths@[q]@) != segments(n@),
        decreases assets.paths@.len() - i,
    {
        if same_components(assets.paths[i].as_str(), n) {
            return true;
        }
        i = i + 1;
    }
    false
}

/// Resolve a relative markdown `url` against the source note's directory.
pub fn resolve_relative(url: &str, source: &Doc, assets: &AssetIndex, base_path: &str) -> (r: Option<String>)
    ensures
        r matches Some(x) ==> resolve_relative_spec(url@, source.id_path@, *assets, base_path@) == Some(x@),
        r is None ==> resolve_relative_spec(url@, source.id_path@, *assets, base_path@) is None,
{
    let (path_part, suffix) = split_suffix(url);
    if path_part.as_str().is_empty() || is_external(path_part.as_str()) || starts_with(path_part.as_str(), "/") {
        proof {
            reveal_strlit("/");
            if path_part@.len() > 0 && !external_url(path_part@) {
                assert(has_prefix(path_part@, "/"@));
                assert(path_part@.subrange(0, 1) == "/"@);
                assert(path_part@.subrange(0, 1)[0] == path_part@[0]);
                assert(path_part@[0] == '/');
            }
        }
        return None;
    }
    proof {
        reveal_strlit("/");
        if path_part@[0] == '/' {
            assert(path_part@.subrange(0, 1) =~= "/"@);
        }
        assert(path_part@[0] != '/');
    }
    let parent_dirs = parent_segments(source.id_path.as_str());
    let dir = join(&parent_dirs, "/");
    proof {
        assert(dir@ == parent_path(source.id_path@));
    }
    let joined = path_join(dir.as_str(), path_part.as_str());
    let normalized = match normalize(joined.as_str()) {
        Some(n) => n,
        None => {
            return None;
        },
    };
    if known_asset(assets, normalized.as_str()) {
        let mut r = asset_url(normalized.as_str(), base_path);
        r.append(suffix.as_str());
        Some(r)
    } else {
        None
    }
}

/// The opener and closer of an Obsidian embed.
pub open spec fn embed_open() -> Seq<char> {
    seq!['!', '[', '[']
}

pub open spec fn embed_close() -> Seq<char> {
    seq![']', ']']
}

/// An embed's inner text split at its first `|` into target and alias, both
/// trimmed.
pub open spec fn split_alias(inner: Seq<char>) -> (Seq<char>, Option<Seq<char>>) {
    let b = find_from(inner, seq!['|']);
    if b < 0 {
        (trim_seq(inner), None)
    } else {
        (trim_seq(inner.take(b)), Some(trim_seq(inner.skip(b + 1))))
    }
}

/// Expand the embeds of `rest`: the output text and whether any embed
/// resolved. Unresolved embeds stay literal; literal text is escaped.
pub open spec fn embeds_from(rest: Seq<char>, source_id: Seq<char>, assets: AssetIndex, base_path: Seq<char>) -> (Seq<char>, bool)
    decreases rest.len(),
{
    let start = find_from(rest, embed_open());
    if start < 0 {
        (escape_spec(rest), false)
    } else {
        let after = rest.skip(start + 3);
        let end = find_from(after, embed_close());
        if end < 0 {
            (escape_spec(rest), false)
        } else {
            proof {
                lemma_find_from_bounds(rest, embed_open());
                lemma_find_from_bounds(after, embed_close());
            }
            let (target, alias) = split_alias(after.take(end));
            let tail = embeds_from(after.skip(end + 2), source_id, assets, base_path);
            match resolve_by_name_spec(target, source_id, assets) {
                Some(id) => (
                    escape_spec(rest.take(start)) + embed_spec(
                        id,
                        match alias {
                            Some(a) => a,
                            None => target,
                        },
                        base_path,
                    ) + tail.0,
                    true,
                ),
                None => (escape_spec(rest.take(start + 3 + end + 2)) + tail.0, tail.1),
            }
        }
    }
}

/// Expand every `![[…]]` embed in a text run; `None` (leave the run as it
/// is) when no embed resolves.
pub open spec fn render_embeds_spec(text: Seq<char>, source_id: Seq<char>, assets: AssetIndex, base_path: Seq<char>) -> Option<Seq<char>> {
    let (out, replaced) = embeds_from(text, source_id, assets, base_path);
    if replaced {
        Some(out)
    } else {
        None
    }
}

fn alias_parts(inner: &Vec<char>) -> (r: (String, Option<String>))
    ensures
        r.0@ == split_alias(inner@).0,
        split_alias(inner@).1 is None ==> r.1 is None,
        split_alias(inner@).1 matches Some(a) ==> (r.1 matches Some(x) && x@ == a),
{
    proof {
        reveal_strlit("|");
        assert("|"@ =~= seq!['|']);
        assert(inner@.skip(0) =~= inner@);
    }
    match find_at(inner, 0, "|") {
        None => {
            let whole = crate::text::string_of(inner);
            (trim(whole.as_str()), None)
        },
        Some(b) => {
            proof {
                lemma_find_from_bounds(inner@, seq!['|']);
                assert(inner@.subrange(0, b as int) =~= inner@.take(b as int));
                assert(inner@.subrange(b + 1, inner@.len() as int) =~= inner@.skip(b + 1));
            }
            let n = inner.len();
            let t = string_of_range(inner, 0, b);
            let a = string_of_range(inner, b + 1, n);
            (trim(t.as_str()), Some(trim(a.as_str())))
        },
    }
}

fn escaped_range(v: &Vec<char>, from: usize, to: usize) -> (r: String)
    requires
        from <= to <= v@.len(),
    ensures
        r@ == escape_spec(v@.subrange(from as int, to as int)),
{
    escape(string_of_range(v, from, to).as_str())
}

/// One embed of `v` from `pos`: `None` when no complete `![[…]]` remains;
/// otherwise the position after it, the text it contributes (the escaped
/// literal before it plus the rendered embed, or the escaped literal through
/// it), and whether it resolved.
fn embed_step(v: &Vec<char>, pos: usize, source: &Doc, assets: &AssetIndex, base_path: &str) -> (r: Option<(usize, String, bool)>)
    requires
        pos <= v@.len(),
        assets.wf(),
    ensures
        r is None ==> embeds_from(v@.skip(pos as int), source.id_path@, *assets, base_path@) == (
            escape_spec(v@.skip(pos as int)),
            false,
        ),
        r matches Some((np, piece, hit)) ==> pos < np <= v@.len() && embeds_from(
            v@.skip(pos as int),
            source.id_path@,
            *assets,
            base_path@,
        ) == (
            piece@ + embeds_from(v@.skip(np as int), source.id_path@, *assets, base_path@).0,
            hit || embeds_from(v@.skip(np as int), source.id_path@, *assets, base_path@).1,
        ),
{
    let ghost rest = v@.skip(pos as int);
    let vlen = v.len();
    proof {
        reveal_strlit("![[");
        reveal_strlit("]]");
        assert("![["@ =~= embed_open());
        assert("]]"@ =~= embed_close());
    }
    let start = match find_at(v, pos, "![[") {
        Some(s) => s,
        None => {
            return None;
        },
    };
    let after = start + 3;
    proof {
        assert(rest.skip(start - pos + 3) =~= v@.skip(after as int));
    }
    let end = match find_at(v, after, "]]") {
        Some(e) => e,
        None => {
            return None;
        },
    };
    let inner: Vec<char> = {
        let mut w: Vec<char> = Vec::new();
        let mut k = after;
        while k < end
            invariant
                after <= k <= end <= v@.len(),
                w@ == v@.subrange(after as int, k as int),
            decreases end - k,
        {
            w.push(v[k]);
            k = k + 1;
        }
        w
    };
    proof {
        assert(inner@ =~= v@.skip(after as int).take(end - after));
        assert(v@.skip(after as int).skip(end - after + 2) =~= v@.skip(end + 2));
        assert(rest.take(start - pos) =~= v@.subrange(pos as int, start as int));
        assert(rest.take(start - pos + 3 + (end - after) + 2) =~= v@.subrange(pos as int, end + 2));
    }
    let (target, alias) = alias_parts(&inner);
    match resolve_by_name(target.as_str(), source.id_path.as_str(), assets) {
        Some(id) => {
            let mut piece = escaped_range(v, pos, start);
            let label = match alias {
                Some(a) => a,
                None => target,
            };
            piece.append(render_embed(id.as_str(), label.as_str(), base_path).as_str());
            Some((end + 2, piece, true))
        },
        None => Some((end + 2, escaped_range(v, pos, end + 2), false)),
    }
}

/// Expand every `![[…]]` embed in a text run, escaping the literal segments
/// between them.
pub fn render_embeds(text: &str, source: &Doc, assets: &AssetIndex, base_path: &str) -> (r: Option<String>)
    requires
        assets.wf(),
    ensures
        r matches Some(x) ==> render_embeds_spec(text@, source.id_path@, *assets, base_path@) == Some(x@),
        r is None ==> render_embeds_spec(text@, source.id_path@, *assets, base_path@) is None,
{
    let v = chars_of(text);
    let ghost sid = source.id_path@;
    let mut out = String::new();
    let mut replaced = false;
    let mut pos: usize = 0;
    proof {
        assert(v@.skip(0) =~= v@);
        assert(out@ =~= Seq::<char>::empty());
    }
    loop
        invariant_except_break
            pos <= v@.len(),
            assets.wf(),
            sid == source.id_path@,
            embeds_from(v@, sid, *assets, base_path@) == (
                out@ + embeds_from(v@.skip(pos as int), sid, *assets, base_path@).0,
                replaced || embeds_from(v@.skip(pos as int), sid, *assets, base_path@).1,
            ),
        ensures
            pos <= v@.len(),
            embeds_from(v@, sid, *assets, base_path@) == (out@ + escape_spec(v@.skip(pos as int)), replaced),
        decreases v@.len() - pos,
    {
        match embed_step(&v, pos, source, assets, base_path) {
            None => {
                proof {
                    let e = embeds_from(v@.skip(pos as int), sid, *assets, base_path@);
                    assert(e.0 == escape_spec(v@.skip(pos as int)));
                    assert(e.1 == false);
                }
                break;
            },
            Some((np, piece, hit)) => {
                let ghost before = out@;
                let ghost was = replaced;
                let ghost e0 = embeds_from(v@.skip(pos as int), sid, *assets, base_path@);
                let ghost e1 = embeds_from(v@.skip(np as int), sid, *assets, base_path@);
                out.append(piece.as_str());
                if hit {
                    replaced = true;
                }
                proof {
                    assert(e0.0 == piece@ + e1.0);
                    assert(e0.1 == (hit || e1.1));
                    assert(before + (piece@ + e1.0) =~= out@ + e1.0);
                    assert(replaced == (was || hit));
                }
                pos = np;
            },
        }
    }
    out.append(escaped_range(&v, pos, v.len()).as_str());
    proof {
        assert(v@.subrange(pos as int, v@.len() as int) =~= v@.skip(pos as int));
    }
    if replaced {
        Some(out)
    } else {
        None
    }
}

} // verus!

