//! Italic's canonical slugifier, following comrak's heading-anchor character
//! rules minus its per-document dedup counter. Used for all slugs —
//! permalinks, taxonomy terms, wikilink stems, asset names and heading-link
//! fragments.
use vstd::prelude::*;
use crate::text::{alphanumeric, is_alphanumeric, lowercase, push_char, to_lowercase};

verus! {

/// The characters a slug keeps: space, `-`, `_`, and Unicode alphanumerics.
pub open spec fn permitted(c: char) -> bool {
    c == ' ' || c == '-' || c == '_' || alphanumeric(c)
}

/// Keep the permitted characters of `s`, turning each space into `-`.
pub open spec fn slug_chars(s: Seq<char>) -> Seq<char>
    decreases s.len(),
{
    if s.len() == 0 {
        Seq::empty()
    } else {
        let rest = slug_chars(s.drop_last());
        let c = s.last();
        if permitted(c) {
            rest.push(if c == ' ' { '-' } else { c })
        } else {
            rest
        }
    }
}

/// The slug of `text`: lowercased, then filtered and mapped by [`slug_chars`].
pub open spec fn slugify_spec(text: Seq<char>) -> Seq<char> {
    slug_chars(lowercase(text))
}

/// Slugify text the way comrak anchorizes heading ids: lowercase; keep
/// alphanumerics / `-` / `_`; turn each space into `-`; drop everything else.
/// No run-collapsing and no leading/trailing trim.
pub fn slugify(text: &str) -> (out: String)
    ensures
        out@ == slugify_spec(text@),
{
    let lower = to_lowercase(text);
    let mut out = String::new();
    for c in it: lower.chars()
        invariant
            it.seq() == lower@,
            out@ == slug_chars(it.seq().take(it.index() as int)),
    {
        proof {
            let t = it.seq().take(it.index() + 1);
            assert(t.drop_last() =~= it.seq().take(it.index() as int));
            assert(t.last() == c);
        }
        if is_permitted_char(&c) {
            push_char(&mut out, if c == ' ' { '-' } else { c });
        }
    }
    proof {
        assert(lower@.take(lower@.len() as int) =~= lower@);
    }
    out
}

/// comrak keeps space, `-`, Unicode letters, marks, numbers, and connector
/// punctuation (`_`); std's `is_alphanumeric` covers letters and numbers, and
/// `-`, `_` and space are added explicitly.
pub fn is_permitted_char(c: &char) -> (r: bool)
    ensures
        r == permitted(*c),
{
    *c == ' ' || *c == '-' || *c == '_' || is_alphanumeric(*c)
}

/// A slug never holds a space: every character of it is `-`, `_` or
/// alphanumeric.
pub proof fn lemma_slug_charset(text: Seq<char>)
    ensures
        forall|i: int|
            0 <= i < slugify_spec(text).len() ==> {
                let c = #[trigger] slugify_spec(text)[i];
                c == '-' || c == '_' || (alphanumeric(c) && c != ' ')
            },
{
    lemma_slug_chars_charset(lowercase(text));
}

proof fn lemma_slug_chars_charset(s: Seq<char>)
    ensures
        forall|i: int|
            0 <= i < slug_chars(s).len() ==> {
                let c = #[trigger] slug_chars(s)[i];
                c == '-' || c == '_' || (alphanumeric(c) && c != ' ')
            },
    decreases s.len(),
{
    if s.len() > 0 {
        lemma_slug_chars_charset(s.drop_last());
        let rest = slug_chars(s.drop_last());
        assert forall|i: int| 0 <= i < slug_chars(s).len() implies {
            let c = #[trigger] slug_chars(s)[i];
            c == '-' || c == '_' || (alphanumeric(c) && c != ' ')
        } by {
            if i < rest.len() {
                assert(slug_chars(s)[i] == rest[i]);
            }
        }
    }
}

} // verus!
