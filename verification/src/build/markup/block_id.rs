//! Obsidian block-id markers (`^blockid`): a `^` after whitespace followed by
//! a run of `[A-Za-z0-9-]` at the very end of a paragraph's or heading's last
//! text run. The marker is stripped and the block gains a trailing
//! `<span class="block-anchor" id="…"></span>`, its id the marker body
//! slugified. Block ids are anchored once: a repeated id is stripped but not
//! anchored again.
use vstd::prelude::*;
use crate::html::{escape, escape_spec};
use crate::slug::{slugify, slugify_spec};
use crate::text::{
    ascii_alnum, chars_of, is_whitespace, is_ws, str_eq, string_of_range, trim_end, trim_end_seq,
    views,
};

verus! {

/// Index of the last `^` in `s` (-1 when there is none).
pub open spec fn last_caret(s: Seq<char>) -> int
    decreases s.len(),
{
    if s.len() == 0 {
        -1
    } else if s.last() == '^' {
        s.len() - 1
    } else {
        last_caret(s.drop_last())
    }
}

proof fn lemma_last_caret_bounds(s: Seq<char>)
    ensures
        -1 <= last_caret(s) < s.len(),
        last_caret(s) >= 0 ==> s[last_caret(s)] == '^',
    decreases s.len(),
{
    if s.len() > 0 && s.last() != '^' {
        lemma_last_caret_bounds(s.drop_last());
    }
}

/// The characters a block id is made of.
pub open spec fn id_char(c: char) -> bool {
    ascii_alnum(c) || c == '-'
}

/// Split a trailing `^blockid` marker off a block's final text run: the text
/// before the marker (trailing whitespace trimmed) and the marker body.
/// `None` when the run doesn't end in a marker, when the `^` isn't preceded
/// by whitespace, or when the marker is the whole run.
pub open spec fn split_marker_spec(text: Seq<char>) -> Option<(Seq<char>, Seq<char>)> {
    let t = trim_end_seq(text);
    let c = last_caret(t);
    if c < 0 {
        None
    } else {
        let body = t.subrange(c + 1, t.len() as int);
        if body.len() == 0 || !(forall|i: int| 0 <= i < body.len() ==> id_char(#[trigger] body[i])) {
            None
        } else if c == 0 || !is_ws(t[c - 1]) {
            None
        } else {
            Some((trim_end_seq(t.subrange(0, c)), body))
        }
    }
}

/// Split a trailing `^blockid` marker off a block's final text run:
/// `"A claim. ^abc-1"` → `Some(("A claim.", "abc-1"))`.
pub fn split_marker(text: &str) -> (r: Option<(String, String)>)
    ensures
        split_marker_spec(text@) is None ==> r is None,
        split_marker_spec(text@) matches Some((rest, body)) ==> (r matches Some((a, b)) && a@ == rest
            && b@ == body),
{
    let trimmed = trim_end(text);
    let v = chars_of(trimmed.as_str());
    let mut i = v.len();
    proof {
        assert(v@.take(v@.len() as int) =~= v@);
    }
    while i > 0 && v[i - 1] != '^'
        invariant
            i <= v@.len(),
            last_caret(v@.take(i as int)) == last_caret(v@),
        decreases i,
    {
        proof {
            assert(v@.take(i as int).drop_last() =~= v@.take(i - 1));
        }
        i = i - 1;
    }
    proof {
        lemma_last_caret_bounds(v@);
        if i == 0 {
            assert(v@.take(0).len() == 0);
        } else {
            assert(v@.take(i as int).last() == '^');
        }
    }
    if i == 0 {
        return None;
    }
    let caret = i - 1;
    let body_start = i;
    if body_start == v.len() {
        return None;
    }
    let mut k = body_start;
    while k < v.len()
        invariant
            body_start <= k <= v@.len(),
            body_start >= 1,
            v@ == trim_end_seq(text@),
            last_caret(v@) == body_start - 1,
            forall|q: int| body_start <= q < k ==> id_char(#[trigger] v@[q]),
        decreases v@.len() - k,
    {
        let c = v[k];
        let ok = ('a' <= c && c <= 'z') || ('A' <= c && c <= 'Z') || ('0' <= c && c <= '9') || c == '-';
        if !ok {
            proof {
                let body = v@.subrange(body_start as int, v@.len() as int);
                assert(body[k - body_start] == c);
                assert(!id_char(body[k - body_start]));
            }
            return None;
        }
        k = k + 1;
    }
    proof {
        let body = v@.subrange(body_start as int, v@.len() as int);
        assert forall|q: int| 0 <= q < body.len() implies id_char(#[trigger] body[q]) by {
            assert(body[q] == v@[body_start + q]);
        }
    }
    if caret == 0 {
        return None;
    }
    if !is_whitespace(v[caret - 1]) {
        return None;
    }
    let before = string_of_range(&v, 0, caret);
    let rest = trim_end(before.as_str());
    let body = string_of_range(&v, body_start, v.len());
    Some((rest, body))
}

/// The anchor planted for block id `id`.
pub open spec fn anchor_html(id: Seq<char>) -> Seq<char> {
    "<span class=\"block-anchor\" id=\""@ + escape_spec(id) + "\"></span>"@
}

/// How one block changes: its last text run becomes `rest` (the run is
/// removed when `rest` is empty) and, unless its id was already anchored,
/// `anchor` is appended to the block; `id` is the block's anchor id.
pub struct BlockEdit {
    pub rest: String,
    pub id: String,
    pub anchor: Option<String>,
}

fn contains(seen: &Vec<String>, id: &str) -> (r: bool)
    ensures
        r == views(seen@).contains(id@),
{
    let mut i: usize = 0;
    while i < seen.len()
        invariant
            i <= seen@.len(),
            forall|q: int| 0 <= q < i ==> (#[trigger] seen@[q])@ != id@,
        decreases seen@.len() - i,
    {
        if str_eq(seen[i].as_str(), id) {
            proof {
                assert(views(seen@)[i as int] == id@);
            }
            return true;
        }
        i = i + 1;
    }
    proof {
        if views(seen@).contains(id@) {
            let q = choose|q: int| 0 <= q < views(seen@).len() && views(seen@)[q] == id@;
            assert(seen@[q]@ == id@);
        }
    }
    false
}

/// Decide the edit for a block whose last text run is `text`, given the
/// block ids anchored so far (`seen`, extended with a newly anchored id).
pub fn block_edit(text: &str, seen: &mut Vec<String>) -> (r: Option<BlockEdit>)
    ensures
        split_marker_spec(text@) is None ==> (r is None && final(seen)@ == old(seen)@),
        split_marker_spec(text@) matches Some((rest, body)) ==> (r matches Some(e) && e.rest@ == rest
            && e.id@ == slugify_spec(body) && (views(old(seen)@).contains(slugify_spec(body)) ==> (e.anchor is None && final(seen)@
            == old(seen)@)) && (!views(old(seen)@).contains(slugify_spec(body)) ==> (
        e.anchor matches Some(a) && a@ == anchor_html(slugify_spec(body)) && views(final(seen)@)
            == views(old(seen)@).push(slugify_spec(body))))),
{
    let (rest, body) = match split_marker(text) {
        Some(parts) => parts,
        None => {
            return None;
        },
    };
    let id = slugify(body.as_str());
    if contains(seen, id.as_str()) {
        return Some(BlockEdit { rest, id, anchor: None });
    }
    let mut anchor = String::from_str("<span class=\"block-anchor\" id=\"");
    anchor.append(escape(id.as_str()).as_str());
    anchor.append("\"></span>");
    let ghost before = seen@;
    seen.push(String::from_str(id.as_str()));
    proof {
        assert(views(seen@) =~= views(before).push(seen@.last()@));
    }
    Some(BlockEdit { rest, id, anchor: Some(anchor) })
}

} // verus!
