//! HTML text helpers: escaping, tag stripping and word-aware truncation.
use vstd::prelude::*;
use crate::text::{chars_of, is_whitespace, lemma_trim_end_prefix, push_char, string_of_range, trim_end_len, trim_end_seq, is_ws};

verus! {

/// The escaped form of one character.
pub open spec fn escape_char(c: char) -> Seq<char> {
    if c == '&' {
        seq!['&', 'a', 'm', 'p', ';']
    } else if c == '<' {
        seq!['&', 'l', 't', ';']
    } else if c == '>' {
        seq!['&', 'g', 't', ';']
    } else if c == '"' {
        seq!['&', 'q', 'u', 'o', 't', ';']
    } else if c == '\'' {
        seq!['&', '#', '3', '9', ';']
    } else {
        seq![c]
    }
}

/// `s` with each of `& < > " '` replaced by its entity.
pub open spec fn escape_spec(s: Seq<char>) -> Seq<char>
    decreases s.len(),
{
    if s.len() == 0 {
        Seq::empty()
    } else {
        escape_spec(s.drop_last()) + escape_char(s.last())
    }
}

/// Escape the five XML/HTML special characters so a string can be safely
/// embedded in attribute values or element text.
pub fn escape(s: &str) -> (out: String)
    ensures
        out@ == escape_spec(s@),
{
    let mut out = String::new();
    for c in it: s.chars()
        invariant
            it.seq() == s@,
            out@ == escape_spec(it.seq().take(it.index() as int)),
    {
        proof {
            let t = it.seq().take(it.index() + 1);
            assert(t.drop_last() =~= it.seq().take(it.index() as int));
            assert(t.last() == c);
            reveal_strlit("&amp;");
            reveal_strlit("&lt;");
            reveal_strlit("&gt;");
            reveal_strlit("&quot;");
            reveal_strlit("&#39;");
        }
        if c == '&' {
            out.append("&amp;");
        } else if c == '<' {
            out.append("&lt;");
        } else if c == '>' {
            out.append("&gt;");
        } else if c == '"' {
            out.append("&quot;");
        } else if c == '\'' {
            out.append("&#39;");
        } else {
            push_char(&mut out, c);
        }
    }
    proof {
        assert(s@.take(s@.len() as int) =~= s@);
    }
    out
}

/// Escaped text never holds a raw `<`, `>`, `"` or `'`, and every `&` in it
/// opens one of the five entities.
pub proof fn lemma_escape_is_inert(s: Seq<char>)
    ensures
        forall|i: int|
            0 <= i < escape_spec(s).len() ==> {
                let c = #[trigger] escape_spec(s)[i];
                c != '<' && c != '>' && c != '"' && c != '\''
            },
    decreases s.len(),
{
    if s.len() > 0 {
        lemma_escape_is_inert(s.drop_last());
        let a = escape_spec(s.drop_last());
        let b = escape_char(s.last());
        assert forall|i: int| 0 <= i < escape_spec(s).len() implies {
            let c = #[trigger] escape_spec(s)[i];
            c != '<' && c != '>' && c != '"' && c != '\''
        } by {
            if i < a.len() {
                assert(escape_spec(s)[i] == a[i]);
            } else {
                assert(escape_spec(s)[i] == b[i - a.len()]);
            }
        }
    }
}

/// One step of the tag-stripping scan: the output so far, whether the scan is
/// inside a tag, and whether the last emitted character was a separator.
pub open spec fn strip_step(st: (Seq<char>, bool, bool), c: char) -> (Seq<char>, bool, bool) {
    let (out, in_tag, prev_space) = st;
    if in_tag {
        (out, c != '>', prev_space)
    } else if c == '<' {
        if !prev_space {
            (out.push(' '), true, true)
        } else {
            (out, true, prev_space)
        }
    } else if is_ws(c) {
        if !prev_space {
            (out.push(' '), false, true)
        } else {
            (out, false, prev_space)
        }
    } else {
        (out.push(c), false, false)
    }
}

/// The scan over all of `s`.
pub open spec fn strip_run(s: Seq<char>) -> (Seq<char>, bool, bool)
    decreases s.len(),
{
    if s.len() == 0 {
        (Seq::empty(), false, true)
    } else {
        strip_step(strip_run(s.drop_last()), s.last())
    }
}

/// Tags removed, whitespace runs and tag boundaries collapsed to one space,
/// the trailing separator dropped.
pub open spec fn strip_tags_spec(s: Seq<char>) -> Seq<char> {
    let out = strip_run(s).0;
    if out.len() > 0 && out.last() == ' ' {
        out.drop_last()
    } else {
        out
    }
}

/// Strip HTML tags from `html`, collapse all whitespace runs (including
/// newlines) to a single space, and trim. Naive state machine — sufficient for
/// well-formed input, not a general HTML parser. HTML entities pass through
/// unchanged.
pub fn strip_tags(html: &str) -> (out: String)
    ensures
        out@ == strip_tags_spec(html@),
{
    let mut out = String::new();
    let mut in_tag = false;
    let mut prev_space = true;
    for c in it: html.chars()
        invariant
            it.seq() == html@,
            (out@, in_tag, prev_space) == strip_run(it.seq().take(it.index() as int)),
    {
        proof {
            let t = it.seq().take(it.index() + 1);
            assert(t.drop_last() =~= it.seq().take(it.index() as int));
            assert(t.last() == c);
        }
        if in_tag {
            if c == '>' {
                in_tag = false;
            }
        } else if c == '<' {
            if !prev_space {
                push_char(&mut out, ' ');
                prev_space = true;
            }
            in_tag = true;
        } else if is_whitespace(c) {
            if !prev_space {
                push_char(&mut out, ' ');
                prev_space = true;
            }
        } else {
            push_char(&mut out, c);
            prev_space = false;
        }
    }
    proof {
        assert(html@.take(html@.len() as int) =~= html@);
    }
    let v = chars_of(out.as_str());
    if v.len() > 0 && v[v.len() - 1] == ' ' {
        let r = string_of_range(&v, 0, v.len() - 1);
        proof {
            assert(v@.subrange(0, v@.len() - 1) =~= v@.drop_last());
        }
        r
    } else {
        out
    }
}

/// Whether `s` is collapsed text: no `<`, no whitespace but single spaces
/// between other characters.
pub open spec fn collapsed(s: Seq<char>) -> bool {
    &&& forall|i: int| 0 <= i < s.len() ==> #[trigger] s[i] != '<'
    &&& forall|i: int| 0 <= i < s.len() && is_ws(#[trigger] s[i]) ==> s[i] == ' '
    &&& forall|i: int| 0 <= i < s.len() - 1 && #[trigger] s[i] == ' ' ==> s[i + 1] != ' '
    &&& s.len() > 0 ==> s[0] != ' '
}

proof fn lemma_strip_run_inv(s: Seq<char>)
    ensures
        ({
            let (out, in_tag, prev_space) = strip_run(s);
            &&& forall|i: int| 0 <= i < out.len() ==> #[trigger] out[i] != '<'
            &&& forall|i: int| 0 <= i < out.len() && is_ws(#[trigger] out[i]) ==> out[i] == ' '
            &&& forall|i: int| 0 <= i < out.len() - 1 && #[trigger] out[i] == ' ' ==> out[i + 1] != ' '
            &&& out.len() > 0 ==> out[0] != ' '
            &&& out.len() > 0 ==> (prev_space <==> out.last() == ' ')
            &&& out.len() == 0 ==> prev_space
        }),
    decreases s.len(),
{
    if s.len() > 0 {
        lemma_strip_run_inv(s.drop_last());
        let (out, in_tag, prev_space) = strip_run(s.drop_last());
        let c = s.last();
        let (o2, t2, p2) = strip_run(s);
        assert(o2 == out || o2 == out.push(' ') || o2 == out.push(c));
        assert forall|i: int| 0 <= i < o2.len() implies #[trigger] o2[i] != '<' by {
            if i < out.len() {
                assert(o2[i] == out[i]);
            }
        }
        assert forall|i: int| 0 <= i < o2.len() && is_ws(#[trigger] o2[i]) implies o2[i]
            == ' ' by {
            if i < out.len() {
                assert(o2[i] == out[i]);
            }
        }
        if o2.len() > out.len() {
            assert(o2.drop_last() =~= out);
            if o2.last() == ' ' {
                assert(!prev_space);
                assert(out.len() > 0);
                assert(out.last() != ' ');
            }
        }
        assert forall|i: int| 0 <= i < o2.len() - 1 && #[trigger] o2[i] == ' ' implies o2[i + 1]
            != ' ' by {
            assert(o2[i] == out[i]);
            if i + 1 < out.len() {
                assert(o2[i + 1] == out[i + 1]);
            } else {
                assert(i == out.len() - 1);
                assert(out.last() == ' ');
            }
        }
    }
}

/// The stripped text is collapsed: it holds no `<`, every whitespace
/// character in it is a single space between two other characters, and it
/// neither starts nor ends with a space.
pub proof fn lemma_strip_tags_collapsed(s: Seq<char>)
    ensures
        collapsed(strip_tags_spec(s)),
        strip_tags_spec(s).len() > 0 ==> strip_tags_spec(s).last() != ' ',
{
    lemma_strip_run_inv(s);
    let out = strip_run(s).0;
    let r = strip_tags_spec(s);
    if out.len() > 0 && out.last() == ' ' {
        assert forall|i: int| 0 <= i < r.len() implies #[trigger] r[i] != '<' by {
            assert(r[i] == out[i]);
        }
        assert forall|i: int| 0 <= i < r.len() && is_ws(#[trigger] r[i]) implies r[i]
            == ' ' by {
            assert(r[i] == out[i]);
        }
        assert forall|i: int| 0 <= i < r.len() - 1 && #[trigger] r[i] == ' ' implies r[i + 1]
            != ' ' by {
            assert(r[i] == out[i]);
            assert(r[i + 1] == out[i + 1]);
        }
        if r.len() > 0 {
            assert(r.last() == out[out.len() - 2]);
            assert(out[out.len() - 2] == ' ' ==> out[out.len() - 1] != ' ');
        }
    }
}

/// On collapsed text without a trailing space the scan emits every character
/// unchanged and never enters a tag.
proof fn lemma_strip_run_collapsed(t: Seq<char>, k: int)
    requires
        collapsed(t),
        0 <= k <= t.len(),
    ensures
        strip_run(t.take(k)) == (t.take(k), false, k == 0 || t[k - 1] == ' '),
    decreases k,
{
    if k > 0 {
        lemma_strip_run_collapsed(t, k - 1);
        let p = t.take(k);
        assert(p.drop_last() =~= t.take(k - 1));
        let c = t[k - 1];
        assert(c != '<');
        if is_ws(c) {
            assert(c == ' ');
            assert(k - 1 > 0);
            assert(t[k - 2] != ' ');
        }
        assert(t.take(k - 1).push(c) =~= p);
    }
}

/// Stripping is idempotent: text that has been stripped once comes back
/// unchanged from a second pass.
pub proof fn lemma_strip_tags_idempotent(s: Seq<char>)
    ensures
        strip_tags_spec(strip_tags_spec(s)) == strip_tags_spec(s),
{
    let t = strip_tags_spec(s);
    lemma_strip_tags_collapsed(s);
    lemma_strip_run_collapsed(t, t.len() as int);
    assert(t.take(t.len() as int) =~= t);
}

/// Index of the last whitespace character of `s`, if any.
pub open spec fn last_ws(s: Seq<char>) -> Option<int>
    decreases s.len(),
{
    if s.len() == 0 {
        None
    } else if is_ws(s.last()) {
        Some(s.len() - 1)
    } else {
        last_ws(s.drop_last())
    }
}

/// The word-aware truncation.
pub open spec fn truncate_words_spec(text: Seq<char>, max_chars: nat) -> Seq<char> {
    if max_chars == 0 {
        Seq::empty()
    } else if text.len() <= max_chars {
        text
    } else {
        let window = text.take(max_chars as int);
        let cut = match last_ws(window) {
            Some(i) => trim_end_seq(window.take(i)),
            None => text.take(max_chars - 1),
        };
        cut.push('…')
    }
}

proof fn lemma_last_ws_bound(s: Seq<char>)
    ensures
        last_ws(s) matches Some(i) ==> 0 <= i < s.len(),
    decreases s.len(),
{
    if s.len() > 0 {
        lemma_last_ws_bound(s.drop_last());
    }
}

/// Truncate `text` to at most `max_chars` Unicode scalar values, breaking at
/// the last whitespace boundary that fits, and append `…` when truncation
/// happens (the ellipsis counts toward the budget). When `text` fits in
/// `max_chars`, returns it unchanged. When the prefix contains no whitespace,
/// hard-cuts at `max_chars - 1` and appends `…`.
pub fn truncate_words(text: &str, max_chars: usize) -> (out: String)
    ensures
        out@ == truncate_words_spec(text@, max_chars as nat),
{
    if max_chars == 0 {
        return String::new();
    }
    let v = chars_of(text);
    if v.len() <= max_chars {
        return String::from_str(text);
    }
    let budget = max_chars - 1;
    let ghost window = v@.take(max_chars as int);
    let mut j = max_chars;
    while j > 0 && !is_whitespace(v[j - 1])
        invariant
            j <= max_chars < v@.len(),
            budget == max_chars - 1,
            window == v@.take(max_chars as int),
            last_ws(window) == last_ws(v@.take(j as int)),
        decreases j,
    {
        proof {
            assert(v@.take(j as int).drop_last() =~= v@.take(j - 1));
        }
        j = j - 1;
    }
    let mut out = if j == 0 {
        proof {
            assert(v@.take(0) =~= Seq::<char>::empty());
        }
        string_of_range(&v, 0, budget)
    } else {
        let n = trim_end_len(&v, j - 1);
        proof {
            assert(v@.take(j as int).last() == v@[j - 1]);
            assert(window.take(j - 1) =~= v@.subrange(0, j - 1));
        }
        string_of_range(&v, 0, n)
    };
    proof {
        lemma_trim_end_prefix(v@.subrange(0, j - 1));
        assert(v@.subrange(0, budget as int) =~= v@.take(budget as int));
    }
    push_char(&mut out, '…');
    out
}

/// The truncated text never exceeds the budget, and text that fits comes back
/// unchanged.
pub proof fn lemma_truncate_words_fits(text: Seq<char>, max_chars: nat)
    ensures
        truncate_words_spec(text, max_chars).len() <= max_chars,
        text.len() <= max_chars ==> truncate_words_spec(text, max_chars) == text,
{
    if max_chars > 0 && text.len() > max_chars {
        let window = text.take(max_chars as int);
        lemma_last_ws_bound(window);
        match last_ws(window) {
            Some(i) => {
                lemma_trim_end_prefix(window.take(i));
            },
            None => {},
        }
    }
}

} // verus!
