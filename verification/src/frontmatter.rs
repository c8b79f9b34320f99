//! Splitting a source file into its YAML frontmatter block and its body.
use vstd::prelude::*;
use crate::text::{chars_of, has_prefix};

verus! {

/// The fence line that opens and closes a frontmatter block.
pub open spec fn fence() -> Seq<char> {
    seq!['-', '-', '-']
}

/// Length of the opening fence line (`---` plus its line break), when `s`
/// opens with one: `---\r\n`, `---\n`, or a bare `---` that is the whole input.
pub open spec fn open_len(s: Seq<char>) -> Option<int> {
    if has_prefix(s, fence()) {
        let rest = s.skip(3);
        if has_prefix(rest, seq!['\r', '\n']) {
            Some(5)
        } else if has_prefix(rest, seq!['\n']) {
            Some(4)
        } else if rest.len() == 0 {
            Some(3)
        } else {
            None
        }
    } else {
        None
    }
}

/// Position `i` starts a line of `s`.
pub open spec fn line_start(s: Seq<char>, i: int) -> bool {
    i == 0 || (0 < i <= s.len() && s[i - 1] == '\n')
}

/// The line of `s` starting at `i` is exactly `---`, optionally followed by
/// one carriage return.
pub open spec fn fence_at(s: Seq<char>, i: int) -> bool {
    &&& 0 <= i
    &&& i + 3 <= s.len()
    &&& s.subrange(i, i + 3) == fence()
    &&& (i + 3 == s.len() || s[i + 3] == '\n' || (s[i + 3] == '\r' && (i + 4 == s.len() || s[i
        + 4] == '\n')))
}

/// The first line start at or after `i` whose line is a fence.
pub open spec fn first_fence_from(s: Seq<char>, i: int) -> Option<int>
    decreases s.len() + 1 - i,
{
    if i < 0 || i > s.len() {
        None
    } else if line_start(s, i) && fence_at(s, i) {
        Some(i)
    } else {
        first_fence_from(s, i + 1)
    }
}

/// `s` without one leading line break (`\r\n` or `\n`).
pub open spec fn drop_line_break(s: Seq<char>) -> Seq<char> {
    if has_prefix(s, seq!['\r', '\n']) {
        s.skip(2)
    } else if has_prefix(s, seq!['\n']) {
        s.skip(1)
    } else {
        s
    }
}

/// The frontmatter block and the body of `s`.
pub open spec fn split_spec(s: Seq<char>) -> (Option<Seq<char>>, Seq<char>) {
    match open_len(s) {
        None => (None, s),
        Some(k) => {
            let after = s.skip(k);
            match first_fence_from(after, 0) {
                None => (None, s),
                Some(c) => (Some(after.take(c)), drop_line_break(after.skip(c + 3))),
            }
        },
    }
}

/// Split `source` into an optional YAML frontmatter block and the body that
/// follows. A frontmatter block is recognized when `source` begins with a
/// `---` line and contains a later `---` line that closes it. Anything else
/// — body-only files, missing closing fence, empty input — yields
/// `(None, source)`. Malformed frontmatter is treated as no frontmatter,
/// never an error.
pub fn split(source: &str) -> (res: (Option<&str>, &str))
    ensures
        res.0 matches Some(y) ==> split_spec(source@) == (Some(y@), res.1@),
        res.0 is None ==> split_spec(source@).0 is None && res.1@ == source@,
{
    let v = chars_of(source);
    let Some(open) = strip_fence_line(&v) else {
        return (None, source);
    };
    let after: Vec<char> = {
        let mut w: Vec<char> = Vec::new();
        let mut i = open;
        while i < v.len()
            invariant
                open <= i <= v@.len(),
                w@ == v@.subrange(open as int, i as int),
            decreases v@.len() - i,
        {
            w.push(v[i]);
            i = i + 1;
        }
        w
    };
    proof {
        assert(after@ =~= source@.skip(open as int));
    }
    let Some(close_at) = find_close_fence(&after) else {
        return (None, source);
    };
    proof {
        lemma_first_fence_found(after@, 0);
    }
    let yaml = source.substring_char(open, open + close_at);
    let mut body_start = open + close_at + 3;
    let ghost after_close = after@.skip(close_at + 3);
    proof {
        assert(after_close =~= v@.subrange(body_start as int, v@.len() as int));
    }
    if body_start < v.len() && v.len() - body_start >= 2 && v[body_start] == '\r' && v[body_start + 1] == '\n' {
        proof {
            assert(after_close.subrange(0, 2) =~= seq!['\r', '\n']);
        }
        body_start = body_start + 2;
    } else if body_start < v.len() && v[body_start] == '\n' {
        proof {
            assert(after_close.subrange(0, 1) =~= seq!['\n']);
            assert(!has_prefix(after_close, seq!['\r', '\n']));
        }
        body_start = body_start + 1;
    } else {
        proof {
            if has_prefix(after_close, seq!['\r', '\n']) {
                assert(after_close.subrange(0, 2)[0] == '\r');
            }
            if has_prefix(after_close, seq!['\n']) {
                assert(after_close.subrange(0, 1)[0] == '\n');
            }
        }
    }
    let body = source.substring_char(body_start, v.len());
    proof {
        assert(yaml@ =~= after@.take(close_at as int));
        assert(body@ =~= drop_line_break(after_close));
    }
    (Some(yaml), body)
}

/// Length of the opening fence line of `v`, if it opens with one.
fn strip_fence_line(v: &Vec<char>) -> (r: Option<usize>)
    ensures
        r matches Some(k) ==> open_len(v@) == Some(k as int),
        r is None ==> open_len(v@) is None,
{
    let n = v.len();
    if !(n >= 3 && v[0] == '-' && v[1] == '-' && v[2] == '-') {
        proof {
            if has_prefix(v@, fence()) {
                assert(v@.subrange(0, 3)[0] == v@[0]);
                assert(v@.subrange(0, 3)[1] == v@[1]);
                assert(v@.subrange(0, 3)[2] == v@[2]);
            }
        }
        return None;
    }
    proof {
        assert(v@.subrange(0, 3) =~= fence());
    }
    let ghost rest = v@.skip(3);
    if n >= 5 && v[3] == '\r' && v[4] == '\n' {
        proof {
            assert(rest.subrange(0, 2) =~= seq!['\r', '\n']);
        }
        return Some(5);
    }
    proof {
        if has_prefix(rest, seq!['\r', '\n']) {
            assert(rest.subrange(0, 2)[0] == v@[3]);
            assert(rest.subrange(0, 2)[1] == v@[4]);
        }
    }
    if n >= 4 && v[3] == '\n' {
        proof {
            assert(rest.subrange(0, 1) =~= seq!['\n']);
        }
        return Some(4);
    }
    proof {
        if has_prefix(rest, seq!['\n']) {
            assert(rest.subrange(0, 1)[0] == v@[3]);
        }
    }
    if n == 3 {
        return Some(3);
    }
    None
}

/// Whether the line of `v` starting at `i` is a fence.
fn is_fence_at(v: &Vec<char>, i: usize) -> (r: bool)
    requires
        i <= v@.len(),
    ensures
        r == fence_at(v@, i as int),
{
    let n = v.len();
    if !(n - i >= 3 && v[i] == '-' && v[i + 1] == '-' && v[i + 2] == '-') {
        proof {
            if i + 3 <= n && v@.subrange(i as int, i + 3) == fence() {
                assert(v@.subrange(i as int, i + 3)[0] == v@[i as int]);
                assert(v@.subrange(i as int, i + 3)[1] == v@[i + 1]);
                assert(v@.subrange(i as int, i + 3)[2] == v@[i + 2]);
            }
        }
        return false;
    }
    proof {
        assert(v@.subrange(i as int, i + 3) =~= fence());
    }
    n - i == 3 || v[i + 3] == '\n' || (v[i + 3] == '\r' && (n - i == 4 || v[i + 4] == '\n'))
}

/// Positions strictly after `a` up to `b` start no line, so the search from
/// `a + 1` and from `b + 1` agree.
proof fn lemma_skip_non_line_starts(s: Seq<char>, a: int, b: int)
    requires
        0 <= a <= b <= s.len(),
        forall|j: int| a < j <= b ==> !line_start(s, j),
    ensures
        first_fence_from(s, a + 1) == first_fence_from(s, b + 1),
    decreases b - a,
{
    if a < b {
        lemma_skip_non_line_starts(s, a + 1, b);
    }
}

/// Character index of the first fence line of `v`.
fn find_close_fence(v: &Vec<char>) -> (r: Option<usize>)
    ensures
        r matches Some(c) ==> first_fence_from(v@, 0) == Some(c as int),
        r is None ==> first_fence_from(v@, 0) is None,
{
    let n = v.len();
    let mut start: usize = 0;
    loop
        invariant
            n == v@.len(),
            start <= n,
            line_start(v@, start as int),
            first_fence_from(v@, 0) == first_fence_from(v@, start as int),
        decreases n - start,
    {
        if is_fence_at(v, start) {
            return Some(start);
        }
        let mut line_end = start;
        while line_end < n && v[line_end] != '\n'
            invariant
                n == v@.len(),
                start <= line_end <= n,
                forall|j: int| start < j <= line_end ==> !line_start(v@, j),
            decreases n - line_end,
        {
            line_end = line_end + 1;
        }
        proof {
            lemma_skip_non_line_starts(v@, start as int, line_end as int);
        }
        if line_end == n {
            proof {
                assert(first_fence_from(v@, n + 1) is None);
            }
            return None;
        }
        start = line_end + 1;
    }
}

/// The three ways a fence line can open a file.
pub open spec fn opener(p: Seq<char>) -> bool {
    p == seq!['-', '-', '-', '\r', '\n'] || p == seq!['-', '-', '-', '\n'] || p == fence()
}

/// The three ways a closing fence line can end before the body.
pub open spec fn closer(m: Seq<char>) -> bool {
    m == seq!['-', '-', '-', '\r', '\n'] || m == seq!['-', '-', '-', '\n'] || m == fence()
}

proof fn lemma_first_fence_found(s: Seq<char>, i: int)
    ensures
        first_fence_from(s, i) matches Some(c) ==> i <= c && fence_at(s, c) && line_start(s, c),
    decreases s.len() + 1 - i,
{
    if 0 <= i <= s.len() && !(line_start(s, i) && fence_at(s, i)) {
        lemma_first_fence_found(s, i + 1);
    }
}

/// Splitting loses nothing: when a frontmatter block is found, the source is
/// exactly an opening fence line, the block, a closing fence line and the body.
pub proof fn lemma_split_reassembles(s: Seq<char>)
    ensures
        split_spec(s).0 matches Some(y) ==> exists|p: Seq<char>, m: Seq<char>|
            opener(p) && closer(m) && s == p + y + m + split_spec(s).1,
        split_spec(s).0 is None ==> split_spec(s).1 == s,
{
    if let Some(y) = split_spec(s).0 {
        let k = open_len(s).unwrap();
        let after = s.skip(k);
        let c = first_fence_from(after, 0).unwrap();
        lemma_first_fence_found(after, 0);
        let p = s.take(k);
        let tail = after.skip(c + 3);
        let body = split_spec(s).1;
        let m = if has_prefix(tail, seq!['\r', '\n']) {
            after.subrange(c, c + 5)
        } else if has_prefix(tail, seq!['\n']) {
            after.subrange(c, c + 4)
        } else {
            after.subrange(c, c + 3)
        };
        assert(s.subrange(0, 3) == fence());
        if k == 5 {
            assert(s.skip(3).subrange(0, 2) == seq!['\r', '\n']);
            assert(p =~= seq!['-', '-', '-', '\r', '\n']);
        } else if k == 4 {
            assert(s.skip(3).subrange(0, 1) == seq!['\n']);
            assert(s[3] == s.skip(3).subrange(0, 1)[0]);
            assert(p =~= seq!['-', '-', '-', '\n']);
        } else {
            assert(p =~= fence());
        }
        assert(after.subrange(c, c + 3) == fence());
        if has_prefix(tail, seq!['\r', '\n']) {
            assert(tail.subrange(0, 2) == seq!['\r', '\n']);
            assert(m =~= seq!['-', '-', '-', '\r', '\n']);
            assert(body =~= tail.skip(2));
        } else if has_prefix(tail, seq!['\n']) {
            assert(tail.subrange(0, 1) == seq!['\n']);
            assert(after[c + 3] == tail.subrange(0, 1)[0]);
            assert(m =~= seq!['-', '-', '-', '\n']);
            assert(body =~= tail.skip(1));
        } else {
            assert(m =~= fence());
        }
        assert(s =~= p + y + m + body);
    }
}

} // verus!
