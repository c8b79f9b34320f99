//! `/`-separated relative paths as the library reads them: their segments,
//! parent directory, file name, normalization of `.`/`..`, distance between
//! directories, and component-wise ordering (as `std::path::Path` orders).
use vstd::prelude::*;
use crate::text::{chars_of, join_seq, str_eq, string_of, views};

verus! {

/// Split `s` on `/`, continuing the segment `cur`: every segment, empty ones
/// included.
pub open spec fn split_from(s: Seq<char>, cur: Seq<char>) -> Seq<Seq<char>>
    decreases s.len(),
{
    if s.len() == 0 {
        seq![cur]
    } else if s[0] == '/' {
        seq![cur] + split_from(s.drop_first(), Seq::empty())
    } else {
        split_from(s.drop_first(), cur.push(s[0]))
    }
}

/// `s` split on every `/`.
pub open spec fn split_slash(s: Seq<char>) -> Seq<Seq<char>> {
    split_from(s, Seq::empty())
}

/// The segments that name something: neither empty nor `.`.
pub open spec fn named(segs: Seq<Seq<char>>) -> Seq<Seq<char>>
    decreases segs.len(),
{
    if segs.len() == 0 {
        Seq::empty()
    } else if segs.last().len() == 0 || segs.last() == "."@ {
        named(segs.drop_last())
    } else {
        named(segs.drop_last()).push(segs.last())
    }
}

/// The path's components: its non-empty, non-`.` segments.
pub open spec fn segments(s: Seq<char>) -> Seq<Seq<char>> {
    named(split_slash(s))
}

/// `s` split on every `/`.
pub fn split_path(s: &str) -> (r: Vec<String>)
    ensures
        views(r@) == split_slash(s@),
{
    let v = chars_of(s);
    let mut segs: Vec<String> = Vec::new();
    let mut cur: Vec<char> = Vec::new();
    let mut i: usize = 0;
    proof {
        assert(v@.skip(0) =~= v@);
    }
    while i < v.len()
        invariant
            i <= v@.len(),
            split_slash(v@) == views(segs@) + split_from(v@.skip(i as int), cur@),
        decreases v@.len() - i,
    {
        proof {
            assert(v@.skip(i as int).drop_first() =~= v@.skip(i + 1));
            assert(v@.skip(i as int)[0] == v@[i as int]);
        }
        if v[i] == '/' {
            let ghost before = views(segs@);
            segs.push(string_of(&cur));
            proof {
                assert(views(segs@) =~= before.push(cur@));
                assert(before + (seq![cur@] + split_from(v@.skip(i + 1), Seq::empty())) =~= views(segs@)
                    + split_from(v@.skip(i + 1), Seq::empty()));
            }
            cur = Vec::new();
            proof {
                assert(cur@ =~= Seq::<char>::empty());
            }
        } else {
            cur.push(v[i]);
        }
        i = i + 1;
    }
    let ghost before = views(segs@);
    segs.push(string_of(&cur));
    proof {
        assert(v@.skip(v@.len() as int) =~= Seq::<char>::empty());
        assert(views(segs@) =~= before + seq![cur@]);
    }
    segs
}

/// The path's components.
pub fn path_segments(s: &str) -> (r: Vec<String>)
    ensures
        views(r@) == segments(s@),
{
    let raw = split_path(s);
    let mut r: Vec<String> = Vec::new();
    let mut i: usize = 0;
    while i < raw.len()
        invariant
            i <= raw@.len(),
            views(r@) == named(views(raw@).take(i as int)),
        decreases raw@.len() - i,
    {
        proof {
            assert(views(raw@).take(i + 1).drop_last() =~= views(raw@).take(i as int));
        }
        let seg = raw[i].as_str();
        if !seg.is_empty() && !str_eq(seg, ".") {
            let ghost before = views(r@);
            r.push(raw[i].clone());
            proof {
                assert(views(r@) =~= before.push(raw@[i as int]@));
            }
        }
        i = i + 1;
    }
    proof {
        assert(views(raw@).take(raw@.len() as int) =~= views(raw@));
    }
    r
}

/// The path starts at the root.
pub open spec fn rooted(s: Seq<char>) -> bool {
    s.len() > 0 && s[0] == '/'
}

/// The path starts with a `.` component, which `Path` keeps only there.
pub open spec fn leading_cur_dir(s: Seq<char>) -> bool {
    s.len() > 0 && s[0] == '.' && (s.len() == 1 || s[1] == '/')
}

/// Two paths are equal as `Path`s: the same components, so repeated `/`s,
/// inner `.` segments and a trailing `/` make no difference.
pub open spec fn same_path(a: Seq<char>, b: Seq<char>) -> bool {
    &&& rooted(a) == rooted(b)
    &&& leading_cur_dir(a) == leading_cur_dir(b)
    &&& segments(a) == segments(b)
}

/// Whether two component lists are equal.
fn segments_equal(a: &Vec<String>, b: &Vec<String>) -> (r: bool)
    ensures
        r == (views(a@) == views(b@)),
{
    if a.len() != b.len() {
        proof {
            assert(views(a@).len() != views(b@).len());
        }
        return false;
    }
    let mut i: usize = 0;
    while i < a.len()
        invariant
            a@.len() == b@.len(),
            i <= a@.len(),
            forall|k: int| 0 <= k < i ==> (#[trigger] a@[k])@ == b@[k]@,
        decreases a@.len() - i,
    {
        if !str_eq(a[i].as_str(), b[i].as_str()) {
            proof {
                assert(views(a@)[i as int] != views(b@)[i as int]);
            }
            return false;
        }
        i = i + 1;
    }
    proof {
        assert(views(a@) =~= views(b@));
    }
    true
}

fn starts_cur_dir(v: &Vec<char>) -> (r: bool)
    ensures
        r == leading_cur_dir(v@),
{
    v.len() > 0 && v[0] == '.' && (v.len() == 1 || v[1] == '/')
}

/// `Path::new(a) == Path::new(b)`.
pub fn paths_equal(a: &str, b: &str) -> (r: bool)
    ensures
        r == same_path(a@, b@),
{
    let x = chars_of(a);
    let y = chars_of(b);
    let ra = x.len() > 0 && x[0] == '/';
    let rb = y.len() > 0 && y[0] == '/';
    if ra != rb || starts_cur_dir(&x) != starts_cur_dir(&y) {
        return false;
    }
    segments_equal(&path_segments(a), &path_segments(b))
}

/// The number of leading components two component lists share.
pub open spec fn common_len(a: Seq<Seq<char>>, b: Seq<Seq<char>>) -> nat
    decreases a.len(),
{
    if a.len() == 0 || b.len() == 0 || a[0] != b[0] {
        0
    } else {
        1 + common_len(a.drop_first(), b.drop_first())
    }
}

/// Steps from one directory to another through the tree: up to their common
/// ancestor, then down.
pub open spec fn distance(a: Seq<Seq<char>>, b: Seq<Seq<char>>) -> int {
    a.len() + b.len() - 2 * common_len(a, b)
}

proof fn lemma_common_len_bound(a: Seq<Seq<char>>, b: Seq<Seq<char>>)
    ensures
        common_len(a, b) <= a.len(),
        common_len(a, b) <= b.len(),
    decreases a.len(),
{
    if !(a.len() == 0 || b.len() == 0 || a[0] != b[0]) {
        lemma_common_len_bound(a.drop_first(), b.drop_first());
    }
}

/// Directory distance between two component lists.
pub fn dir_distance(a: &Vec<String>, b: &Vec<String>) -> (d: u128)
    ensures
        d as int == distance(views(a@), views(b@)),
{
    let mut k: usize = 0;
    proof {
        assert(views(a@).skip(0) =~= views(a@));
        assert(views(b@).skip(0) =~= views(b@));
    }
    while k < a.len() && k < b.len() && str_eq(a[k].as_str(), b[k].as_str())
        invariant
            k <= a@.len(),
            k <= b@.len(),
            common_len(views(a@), views(b@)) == k + common_len(views(a@).skip(k as int), views(b@).skip(k as int)),
        decreases a@.len() - k,
    {
        proof {
            assert(views(a@).skip(k as int).drop_first() =~= views(a@).skip(k + 1));
            assert(views(b@).skip(k as int).drop_first() =~= views(b@).skip(k + 1));
            assert(views(a@).skip(k as int)[0] == a@[k as int]@);
            assert(views(b@).skip(k as int)[0] == b@[k as int]@);
        }
        k = k + 1;
    }
    proof {
        if k < a.len() && k < b.len() {
            assert(views(a@).skip(k as int)[0] == a@[k as int]@);
            assert(views(b@).skip(k as int)[0] == b@[k as int]@);
        }
        lemma_common_len_bound(views(a@), views(b@));
    }
    (a.len() - k) as u128 + (b.len() - k) as u128
}

/// The components of a path's parent directory (`Path::parent`, with no
/// parent read as the empty path).
pub open spec fn parent(s: Seq<char>) -> Seq<Seq<char>> {
    let c = segments(s);
    if c.len() == 0 {
        c
    } else {
        c.drop_last()
    }
}

/// The components of `s`'s parent directory.
pub fn parent_segments(s: &str) -> (r: Vec<String>)
    ensures
        views(r@) == parent(s@),
{
    let mut c = path_segments(s);
    if c.len() > 0 {
        let ghost before = views(c@);
        c.pop();
        proof {
            assert(views(c@) =~= before.drop_last());
        }
    }
    c
}

/// A path's file name: its last component unless that is `..`.
pub open spec fn file_name(s: Seq<char>) -> Option<Seq<char>> {
    let c = segments(s);
    if c.len() == 0 || c.last() == ".."@ {
        None
    } else {
        Some(c.last())
    }
}

pub fn file_name_of(s: &str) -> (r: Option<String>)
    ensures
        r matches Some(n) ==> file_name(s@) == Some(n@),
        r is None ==> file_name(s@) is None,
{
    let c = path_segments(s);
    if c.len() == 0 || str_eq(c[c.len() - 1].as_str(), "..") {
        None
    } else {
        Some(c[c.len() - 1].clone())
    }
}

/// `a` sorts before `b`, comparing characters by code point (the order of
/// their UTF-8 bytes).
pub open spec fn str_less(a: Seq<char>, b: Seq<char>) -> bool
    decreases a.len(),
{
    if b.len() == 0 {
        false
    } else if a.len() == 0 {
        true
    } else if a[0] != b[0] {
        (a[0] as u32) < (b[0] as u32)
    } else {
        str_less(a.drop_first(), b.drop_first())
    }
}

/// `str_less` is irreflexive.
pub proof fn lemma_str_less_irreflexive(a: Seq<char>)
    ensures
        !str_less(a, a),
    decreases a.len(),
{
    if a.len() > 0 {
        lemma_str_less_irreflexive(a.drop_first());
    }
}

/// Of two different strings exactly one sorts before the other.
pub proof fn lemma_str_less_total(a: Seq<char>, b: Seq<char>)
    requires
        a != b,
    ensures
        str_less(a, b) != str_less(b, a),
    decreases a.len(),
{
    if a.len() == 0 && b.len() == 0 {
        assert(a =~= b);
    } else if a.len() > 0 && b.len() > 0 && a[0] == b[0] {
        if a.drop_first() =~= b.drop_first() {
            assert(a =~= b) by {
                assert forall|i: int| 0 <= i < a.len() implies a[i] == b[i] by {
                    if i > 0 {
                        assert(a[i] == a.drop_first()[i - 1]);
                        assert(b[i] == b.drop_first()[i - 1]);
                    }
                }
            }
        } else {
            lemma_str_less_total(a.drop_first(), b.drop_first());
        }
    } else if a.len() > 0 && b.len() > 0 {
        if (a[0] as u32) == (b[0] as u32) {
            vstd::utf8::char_u32_cast(a[0], a[0] as u32);
            vstd::utf8::char_u32_cast(b[0], b[0] as u32);
        }
    }
}

/// `str_less` is transitive.
pub proof fn lemma_str_less_transitive(a: Seq<char>, b: Seq<char>, c: Seq<char>)
    requires
        str_less(a, b),
        str_less(b, c),
    ensures
        str_less(a, c),
    decreases a.len(),
{
    if a.len() > 0 && b.len() > 0 && c.len() > 0 && a[0] == b[0] && b[0] == c[0] {
        lemma_str_less_transitive(a.drop_first(), b.drop_first(), c.drop_first());
    }
}

/// `a` sorts before `b` component by component, as `Path` orders.
pub open spec fn comps_less(a: Seq<Seq<char>>, b: Seq<Seq<char>>) -> bool
    decreases a.len(),
{
    if b.len() == 0 {
        false
    } else if a.len() == 0 {
        true
    } else if a[0] != b[0] {
        str_less(a[0], b[0])
    } else {
        comps_less(a.drop_first(), b.drop_first())
    }
}

pub(crate) fn string_less(a: &str, b: &str) -> (r: bool)
    ensures
        r == str_less(a@, b@),
{
    let x = chars_of(a);
    let y = chars_of(b);
    let mut k: usize = 0;
    proof {
        assert(x@.skip(0) =~= x@);
        assert(y@.skip(0) =~= y@);
    }
    while k < x.len() && k < y.len() && x[k] == y[k]
        invariant
            k <= x@.len(),
            k <= y@.len(),
            str_less(x@, y@) == str_less(x@.skip(k as int), y@.skip(k as int)),
        decreases x@.len() - k,
    {
        proof {
            assert(x@.skip(k as int).drop_first() =~= x@.skip(k + 1));
            assert(y@.skip(k as int).drop_first() =~= y@.skip(k + 1));
        }
        k = k + 1;
    }
    proof {
        if k < x.len() {
            assert(x@.skip(k as int)[0] == x@[k as int]);
        }
        if k < y.len() {
            assert(y@.skip(k as int)[0] == y@[k as int]);
        }
    }
    if k == y.len() {
        false
    } else if k == x.len() {
        true
    } else {
        (x[k] as u32) < (y[k] as u32)
    }
}

/// Whether path `a` sorts before path `b` (`Path < Path`).
pub fn path_less(a: &str, b: &str) -> (r: bool)
    ensures
        r == comps_less(segments(a@), segments(b@)),
{
    let x = path_segments(a);
    let y = path_segments(b);
    let mut k: usize = 0;
    proof {
        assert(views(x@).skip(0) =~= views(x@));
        assert(views(y@).skip(0) =~= views(y@));
    }
    while k < x.len() && k < y.len() && str_eq(x[k].as_str(), y[k].as_str())
        invariant
            k <= x@.len(),
            k <= y@.len(),
            views(x@) == segments(a@),
            views(y@) == segments(b@),
            comps_less(views(x@), views(y@)) == comps_less(views(x@).skip(k as int), views(y@).skip(k as int)),
        decreases x@.len() - k,
    {
        proof {
            assert(views(x@).skip(k as int).drop_first() =~= views(x@).skip(k + 1));
            assert(views(y@).skip(k as int).drop_first() =~= views(y@).skip(k + 1));
            assert(views(x@).skip(k as int)[0] == x@[k as int]@);
            assert(views(y@).skip(k as int)[0] == y@[k as int]@);
        }
        k = k + 1;
    }
    proof {
        if k < x.len() {
            assert(views(x@).skip(k as int)[0] == x@[k as int]@);
        }
        if k < y.len() {
            assert(views(y@).skip(k as int)[0] == y@[k as int]@);
        }
    }
    if k == y.len() {
        false
    } else if k == x.len() {
        true
    } else {
        string_less(x[k].as_str(), y[k].as_str())
    }
}

/// The normal components of a path: its segments other than `..`.
pub open spec fn normal_parts(segs: Seq<Seq<char>>) -> Seq<Seq<char>>
    decreases segs.len(),
{
    if segs.len() == 0 {
        Seq::empty()
    } else if segs.last() == ".."@ {
        normal_parts(segs.drop_last())
    } else {
        normal_parts(segs.drop_last()).push(segs.last())
    }
}

pub fn normal_components(s: &str) -> (r: Vec<String>)
    ensures
        views(r@) == normal_parts(segments(s@)),
{
    let c = path_segments(s);
    let mut r: Vec<String> = Vec::new();
    let mut i: usize = 0;
    while i < c.len()
        invariant
            i <= c@.len(),
            views(c@) == segments(s@),
            views(r@) == normal_parts(views(c@).take(i as int)),
        decreases c@.len() - i,
    {
        proof {
            assert(views(c@).take(i + 1).drop_last() =~= views(c@).take(i as int));
        }
        if !str_eq(c[i].as_str(), "..") {
            let ghost before = views(r@);
            r.push(c[i].clone());
            proof {
                assert(views(r@) =~= before.push(c@[i as int]@));
            }
        }
        i = i + 1;
    }
    proof {
        assert(views(c@).take(c@.len() as int) =~= views(c@));
    }
    r
}

/// Normalize split segments: empty and `.` segments vanish, `..` removes the
/// component before it (failing when there is none).
pub open spec fn norm_from(segs: Seq<Seq<char>>, acc: Seq<Seq<char>>) -> Option<Seq<Seq<char>>>
    decreases segs.len(),
{
    if segs.len() == 0 {
        Some(acc)
    } else {
        let s = segs[0];
        if s.len() == 0 || s == "."@ {
            norm_from(segs.drop_first(), acc)
        } else if s == ".."@ {
            if acc.len() == 0 {
                None
            } else {
                norm_from(segs.drop_first(), acc.drop_last())
            }
        } else {
            norm_from(segs.drop_first(), acc.push(s))
        }
    }
}

/// `.`/`..` resolved without touching the filesystem; `None` when the path
/// is rooted or climbs above its start.
pub open spec fn normalize_spec(p: Seq<char>) -> Option<Seq<char>> {
    if p.len() > 0 && p[0] == '/' {
        None
    } else {
        match norm_from(split_slash(p), Seq::empty()) {
            Some(parts) => Some(join_seq(parts, "/"@)),
            None => None,
        }
    }
}

/// Normalize `.`/`..` components without touching the filesystem.
pub fn normalize(p: &str) -> (r: Option<String>)
    ensures
        r matches Some(x) ==> normalize_spec(p@) == Some(x@),
        r is None ==> normalize_spec(p@) is None,
{
    if crate::text::starts_with(p, "/") {
        proof {
            reveal_strlit("/");
            assert(p@.subrange(0, 1) == "/"@);
            assert(p@[0] == "/"@[0]);
        }
        return None;
    }
    proof {
        reveal_strlit("/");
        if p@.len() > 0 && p@[0] == '/' {
            assert(p@.subrange(0, 1) =~= "/"@);
        }
    }
    let raw = split_path(p);
    let mut out: Vec<String> = Vec::new();
    let mut i: usize = 0;
    proof {
        assert(views(raw@).skip(0) =~= views(raw@));
        assert(views(out@) =~= Seq::<Seq<char>>::empty());
    }
    while i < raw.len()
        invariant
            i <= raw@.len(),
            views(raw@) == split_slash(p@),
            norm_from(split_slash(p@), Seq::empty()) == norm_from(views(raw@).skip(i as int), views(out@)),
        decreases raw@.len() - i,
    {
        proof {
            assert(views(raw@).skip(i as int).drop_first() =~= views(raw@).skip(i + 1));
            assert(views(raw@).skip(i as int)[0] == raw@[i as int]@);
        }
        let seg = raw[i].as_str();
        if seg.is_empty() || str_eq(seg, ".") {
        } else if str_eq(seg, "..") {
            if out.len() == 0 {
                return None;
            }
            let ghost before = views(out@);
            out.pop();
            proof {
                assert(views(out@) =~= before.drop_last());
            }
        } else {
            let ghost before = views(out@);
            out.push(raw[i].clone());
            proof {
                assert(views(out@) =~= before.push(raw@[i as int]@));
            }
        }
        i = i + 1;
    }
    proof {
        assert(views(raw@).skip(raw@.len() as int) =~= Seq::<Seq<char>>::empty());
    }
    Some(crate::text::join(&out, "/"))
}

} // verus!

