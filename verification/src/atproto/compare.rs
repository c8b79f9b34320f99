//! Semantic equality between a locally built record and one read back from
//! the PDS. Both sides are taken as JSON trees; a blob's `mimeType` is the one
//! field that cannot be reproduced offline (uploads go out as `*/*`), so it is
//! ignored on objects whose `$type` is `"blob"`. Blob identity is `ref.$link`
//! plus `size`, both functions of the bytes.
use vstd::prelude::*;
use crate::doc::{keys_sorted, sorted_keys};
use crate::paths::str_less;
use crate::text::str_eq;

verus! {

/// A JSON value as `serde_json::Value` holds it: numbers by their text,
/// objects as their entries in key order (see [`json_wf`]).
pub enum Json {
    Null,
    Bool(bool),
    Number(String),
    Str(String),
    Array(Vec<Json>),
    Object(Vec<(String, Json)>),
}

/// The mathematical JSON tree of a [`Json`].
pub enum JsonV {
    Null,
    Bool(bool),
    Number(Seq<char>),
    Str(Seq<char>),
    Array(Seq<JsonV>),
    Object(Seq<(Seq<char>, JsonV)>),
}

/// The tree of a value.
pub open spec fn jview(j: Json) -> JsonV
    decreases j, 0int,
{
    match j {
        Json::Null => JsonV::Null,
        Json::Bool(b) => JsonV::Bool(b),
        Json::Number(n) => JsonV::Number(n@),
        Json::Str(s) => JsonV::Str(s@),
        Json::Array(v) => JsonV::Array(items_view(v@, v@.len() as int)),
        Json::Object(m) => JsonV::Object(entries_view(m@, m@.len() as int)),
    }
}

/// The trees of the first `n` items.
pub open spec fn items_view(s: Seq<Json>, n: int) -> Seq<JsonV>
    decreases s, n,
{
    if n <= 0 || n > s.len() {
        Seq::empty()
    } else {
        items_view(s, n - 1).push(jview(s[n - 1]))
    }
}

/// The first `n` entries with their values as trees.
pub open spec fn entries_view(m: Seq<(String, Json)>, n: int) -> Seq<(Seq<char>, JsonV)>
    decreases m, n,
{
    if n <= 0 || n > m.len() {
        Seq::empty()
    } else {
        entries_view(m, n - 1).push((m[n - 1].0@, jview(m[n - 1].1)))
    }
}


/// Well-formedness of a tree: every object, at any depth, lists its entries
/// in strictly increasing key order, as `serde_json`'s map keeps them, so no
/// key occurs twice.
pub open spec fn json_wf(v: JsonV) -> bool
    decreases v, 1int,
{
    match v {
        JsonV::Array(s) => items_all_wf(s, s.len() as int),
        JsonV::Object(m) => {
            &&& forall|i: int, j: int| 0 <= i < j < m.len() ==> str_less(#[trigger] m[i].0, #[trigger] m[j].0)
            &&& entries_all_wf(m, m.len() as int)
        },
        _ => true,
    }
}

/// The first `n` items are well-formed.
pub open spec fn items_all_wf(s: Seq<JsonV>, n: int) -> bool
    decreases s, 0int, n,
{
    if n <= 0 || n > s.len() {
        true
    } else {
        items_all_wf(s, n - 1) && json_wf(s[n - 1])
    }
}

/// The values of the first `n` entries are well-formed.
pub open spec fn entries_all_wf(m: Seq<(Seq<char>, JsonV)>, n: int) -> bool
    decreases m, 0int, n,
{
    if n <= 0 || n > m.len() {
        true
    } else {
        entries_all_wf(m, n - 1) && json_wf(m[n - 1].1)
    }
}

proof fn lemma_items_all_wf(s: Seq<JsonV>, n: int)
    requires
        0 <= n <= s.len(),
    ensures
        items_all_wf(s, n) == forall|k: int| 0 <= k < n ==> json_wf(#[trigger] s[k]),
    decreases n,
{
    if n > 0 {
        lemma_items_all_wf(s, n - 1);
    }
}

proof fn lemma_entries_all_wf(m: Seq<(Seq<char>, JsonV)>, n: int)
    requires
        0 <= n <= m.len(),
    ensures
        entries_all_wf(m, n) == forall|k: int| 0 <= k < n ==> json_wf(#[trigger] m[k].1),
    decreases n,
{
    if n > 0 {
        lemma_entries_all_wf(m, n - 1);
    }
}

/// The object's first `$type` entry holds the string `"blob"`.
pub open spec fn is_blob(m: Seq<(Seq<char>, JsonV)>) -> bool
    decreases m.len(),
{
    if m.len() == 0 {
        false
    } else if m[0].0 == "$type"@ {
        m[0].1 == JsonV::Str("blob"@)
    } else {
        is_blob(m.drop_first())
    }
}

/// The tree with `mimeType` removed from every blob object, at any depth.
pub open spec fn canon(v: JsonV) -> JsonV
    decreases v, 0int,
{
    match v {
        JsonV::Array(s) => JsonV::Array(canon_items(s, s.len() as int)),
        JsonV::Object(m) => JsonV::Object(canon_entries(m, m.len() as int, is_blob(m))),
        _ => v,
    }
}

/// The first `n` items, each canonical.
pub open spec fn canon_items(s: Seq<JsonV>, n: int) -> Seq<JsonV>
    decreases s, n,
{
    if n <= 0 || n > s.len() {
        Seq::empty()
    } else {
        canon_items(s, n - 1).push(canon(s[n - 1]))
    }
}

/// The first `n` entries, values canonical, without `mimeType` when `blob`.
pub open spec fn canon_entries(m: Seq<(Seq<char>, JsonV)>, n: int, blob: bool) -> Seq<(Seq<char>, JsonV)>
    decreases m, n,
{
    if n <= 0 || n > m.len() {
        Seq::empty()
    } else if blob && m[n - 1].0 == "mimeType"@ {
        canon_entries(m, n - 1, blob)
    } else {
        canon_entries(m, n - 1, blob).push((m[n - 1].0, canon(m[n - 1].1)))
    }
}

proof fn lemma_items_view(s: Seq<Json>, n: int)
    requires
        0 <= n <= s.len(),
    ensures
        items_view(s, n).len() == n,
        forall|k: int| 0 <= k < n ==> #[trigger] items_view(s, n)[k] == jview(s[k]),
    decreases n,
{
    if n > 0 {
        lemma_items_view(s, n - 1);
    }
}

/// The views of the first `n` entries line up with the entries.
pub proof fn lemma_entries_view(m: Seq<(String, Json)>, n: int)
    requires
        0 <= n <= m.len(),
    ensures
        entries_view(m, n).len() == n,
        forall|k: int| 0 <= k < n ==> #[trigger] entries_view(m, n)[k] == (m[k].0@, jview(m[k].1)),
    decreases n,
{
    if n > 0 {
        lemma_entries_view(m, n - 1);
    }
}

proof fn lemma_canon_items(s: Seq<JsonV>, n: int)
    requires
        0 <= n <= s.len(),
    ensures
        canon_items(s, n).len() == n,
        forall|k: int| 0 <= k < n ==> #[trigger] canon_items(s, n)[k] == canon(s[k]),
    decreases n,
{
    if n > 0 {
        lemma_canon_items(s, n - 1);
    }
}

/// Whether the object's `$type` is `"blob"`.
fn blob_object(m: &Vec<(String, Json)>) -> (r: bool)
    ensures
        r == is_blob(entries_view(m@, m@.len() as int)),
{
    let ghost mv = entries_view(m@, m@.len() as int);
    proof {
        lemma_entries_view(m@, m@.len() as int);
        assert(mv.skip(0) =~= mv);
        reveal_strlit("$type");
        reveal_strlit("blob");
    }
    let mut i: usize = 0;
    while i < m.len()
        invariant
            i <= m@.len(),
            mv == entries_view(m@, m@.len() as int),
            mv.len() == m@.len(),
            forall|k: int| 0 <= k < m@.len() ==> #[trigger] mv[k] == (m@[k].0@, jview(m@[k].1)),
            is_blob(mv) == is_blob(mv.skip(i as int)),
        decreases m@.len() - i,
    {
        proof {
            assert(mv.skip(i as int).drop_first() =~= mv.skip(i + 1));
            assert(mv.skip(i as int)[0] == mv[i as int]);
        }
        if str_eq(m[i].0.as_str(), "$type") {
            return match &m[i].1 {
                Json::Str(s) => {
                    let b = str_eq(s.as_str(), "blob");
                    proof {
                        if !b {
                            assert(JsonV::Str(s@) != JsonV::Str("blob"@));
                        }
                    }
                    b
                },
                _ => false,
            };
        }
        i = i + 1;
    }
    false
}

fn clone_str(s: &String) -> (r: String)
    ensures
        r@ == s@,
{
    String::from_str(s.as_str())
}

/// A copy of `j` with `mimeType` dropped from every blob object.
pub fn canonical(j: &Json) -> (r: Json)
    ensures
        jview(r) == canon(jview(*j)),
    decreases j,
{
    match j {
        Json::Null => Json::Null,
        Json::Bool(b) => Json::Bool(*b),
        Json::Number(n) => Json::Number(clone_str(n)),
        Json::Str(s) => Json::Str(clone_str(s)),
        Json::Array(v) => {
            let ghost tv = items_view(v@, v@.len() as int);
            proof {
                lemma_items_view(v@, v@.len() as int);
                lemma_canon_items(tv, tv.len() as int);
            }
            let mut out: Vec<Json> = Vec::new();
            let mut i: usize = 0;
            while i < v.len()
                invariant
                    i <= v@.len(),
                    *j == Json::Array(*v),
                    out@.len() == i,
                    tv == items_view(v@, v@.len() as int),
                    tv.len() == v@.len(),
                    forall|k: int| 0 <= k < v@.len() ==> #[trigger] tv[k] == jview(v@[k]),
                    forall|k: int| 0 <= k < i ==> jview(#[trigger] out@[k]) == canon(tv[k]),
                decreases v@.len() - i,
            {
                proof {
                    assert(decreases_to!(*j => (*j)->Array_0));
                    assert(decreases_to!((*j)->Array_0 => (*j)->Array_0@));
                    assert(decreases_to!((*j)->Array_0@ => (*j)->Array_0@[i as int]));
                    assert(decreases_to!(*j => v@[i as int]));
                }
                let c = canonical(&v[i]);
                out.push(c);
                i = i + 1;
            }
            proof {
                lemma_items_view(out@, out@.len() as int);
                assert(items_view(out@, out@.len() as int) =~= canon_items(tv, tv.len() as int));
            }
            Json::Array(out)
        },
        Json::Object(m) => {
            let ghost mv = entries_view(m@, m@.len() as int);
            let blob = blob_object(m);
            proof {
                lemma_entries_view(m@, m@.len() as int);
                reveal_strlit("mimeType");
            }
            let mut out: Vec<(String, Json)> = Vec::new();
            let mut i: usize = 0;
            while i < m.len()
                invariant
                    i <= m@.len(),
                    *j == Json::Object(*m),
                    mv == entries_view(m@, m@.len() as int),
                    mv.len() == m@.len(),
                    blob == is_blob(mv),
                    forall|k: int| 0 <= k < m@.len() ==> #[trigger] mv[k] == (m@[k].0@, jview(m@[k].1)),
                    entries_view(out@, out@.len() as int) == canon_entries(mv, i as int, blob),
                decreases m@.len() - i,
            {
                let skip = blob && str_eq(m[i].0.as_str(), "mimeType");
                if !skip {
                    let ghost before = out@;
                    let key = clone_str(&m[i].0);
                    proof {
                        assert(decreases_to!(*j => (*j)->Object_0));
                        assert(decreases_to!((*j)->Object_0 => (*j)->Object_0@));
                        assert(decreases_to!((*j)->Object_0@ => (*j)->Object_0@[i as int]));
                        assert(decreases_to!((*j)->Object_0@[i as int] => (*j)->Object_0@[i as int].1));
                        assert(decreases_to!(*j => m@[i as int].1));
                    }
                    let val = canonical(&m[i].1);
                    out.push((key, val));
                    proof {
                        lemma_entries_prefix(before, out@, before.len() as int);
                    }
                }
                i = i + 1;
            }
            Json::Object(out)
        },
    }
}

proof fn lemma_entries_prefix(a: Seq<(String, Json)>, b: Seq<(String, Json)>, n: int)
    requires
        0 <= n <= a.len(),
        a.len() <= b.len(),
        forall|k: int| 0 <= k < a.len() ==> #[trigger] b[k] == a[k],
    ensures
        entries_view(b, n) == entries_view(a, n),
    decreases n,
{
    if n > 0 {
        lemma_entries_prefix(a, b, n - 1);
    }
}


fn items_eq(a: &Json, b: &Json, x: &Vec<Json>, y: &Vec<Json>) -> (r: bool)
    requires
        *a == Json::Array(*x),
        *b == Json::Array(*y),
    ensures
        r == (jview(*a) == jview(*b)),
    decreases a, 0int,
{
    proof {
        lemma_items_view(x@, x@.len() as int);
        lemma_items_view(y@, y@.len() as int);
    }
    if x.len() != y.len() {
        proof {
            assert(items_view(x@, x@.len() as int).len() != items_view(y@, y@.len() as int).len());
        }
        return false;
    }
    let mut i: usize = 0;
    while i < x.len()
        invariant
            i <= x@.len(),
            x@.len() == y@.len(),
            *a == Json::Array(*x),
            *b == Json::Array(*y),
            forall|k: int| 0 <= k < i ==> jview(#[trigger] x@[k]) == jview(y@[k]),
        decreases x@.len() - i,
    {
        proof {
            assert(decreases_to!(*a => (*a)->Array_0));
            assert(decreases_to!((*a)->Array_0 => (*a)->Array_0@));
            assert(decreases_to!((*a)->Array_0@ => (*a)->Array_0@[i as int]));
        }
        if !json_eq(&x[i], &y[i]) {
            proof {
                lemma_items_view(x@, x@.len() as int);
                lemma_items_view(y@, y@.len() as int);
                assert(items_view(x@, x@.len() as int)[i as int] != items_view(y@, y@.len() as int)[i as int]);
            }
            return false;
        }
        i = i + 1;
    }
    proof {
        lemma_items_view(x@, x@.len() as int);
        lemma_items_view(y@, y@.len() as int);
        assert(items_view(x@, x@.len() as int) =~= items_view(y@, y@.len() as int));
    }
    true
}

fn entries_eq(a: &Json, b: &Json, x: &Vec<(String, Json)>, y: &Vec<(String, Json)>) -> (r: bool)
    requires
        *a == Json::Object(*x),
        *b == Json::Object(*y),
    ensures
        r == (jview(*a) == jview(*b)),
    decreases a, 0int,
{
    proof {
        lemma_entries_view(x@, x@.len() as int);
        lemma_entries_view(y@, y@.len() as int);
    }
    if x.len() != y.len() {
        proof {
            assert(entries_view(x@, x@.len() as int).len() != entries_view(y@, y@.len() as int).len());
        }
        return false;
    }
    let mut i: usize = 0;
    while i < x.len()
        invariant
            i <= x@.len(),
            x@.len() == y@.len(),
            *a == Json::Object(*x),
            *b == Json::Object(*y),
            forall|k: int| 0 <= k < i ==> (#[trigger] x@[k]).0@ == y@[k].0@ && jview(x@[k].1) == jview(y@[k].1),
        decreases x@.len() - i,
    {
        proof {
            lemma_entries_view(x@, x@.len() as int);
            lemma_entries_view(y@, y@.len() as int);
        }
        if !str_eq(x[i].0.as_str(), y[i].0.as_str()) {
            proof {
                assert(entries_view(x@, x@.len() as int)[i as int] != entries_view(y@, y@.len() as int)[i as int]);
            }
            return false;
        }
        proof {
            assert(decreases_to!(*a => (*a)->Object_0));
            assert(decreases_to!((*a)->Object_0 => (*a)->Object_0@));
            assert(decreases_to!((*a)->Object_0@ => (*a)->Object_0@[i as int]));
            assert(decreases_to!((*a)->Object_0@[i as int] => (*a)->Object_0@[i as int].1));
        }
        if !json_eq(&x[i].1, &y[i].1) {
            proof {
                assert(entries_view(x@, x@.len() as int)[i as int] != entries_view(y@, y@.len() as int)[i as int]);
            }
            return false;
        }
        i = i + 1;
    }
    proof {
        lemma_entries_view(x@, x@.len() as int);
        lemma_entries_view(y@, y@.len() as int);
        assert(entries_view(x@, x@.len() as int) =~= entries_view(y@, y@.len() as int));
    }
    true
}

/// Whether two values are the same JSON tree.
pub fn json_eq(a: &Json, b: &Json) -> (r: bool)
    ensures
        r == (jview(*a) == jview(*b)),
    decreases a, 1int,
{
    match a {
        Json::Null => match b {
            Json::Null => true,
            _ => false,
        },
        Json::Bool(x) => match b {
            Json::Bool(y) => *x == *y,
            _ => false,
        },
        Json::Number(x) => match b {
            Json::Number(y) => str_eq(x.as_str(), y.as_str()),
            _ => false,
        },
        Json::Str(x) => match b {
            Json::Str(y) => str_eq(x.as_str(), y.as_str()),
            _ => false,
        },
        Json::Array(x) => match b {
            Json::Array(y) => items_eq(a, b, x, y),
            _ => false,
        },
        Json::Object(x) => match b {
            Json::Object(y) => entries_eq(a, b, x, y),
            _ => false,
        },
    }
}

fn items_wf(a: &Json, x: &Vec<Json>) -> (r: bool)
    requires
        *a == Json::Array(*x),
    ensures
        r == json_wf(jview(*a)),
    decreases a, 0int,
{
    proof {
        lemma_items_view(x@, x@.len() as int);
        assert(jview(*a) == JsonV::Array(items_view(x@, x@.len() as int)));
    }
    let mut i: usize = 0;
    while i < x.len()
        invariant
            i <= x@.len(),
            *a == Json::Array(*x),
            jview(*a) == JsonV::Array(items_view(x@, x@.len() as int)),
            forall|k: int| 0 <= k < i ==> json_wf(jview(#[trigger] x@[k])),
        decreases x@.len() - i,
    {
        proof {
            assert(decreases_to!(*a => (*a)->Array_0));
            assert(decreases_to!((*a)->Array_0 => (*a)->Array_0@));
            assert(decreases_to!((*a)->Array_0@ => (*a)->Array_0@[i as int]));
        }
        if !json_is_wf(&x[i]) {
            proof {
                lemma_items_view(x@, x@.len() as int);
                let s = items_view(x@, x@.len() as int);
                assert(!json_wf(s[i as int]));
                lemma_items_all_wf(s, s.len() as int);
            }
            return false;
        }
        i = i + 1;
    }
    proof {
        lemma_items_view(x@, x@.len() as int);
        let s = items_view(x@, x@.len() as int);
        assert forall|k: int| 0 <= k < s.len() implies json_wf(#[trigger] s[k]) by {
            assert(s[k] == jview(x@[k]));
        }
        lemma_items_all_wf(s, s.len() as int);
    }
    true
}

fn entries_wf(a: &Json, x: &Vec<(String, Json)>) -> (r: bool)
    requires
        *a == Json::Object(*x),
    ensures
        r == json_wf(jview(*a)),
    decreases a, 0int,
{
    proof {
        lemma_entries_view(x@, x@.len() as int);
    }
    let ghost m = entries_view(x@, x@.len() as int);
    proof {
        assert(jview(*a) == JsonV::Object(m));
    }
    let sorted = sorted_keys(x);
    proof {
        if sorted != (forall|i: int, j: int| 0 <= i < j < m.len() ==> str_less(#[trigger] m[i].0, #[trigger] m[j].0)) {
            if sorted {
                assert forall|i: int, j: int| 0 <= i < j < m.len() implies str_less(#[trigger] m[i].0, #[trigger] m[j].0) by {
                    assert(m[i].0 == x@[i].0@ && m[j].0 == x@[j].0@);
                }
            } else {
                let (i, j) = choose|i: int, j: int| 0 <= i < j < x@.len() && !str_less(#[trigger] x@[i].0@, #[trigger] x@[j].0@);
                assert(m[i].0 == x@[i].0@ && m[j].0 == x@[j].0@);
            }
        }
    }
    if !sorted {
        return false;
    }
    let mut i: usize = 0;
    while i < x.len()
        invariant
            i <= x@.len(),
            *a == Json::Object(*x),
            m == entries_view(x@, x@.len() as int),
            jview(*a) == JsonV::Object(m),
            forall|k: int| 0 <= k < i ==> json_wf(jview(#[trigger] x@[k].1)),
        decreases x@.len() - i,
    {
        proof {
            assert(decreases_to!(*a => (*a)->Object_0));
            assert(decreases_to!((*a)->Object_0 => (*a)->Object_0@));
            assert(decreases_to!((*a)->Object_0@ => (*a)->Object_0@[i as int]));
            assert(decreases_to!((*a)->Object_0@[i as int] => (*a)->Object_0@[i as int].1));
        }
        if !json_is_wf(&x[i].1) {
            proof {
                lemma_entries_view(x@, x@.len() as int);
                assert(!json_wf(m[i as int].1));
                lemma_entries_all_wf(m, m.len() as int);
            }
            return false;
        }
        i = i + 1;
    }
    proof {
        lemma_entries_view(x@, x@.len() as int);
        assert forall|k: int| 0 <= k < m.len() implies json_wf(#[trigger] m[k].1) by {
            assert(m[k].1 == jview(x@[k].1));
        }
        lemma_entries_all_wf(m, m.len() as int);
    }
    true
}

/// Whether every object of the value lists its keys in strictly increasing
/// order.
pub fn json_is_wf(j: &Json) -> (r: bool)
    ensures
        r == json_wf(jview(*j)),
    decreases j, 1int,
{
    match j {
        Json::Array(x) => items_wf(j, x),
        Json::Object(x) => entries_wf(j, x),
        _ => true,
    }
}

/// Whether the locally built record and the one read back are the same once
/// blob `mimeType`s are set aside.
pub fn equal(local: &Json, remote: &Json) -> (r: bool)
    requires
        json_wf(jview(*local)),
        json_wf(jview(*remote)),
    ensures
        r == (canon(jview(*local)) == canon(jview(*remote))),
{
    let a = canonical(local);
    let b = canonical(remote);
    json_eq(&a, &b)
}


proof fn lemma_is_blob_update(m: Seq<(Seq<char>, JsonV)>, i: int, v: JsonV)
    requires
        0 <= i < m.len(),
        m[i].0 == "mimeType"@,
    ensures
        is_blob(m.update(i, ("mimeType"@, v))) == is_blob(m),
    decreases m.len(),
{
    reveal_strlit("mimeType");
    reveal_strlit("$type");
    let u = m.update(i, ("mimeType"@, v));
    assert("mimeType"@.len() != "$type"@.len());
    if i == 0 {
        assert(u.drop_first() =~= m.drop_first());
    } else {
        assert(u.drop_first() =~= m.drop_first().update(i - 1, ("mimeType"@, v)));
        if m[0].0 != "$type"@ {
            lemma_is_blob_update(m.drop_first(), i - 1, v);
        }
    }
}

proof fn lemma_canon_entries_update(m: Seq<(Seq<char>, JsonV)>, n: int, i: int, v: JsonV)
    requires
        0 <= i < m.len(),
        0 <= n <= m.len(),
        m[i].0 == "mimeType"@,
    ensures
        canon_entries(m.update(i, ("mimeType"@, v)), n, true) == canon_entries(m, n, true),
    decreases n,
{
    if n > 0 {
        lemma_canon_entries_update(m, n - 1, i, v);
    }
}

/// A blob's `mimeType` does not take part in the comparison: two records
/// whose only difference is the value of a blob object's `mimeType` field
/// are equal once canonical.
pub proof fn lemma_blob_mimetype_ignored(m: Seq<(Seq<char>, JsonV)>, i: int, v: JsonV)
    requires
        is_blob(m),
        0 <= i < m.len(),
        m[i].0 == "mimeType"@,
    ensures
        canon(JsonV::Object(m.update(i, ("mimeType"@, v)))) == canon(JsonV::Object(m)),
{
    lemma_is_blob_update(m, i, v);
    lemma_canon_entries_update(m, m.len() as int, i, v);
}

} // verus!
