//! The document model the library's logic reads: a source document's paths,
//! rendered text, timestamps and raw frontmatter, held as plain values.
use vstd::prelude::*;
use crate::paths::{lemma_str_less_transitive, str_less, string_less};
use crate::text::str_eq;

verus! {

/// A YAML value as the frontmatter parser produces it, reduced to what the
/// library's logic distinguishes.
pub enum Yaml {
    Null,
    Bool(bool),
    /// Any number; the logic only ever needs to know that a value is one.
    Number,
    Str(String),
    List(Vec<Yaml>),
    Mapping(Vec<(Yaml, Yaml)>),
}

/// A UTC instant: seconds since the Unix epoch plus the sub-second
/// nanoseconds, ordered lexicographically like `chrono::DateTime<Utc>`.
#[derive(Clone, Copy)]
pub struct DateTime {
    pub secs: i64,
    pub nanos: u32,
}

/// The earliest second chrono represents: -262143-01-01T00:00:00Z.
pub const MIN_SECS: i64 = -8_334_601_228_800;

/// The last second chrono represents: 262142-12-31T23:59:59Z.
pub const MAX_SECS: i64 = 8_210_266_876_799;

/// The instants chrono represents: nanoseconds below one second and a date
/// between the years -262143 and 262142.
pub open spec fn valid_instant(d: DateTime) -> bool {
    &&& d.nanos < 1_000_000_000
    &&& MIN_SECS <= d.secs <= MAX_SECS
}

/// `a` is strictly later than `b`.
pub open spec fn later(a: DateTime, b: DateTime) -> bool {
    a.secs > b.secs || (a.secs == b.secs && a.nanos > b.nanos)
}

/// Whether `a` is strictly later than `b` (`DateTime > DateTime`).
pub fn is_later(a: &DateTime, b: &DateTime) -> (r: bool)
    ensures
        r == later(*a, *b),
{
    a.secs > b.secs || (a.secs == b.secs && a.nanos > b.nanos)
}

/// The RFC 3339 text of an instant with millisecond precision and a `Z`
/// suffix, as chrono's `to_rfc3339_opts(SecondsFormat::Millis, true)` renders it.
pub uninterp spec fn rfc3339_millis_of(secs: int, nanos: int) -> Seq<char>;

/// `chrono::DateTime::<Utc>::to_rfc3339_opts(SecondsFormat::Millis, true)` of
/// the instant (built with `DateTime::from_timestamp`, which accepts every
/// instant `valid_instant` admits).
#[verifier::external_body]
pub(crate) fn rfc3339(d: &DateTime) -> (r: String)
    requires
        valid_instant(*d),
    ensures
        r@ == rfc3339_millis_of(d.secs as int, d.nanos as int),
{
    match chrono::DateTime::<chrono::Utc>::from_timestamp(d.secs, d.nanos) {
        Some(dt) => dt.to_rfc3339_opts(chrono::SecondsFormat::Millis, true),
        None => String::new(),
    }
}

/// The UTC calendar day (days since 1970-01-01) an instant falls on.
pub open spec fn day_number(d: DateTime) -> int {
    let s = d.secs as int;
    if s >= 0 {
        s / 86400
    } else {
        -((-s + 86399) / 86400)
    }
}

/// `DateTime::date_naive`, as a day number.
pub fn day_of(d: &DateTime) -> (r: i64)
    ensures
        r == day_number(*d),
{
    if d.secs >= 0 {
        d.secs / 86400
    } else {
        -((-(d.secs as i128) + 86399) / 86400) as i64
    }
}

/// One source document, as the build read it.
pub struct Doc {
    /// Path relative to `content/`, `/`-separated (e.g. `blog/post.md`).
    pub id_path: String,
    /// Path relative to the output dir (e.g. `blog/post/index.html`).
    pub output_path: String,
    pub title: String,
    pub summary: String,
    /// Rendered HTML body.
    pub content: String,
    /// Markdown source of the body; `None` for raw HTML and YAML docs.
    pub markdown: Option<String>,
    /// Taxonomy name → (term slug → display text), both levels in key order.
    pub terms: Vec<(String, Vec<(String, String)>)>,
    pub date: DateTime,
    pub updated: DateTime,
    /// Raw frontmatter, in document order, string keys only.
    pub data: Vec<(String, Yaml)>,
    pub draft: bool,
}

/// The entries' keys are in strictly increasing order, so no key occurs twice.
pub open spec fn keys_sorted<V>(entries: Seq<(String, V)>) -> bool {
    forall|i: int, j: int| 0 <= i < j < entries.len() ==> str_less(#[trigger] entries[i].0@, #[trigger] entries[j].0@)
}

/// Both levels of a taxonomy table are in key order.
pub open spec fn terms_sorted(terms: Seq<(String, Vec<(String, String)>)>) -> bool {
    &&& keys_sorted(terms)
    &&& forall|i: int| 0 <= i < terms.len() ==> keys_sorted(#[trigger] terms[i].1@)
}

impl Doc {
    /// Well-formedness: both timestamps are instants the library handles, and
    /// the taxonomy table is ordered by key at both levels.
    pub open spec fn wf(&self) -> bool {
        &&& valid_instant(self.date)
        &&& valid_instant(self.updated)
        &&& terms_sorted(self.terms@)
    }

    /// Whether the doc is well-formed.
    pub fn is_wf(&self) -> (r: bool)
        ensures
            r == self.wf(),
    {
        let instants = self.date.nanos < 1_000_000_000 && MIN_SECS <= self.date.secs
            && self.date.secs <= MAX_SECS && self.updated.nanos < 1_000_000_000
            && MIN_SECS <= self.updated.secs && self.updated.secs <= MAX_SECS;
        if !instants || !sorted_keys(&self.terms) {
            return false;
        }
        let mut i: usize = 0;
        while i < self.terms.len()
            invariant
                i <= self.terms@.len(),
                forall|k: int| 0 <= k < i ==> keys_sorted(#[trigger] self.terms@[k].1@),
            decreases self.terms@.len() - i,
        {
            if !sorted_keys(&self.terms[i].1) {
                return false;
            }
            i = i + 1;
        }
        true
    }
}

/// Whether the entries' keys are in strictly increasing order.
pub fn sorted_keys<V>(entries: &Vec<(String, V)>) -> (r: bool)
    ensures
        r == keys_sorted(entries@),
{
    if entries.len() == 0 {
        return true;
    }
    let mut i: usize = 1;
    while i < entries.len()
        invariant
            1 <= i <= entries@.len(),
            forall|a: int, b: int| 0 <= a < b < i ==> str_less(#[trigger] entries@[a].0@, #[trigger] entries@[b].0@),
        decreases entries@.len() - i,
    {
        if !string_less(entries[i - 1].0.as_str(), entries[i].0.as_str()) {
            return false;
        }
        proof {
            assert forall|a: int, b: int| 0 <= a < b < i + 1 implies str_less(
                #[trigger] entries@[a].0@,
                #[trigger] entries@[b].0@,
            ) by {
                if b == i && a < i - 1 {
                    lemma_str_less_transitive(entries@[a].0@, entries@[i - 1].0@, entries@[b].0@);
                }
            }
        }
        i = i + 1;
    }
    true
}

/// The value of the first entry keyed `key` in `entries`.
pub open spec fn lookup<V>(entries: Seq<(String, V)>, key: Seq<char>) -> Option<V>
    decreases entries.len(),
{
    if entries.len() == 0 {
        None
    } else if entries[0].0@ == key {
        Some(entries[0].1)
    } else {
        lookup(entries.drop_first(), key)
    }
}

proof fn lemma_lookup_skip<V>(entries: Seq<(String, V)>, i: int, key: Seq<char>)
    requires
        0 <= i < entries.len(),
        forall|j: int| 0 <= j < i ==> entries[j].0@ != key,
    ensures
        lookup(entries, key) == lookup(entries.skip(i), key),
    decreases i,
{
    if i > 0 {
        assert(entries[0].0@ != key);
        assert forall|j: int| 0 <= j < i - 1 implies entries.drop_first()[j].0@ != key by {
            assert(entries.drop_first()[j] == entries[j + 1]);
        }
        lemma_lookup_skip(entries.drop_first(), i - 1, key);
        assert(entries.drop_first().skip(i - 1) =~= entries.skip(i));
    } else {
        assert(entries.skip(0) =~= entries);
    }
}

/// Replacing the first entry keyed `e.0` by `e` makes `e.1` the value under
/// that key and leaves every other key's value alone.
pub proof fn lemma_lookup_replace<V>(entries: Seq<(String, V)>, i: int, e: (String, V), k: Seq<char>)
    requires
        0 <= i < entries.len(),
        entries[i].0@ == e.0@,
        forall|j: int| 0 <= j < i ==> entries[j].0@ != e.0@,
    ensures
        lookup(entries.update(i, e), k) == if k == e.0@ {
            Some(e.1)
        } else {
            lookup(entries, k)
        },
    decreases i,
{
    let u = entries.update(i, e);
    if i > 0 {
        assert(u.drop_first() =~= entries.drop_first().update(i - 1, e));
        assert forall|j: int| 0 <= j < i - 1 implies entries.drop_first()[j].0@ != e.0@ by {
            assert(entries.drop_first()[j] == entries[j + 1]);
        }
        lemma_lookup_replace(entries.drop_first(), i - 1, e, k);
        assert(u[0] == entries[0]);
        assert(entries[0].0@ != e.0@);
    } else {
        assert(u.drop_first() =~= entries.drop_first());
        assert(u[0] == e);
    }
}

/// Appending an entry under a key not yet present makes its value the one
/// under that key and leaves every other key's value alone.
pub proof fn lemma_lookup_push<V>(entries: Seq<(String, V)>, e: (String, V), k: Seq<char>)
    requires
        lookup(entries, e.0@) is None,
    ensures
        lookup(entries.push(e), k) == if k == e.0@ {
            Some(e.1)
        } else {
            lookup(entries, k)
        },
    decreases entries.len(),
{
    let p = entries.push(e);
    if entries.len() > 0 {
        assert(p.drop_first() =~= entries.drop_first().push(e));
        assert(p[0] == entries[0]);
        assert(entries[0].0@ != e.0@);
        lemma_lookup_push(entries.drop_first(), e, k);
    } else {
        assert(p.drop_first() =~= Seq::<(String, V)>::empty());
        assert(p[0] == e);
        assert(lookup(p.drop_first(), k) is None);
    }
}

/// No entry carries a key that `lookup` does not find.
pub proof fn lemma_lookup_none_all<V>(entries: Seq<(String, V)>, key: Seq<char>)
    requires
        lookup(entries, key) is None,
    ensures
        forall|j: int| 0 <= j < entries.len() ==> (#[trigger] entries[j]).0@ != key,
    decreases entries.len(),
{
    if entries.len() > 0 {
        lemma_lookup_none_all(entries.drop_first(), key);
        assert forall|j: int| 0 <= j < entries.len() implies (#[trigger] entries[j]).0@ != key by {
            if j > 0 {
                assert(entries[j] == entries.drop_first()[j - 1]);
            }
        }
    }
}

/// Index of the first entry keyed `key`.
pub fn find_key<V>(entries: &Vec<(String, V)>, key: &str) -> (r: Option<usize>)
    ensures
        r matches Some(i) ==> i < entries@.len() && lookup(entries@, key@) == Some(
            entries@[i as int].1,
        ) && entries@[i as int].0@ == key@ && forall|j: int|
            0 <= j < i ==> (#[trigger] entries@[j]).0@ != key@,
        r is None ==> lookup(entries@, key@) is None,
{
    let mut i: usize = 0;
    while i < entries.len()
        invariant
            i <= entries@.len(),
            forall|j: int| 0 <= j < i ==> entries@[j].0@ != key@,
        decreases entries@.len() - i,
    {
        if str_eq(entries[i].0.as_str(), key) {
            proof {
                lemma_lookup_skip(entries@, i as int, key@);
            }
            return Some(i);
        }
        i = i + 1;
    }
    proof {
        lemma_lookup_none(entries@, key@);
    }
    None
}

/// A key no entry carries looks up to nothing.
pub proof fn lemma_lookup_none<V>(entries: Seq<(String, V)>, key: Seq<char>)
    requires
        forall|j: int| 0 <= j < entries.len() ==> entries[j].0@ != key,
    ensures
        lookup(entries, key) is None,
    decreases entries.len(),
{
    if entries.len() > 0 {
        assert(entries[0].0@ != key);
        assert forall|j: int| 0 <= j < entries.drop_first().len() implies entries.drop_first()[j].0@
            != key by {
            assert(entries.drop_first()[j] == entries[j + 1]);
        }
        lemma_lookup_none(entries.drop_first(), key);
    }
}

/// Set `value` under `key`, replacing the first entry with that key or
/// appending a new one (`Mapping::insert`): afterwards `key` maps to `value`
/// and every other key keeps its value.
pub fn insert_entry<V>(entries: &mut Vec<(String, V)>, key: String, value: V)
    ensures
        forall|k: Seq<char>| #[trigger] lookup(final(entries)@, k) == if k == key@ {
            Some(value)
        } else {
            lookup(old(entries)@, k)
        },
        lookup(old(entries)@, key@) is Some ==> final(entries)@.len() == old(entries)@.len(),
        lookup(old(entries)@, key@) is None ==> final(entries)@.len() == old(entries)@.len() + 1,
        forall|i: int| 0 <= i < old(entries)@.len() ==> (#[trigger] final(entries)@[i]).0@ == old(entries)@[i].0@,
        lookup(old(entries)@, key@) is None ==> final(entries)@.last().0@ == key@,
{
    let ghost kv = key@;
    match find_key(entries, key.as_str()) {
        Some(i) => {
            let ghost before = entries@;
            entries.set(i, (key, value));
            proof {
                assert forall|k: Seq<char>| #[trigger] lookup(entries@, k) == if k == kv {
                    Some(value)
                } else {
                    lookup(before, k)
                } by {
                    lemma_lookup_replace(before, i as int, entries@[i as int], k);
                }
            }
        },
        None => {
            let ghost before = entries@;
            entries.push((key, value));
            proof {
                assert forall|k: Seq<char>| #[trigger] lookup(entries@, k) == if k == kv {
                    Some(value)
                } else {
                    lookup(before, k)
                } by {
                    lemma_lookup_push(before, entries@.last(), k);
                }
            }
        },
    }
}

/// The frontmatter value under `key`, as `Mapping::get` finds it.
pub fn data_get<'a>(data: &'a Vec<(String, Yaml)>, key: &str) -> (r: Option<&'a Yaml>)
    ensures
        r matches Some(v) ==> lookup(data@, key@) == Some(*v),
        r is None ==> lookup(data@, key@) is None,
{
    match find_key(data, key) {
        Some(i) => Some(&data[i].1),
        None => None,
    }
}

/// The value under the string key `key` in mapping entries (first match).
pub open spec fn ylookup(entries: Seq<(Yaml, Yaml)>, key: Seq<char>) -> Option<Yaml>
    decreases entries.len(),
{
    if entries.len() == 0 {
        None
    } else if entries[0].0 matches Yaml::Str(s) && s@ == key {
        Some(entries[0].1)
    } else {
        ylookup(entries.drop_first(), key)
    }
}

/// The member `key` of a mapping value (`None` for any other value).
pub open spec fn yget(v: Yaml, key: Seq<char>) -> Option<Yaml> {
    match v {
        Yaml::Mapping(m) => ylookup(m@, key),
        _ => None,
    }
}

/// The member `key` of a mapping value, as `Value::get` finds it.
pub fn yaml_get<'a>(v: &'a Yaml, key: &str) -> (r: Option<&'a Yaml>)
    ensures
        r matches Some(x) ==> yget(*v, key@) == Some(*x),
        r is None ==> yget(*v, key@) is None,
{
    match v {
        Yaml::Mapping(m) => {
            let mut i: usize = 0;
            proof {
                assert(m@.skip(0) =~= m@);
            }
            while i < m.len()
                invariant
                    i <= m@.len(),
                    yget(*v, key@) == ylookup(m@, key@),
                    ylookup(m@, key@) == ylookup(m@.skip(i as int), key@),
                decreases m@.len() - i,
            {
                proof {
                    assert(m@.skip(i as int).drop_first() =~= m@.skip(i + 1));
                    assert(m@.skip(i as int)[0] == m@[i as int]);
                }
                let hit = match &m[i].0 {
                    Yaml::Str(s) => str_eq(s.as_str(), key),
                    _ => false,
                };
                if hit {
                    return Some(&m[i].1);
                }
                i = i + 1;
            }
            None
        },
        _ => None,
    }
}

} // verus!

