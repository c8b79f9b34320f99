//! Mapping between a document's paths and its public URL.
use vstd::prelude::*;
use crate::atproto::config::days_from_civil;
use crate::atproto::cover::{strip_leading_slashes, strip_slashes};
use crate::doc::{day_number, valid_instant, DateTime};
use crate::paths::{file_name, file_name_of};
use crate::slug::{slugify, slugify_spec};
use crate::text::{
    chars_of, concat, decimal, decimal_string, ends_with, has_prefix, has_suffix, push_char,
    starts_with_at, str_eq, string_of_range,
};

verus! {

pub open spec fn index_html() -> Seq<char> {
    seq!['i', 'n', 'd', 'e', 'x', '.', 'h', 't', 'm', 'l']
}

/// The root-relative URL a page at `output_path` is served from: `/` plus the
/// path, with a trailing `index.html` dropped so the URL ends at its directory.
pub open spec fn to_url_spec(p: Seq<char>) -> Seq<char> {
    if p == index_html() {
        seq!['/']
    } else if has_suffix(p, seq!['/'] + index_html()) {
        seq!['/'] + p.take(p.len() - 10)
    } else {
        seq!['/'] + p
    }
}

/// Root-relative URL of the page written at `output_path`
/// (`blog/post/index.html` → `/blog/post/`, `posts/p.html` → `/posts/p.html`).
pub fn to_url(output_path: &str) -> (url: String)
    ensures
        url@ == to_url_spec(output_path@),
{
    proof {
        reveal_strlit("index.html");
        reveal_strlit("/index.html");
        reveal_strlit("/");
        assert("index.html"@ =~= index_html());
        assert("/"@ =~= seq!['/']);
    }
    if str_eq(output_path, "index.html") {
        return String::from_str("/");
    }
    if ends_with(output_path, "/index.html") {
        let v = chars_of(output_path);
        let mut url = String::from_str("/");
        let dir = string_of_range(&v, 0, v.len() - 10);
        url.append(dir.as_str());
        proof {
            assert(seq!['/'] + index_html() =~= "/index.html"@);
        }
        return url;
    }
    proof {
        assert(seq!['/'] + index_html() =~= "/index.html"@);
    }
    concat("/", output_path)
}

/// Position just after the last `/` of `s` (0 when there is none).
pub open spec fn name_start(s: Seq<char>) -> int
    decreases s.len(),
{
    if s.len() == 0 {
        0
    } else if s.last() == '/' {
        s.len() as int
    } else {
        name_start(s.drop_last())
    }
}

/// Position of the last `.` in `name` that is not its first character.
pub open spec fn ext_dot(name: Seq<char>) -> Option<int>
    decreases name.len(),
{
    if name.len() <= 1 {
        None
    } else if name.last() == '.' {
        Some(name.len() - 1)
    } else {
        ext_dot(name.drop_last())
    }
}

/// `p` without what `Path` ignores at its end: trailing `/`s and `.`
/// segments that follow a `/`.
pub open spec fn strip_tail(p: Seq<char>) -> Seq<char>
    decreases p.len(),
{
    if p.len() > 0 && p.last() == '/' {
        strip_tail(p.drop_last())
    } else if p.len() >= 2 && p.last() == '.' && p[p.len() - 2] == '/' {
        strip_tail(p.drop_last())
    } else {
        p
    }
}

/// `Path::with_extension(ext)` on a `/`-separated path: the file name is the
/// last segment once trailing `/`s and `.` segments are set aside; its
/// extension (after its last `.` that is not its first character) is
/// replaced, or appended when it has none, and what followed the name is
/// dropped. A path whose last segment is then empty, `.` or `..` names no
/// file and is returned unchanged.
pub open spec fn with_extension_spec(p: Seq<char>, ext: Seq<char>) -> Seq<char> {
    let q = strip_tail(p);
    let k = name_start(q);
    let name = q.skip(k);
    if name.len() == 0 || name == seq!['.'] || name == seq!['.', '.'] {
        p
    } else {
        let stem = match ext_dot(name) {
            Some(d) => name.take(d),
            None => name,
        };
        q.take(k) + stem + seq!['.'] + ext
    }
}

/// The length of `strip_tail(v)`.
fn strip_tail_len(v: &Vec<char>) -> (e: usize)
    ensures
        e <= v@.len(),
        strip_tail(v@) == v@.take(e as int),
{
    let mut e = v.len();
    proof {
        assert(v@.take(v@.len() as int) =~= v@);
    }
    while e > 0 && (v[e - 1] == '/' || (e >= 2 && v[e - 1] == '.' && v[e - 2] == '/'))
        invariant
            e <= v@.len(),
            strip_tail(v@) == strip_tail(v@.take(e as int)),
        decreases e,
    {
        proof {
            assert(v@.take(e as int).drop_last() =~= v@.take(e - 1));
        }
        e = e - 1;
    }
    e
}

proof fn lemma_name_start_bound(s: Seq<char>)
    ensures
        0 <= name_start(s) <= s.len(),
        forall|i: int| name_start(s) <= i < s.len() ==> s[i] != '/',
    decreases s.len(),
{
    if s.len() > 0 && s.last() != '/' {
        lemma_name_start_bound(s.drop_last());
        assert forall|i: int| name_start(s) <= i < s.len() implies s[i] != '/' by {
            if i < s.len() - 1 {
                assert(s[i] == s.drop_last()[i]);
            }
        }
    }
}

proof fn lemma_ext_dot_bound(s: Seq<char>)
    ensures
        ext_dot(s) matches Some(d) ==> 1 <= d < s.len(),
    decreases s.len(),
{
    if s.len() > 1 && s.last() != '.' {
        lemma_ext_dot_bound(s.drop_last());
    }
}

/// Position just after the last `/` of `v`.
fn find_name_start(v: &Vec<char>) -> (k: usize)
    ensures
        k == name_start(v@),
        k <= v@.len(),
{
    let mut k = v.len();
    proof {
        assert(v@.take(v@.len() as int) =~= v@);
    }
    while k > 0 && v[k - 1] != '/'
        invariant
            k <= v@.len(),
            name_start(v@) == name_start(v@.take(k as int)),
        decreases k,
    {
        proof {
            assert(v@.take(k as int).drop_last() =~= v@.take(k - 1));
        }
        k = k - 1;
    }
    proof {
        if k > 0 {
            assert(v@.take(k as int).last() == '/');
        }
    }
    k
}

/// End of the stem of the segment `v[k..]`: the position of its extension
/// dot, or the end of `v` when it has none.
fn find_stem_end(v: &Vec<char>, k: usize) -> (end: usize)
    requires
        k < v@.len(),
    ensures
        k < end <= v@.len(),
        ext_dot(v@.skip(k as int)) matches Some(d) ==> end == k + d,
        ext_dot(v@.skip(k as int)) is None ==> end == v@.len(),
{
    let ghost name = v@.skip(k as int);
    let mut d = v.len();
    proof {
        assert(v@.subrange(k as int, v@.len() as int) =~= name);
    }
    while d > k + 1 && v[d - 1] != '.'
        invariant
            k < d <= v@.len(),
            name == v@.skip(k as int),
            ext_dot(name) == ext_dot(v@.subrange(k as int, d as int)),
        decreases d,
    {
        proof {
            assert(v@.subrange(k as int, d as int).drop_last() =~= v@.subrange(k as int, d - 1));
        }
        d = d - 1;
    }
    if d > k + 1 {
        proof {
            assert(v@.subrange(k as int, d as int).last() == '.');
        }
        d - 1
    } else {
        v.len()
    }
}

/// Default render location: mirror `id_path` with an `.html` extension.
/// Used when a doc declares no `permalink:` field in frontmatter.
pub fn default_for(id_path: &str) -> (out: String)
    ensures
        out@ == with_extension_spec(id_path@, "html"@),
{
    let all = chars_of(id_path);
    let e = strip_tail_len(&all);
    let q = string_of_range(&all, 0, e);
    let v = chars_of(q.as_str());
    let k = find_name_start(&v);
    let n = v.len() - k;
    let ghost name = v@.skip(k as int);
    if n == 0 || (n == 1 && v[k] == '.') || (n == 2 && v[k] == '.' && v[k + 1] == '.') {
        proof {
            if n == 1 {
                assert(name =~= seq!['.']);
            }
            if n == 2 {
                assert(name =~= seq!['.', '.']);
            }
        }
        return String::from_str(id_path);
    }
    proof {
        if name == seq!['.'] {
            assert(name[0] == v@[k as int]);
        }
        if name == seq!['.', '.'] {
            assert(name[0] == v@[k as int]);
            assert(name[1] == v@[k + 1]);
        }
    }
    let end = find_stem_end(&v, k);
    let mut out = string_of_range(&v, 0, end);
    push_char(&mut out, '.');
    out.append("html");
    proof {
        lemma_ext_dot_bound(name);
        assert(v@.take(k as int) + v@.subrange(k as int, end as int) =~= v@.subrange(0, end as int));
        match ext_dot(name) {
            Some(d) => {
                assert(name.take(d) =~= v@.subrange(k as int, end as int));
            },
            None => {
                assert(name =~= v@.subrange(k as int, end as int));
            },
        }
        reveal_strlit("html");
    }
    out
}


/// `Path::file_stem` of a file name: the part before its extension dot, or
/// the whole name when it has none.
pub open spec fn stem_of(name: Seq<char>) -> Seq<char> {
    match ext_dot(name) {
        Some(d) => name.take(d),
        None => name,
    }
}

/// The stem of `id_path`'s file name (empty when it names no file).
pub open spec fn file_stem_spec(id_path: Seq<char>) -> Seq<char> {
    match file_name(id_path) {
        Some(n) => stem_of(n),
        None => Seq::empty(),
    }
}

/// `str::replace(from, to)`: every non-overlapping occurrence of `from`,
/// scanning left to right, replaced by `to`.
pub open spec fn replace_all(s: Seq<char>, from: Seq<char>, to: Seq<char>) -> Seq<char>
    decreases s.len(),
{
    if s.len() == 0 {
        s
    } else if from.len() > 0 && has_prefix(s, from) {
        to + replace_all(s.skip(from.len() as int), from, to)
    } else {
        seq![s[0]] + replace_all(s.drop_first(), from, to)
    }
}

/// Zero-padded on the left to width `w` (`format!("{:0w$}", ..)` of a
/// non-negative number whose decimal text is `s`).
pub open spec fn zero_pad(s: Seq<char>, w: nat) -> Seq<char> {
    if s.len() >= w {
        s
    } else {
        Seq::new((w - s.len()) as nat, |i: int| '0') + s
    }
}

/// `format!("{:04}", y)`: four digits, the sign counted in the width.
pub open spec fn year_text(y: int) -> Seq<char> {
    if y >= 0 {
        zero_pad(decimal(y as nat), 4)
    } else {
        seq!['-'] + zero_pad(decimal((-y) as nat), 3)
    }
}

/// `format!("{:02}", n)`.
pub open spec fn two_digits(n: int) -> Seq<char> {
    zero_pad(decimal(n as nat), 2)
}

/// `PathBuf::push` of a relative name: a `/` is put between unless the path
/// is empty or already ends with one.
pub open spec fn push_name(p: Seq<char>, name: Seq<char>) -> Seq<char> {
    if p.len() == 0 || p.last() == '/' {
        p + name
    } else {
        p + seq!['/'] + name
    }
}

/// A `permalink:` pattern expanded for the document at `id_path` dated
/// `y-m-d`: leading `/`s dropped, `:slug`, `:yyyy`, `:mm`, `:dd` replaced in
/// that order, and `index.html` pushed when the pattern ends with `/`.
pub open spec fn expand_spec(pattern: Seq<char>, id_path: Seq<char>, y: int, m: int, d: int) -> Seq<char> {
    let e1 = replace_all(strip_leading_slashes(pattern), ":slug"@, slugify_spec(file_stem_spec(id_path)));
    let e2 = replace_all(e1, ":yyyy"@, year_text(y));
    let e3 = replace_all(e2, ":mm"@, two_digits(m));
    let e4 = replace_all(e3, ":dd"@, two_digits(d));
    if has_suffix(pattern, seq!['/']) {
        push_name(e4, index_html())
    } else {
        e4
    }
}

/// Whether `y` is a leap year of the proleptic Gregorian calendar.
pub open spec fn leap_year(y: int) -> bool {
    (y % 4 == 0 && y % 100 != 0) || y % 400 == 0
}

/// The number of days of month `m` of year `y`.
pub open spec fn days_in_month(y: int, m: int) -> int {
    if m == 2 {
        if leap_year(y) { 29 } else { 28 }
    } else if m == 4 || m == 6 || m == 9 || m == 11 {
        30
    } else {
        31
    }
}

/// `y-m-d` is a day of the proleptic Gregorian calendar.
pub open spec fn valid_civil(y: int, m: int, d: int) -> bool {
    1 <= m <= 12 && 1 <= d <= days_in_month(y, m)
}

/// chrono's `Datelike::year`, `month` and `day` of the UTC instant `d`
/// (built with `DateTime::from_timestamp`, which accepts every instant that
/// `valid_instant` admits): the calendar date of the day the instant falls on.
#[verifier::external_body]
fn utc_date(d: &DateTime) -> (r: (i32, u32, u32))
    requires
        valid_instant(*d),
    ensures
        -262143 <= r.0 <= 262142,
        valid_civil(r.0 as int, r.1 as int, r.2 as int),
        days_from_civil(r.0 as int, r.1 as int, r.2 as int) == day_number(*d),
{
    match chrono::DateTime::<chrono::Utc>::from_timestamp(d.secs, d.nanos) {
        Some(dt) => (chrono::Datelike::year(&dt), chrono::Datelike::month(&dt), chrono::Datelike::day(&dt)),
        None => (1970, 1, 1),
    }
}

fn replace_str(s: &str, from: &str, to: &str) -> (r: String)
    requires
        from@.len() > 0,
    ensures
        r@ == replace_all(s@, from@, to@),
{
    let v = chars_of(s);
    let n = from.unicode_len();
    let mut out = String::new();
    let mut i: usize = 0;
    proof {
        assert(v@.skip(0) =~= v@);
    }
    while i < v.len()
        invariant
            i <= v@.len(),
            v@ == s@,
            n == from@.len(),
            n > 0,
            out@ + replace_all(v@.skip(i as int), from@, to@) == replace_all(s@, from@, to@),
        decreases v@.len() - i,
    {
        let ghost rest = v@.skip(i as int);
        proof {
            assert(v@.subrange(i as int, v@.len() as int) =~= rest);
        }
        if starts_with_at(&v, i, from) {
            proof {
                assert(rest.skip(n as int) =~= v@.skip(i + n));
                assert(out@ + (to@ + replace_all(rest.skip(n as int), from@, to@))
                    =~= (out@ + to@) + replace_all(v@.skip(i + n), from@, to@));
            }
            out.append(to);
            i = i + n;
        } else {
            proof {
                assert(rest.drop_first() =~= v@.skip(i + 1));
                assert(out@ + (seq![rest[0]] + replace_all(rest.drop_first(), from@, to@))
                    =~= out@.push(v@[i as int]) + replace_all(v@.skip(i + 1), from@, to@));
            }
            push_char(&mut out, v[i]);
            i = i + 1;
        }
    }
    proof {
        assert(v@.skip(i as int) =~= Seq::<char>::empty());
        assert(out@ + Seq::<char>::empty() =~= out@);
    }
    out
}

fn zero_padded(n: usize, w: usize) -> (r: String)
    ensures
        r@ == zero_pad(decimal(n as nat), w as nat),
{
    let digits = decimal_string(n);
    let len = digits.unicode_len();
    if len >= w {
        return digits;
    }
    let mut out = String::new();
    let mut i: usize = 0;
    while i < w - len
        invariant
            i <= w - len,
            out@ =~= Seq::new(i as nat, |j: int| '0'),
        decreases w - len - i,
    {
        push_char(&mut out, '0');
        i = i + 1;
    }
    out.append(digits.as_str());
    out
}

fn year_string(y: i32) -> (r: String)
    ensures
        r@ == year_text(y as int),
{
    if y >= 0 {
        zero_padded(y as usize, 4)
    } else {
        let mut out = String::from_str("-");
        proof {
            reveal_strlit("-");
        }
        let mag = zero_padded((-(y as i64)) as usize, 3);
        out.append(mag.as_str());
        out
    }
}

/// The stem of `id_path`'s file name, as `Path::file_stem` reads it.
fn file_stem(id_path: &str) -> (r: String)
    ensures
        r@ == file_stem_spec(id_path@),
{
    match file_name_of(id_path) {
        Some(name) => {
            let v = chars_of(name.as_str());
            if v.len() == 0 {
                return name;
            }
            let end = find_stem_end(&v, 0);
            proof {
                assert(v@.skip(0) =~= v@);
                lemma_ext_dot_bound(v@);
            }
            let r = string_of_range(&v, 0, end);
            proof {
                if ext_dot(v@) is None {
                    assert(v@.subrange(0, end as int) =~= v@);
                }
            }
            r
        },
        None => String::new(),
    }
}

/// Expand a `permalink:` pattern for a document dated `year-month-day`
/// into a path relative to the output dir. Supported variables: `:slug` (the
/// slug of `id_path`'s file stem), `:yyyy`, `:mm`, `:dd`. A leading `/` is
/// stripped; a trailing `/` means "write `index.html` here".
pub fn expand_ymd(pattern: &str, id_path: &str, year: i32, month: u32, day: u32) -> (r: String)
    ensures
        r@ == expand_spec(pattern@, id_path@, year as int, month as int, day as int),
{
    proof {
        reveal_strlit(":slug");
        reveal_strlit(":yyyy");
        reveal_strlit(":mm");
        reveal_strlit(":dd");
        reveal_strlit("/");
        reveal_strlit("index.html");
        assert("index.html"@ =~= index_html());
    }
    let stem = file_stem(id_path);
    let slug = slugify(stem.as_str());
    let trailing_slash = ends_with(pattern, "/");
    let trimmed = strip_slashes(pattern);
    let e1 = replace_str(trimmed.as_str(), ":slug", slug.as_str());
    let yyyy = year_string(year);
    let e2 = replace_str(e1.as_str(), ":yyyy", yyyy.as_str());
    let mm = zero_padded(month as usize, 2);
    let e3 = replace_str(e2.as_str(), ":mm", mm.as_str());
    let dd = zero_padded(day as usize, 2);
    let mut path = replace_str(e3.as_str(), ":dd", dd.as_str());
    proof {
        assert("/"@ =~= seq!['/']);
    }
    if trailing_slash {
        let v = chars_of(path.as_str());
        if v.len() > 0 && v[v.len() - 1] != '/' {
            push_char(&mut path, '/');
        }
        path.append("index.html");
    }
    path
}

/// Expand a `permalink:` pattern into a path relative to the
/// output dir, with the date parts taken from `date`'s UTC calendar day.
pub fn expand(pattern: &str, id_path: &str, date: &DateTime) -> (r: String)
    requires
        valid_instant(*date),
    ensures
        exists|y: int, m: int, d: int|
            valid_civil(y, m, d) && days_from_civil(y, m, d) == day_number(*date)
                && r@ == expand_spec(pattern@, id_path@, y, m, d),
{
    let (y, m, d) = utc_date(date);
    let r = expand_ymd(pattern, id_path, y, m, d);
    proof {
        assert(valid_civil(y as int, m as int, d as int) && days_from_civil(y as int, m as int, d as int)
            == day_number(*date) && r@ == expand_spec(pattern@, id_path@, y as int, m as int, d as int));
    }
    r
}

/// A pattern ending in `/` names a directory: its expansion always ends in
/// `index.html`, whatever the doc and date.
pub proof fn lemma_trailing_slash_writes_index(pattern: Seq<char>, id_path: Seq<char>, y: int, m: int, d: int)
    requires
        has_suffix(pattern, seq!['/']),
    ensures
        has_suffix(expand_spec(pattern, id_path, y, m, d), index_html()),
{
    let e1 = replace_all(strip_leading_slashes(pattern), ":slug"@, slugify_spec(file_stem_spec(id_path)));
    let e4 = replace_all(replace_all(replace_all(e1, ":yyyy"@, year_text(y)), ":mm"@, two_digits(m)), ":dd"@, two_digits(d));
    let r = push_name(e4, index_html());
    assert(r.subrange(r.len() - 10, r.len() as int) =~= index_html());
}

} // verus!
