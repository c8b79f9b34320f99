//! Character-level string primitives shared by every module: conversions
//! between `str`/`String` and character vectors, std's Unicode character
//! classes, and verified whitespace trimming.
use vstd::prelude::*;

verus! {

/// The Unicode alphabetic-or-numeric class, as `char::is_alphanumeric` decides it.
pub uninterp spec fn alphanumeric(c: char) -> bool;

/// The lowercase mapping of a whole string, as `str::to_lowercase` computes it.
pub uninterp spec fn lowercase(s: Seq<char>) -> Seq<char>;

/// The extended grapheme clusters of a string, in order, as
/// `UnicodeSegmentation::graphemes(s, true)` splits it.
pub uninterp spec fn grapheme_clusters(s: Seq<char>) -> Seq<Seq<char>>;

/// Whitespace as the library tests it: the characters with the Unicode
/// `White_Space` property.
pub open spec fn is_ws(c: char) -> bool {
    let u = c as u32;
    ||| 0x09 <= u <= 0x0D
    ||| u == 0x20
    ||| u == 0x85
    ||| u == 0xA0
    ||| u == 0x1680
    ||| 0x2000 <= u <= 0x200A
    ||| u == 0x2028
    ||| u == 0x2029
    ||| u == 0x202F
    ||| u == 0x205F
    ||| u == 0x3000
}

/// ASCII letters and digits.
pub open spec fn ascii_alnum(c: char) -> bool {
    ('a' <= c && c <= 'z') || ('A' <= c && c <= 'Z') || ('0' <= c && c <= '9')
}

/// The ASCII lowercase of one character (other characters unchanged).
pub open spec fn ascii_lower(c: char) -> char {
    if 'A' <= c && c <= 'Z' {
        ((c as u32) + 32) as char
    } else {
        c
    }
}

pub open spec fn all_ascii(s: Seq<char>) -> bool {
    forall|i: int| 0 <= i < s.len() ==> (s[i] as u32) < 128
}

/// Whether `c` has the Unicode `White_Space` property (what
/// `char::is_whitespace` documents).
pub(crate) fn is_whitespace(c: char) -> (r: bool)
    ensures
        r == is_ws(c),
{
    let u = c as u32;
    (0x09 <= u && u <= 0x0D) || u == 0x20 || u == 0x85 || u == 0xA0 || u == 0x1680 || (0x2000
        <= u && u <= 0x200A) || u == 0x2028 || u == 0x2029 || u == 0x202F || u == 0x205F || u
        == 0x3000
}

/// `char::is_alphanumeric`. Its documentation defines it as alphabetic or
/// numeric in the Unicode sense; the contract names that class and states
/// that on ASCII it is exactly the letters and digits.
#[verifier::external_body]
pub(crate) fn is_alphanumeric(c: char) -> (r: bool)
    ensures
        r == alphanumeric(c),
        (c as u32) < 128 ==> (r <==> ascii_alnum(c)),
{
    c.is_alphanumeric()
}

/// `str::to_lowercase`. The contract names the Unicode lowercase mapping and
/// states that on ASCII input it lowercases `A`-`Z` character by character.
#[verifier::external_body]
pub(crate) fn to_lowercase(s: &str) -> (r: String)
    ensures
        r@ == lowercase(s@),
        all_ascii(s@) ==> r@ == s@.map_values(|c: char| ascii_lower(c)),
{
    s.to_lowercase()
}

/// `UnicodeSegmentation::graphemes(s, true)`, collected. The crate's source
/// yields the consecutive slices of `s` between successive cluster
/// boundaries, so each cluster is nonempty and together they spell out `s`.
#[verifier::external_body]
pub(crate) fn graphemes(s: &str) -> (r: Vec<String>)
    ensures
        r@.map_values(|g: String| g@) == grapheme_clusters(s@),
        r@.map_values(|g: String| g@).flatten() == s@,
        forall|i: int| 0 <= i < r@.len() ==> (#[trigger] r@[i])@.len() > 0,
{
    unicode_segmentation::UnicodeSegmentation::graphemes(s, true).map(String::from).collect()
}

/// `String::push`.
#[verifier::external_body]
pub(crate) fn push_char(s: &mut String, c: char)
    ensures
        final(s)@ == old(s)@.push(c),
{
    s.push(c);
}

/// The characters of `s`, in order.
pub fn chars_of(s: &str) -> (v: Vec<char>)
    ensures
        v@ == s@,
{
    let mut v: Vec<char> = Vec::new();
    for c in it: s.chars()
        invariant
            v@ == it.seq().take(it.index() as int),
            it.seq() == s@,
    {
        v.push(c);
    }
    v
}

/// The string made of `v[from..to]`.
pub fn string_of_range(v: &Vec<char>, from: usize, to: usize) -> (s: String)
    requires
        from <= to <= v@.len(),
    ensures
        s@ == v@.subrange(from as int, to as int),
{
    let mut s = String::new();
    let mut i = from;
    while i < to
        invariant
            from <= i <= to <= v@.len(),
            s@ == v@.subrange(from as int, i as int),
        decreases to - i,
    {
        push_char(&mut s, v[i]);
        i = i + 1;
    }
    s
}

/// The string made of all of `v`.
pub fn string_of(v: &Vec<char>) -> (s: String)
    ensures
        s@ == v@,
{
    let s = string_of_range(v, 0, v.len());
    proof {
        assert(v@.subrange(0, v@.len() as int) =~= v@);
    }
    s
}

/// Index of the first character of `s` that is not whitespace (`s.len()` when
/// there is none).
pub open spec fn first_non_ws(s: Seq<char>) -> int
    decreases s.len(),
{
    if s.len() == 0 {
        0
    } else if is_ws(s[0]) {
        1 + first_non_ws(s.drop_first())
    } else {
        0
    }
}

/// `s` without its trailing whitespace.
pub open spec fn trim_end_seq(s: Seq<char>) -> Seq<char>
    decreases s.len(),
{
    if s.len() == 0 {
        s
    } else if is_ws(s.last()) {
        trim_end_seq(s.drop_last())
    } else {
        s
    }
}

/// `s` without its leading whitespace.
pub open spec fn trim_start_seq(s: Seq<char>) -> Seq<char> {
    s.subrange(first_non_ws(s), s.len() as int)
}

/// `s` without leading and trailing whitespace.
pub open spec fn trim_seq(s: Seq<char>) -> Seq<char> {
    trim_end_seq(trim_start_seq(s))
}

/// The first non-whitespace position lies within the string.
pub proof fn lemma_first_non_ws_bounds(s: Seq<char>)
    ensures
        0 <= first_non_ws(s) <= s.len(),
        forall|i: int| 0 <= i < first_non_ws(s) ==> is_ws(#[trigger] s[i]),
        first_non_ws(s) < s.len() ==> !is_ws(s[first_non_ws(s)]),
    decreases s.len(),
{
    if s.len() > 0 && is_ws(s[0]) {
        lemma_first_non_ws_bounds(s.drop_first());
        assert forall|i: int| 0 <= i < first_non_ws(s) implies is_ws(#[trigger] s[i]) by {
            if i > 0 {
                assert(s[i] == s.drop_first()[i - 1]);
            }
        }
    }
}

/// The trimmed end is a prefix of the input that keeps every character up to
/// the last non-whitespace one.
pub proof fn lemma_trim_end_prefix(s: Seq<char>)
    ensures
        trim_end_seq(s).len() <= s.len(),
        trim_end_seq(s) == s.subrange(0, trim_end_seq(s).len() as int),
        trim_end_seq(s).len() > 0 ==> !is_ws(trim_end_seq(s).last()),
        forall|i: int|
            trim_end_seq(s).len() <= i < s.len() ==> is_ws(#[trigger] s[i]),
    decreases s.len(),
{
    if s.len() > 0 && is_ws(s.last()) {
        lemma_trim_end_prefix(s.drop_last());
        let t = trim_end_seq(s.drop_last());
        assert(s.drop_last().subrange(0, t.len() as int) =~= s.subrange(0, t.len() as int));
        assert forall|i: int| t.len() <= i < s.len() implies is_ws(#[trigger] s[i]) by {
            if i < s.len() - 1 {
                assert(s[i] == s.drop_last()[i]);
            }
        }
    } else {
        assert(s.subrange(0, s.len() as int) =~= s);
    }
}

/// Length of `v@.subrange(0, end)` once its trailing whitespace is dropped.
pub fn trim_end_len(v: &Vec<char>, end: usize) -> (n: usize)
    requires
        end <= v@.len(),
    ensures
        n as int == trim_end_seq(v@.subrange(0, end as int)).len(),
        n <= end,
{
    let mut n = end;
    while n > 0 && is_whitespace(v[n - 1])
        invariant
            n <= end <= v@.len(),
            trim_end_seq(v@.subrange(0, n as int)) == trim_end_seq(v@.subrange(0, end as int)),
        decreases n,
    {
        proof {
            assert(v@.subrange(0, n as int).drop_last() =~= v@.subrange(0, n - 1));
        }
        n = n - 1;
    }
    proof {
        lemma_trim_end_prefix(v@.subrange(0, end as int));
        if n > 0 {
            assert(v@.subrange(0, n as int).last() == v@[n - 1]);
        }
    }
    n
}

/// Index where `v@.subrange(start, v.len())` stops being leading whitespace.
pub fn skip_ws(v: &Vec<char>, start: usize) -> (n: usize)
    requires
        start <= v@.len(),
    ensures
        n - start == first_non_ws(v@.subrange(start as int, v@.len() as int)),
        start <= n <= v@.len(),
{
    let mut n = start;
    while n < v.len() && is_whitespace(v[n])
        invariant
            start <= n <= v@.len(),
            first_non_ws(v@.subrange(start as int, v@.len() as int)) == (n - start)
                + first_non_ws(v@.subrange(n as int, v@.len() as int)),
        decreases v@.len() - n,
    {
        proof {
            assert(v@.subrange(n as int, v@.len() as int).drop_first() =~= v@.subrange(
                n + 1,
                v@.len() as int,
            ));
        }
        n = n + 1;
    }
    n
}

/// `str::trim`: the string without leading and trailing Unicode whitespace.
pub fn trim(s: &str) -> (r: String)
    ensures
        r@ == trim_seq(s@),
{
    let v = chars_of(s);
    let start = skip_ws(&v, 0);
    let rest: Vec<char> = {
        let mut w: Vec<char> = Vec::new();
        let mut i = start;
        while i < v.len()
            invariant
                start <= i <= v@.len(),
                w@ == v@.subrange(start as int, i as int),
            decreases v@.len() - i,
        {
            w.push(v[i]);
            i = i + 1;
        }
        w
    };
    proof {
        assert(v@.subrange(0, v@.len() as int) =~= v@);
    }
    let n = trim_end_len(&rest, rest.len());
    proof {
        assert(rest@.subrange(0, rest@.len() as int) =~= rest@);
        lemma_trim_end_prefix(rest@);
    }
    string_of_range(&rest, 0, n)
}

/// `str::trim_end`: the string without trailing Unicode whitespace.
pub fn trim_end(s: &str) -> (r: String)
    ensures
        r@ == trim_end_seq(s@),
{
    let v = chars_of(s);
    let n = trim_end_len(&v, v.len());
    proof {
        assert(v@.subrange(0, v@.len() as int) =~= v@);
        lemma_trim_end_prefix(v@);
    }
    string_of_range(&v, 0, n)
}

/// Whether `s` begins with `prefix`.
pub open spec fn has_prefix(s: Seq<char>, prefix: Seq<char>) -> bool {
    prefix.len() <= s.len() && s.subrange(0, prefix.len() as int) == prefix
}

/// Whether `s` ends with `suffix`.
pub open spec fn has_suffix(s: Seq<char>, suffix: Seq<char>) -> bool {
    suffix.len() <= s.len() && s.subrange(s.len() - suffix.len(), s.len() as int) == suffix
}

/// `str::starts_with` on character vectors, from position `at`.
pub fn starts_with_at(v: &Vec<char>, at: usize, prefix: &str) -> (r: bool)
    requires
        at <= v@.len(),
    ensures
        r == has_prefix(v@.subrange(at as int, v@.len() as int), prefix@),
{
    let p = chars_of(prefix);
    if p.len() > v.len() - at {
        return false;
    }
    let mut i: usize = 0;
    while i < p.len()
        invariant
            at + p@.len() <= v@.len(),
            v@.len() <= usize::MAX,
            p@ == prefix@,
            i <= p@.len(),
            forall|j: int| 0 <= j < i ==> v@[at + j] == p@[j],
        decreases p@.len() - i,
    {
        if v[at + i] != p[i] {
            proof {
                assert(v@.subrange(at as int, v@.len() as int).subrange(0, p@.len() as int)[i as int]
                    != p@[i as int]);
            }
            return false;
        }
        i = i + 1;
    }
    proof {
        assert(v@.subrange(at as int, v@.len() as int).subrange(0, p@.len() as int) =~= p@);
    }
    true
}

/// `str::starts_with` with a string pattern.
pub fn starts_with(s: &str, prefix: &str) -> (r: bool)
    ensures
        r == has_prefix(s@, prefix@),
{
    let v = chars_of(s);
    let r = starts_with_at(&v, 0, prefix);
    proof {
        assert(v@.subrange(0, v@.len() as int) =~= v@);
    }
    r
}

/// Equality of two strings' characters.
pub fn str_eq(a: &str, b: &str) -> (r: bool)
    ensures
        r == (a@ == b@),
{
    let x = chars_of(a);
    let y = chars_of(b);
    if x.len() != y.len() {
        return false;
    }
    let mut i: usize = 0;
    while i < x.len()
        invariant
            x@.len() == y@.len(),
            x@ == a@,
            y@ == b@,
            i <= x@.len(),
            forall|j: int| 0 <= j < i ==> x@[j] == y@[j],
        decreases x@.len() - i,
    {
        if x[i] != y[i] {
            proof {
                assert(a@[i as int] != b@[i as int]);
            }
            return false;
        }
        i = i + 1;
    }
    proof {
        assert(x@ =~= y@);
    }
    true
}

/// `s` with every `\\` turned into `/`.
pub open spec fn forward_slashes_spec(s: Seq<char>) -> Seq<char> {
    s.map_values(|c: char| if c == '\\' { '/' } else { c })
}

/// A path rendered with forward slashes (`to_string_lossy().replace('\\', "/")`).
pub fn forward_slashes(s: &str) -> (r: String)
    ensures
        r@ == forward_slashes_spec(s@),
{
    let mut r = String::new();
    for c in it: s.chars()
        invariant
            it.seq() == s@,
            r@ == forward_slashes_spec(it.seq().take(it.index() as int)),
    {
        proof {
            assert(forward_slashes_spec(it.seq().take(it.index() + 1)) =~= forward_slashes_spec(
                it.seq().take(it.index() as int),
            ).push(if c == '\\' { '/' } else { c }));
        }
        push_char(&mut r, if c == '\\' { '/' } else { c });
    }
    proof {
        assert(s@.take(s@.len() as int) =~= s@);
    }
    r
}

/// `str::ends_with` with a string pattern.
pub fn ends_with(s: &str, suffix: &str) -> (r: bool)
    ensures
        r == has_suffix(s@, suffix@),
{
    let v = chars_of(s);
    let p = chars_of(suffix);
    if p.len() > v.len() {
        return false;
    }
    let off = v.len() - p.len();
    let r = starts_with_at(&v, off, suffix);
    proof {
        assert(v@.subrange(off as int, v@.len() as int).subrange(0, p@.len() as int) =~= v@.subrange(
            off as int,
            v@.len() as int,
        ));
    }
    r
}

/// The concatenation of two strings.
pub fn concat(a: &str, b: &str) -> (r: String)
    ensures
        r@ == a@ + b@,
{
    let mut r = String::from_str(a);
    r.append(b);
    r
}

/// The decimal digit `d` (for `d < 10`).
pub open spec fn digit(d: nat) -> char {
    if d == 0 {
        '0'
    } else if d == 1 {
        '1'
    } else if d == 2 {
        '2'
    } else if d == 3 {
        '3'
    } else if d == 4 {
        '4'
    } else if d == 5 {
        '5'
    } else if d == 6 {
        '6'
    } else if d == 7 {
        '7'
    } else if d == 8 {
        '8'
    } else {
        '9'
    }
}

/// The decimal text of `n`, most significant digit first, no leading zeros.
pub open spec fn decimal(n: nat) -> Seq<char>
    decreases n,
{
    if n < 10 {
        seq![digit(n)]
    } else {
        decimal(n / 10).push(digit(n % 10))
    }
}

fn digit_char(d: usize) -> (c: char)
    requires
        d < 10,
    ensures
        c == digit(d as nat),
{
    if d == 0 {
        '0'
    } else if d == 1 {
        '1'
    } else if d == 2 {
        '2'
    } else if d == 3 {
        '3'
    } else if d == 4 {
        '4'
    } else if d == 5 {
        '5'
    } else if d == 6 {
        '6'
    } else if d == 7 {
        '7'
    } else if d == 8 {
        '8'
    } else {
        '9'
    }
}

/// `n.to_string()`: the decimal text of `n`.
pub fn decimal_string(n: usize) -> (r: String)
    ensures
        r@ == decimal(n as nat),
    decreases n,
{
    if n < 10 {
        let mut s = String::new();
        push_char(&mut s, digit_char(n));
        s
    } else {
        let mut s = decimal_string(n / 10);
        push_char(&mut s, digit_char(n % 10));
        s
    }
}

/// An optional string, as characters.
pub open spec fn opt_chars(o: Option<String>) -> Option<Seq<char>> {
    match o {
        Some(s) => Some(s@),
        None => None,
    }
}

/// The views of a list of strings.
pub open spec fn views(parts: Seq<String>) -> Seq<Seq<char>> {
    parts.map_values(|g: String| g@)
}

/// The first `n` strings of `parts`, concatenated.
pub fn concat_prefix(parts: &Vec<String>, n: usize) -> (r: String)
    requires
        n <= parts@.len(),
    ensures
        r@ == views(parts@).take(n as int).flatten(),
{
    let mut r = String::new();
    let mut i: usize = 0;
    proof {
        assert(views(parts@).take(0) =~= Seq::<Seq<char>>::empty());
    }
    while i < n
        invariant
            i <= n <= parts@.len(),
            r@ == views(parts@).take(i as int).flatten(),
        decreases n - i,
    {
        proof {
            let v = views(parts@);
            let a = v.take(i + 1);
            a.lemma_flatten_and_flatten_alt_are_equivalent();
            v.take(i as int).lemma_flatten_and_flatten_alt_are_equivalent();
            assert(a.drop_last() =~= v.take(i as int));
            assert(a.last() == parts@[i as int]@);
        }
        r.append(parts[i].as_str());
        i = i + 1;
    }
    r
}

/// `parts` joined with `sep` between consecutive parts.
pub open spec fn join_seq(parts: Seq<Seq<char>>, sep: Seq<char>) -> Seq<char>
    decreases parts.len(),
{
    if parts.len() == 0 {
        Seq::empty()
    } else if parts.len() == 1 {
        parts[0]
    } else {
        join_seq(parts.drop_last(), sep) + sep + parts.last()
    }
}

/// `parts.join(sep)`.
pub fn join(parts: &Vec<String>, sep: &str) -> (r: String)
    ensures
        r@ == join_seq(views(parts@), sep@),
{
    let mut r = String::new();
    let mut i: usize = 0;
    while i < parts.len()
        invariant
            i <= parts@.len(),
            r@ == join_seq(views(parts@.take(i as int)), sep@),
        decreases parts@.len() - i,
    {
        proof {
            assert(views(parts@.take(i + 1)).drop_last() =~= views(parts@.take(i as int)));
            assert(views(parts@.take(i + 1)).last() == parts@[i as int]@);
        }
        if i > 0 {
            r.append(sep);
        }
        r.append(parts[i].as_str());
        proof {
            if i == 0 {
                assert(r@ =~= parts@[0]@);
            }
        }
        i = i + 1;
    }
    proof {
        assert(parts@.take(parts@.len() as int) =~= parts@);
    }
    r
}

/// `Path::join` of a relative path onto a root: a `/` goes between them
/// unless the root is empty or already ends with one.
pub open spec fn join_path(root: Seq<char>, rel: Seq<char>) -> Seq<char> {
    if root.len() == 0 {
        rel
    } else if root.last() == '/' {
        root + rel
    } else {
        root + seq!['/'] + rel
    }
}

/// `Path::join` of a relative path onto a root.
pub fn path_join(root: &str, rel: &str) -> (r: String)
    ensures
        r@ == join_path(root@, rel@),
{
    let v = chars_of(root);
    if v.len() == 0 {
        String::from_str(rel)
    } else if v[v.len() - 1] == '/' {
        concat(root, rel)
    } else {
        let mut r = String::from_str(root);
        r.append("/");
        r.append(rel);
        proof {
            reveal_strlit("/");
        }
        r
    }
}

} // verus!
