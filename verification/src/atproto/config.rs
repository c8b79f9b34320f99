//! Non-secret `atproto:` configuration: which collections to sync, the PDS
//! host, the verification switch, the publication's presentation and the
//! Bluesky announcement settings.
use vstd::prelude::*;
use crate::doc::{ylookup, Yaml};
use crate::text::{decimal, join_seq, str_eq, views};

verus! {

/// Default PDS host when `atproto.pds_host` is unset — the Bluesky-operated PDS
/// that most app-password accounts live on.
pub const DEFAULT_PDS_HOST: &'static str = "https://bsky.social";

/// The always-present collection holding every document.
pub const ALL: &'static str = "all";

/// The `atproto:` block. Selects what to sync to the PDS and how, but holds no
/// secrets.
pub struct Atproto {
    /// PDS XRPC host. Defaults to [`DEFAULT_PDS_HOST`].
    pub pds_host: String,
    /// Which collections' docs get a `site.standard.document` record.
    pub collections: Vec<String>,
    /// Emit the static verification artifacts during `build`.
    pub verification: bool,
    /// `site.standard.publication` presentation (icon, theme).
    pub publication: Publication,
    /// Bluesky announcement posts.
    pub bsky: Bsky,
}

/// The `bsky:` sub-block.
pub struct Bsky {
    /// Master switch for creating posts. Default false.
    pub enabled: bool,
    /// Docs dated before this UTC day (days since 1970-01-01) never get posts;
    /// `None` means "3 days before now", resolved at publish time.
    pub since: Option<i64>,
}

/// Presentation settings for the one `site.standard.publication` record.
pub struct Publication {
    /// Path (relative to the working dir) to an icon image uploaded as a blob.
    pub icon: Option<String>,
    /// Colors for the record's embedded `site.standard.theme.basic` object.
    pub theme: Option<BasicTheme>,
}

/// The four colors of a `site.standard.theme.basic` theme.
#[derive(Clone, Copy, PartialEq, Eq, Structural)]
pub struct BasicTheme {
    pub background: Rgb,
    pub foreground: Rgb,
    pub accent: Rgb,
    pub accent_foreground: Rgb,
}

/// An RGB color.
#[derive(Clone, Copy, PartialEq, Eq, Structural)]
pub struct Rgb {
    pub r: u8,
    pub g: u8,
    pub b: u8,
}

impl Atproto {
    /// The defaults that apply when a site declares no `atproto:` block.
    pub open spec fn is_default(&self) -> bool {
        &&& self.pds_host@ == DEFAULT_PDS_HOST@
        &&& self.collections@.len() == 1
        &&& self.collections@[0]@ == ALL@
        &&& self.verification
        &&& self.publication.icon is None
        &&& self.publication.theme is None
        &&& !self.bsky.enabled
        &&& self.bsky.since is None
    }
}

impl Default for Atproto {
    fn default() -> (r: Self)
        ensures
            r.is_default(),
    {
        let mut collections: Vec<String> = Vec::new();
        collections.push(String::from_str(ALL));
        Atproto {
            pds_host: String::from_str(DEFAULT_PDS_HOST),
            collections,
            verification: true,
            publication: Publication { icon: None, theme: None },
            bsky: Bsky { enabled: false, since: None },
        }
    }
}

/// The date `s` denotes under the chrono format `fmt`, as (year, month, day),
/// as `chrono::NaiveDate::parse_from_str` reads it.
pub uninterp spec fn parsed_date(s: Seq<char>, fmt: Seq<char>) -> Option<(int, int, int)>;

/// `chrono::NaiveDate::parse_from_str(s, fmt)`, reduced to the date's year,
/// month and day (chrono's `Datelike` accessors, whose documented ranges are
/// months 1–12 and days 1–31, within chrono's year range).
#[verifier::external_body]
fn parse_date(s: &str, fmt: &str) -> (r: Option<(i32, u32, u32)>)
    ensures
        r is None ==> parsed_date(s@, fmt@) is None,
        r matches Some((y, m, d)) ==> parsed_date(s@, fmt@) == Some((y as int, m as int, d as int))
            && -262143 <= y <= 262142 && 1 <= m <= 12 && 1 <= d <= 31,
{
    match chrono::NaiveDate::parse_from_str(s, fmt) {
        Ok(date) => Some((chrono::Datelike::year(&date), chrono::Datelike::month(&date), chrono::Datelike::day(&date))),
        Err(_) => None,
    }
}

/// Days from 1970-01-01 to the proleptic Gregorian date `y-m-d` (the civil
/// calendar count, computed over 400-year eras shifted to stay non-negative).
pub open spec fn days_from_civil(y: int, m: int, d: int) -> int {
    let y1 = if m <= 2 { y - 1 } else { y } + 400000;
    let era = y1 / 400;
    let yoe = y1 - era * 400;
    let mp = if m > 2 { m - 3 } else { m + 9 };
    let doy = (153 * mp + 2) / 5 + d - 1;
    let doe = yoe * 365 + yoe / 4 - yoe / 100 + doy;
    era * 146097 + doe - 719468 - 1000 * 146097
}

fn civil_days(y: i32, m: u32, d: u32) -> (r: i64)
    requires
        -262143 <= y <= 262142,
        1 <= m <= 12,
        1 <= d <= 31,
    ensures
        r == days_from_civil(y as int, m as int, d as int),
{
    let y1: i64 = (if m <= 2 { y as i64 - 1 } else { y as i64 }) + 400000;
    let era: i64 = y1 / 400;
    let yoe: i64 = y1 - era * 400;
    let mp: i64 = if m > 2 { m as i64 - 3 } else { m as i64 + 9 };
    let doy: i64 = (153 * mp + 2) / 5 + d as i64 - 1;
    assert(0 <= yoe < 400) by (nonlinear_arith)
        requires
            yoe == y1 - era * 400,
            era == y1 / 400,
            y1 >= 0,
    ;
    assert(0 <= era <= 1750) by (nonlinear_arith)
        requires
            y1 == era * 400 + yoe,
            0 <= yoe < 400,
            0 <= y1 <= 700000,
    ;
    let doe: i64 = yoe * 365 + yoe / 4 - yoe / 100 + doy;
    era * 146097 + doe - 719468 - 1000 * 146097
}

/// The `bsky.since` date format.
pub const DATE_FORMAT: &'static str = "%Y-%m-%d";

/// The first key of a mapping outside `allowed`: `Some(Some(name))` for a
/// string key, `Some(None)` for any other key, `None` when all are allowed.
pub open spec fn first_bad_key(m: Seq<(Yaml, Yaml)>, allowed: Seq<Seq<char>>) -> Option<Option<Seq<char>>>
    decreases m.len(),
{
    if m.len() == 0 {
        None
    } else {
        match m[0].0 {
            Yaml::Str(k) => if allowed.contains(k@) {
                first_bad_key(m.drop_first(), allowed)
            } else {
                Some(Some(k@))
            },
            _ => Some(None),
        }
    }
}

/// A key's name in messages (`<non-string>` for a non-string key).
pub open spec fn key_name(k: Option<Seq<char>>) -> Seq<char> {
    match k {
        Some(n) => n,
        None => "<non-string>"@,
    }
}

/// The `unknown key` message of a block.
pub open spec fn unknown_key_msg(ctx: Seq<char>, k: Option<Seq<char>>, allowed: Seq<Seq<char>>) -> Seq<char> {
    ctx + ": unknown key `"@ + key_name(k) + "` (allowed: "@ + join_seq(allowed, ", "@) + ")"@
}

fn key_at(m: &Vec<(Yaml, Yaml)>, i: usize) -> (r: Option<String>)
    requires
        i < m@.len(),
    ensures
        m@[i as int].0 matches Yaml::Str(k) ==> (r matches Some(x) && x@ == k@),
        !(m@[i as int].0 is Str) ==> r is None,
{
    match &m[i].0 {
        Yaml::Str(k) => Some(k.clone()),
        _ => None,
    }
}

fn contains_str(allowed: &Vec<String>, k: &str) -> (r: bool)
    ensures
        r == views(allowed@).contains(k@),
{
    let mut i: usize = 0;
    while i < allowed.len()
        invariant
            i <= allowed@.len(),
            forall|q: int| 0 <= q < i ==> (#[trigger] allowed@[q])@ != k@,
        decreases allowed@.len() - i,
    {
        if str_eq(allowed[i].as_str(), k) {
            proof {
                assert(views(allowed@)[i as int] == k@);
            }
            return true;
        }
        i = i + 1;
    }
    proof {
        if views(allowed@).contains(k@) {
            let q = choose|q: int| 0 <= q < views(allowed@).len() && views(allowed@)[q] == k@;
            assert(allowed@[q]@ == k@);
        }
    }
    false
}

/// Find the first key outside `allowed`.
pub(crate) fn find_bad_key(m: &Vec<(Yaml, Yaml)>, allowed: &Vec<String>) -> (r: Option<Option<String>>)
    ensures
        first_bad_key(m@, views(allowed@)) is None ==> r is None,
        first_bad_key(m@, views(allowed@)) matches Some(k) ==> (r matches Some(rk) && match k {
            Some(n) => rk matches Some(x) && x@ == n,
            None => rk is None,
        }),
{
    let mut i: usize = 0;
    proof {
        assert(m@.skip(0) =~= m@);
    }
    while i < m.len()
        invariant
            i <= m@.len(),
            first_bad_key(m@, views(allowed@)) == first_bad_key(m@.skip(i as int), views(allowed@)),
        decreases m@.len() - i,
    {
        proof {
            assert(m@.skip(i as int).drop_first() =~= m@.skip(i + 1));
            assert(m@.skip(i as int)[0] == m@[i as int]);
        }
        match key_at(m, i) {
            None => {
                return Some(None);
            },
            Some(k) => {
                if !contains_str(allowed, k.as_str()) {
                    return Some(Some(k));
                }
            },
        }
        i = i + 1;
    }
    None
}

pub(crate) fn unknown_key_message(ctx: &str, k: &Option<String>, allowed: &Vec<String>) -> (r: String)
    ensures
        r@ == unknown_key_msg(ctx@, match k {
            Some(n) => Some(n@),
            None => None,
        }, views(allowed@)),
{
    let mut r = String::from_str(ctx);
    r.append(": unknown key `");
    match k {
        Some(n) => r.append(n.as_str()),
        None => r.append("<non-string>"),
    }
    r.append("` (allowed: ");
    r.append(crate::text::join(allowed, ", ").as_str());
    r.append(")");
    r
}

/// An optional string member: absent/null is `None`, a string is its value,
/// anything else is the `must be a string` error.
pub open spec fn string_member(m: Seq<(Yaml, Yaml)>, key: Seq<char>) -> Result<Option<Seq<char>>, Seq<char>> {
    match ylookup(m, key) {
        None => Ok(None),
        Some(Yaml::Null) => Ok(None),
        Some(Yaml::Str(s)) => Ok(Some(s@)),
        Some(_) => Err("atproto: `"@ + key + "` must be a string"@),
    }
}

pub(crate) fn lookup_member<'a>(m: &'a Vec<(Yaml, Yaml)>, key: &str) -> (r: Option<&'a Yaml>)
    ensures
        r matches Some(v) ==> ylookup(m@, key@) == Some(*v),
        r is None ==> ylookup(m@, key@) is None,
{
    let mut i: usize = 0;
    proof {
        assert(m@.skip(0) =~= m@);
    }
    while i < m.len()
        invariant
            i <= m@.len(),
            ylookup(m@, key@) == ylookup(m@.skip(i as int), key@),
        decreases m@.len() - i,
    {
        proof {
            assert(m@.skip(i as int).drop_first() =~= m@.skip(i + 1));
            assert(m@.skip(i as int)[0] == m@[i as int]);
        }
        let hit = match &m[i].0 {
            Yaml::Str(s) => str_eq(s.as_str(), key),
            _ => false,
        };
        if hit {
            return Some(&m[i].1);
        }
        i = i + 1;
    }
    None
}

fn must_be_a_string(key: &str) -> (r: String)
    ensures
        r@ == "atproto: `"@ + key@ + "` must be a string"@,
{
    let mut r = String::from_str("atproto: `");
    r.append(key);
    r.append("` must be a string");
    r
}

fn string_member_exec(m: &Vec<(Yaml, Yaml)>, key: &str) -> (r: Result<Option<String>, String>)
    ensures
        string_member(m@, key@) matches Ok(o) ==> (r matches Ok(ro) && match o {
            Some(v) => ro matches Some(x) && x@ == v,
            None => ro is None,
        }),
        string_member(m@, key@) matches Err(e) ==> (r matches Err(re) && re@ == e),
{
    match lookup_member(m, key) {
        None => Ok(None),
        Some(Yaml::Null) => Ok(None),
        Some(Yaml::Str(s)) => Ok(Some(s.clone())),
        Some(_) => {
            Err(must_be_a_string(key))
        },
    }
}

/// An ASCII hexadecimal digit.
pub open spec fn hex_digit(c: char) -> bool {
    ('0' <= c && c <= '9') || ('a' <= c && c <= 'f') || ('A' <= c && c <= 'F')
}

/// The value of a hexadecimal digit.
pub open spec fn hex_val(c: char) -> int {
    if '0' <= c && c <= '9' {
        c as int - '0' as int
    } else if 'a' <= c && c <= 'f' {
        c as int - 'a' as int + 10
    } else {
        c as int - 'A' as int + 10
    }
}

/// The message for a color that is not `#rrggbb`.
pub open spec fn bad_hex_msg(key: Seq<char>, value: Seq<char>) -> Seq<char> {
    "atproto.publication.theme: `"@ + key + "` must be a 6-digit hex color like \"#1a1a2e\" (got `"@
        + value + "`)"@
}

/// A `#rrggbb` hex color (case-insensitive, exactly one canonical form).
pub open spec fn hex_color(key: Seq<char>, value: Seq<char>) -> Result<Rgb, Seq<char>> {
    if value.len() == 7 && value[0] == '#' && (forall|i: int| 1 <= i < 7 ==> hex_digit(#[trigger] value[i])) {
        Ok(
            Rgb {
                r: (16 * hex_val(value[1]) + hex_val(value[2])) as u8,
                g: (16 * hex_val(value[3]) + hex_val(value[4])) as u8,
                b: (16 * hex_val(value[5]) + hex_val(value[6])) as u8,
            },
        )
    } else {
        Err(bad_hex_msg(key, value))
    }
}

/// The hexadecimal digit for `d` in `0..16`, in lower or upper case.
pub open spec fn hex_digit_char(d: int, upper: bool) -> char {
    if d < 10 {
        (48 + d) as char
    } else if upper {
        (55 + d) as char
    } else {
        (87 + d) as char
    }
}

/// The two hexadecimal digits of a byte, high digit first.
pub open spec fn hex_pair(n: u8, upper: bool) -> Seq<char> {
    seq![hex_digit_char(n as int / 16, upper), hex_digit_char(n as int % 16, upper)]
}

/// The `#rrggbb` spelling of a color, in lower or upper case.
pub open spec fn hex_code(c: Rgb, upper: bool) -> Seq<char> {
    seq!['#'] + hex_pair(c.r, upper) + hex_pair(c.g, upper) + hex_pair(c.b, upper)
}

proof fn lemma_hex_digit_char(d: int, upper: bool)
    requires
        0 <= d < 16,
    ensures
        hex_digit(hex_digit_char(d, upper)),
        hex_val(hex_digit_char(d, upper)) == d,
{
}

proof fn lemma_hex_pair_value(n: u8, upper: bool)
    ensures
        hex_digit(hex_pair(n, upper)[0]),
        hex_digit(hex_pair(n, upper)[1]),
        (16 * hex_val(hex_pair(n, upper)[0]) + hex_val(hex_pair(n, upper)[1])) as u8 == n,
{
    lemma_hex_digit_char(n as int / 16, upper);
    lemma_hex_digit_char(n as int % 16, upper);
}

/// Every color written as `#rrggbb`, in lower or in upper case, parses back to
/// itself, whatever theme field it is read for.
pub proof fn lemma_hex_color_round_trip(key: Seq<char>, c: Rgb, upper: bool)
    ensures
        hex_color(key, hex_code(c, upper)) == Ok::<Rgb, Seq<char>>(c),
{
    let v = hex_code(c, upper);
    lemma_hex_pair_value(c.r, upper);
    lemma_hex_pair_value(c.g, upper);
    lemma_hex_pair_value(c.b, upper);
    assert(v.len() == 7);
    assert(v[1] == hex_pair(c.r, upper)[0] && v[2] == hex_pair(c.r, upper)[1]);
    assert(v[3] == hex_pair(c.g, upper)[0] && v[4] == hex_pair(c.g, upper)[1]);
    assert(v[5] == hex_pair(c.b, upper)[0] && v[6] == hex_pair(c.b, upper)[1]);
    assert(forall|i: int| 1 <= i < 7 ==> hex_digit(#[trigger] v[i]));
}

fn hex_digit_value(c: char) -> (r: Option<u8>)
    ensures
        hex_digit(c) ==> (r matches Some(v) && v as int == hex_val(c)),
        !hex_digit(c) ==> r is None,
{
    if '0' <= c && c <= '9' {
        Some((c as u32 - '0' as u32) as u8)
    } else if 'a' <= c && c <= 'f' {
        Some((c as u32 - 'a' as u32 + 10) as u8)
    } else if 'A' <= c && c <= 'F' {
        Some((c as u32 - 'A' as u32 + 10) as u8)
    } else {
        None
    }
}

fn bad_hex(key: &str, value: &str) -> (r: String)
    ensures
        r@ == bad_hex_msg(key@, value@),
{
    let mut r = String::from_str("atproto.publication.theme: `");
    r.append(key);
    r.append("` must be a 6-digit hex color like \"#1a1a2e\" (got `");
    r.append(value);
    r.append("`)");
    r
}

/// Parse a `#rrggbb` hex color for the theme field `key`.
pub fn parse_hex_color(value: &str, key: &str) -> (r: Result<Rgb, String>)
    ensures
        hex_color(key@, value@) matches Ok(c) ==> r == Ok::<Rgb, String>(c),
        hex_color(key@, value@) matches Err(e) ==> (r matches Err(m) && m@ == e),
{
    let v = crate::text::chars_of(value);
    if v.len() != 7 || v[0] != '#' {
        return Err(bad_hex(key, value));
    }
    let mut digits: Vec<u8> = Vec::new();
    let mut i: usize = 1;
    while i < 7
        invariant
            1 <= i <= 7,
            v@ == value@,
            v@.len() == 7,
            digits@.len() == i - 1,
            forall|k: int| 1 <= k < i ==> hex_digit(#[trigger] v@[k]) && digits@[k - 1] as int == hex_val(v@[k]),
        decreases 7 - i,
    {
        match hex_digit_value(v[i]) {
            Some(d) => digits.push(d),
            None => {
                return Err(bad_hex(key, value));
            },
        }
        i = i + 1;
    }
    let r = Rgb {
        r: 16 * digits[0] + digits[1],
        g: 16 * digits[2] + digits[3],
        b: 16 * digits[4] + digits[5],
    };
    proof {
        assert(hex_digit(v@[1]) && hex_digit(v@[2]) && hex_digit(v@[3]));
        assert(hex_digit(v@[4]) && hex_digit(v@[5]) && hex_digit(v@[6]));
    }
    Ok(r)
}

/// The theme fields, in the order they are read.
pub open spec fn theme_keys() -> Seq<Seq<char>> {
    seq!["background"@, "foreground"@, "accent"@, "accent_foreground"@]
}

/// The message for a missing theme color.
pub open spec fn missing_color_msg(key: Seq<char>) -> Seq<char> {
    "atproto.publication.theme: `"@ + key
        + "` is required (all four colors: background, foreground, accent, accent_foreground)"@
}

/// One required theme color.
pub open spec fn theme_color(m: Seq<(Yaml, Yaml)>, key: Seq<char>) -> Result<Rgb, Seq<char>> {
    match string_member(m, key) {
        Err(e) => Err(e),
        Ok(None) => Err(missing_color_msg(key)),
        Ok(Some(v)) => hex_color(key, v),
    }
}

/// The `theme:` block: only the four color keys, each required.
pub open spec fn theme_spec(m: Seq<(Yaml, Yaml)>) -> Result<BasicTheme, Seq<char>> {
    match first_bad_key(m, theme_keys()) {
        Some(k) => Err(unknown_key_msg("atproto.publication.theme"@, k, theme_keys())),
        None => match theme_color(m, "background"@) {
            Err(e) => Err(e),
            Ok(bg) => match theme_color(m, "foreground"@) {
                Err(e) => Err(e),
                Ok(fg) => match theme_color(m, "accent"@) {
                    Err(e) => Err(e),
                    Ok(ac) => match theme_color(m, "accent_foreground"@) {
                        Err(e) => Err(e),
                        Ok(af) => Ok(BasicTheme { background: bg, foreground: fg, accent: ac, accent_foreground: af }),
                    },
                },
            },
        },
    }
}

pub(crate) fn strings4(a: &str, b: &str, c: &str, d: &str) -> (v: Vec<String>)
    ensures
        views(v@) == seq![a@, b@, c@, d@],
{
    let mut v: Vec<String> = Vec::new();
    v.push(String::from_str(a));
    v.push(String::from_str(b));
    v.push(String::from_str(c));
    v.push(String::from_str(d));
    proof {
        assert(views(v@) =~= seq![a@, b@, c@, d@]);
    }
    v
}

fn theme_color_exec(m: &Vec<(Yaml, Yaml)>, key: &str) -> (r: Result<Rgb, String>)
    ensures
        theme_color(m@, key@) matches Ok(c) ==> r == Ok::<Rgb, String>(c),
        theme_color(m@, key@) matches Err(e) ==> (r matches Err(x) && x@ == e),
{
    match string_member_exec(m, key) {
        Err(e) => Err(e),
        Ok(None) => {
            let mut r = String::from_str("atproto.publication.theme: `");
            r.append(key);
            r.append("` is required (all four colors: background, foreground, accent, accent_foreground)");
            Err(r)
        },
        Ok(Some(v)) => parse_hex_color(v.as_str(), key),
    }
}

fn parse_theme(m: &Vec<(Yaml, Yaml)>) -> (r: Result<BasicTheme, String>)
    ensures
        theme_spec(m@) matches Ok(t) ==> r == Ok::<BasicTheme, String>(t),
        theme_spec(m@) matches Err(e) ==> (r matches Err(x) && x@ == e),
{
    let allowed = strings4("background", "foreground", "accent", "accent_foreground");
    if let Some(k) = find_bad_key(m, &allowed) {
        return Err(unknown_key_message("atproto.publication.theme", &k, &allowed));
    }
    let background = match theme_color_exec(m, "background") {
        Ok(c) => c,
        Err(e) => {
            return Err(e);
        },
    };
    let foreground = match theme_color_exec(m, "foreground") {
        Ok(c) => c,
        Err(e) => {
            return Err(e);
        },
    };
    let accent = match theme_color_exec(m, "accent") {
        Ok(c) => c,
        Err(e) => {
            return Err(e);
        },
    };
    let accent_foreground = match theme_color_exec(m, "accent_foreground") {
        Ok(c) => c,
        Err(e) => {
            return Err(e);
        },
    };
    Ok(BasicTheme { background, foreground, accent, accent_foreground })
}

/// The first problem among the `publication:` block's keys: a removed key
/// (`name`, `url`, `description`) or one other than `icon`/`theme`.
pub open spec fn publication_key_error(m: Seq<(Yaml, Yaml)>) -> Option<Seq<char>>
    decreases m.len(),
{
    if m.len() == 0 {
        None
    } else {
        match m[0].0 {
            Yaml::Str(k) => if k@ == "icon"@ || k@ == "theme"@ {
                publication_key_error(m.drop_first())
            } else if k@ == "name"@ || k@ == "url"@ || k@ == "description"@ {
                Some("atproto.publication: `"@ + k@
                    + "` was removed — the publication record now uses `site.title` (name), `site.url` + `site.base_path` (url), and `site.description` (description)"@)
            } else {
                Some("atproto.publication: unknown key `"@ + k@ + "` (allowed: icon, theme)"@)
            },
            _ => Some("atproto.publication: unknown key `<non-string>` (allowed: icon, theme)"@),
        }
    }
}

/// An optional sub-mapping member.
pub open spec fn submap(m: Seq<(Yaml, Yaml)>, key: Seq<char>) -> Result<Option<Seq<(Yaml, Yaml)>>, Seq<char>> {
    match ylookup(m, key) {
        None => Ok(None),
        Some(Yaml::Null) => Ok(None),
        Some(Yaml::Mapping(x)) => Ok(Some(x@)),
        Some(_) => Err("atproto: `"@ + key + "` must be a mapping"@),
    }
}

/// The `publication:` block as (icon, theme); the theme is read before the
/// icon.
pub open spec fn publication_spec(m: Seq<(Yaml, Yaml)>) -> Result<(Option<Seq<char>>, Option<BasicTheme>), Seq<char>> {
    match publication_key_error(m) {
        Some(e) => Err(e),
        None => match submap(m, "theme"@) {
            Err(e) => Err(e),
            Ok(t) => {
                let theme: Result<Option<BasicTheme>, Seq<char>> = match t {
                    None => Ok(None),
                    Some(tm) => match theme_spec(tm) {
                        Ok(th) => Ok(Some(th)),
                        Err(e) => Err(e),
                    },
                };
                match theme {
                    Err(e) => Err(e),
                    Ok(th) => match string_member(m, "icon"@) {
                        Err(e) => Err(e),
                        Ok(icon) => Ok((icon, th)),
                    },
                }
            },
        },
    }
}

fn publication_key_problem(m: &Vec<(Yaml, Yaml)>) -> (r: Option<String>)
    ensures
        publication_key_error(m@) is None ==> r is None,
        publication_key_error(m@) matches Some(e) ==> (r matches Some(x) && x@ == e),
{
    let mut i: usize = 0;
    proof {
        assert(m@.skip(0) =~= m@);
    }
    while i < m.len()
        invariant
            i <= m@.len(),
            publication_key_error(m@) == publication_key_error(m@.skip(i as int)),
        decreases m@.len() - i,
    {
        proof {
            assert(m@.skip(i as int).drop_first() =~= m@.skip(i + 1));
            assert(m@.skip(i as int)[0] == m@[i as int]);
        }
        match &m[i].0 {
            Yaml::Str(k) => {
                let k = k.as_str();
                if str_eq(k, "icon") || str_eq(k, "theme") {
                } else if str_eq(k, "name") || str_eq(k, "url") || str_eq(k, "description") {
                    let mut e = String::from_str("atproto.publication: `");
                    e.append(k);
                    e.append(
                        "` was removed — the publication record now uses `site.title` (name), `site.url` + `site.base_path` (url), and `site.description` (description)",
                    );
                    return Some(e);
                } else {
                    let mut e = String::from_str("atproto.publication: unknown key `");
                    e.append(k);
                    e.append("` (allowed: icon, theme)");
                    return Some(e);
                }
            },
            _ => {
                return Some(
                    String::from_str(
                        "atproto.publication: unknown key `<non-string>` (allowed: icon, theme)",
                    ),
                );
            },
        }
        i = i + 1;
    }
    None
}

fn submap_exec<'a>(m: &'a Vec<(Yaml, Yaml)>, key: &str) -> (r: Result<Option<&'a Vec<(Yaml, Yaml)>>, String>)
    ensures
        submap(m@, key@) matches Ok(o) ==> (r matches Ok(ro) && match o {
            Some(x) => ro matches Some(y) && y@ == x,
            None => ro is None,
        }),
        submap(m@, key@) matches Err(e) ==> (r matches Err(x) && x@ == e),
{
    match lookup_member(m, key) {
        None => Ok(None),
        Some(Yaml::Null) => Ok(None),
        Some(Yaml::Mapping(x)) => Ok(Some(x)),
        Some(_) => {
            let mut e = String::from_str("atproto: `");
            e.append(key);
            e.append("` must be a mapping");
            Err(e)
        },
    }
}

fn parse_publication(m: &Vec<(Yaml, Yaml)>) -> (r: Result<Publication, String>)
    ensures
        publication_spec(m@) matches Ok((icon, theme)) ==> (r matches Ok(p) && p.theme == theme && match icon {
            Some(i) => p.icon matches Some(x) && x@ == i,
            None => p.icon is None,
        }),
        publication_spec(m@) matches Err(e) ==> (r matches Err(x) && x@ == e),
{
    if let Some(e) = publication_key_problem(m) {
        return Err(e);
    }
    let theme = match submap_exec(m, "theme") {
        Err(e) => {
            return Err(e);
        },
        Ok(None) => None,
        Ok(Some(t)) => match parse_theme(t) {
            Ok(th) => Some(th),
            Err(e) => {
                return Err(e);
            },
        },
    };
    let icon = match string_member_exec(m, "icon") {
        Err(e) => {
            return Err(e);
        },
        Ok(i) => i,
    };
    Ok(Publication { icon, theme })
}

/// `collections:` — a list of collection names; absent/null means `[all]`.
pub open spec fn collections_spec(m: Seq<(Yaml, Yaml)>) -> Result<Seq<Seq<char>>, Seq<char>> {
    match ylookup(m, "collections"@) {
        None => Ok(seq![ALL@]),
        Some(Yaml::Null) => Ok(seq![ALL@]),
        Some(Yaml::List(items)) => if forall|i: int| 0 <= i < items@.len() ==> (#[trigger] items@[i]) is Str {
            Ok(items@.map_values(|y: Yaml| match y {
                Yaml::Str(s) => s@,
                _ => Seq::empty(),
            }))
        } else {
            Err("atproto: every `collections` entry must be a collection name (string)"@)
        },
        Some(_) => Err("atproto: `collections` must be a list of collection names"@),
    }
}

fn parse_collections(m: &Vec<(Yaml, Yaml)>) -> (r: Result<Vec<String>, String>)
    ensures
        collections_spec(m@) matches Ok(c) ==> (r matches Ok(v) && views(v@) == c),
        collections_spec(m@) matches Err(e) ==> (r matches Err(x) && x@ == e),
{
    match lookup_member(m, "collections") {
        None | Some(Yaml::Null) => {
            let mut v: Vec<String> = Vec::new();
            v.push(String::from_str(ALL));
            proof {
                assert(views(v@) =~= seq![ALL@]);
            }
            Ok(v)
        },
        Some(Yaml::List(items)) => {
            let mut v: Vec<String> = Vec::new();
            let mut i: usize = 0;
            while i < items.len()
                invariant
                    i <= items@.len(),
                    ylookup(m@, "collections"@) matches Some(Yaml::List(it)) && it@ == items@,
                    v@.len() == i,
                    forall|k: int| 0 <= k < i ==> (#[trigger] items@[k]) is Str,
                    forall|k: int| 0 <= k < i ==> (items@[k] matches Yaml::Str(s) && (#[trigger] v@[k])@ == s@),
                decreases items@.len() - i,
            {
                match &items[i] {
                    Yaml::Str(s) => v.push(s.clone()),
                    _ => {
                        return Err(
                            String::from_str(
                                "atproto: every `collections` entry must be a collection name (string)",
                            ),
                        );
                    },
                }
                i = i + 1;
            }
            proof {
                assert(views(v@) =~= items@.map_values(|y: Yaml| match y {
                    Yaml::Str(s) => s@,
                    _ => Seq::empty(),
                }));
            }
            Ok(v)
        },
        Some(_) => Err(String::from_str("atproto: `collections` must be a list of collection names")),
    }
}

/// The keys of the `bsky:` block.
pub open spec fn bsky_keys() -> Seq<Seq<char>> {
    seq!["enabled"@, "since"@]
}

/// The `bsky:` block as (enabled, since day).
pub open spec fn bsky_spec(m: Seq<(Yaml, Yaml)>) -> Result<(bool, Option<int>), Seq<char>> {
    match first_bad_key(m, bsky_keys()) {
        Some(k) => Err(unknown_key_msg("atproto.bsky"@, k, bsky_keys())),
        None => {
            let enabled: Result<bool, Seq<char>> = match ylookup(m, "enabled"@) {
                None => Ok(false),
                Some(Yaml::Null) => Ok(false),
                Some(Yaml::Bool(b)) => Ok(b),
                Some(_) => Err("atproto.bsky: `enabled` must be a boolean"@),
            };
            match enabled {
                Err(e) => Err(e),
                Ok(en) => match string_member(m, "since"@) {
                    Err(e) => Err(e),
                    Ok(None) => Ok((en, None)),
                    Ok(Some(v)) => match parsed_date(v, DATE_FORMAT@) {
                        Some((y, mo, d)) => Ok((en, Some(days_from_civil(y, mo, d)))),
                        None => Err("atproto.bsky: `since` must be a date like 2026-01-01 (got `"@ + v + "`)"@),
                    },
                },
            }
        },
    }
}

fn strings2(a: &str, b: &str) -> (v: Vec<String>)
    ensures
        views(v@) == seq![a@, b@],
{
    let mut v: Vec<String> = Vec::new();
    v.push(String::from_str(a));
    v.push(String::from_str(b));
    proof {
        assert(views(v@) =~= seq![a@, b@]);
    }
    v
}

fn parse_bsky(m: &Vec<(Yaml, Yaml)>) -> (r: Result<Bsky, String>)
    ensures
        bsky_spec(m@) matches Ok((en, since)) ==> (r matches Ok(b) && b.enabled == en && match since {
            Some(d) => b.since == Some(d as i64) && d == b.since->0,
            None => b.since is None,
        }),
        bsky_spec(m@) matches Err(e) ==> (r matches Err(x) && x@ == e),
{
    let allowed = strings2("enabled", "since");
    if let Some(k) = find_bad_key(m, &allowed) {
        return Err(unknown_key_message("atproto.bsky", &k, &allowed));
    }
    let enabled = match lookup_member(m, "enabled") {
        None | Some(Yaml::Null) => false,
        Some(Yaml::Bool(b)) => *b,
        Some(_) => {
            return Err(String::from_str("atproto.bsky: `enabled` must be a boolean"));
        },
    };
    let since = match string_member_exec(m, "since") {
        Err(e) => {
            return Err(e);
        },
        Ok(None) => None,
        Ok(Some(v)) => match parse_date(v.as_str(), DATE_FORMAT) {
            Some((y, mo, d)) => Some(civil_days(y, mo, d)),
            None => {
                let mut e = String::from_str(
                    "atproto.bsky: `since` must be a date like 2026-01-01 (got `",
                );
                e.append(v.as_str());
                e.append("`)");
                return Err(e);
            },
        },
    };
    Ok(Bsky { enabled, since })
}

/// The first problem among the `atproto:` block's keys.
pub open spec fn atproto_key_error(m: Seq<(Yaml, Yaml)>) -> Option<Seq<char>>
    decreases m.len(),
{
    if m.len() == 0 {
        None
    } else {
        match m[0].0 {
            Yaml::Str(k) => if k@ == "pds_host"@ || k@ == "collections"@ || k@ == "verification"@ || k@
                == "publication"@ || k@ == "bsky"@ {
                atproto_key_error(m.drop_first())
            } else if k@ == "collection"@ {
                Some("atproto: `collection` has been replaced by `collections`, a list — e.g. `collections: [posts]` (defaults to `[all]`)"@)
            } else {
                Some("atproto: unknown key `"@ + k@
                    + "` (allowed: pds_host, collections, verification, publication, bsky)"@)
            },
            _ => Some("atproto: unknown key `<non-string>` (allowed: pds_host, collections, verification, publication, bsky)"@),
        }
    }
}

/// The parsed `atproto:` block as plain values: (pds host, collections,
/// verification, icon, theme, bsky enabled, bsky since day).
pub open spec fn atproto_spec(m: Seq<(Yaml, Yaml)>) -> Result<
    (Seq<char>, Seq<Seq<char>>, bool, Option<Seq<char>>, Option<BasicTheme>, bool, Option<int>),
    Seq<char>,
> {
    match atproto_key_error(m) {
        Some(e) => Err(e),
        None => match string_member(m, "pds_host"@) {
            Err(e) => Err(e),
            Ok(host) => match collections_spec(m) {
                Err(e) => Err(e),
                Ok(cols) => {
                    let verification: Result<bool, Seq<char>> = match ylookup(m, "verification"@) {
                        None => Ok(true),
                        Some(Yaml::Null) => Ok(true),
                        Some(Yaml::Bool(b)) => Ok(b),
                        Some(_) => Err("atproto: `verification` must be a boolean"@),
                    };
                    match verification {
                        Err(e) => Err(e),
                        Ok(ver) => {
                            let publication: Result<(Option<Seq<char>>, Option<BasicTheme>), Seq<char>> = match submap(m, "publication"@) {
                                Err(e) => Err(e),
                                Ok(None) => Ok((None, None)),
                                Ok(Some(pm)) => publication_spec(pm),
                            };
                            match publication {
                                Err(e) => Err(e),
                                Ok((icon, theme)) => {
                                    let bsky: Result<(bool, Option<int>), Seq<char>> = match submap(m, "bsky"@) {
                                        Err(e) => Err(e),
                                        Ok(None) => Ok((false, None)),
                                        Ok(Some(bm)) => bsky_spec(bm),
                                    };
                                    match bsky {
                                        Err(e) => Err(e),
                                        Ok((en, since)) => Ok(
                                            (
                                                match host {
                                                    Some(h) => h,
                                                    None => DEFAULT_PDS_HOST@,
                                                },
                                                cols,
                                                ver,
                                                icon,
                                                theme,
                                                en,
                                                since,
                                            ),
                                        ),
                                    }
                                },
                            }
                        },
                    }
                },
            },
        },
    }
}

/// An `Atproto` as plain values, in the order [`atproto_spec`] gives them.
pub open spec fn atproto_view(a: Atproto) -> (Seq<char>, Seq<Seq<char>>, bool, Option<Seq<char>>, Option<BasicTheme>, bool, Option<int>) {
    (
        a.pds_host@,
        views(a.collections@),
        a.verification,
        match a.publication.icon {
            Some(i) => Some(i@),
            None => None,
        },
        a.publication.theme,
        a.bsky.enabled,
        match a.bsky.since {
            Some(d) => Some(d as int),
            None => None,
        },
    )
}

fn atproto_key_problem(m: &Vec<(Yaml, Yaml)>) -> (r: Option<String>)
    ensures
        atproto_key_error(m@) is None ==> r is None,
        atproto_key_error(m@) matches Some(e) ==> (r matches Some(x) && x@ == e),
{
    let mut i: usize = 0;
    proof {
        assert(m@.skip(0) =~= m@);
    }
    while i < m.len()
        invariant
            i <= m@.len(),
            atproto_key_error(m@) == atproto_key_error(m@.skip(i as int)),
        decreases m@.len() - i,
    {
        proof {
            assert(m@.skip(i as int).drop_first() =~= m@.skip(i + 1));
            assert(m@.skip(i as int)[0] == m@[i as int]);
        }
        match &m[i].0 {
            Yaml::Str(k) => {
                let k = k.as_str();
                if str_eq(k, "pds_host") || str_eq(k, "collections") || str_eq(k, "verification")
                    || str_eq(k, "publication") || str_eq(k, "bsky") {
                } else if str_eq(k, "collection") {
                    return Some(
                        String::from_str(
                            "atproto: `collection` has been replaced by `collections`, a list — e.g. `collections: [posts]` (defaults to `[all]`)",
                        ),
                    );
                } else {
                    let mut e = String::from_str("atproto: unknown key `");
                    e.append(k);
                    e.append("` (allowed: pds_host, collections, verification, publication, bsky)");
                    return Some(e);
                }
            },
            _ => {
                return Some(
                    String::from_str(
                        "atproto: unknown key `<non-string>` (allowed: pds_host, collections, verification, publication, bsky)",
                    ),
                );
            },
        }
        i = i + 1;
    }
    None
}

/// Parse the `atproto:` mapping. Unknown keys are rejected so typos surface
/// immediately, with pointed errors for the removed `collection` and
/// `publication.name`/`url`/`description` keys.
pub fn parse_atproto(map: &Vec<(Yaml, Yaml)>) -> (r: Result<Atproto, String>)
    ensures
        atproto_spec(map@) matches Ok(v) ==> (r matches Ok(a) && atproto_view(a) == v),
        atproto_spec(map@) matches Err(e) ==> (r matches Err(x) && x@ == e),
{
    if let Some(e) = atproto_key_problem(map) {
        return Err(e);
    }
    let pds_host = match string_member_exec(map, "pds_host") {
        Err(e) => {
            return Err(e);
        },
        Ok(Some(h)) => h,
        Ok(None) => String::from_str(DEFAULT_PDS_HOST),
    };
    let collections = match parse_collections(map) {
        Err(e) => {
            return Err(e);
        },
        Ok(c) => c,
    };
    let verification = match lookup_member(map, "verification") {
        None | Some(Yaml::Null) => true,
        Some(Yaml::Bool(b)) => *b,
        Some(_) => {
            return Err(String::from_str("atproto: `verification` must be a boolean"));
        },
    };
    let publication = match submap_exec(map, "publication") {
        Err(e) => {
            return Err(e);
        },
        Ok(None) => Publication { icon: None, theme: None },
        Ok(Some(pm)) => match parse_publication(pm) {
            Err(e) => {
                return Err(e);
            },
            Ok(p) => p,
        },
    };
    let bsky = match submap_exec(map, "bsky") {
        Err(e) => {
            return Err(e);
        },
        Ok(None) => Bsky { enabled: false, since: None },
        Ok(Some(bm)) => match parse_bsky(bm) {
            Err(e) => {
                return Err(e);
            },
            Ok(b) => b,
        },
    };
    Ok(Atproto { pds_host, collections, verification, publication, bsky })
}

/// An empty `atproto:` block parses to exactly the defaults a site without
/// the block gets.
pub proof fn lemma_empty_block_is_default(a: Atproto)
    requires
        a.is_default(),
    ensures
        atproto_spec(Seq::<(Yaml, Yaml)>::empty()) == Ok::<
            (Seq<char>, Seq<Seq<char>>, bool, Option<Seq<char>>, Option<BasicTheme>, bool, Option<int>),
            Seq<char>,
        >(atproto_view(a)),
{
    assert(views(a.collections@) =~= seq![ALL@]);
}

} // verus!

