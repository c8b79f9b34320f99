//! Classification of the expected document records against those listed
//! from the PDS: published (present and identical), changed (present but
//! different), missing (absent), and orphaned (this site's records with no
//! local doc).
use vstd::prelude::*;
use crate::atproto::compare::{
    canon, entries_view, equal, json_wf, jview, lemma_entries_view, Json, JsonV,
};
use crate::text::{decimal, decimal_string, str_eq, views};

verus! {

/// A locally built document record (as JSON) and the rkey it should live at.
pub struct Expected {
    pub rkey: String,
    pub record: Json,
}

/// A document record as listed from the PDS.
pub struct RemoteDoc {
    pub rkey: String,
    pub uri: String,
    /// The record's value; `Json::Null` when it could not be read, which
    /// compares unequal to any record.
    pub value: Json,
}

/// The classified comparison.
pub struct Report {
    /// id_paths whose record is present and identical, in input order.
    pub published: Vec<String>,
    /// (id_path, rkey) of records present but different.
    pub changed: Vec<(String, String)>,
    /// (id_path, rkey) of records absent from the PDS.
    pub missing: Vec<(String, String)>,
    /// AT-URIs of this site's records with no matching local doc.
    pub orphaned: Vec<String>,
}

/// The `site` string of a record value: its object's first `site` entry,
/// when that is a string.
pub open spec fn site_of(v: JsonV) -> Option<Seq<char>> {
    match v {
        JsonV::Object(m) => site_entry(m),
        _ => None,
    }
}

pub open spec fn site_entry(m: Seq<(Seq<char>, JsonV)>) -> Option<Seq<char>>
    decreases m.len(),
{
    if m.len() == 0 {
        None
    } else if m[0].0 == "site"@ {
        match m[0].1 {
            JsonV::Str(s) => Some(s),
            _ => None,
        }
    } else {
        site_entry(m.drop_first())
    }
}

impl RemoteDoc {
    /// The record's `site` field (the publication AT-URI it belongs to).
    pub fn site(&self) -> (r: Option<String>)
        ensures
            crate::text::opt_chars(r) == site_of(jview(self.value)),
    {
        match &self.value {
            Json::Object(m) => {
                let ghost mv = entries_view(m@, m@.len() as int);
                assert(jview(self.value) == JsonV::Object(mv));
                proof {
                    lemma_entries_view(m@, m@.len() as int);
                    assert(mv.skip(0) =~= mv);
                    reveal_strlit("site");
                }
                let mut i: usize = 0;
                while i < m.len()
                    invariant
                        i <= m@.len(),
                        mv == entries_view(m@, m@.len() as int),
                        jview(self.value) == JsonV::Object(mv),
                        mv.len() == m@.len(),
                        forall|k: int| 0 <= k < m@.len() ==> #[trigger] mv[k] == (m@[k].0@, jview(m@[k].1)),
                        site_entry(mv) == site_entry(mv.skip(i as int)),
                    decreases m@.len() - i,
                {
                    proof {
                        assert(mv.skip(i as int).drop_first() =~= mv.skip(i + 1));
                        assert(mv.skip(i as int)[0] == mv[i as int]);
                    }
                    if str_eq(m[i].0.as_str(), "site") {
                        proof {
                            assert(mv.skip(i as int)[0].0 == "site"@);
                            assert(site_entry(mv) == match mv[i as int].1 {
                                JsonV::Str(x) => Some(x),
                                _ => None,
                            });
                        }
                        let found: Option<String> = match &m[i].1 {
                            Json::Str(s) => Some(String::from_str(s.as_str())),
                            _ => None,
                        };
                        proof {
                            match m@[i as int].1 {
                                Json::Str(s) => {
                                    assert(mv[i as int].1 == JsonV::Str(s@));
                                },
                                _ => {
                                    assert(!(mv[i as int].1 is Str));
                                },
                            }
                        }
                        return found;
                    }
                    i = i + 1;
                }
                proof {
                    assert(mv.skip(i as int).len() == 0);
                }
                None
            },
            _ => None,
        }
    }
}

/// Index of the first listed record with `rkey`.
pub open spec fn find_rkey(remote: Seq<RemoteDoc>, rkey: Seq<char>) -> Option<int>
    decreases remote.len(),
{
    if remote.len() == 0 {
        None
    } else if remote[0].rkey@ == rkey {
        Some(0)
    } else {
        match find_rkey(remote.drop_first(), rkey) {
            Some(i) => Some(i + 1),
            None => None,
        }
    }
}

/// What became of one expected record: 0 published, 1 changed, 2 missing.
pub open spec fn outcome(e: Expected, remote: Seq<RemoteDoc>) -> int {
    match find_rkey(remote, e.rkey@) {
        None => 2,
        Some(i) => if canon(jview(e.record)) == canon(jview(remote[i].value)) { 0 } else { 1 },
    }
}

/// The id_paths, in order, of the first `n` expected records with outcome `k`.
pub open spec fn ids_with(expected: Seq<(String, Expected)>, remote: Seq<RemoteDoc>, k: int, n: int) -> Seq<(Seq<char>, Seq<char>)>
    decreases n,
{
    if n <= 0 || n > expected.len() {
        Seq::empty()
    } else {
        let rest = ids_with(expected, remote, k, n - 1);
        if outcome(expected[n - 1].1, remote) == k {
            rest.push((expected[n - 1].0@, expected[n - 1].1.rkey@))
        } else {
            rest
        }
    }
}

/// Whether some expected record has `rkey`.
pub open spec fn expected_rkey(expected: Seq<(String, Expected)>, rkey: Seq<char>) -> bool {
    exists|i: int| 0 <= i < expected.len() && (#[trigger] expected[i]).1.rkey@ == rkey
}

/// The AT-URIs, in order, of the first `n` listed records that belong to
/// `site_uri` and match no expected record.
pub open spec fn orphans(expected: Seq<(String, Expected)>, remote: Seq<RemoteDoc>, site_uri: Seq<char>, n: int) -> Seq<Seq<char>>
    decreases n,
{
    if n <= 0 || n > remote.len() {
        Seq::empty()
    } else {
        let rest = orphans(expected, remote, site_uri, n - 1);
        let r = remote[n - 1];
        if !expected_rkey(expected, r.rkey@) && site_of(jview(r.value)) == Some(site_uri) {
            rest.push(r.uri@)
        } else {
            rest
        }
    }
}

/// The (id_path, rkey) pairs of a list, as characters.
pub open spec fn pair_views(v: Seq<(String, String)>) -> Seq<(Seq<char>, Seq<char>)> {
    v.map_values(|p: (String, String)| (p.0@, p.1@))
}

fn find_remote(remote: &Vec<RemoteDoc>, rkey: &str) -> (r: Option<usize>)
    ensures
        r matches Some(j) ==> find_rkey(remote@, rkey@) == Some(j as int) && j < remote@.len(),
        r is None ==> find_rkey(remote@, rkey@) is None,
{
    let mut i: usize = 0;
    proof {
        assert(remote@.skip(0) =~= remote@);
    }
    while i < remote.len()
        invariant
            i <= remote@.len(),
            find_rkey(remote@, rkey@) == match find_rkey(remote@.skip(i as int), rkey@) {
                Some(j) => Some(j + i),
                None => None,
            },
        decreases remote@.len() - i,
    {
        proof {
            assert(remote@.skip(i as int).drop_first() =~= remote@.skip(i + 1));
            assert(remote@.skip(i as int)[0] == remote@[i as int]);
        }
        if str_eq(remote[i].rkey.as_str(), rkey) {
            return Some(i);
        }
        i = i + 1;
    }
    proof {
        assert(remote@.skip(i as int).len() == 0);
    }
    None
}

fn has_expected_rkey(expected: &Vec<(String, Expected)>, rkey: &str) -> (r: bool)
    ensures
        r == expected_rkey(expected@, rkey@),
{
    let mut i: usize = 0;
    while i < expected.len()
        invariant
            i <= expected@.len(),
            forall|k: int| 0 <= k < i ==> (#[trigger] expected@[k]).1.rkey@ != rkey@,
        decreases expected@.len() - i,
    {
        if str_eq(expected[i].1.rkey.as_str(), rkey) {
            return true;
        }
        i = i + 1;
    }
    false
}

fn copy(s: &String) -> (r: String)
    ensures
        r@ == s@,
{
    String::from_str(s.as_str())
}

/// Compare the expected records against the listed ones. Orphans are only
/// this site's records (their `site` is `site_uri`); records of other sites
/// sharing the PDS are ignored.
pub fn classify(expected: &Vec<(String, Expected)>, remote: &Vec<RemoteDoc>, site_uri: &str) -> (r: Report)
    requires
        forall|i: int| 0 <= i < expected@.len() ==> json_wf(jview(#[trigger] expected@[i].1.record)),
        forall|j: int| 0 <= j < remote@.len() ==> json_wf(jview(#[trigger] remote@[j].value)),
    ensures
        r.published@.map_values(|s: String| s@) == ids_with(expected@, remote@, 0, expected@.len() as int).map_values(
            |p: (Seq<char>, Seq<char>)| p.0,
        ),
        pair_views(r.changed@) == ids_with(expected@, remote@, 1, expected@.len() as int),
        pair_views(r.missing@) == ids_with(expected@, remote@, 2, expected@.len() as int),
        r.orphaned@.map_values(|s: String| s@) == orphans(expected@, remote@, site_uri@, remote@.len() as int),
{
    let mut published: Vec<String> = Vec::new();
    let mut changed: Vec<(String, String)> = Vec::new();
    let mut missing: Vec<(String, String)> = Vec::new();
    let mut i: usize = 0;
    while i < expected.len()
        invariant
            i <= expected@.len(),
            forall|i: int| 0 <= i < expected@.len() ==> json_wf(jview(#[trigger] expected@[i].1.record)),
            forall|j: int| 0 <= j < remote@.len() ==> json_wf(jview(#[trigger] remote@[j].value)),
            published@.map_values(|s: String| s@) == ids_with(expected@, remote@, 0, i as int).map_values(
                |p: (Seq<char>, Seq<char>)| p.0,
            ),
            pair_views(changed@) == ids_with(expected@, remote@, 1, i as int),
            pair_views(missing@) == ids_with(expected@, remote@, 2, i as int),
        decreases expected@.len() - i,
    {
        let ghost p0 = published@;
        let ghost c0 = changed@;
        let ghost m0 = missing@;
        let e = &expected[i];
        assert(*e == expected@[i as int]);
        match find_remote(remote, e.1.rkey.as_str()) {
            None => {
                missing.push((copy(&e.0), copy(&e.1.rkey)));
                proof {
                    assert(pair_views(missing@) =~= pair_views(m0).push((e.0@, e.1.rkey@)));
                }
            },
            Some(j) => {
                assert(find_rkey(remote@, expected@[i as int].1.rkey@) == Some(j as int));
                if equal(&e.1.record, &remote[j].value) {
                    published.push(copy(&e.0));
                    proof {
                        assert(outcome(expected@[i as int].1, remote@) == 0);
                        assert(ids_with(expected@, remote@, 0, i + 1) == ids_with(expected@, remote@, 0, i as int).push(
                            (e.0@, e.1.rkey@),
                        ));
                        assert(published@.map_values(|s: String| s@) =~= p0.map_values(|s: String| s@).push(e.0@));
                        assert(ids_with(expected@, remote@, 0, i + 1).map_values(|p: (Seq<char>, Seq<char>)| p.0)
                            =~= ids_with(expected@, remote@, 0, i as int).map_values(|p: (Seq<char>, Seq<char>)| p.0).push(e.0@));
                    }
                } else {
                    changed.push((copy(&e.0), copy(&e.1.rkey)));
                    proof {
                        assert(outcome(expected@[i as int].1, remote@) == 1);
                        assert(pair_views(changed@) =~= pair_views(c0).push((e.0@, e.1.rkey@)));
                    }
                }
            },
        }
        i = i + 1;
    }
    let mut orphaned: Vec<String> = Vec::new();
    let mut k: usize = 0;
    while k < remote.len()
        invariant
            k <= remote@.len(),
            orphaned@.map_values(|s: String| s@) == orphans(expected@, remote@, site_uri@, k as int),
        decreases remote@.len() - k,
    {
        let ghost o0 = orphaned@;
        let r = &remote[k];
        if !has_expected_rkey(expected, r.rkey.as_str()) {
            let site = r.site();
            let ours = match &site {
                Some(s) => str_eq(s.as_str(), site_uri),
                None => false,
            };
            if ours {
                orphaned.push(copy(&r.uri));
                proof {
                    assert(orphaned@.map_values(|s: String| s@) =~= o0.map_values(|s: String| s@).push(r.uri@));
                }
            }
        }
        k = k + 1;
    }
    Report { published, changed, missing, orphaned }
}


/// How the publication record compares with the PDS copy.
#[derive(Clone, Copy, PartialEq, Eq, Debug)]
pub enum PubState {
    Published,
    Changed,
    Missing,
}

/// The publication record's state: missing when no listed record has its
/// rkey, published when the first that has compares equal, changed otherwise.
pub open spec fn pub_state_spec(expected: Json, listed: Seq<RemoteDoc>, rkey: Seq<char>) -> PubState {
    match find_rkey(listed, rkey) {
        None => PubState::Missing,
        Some(i) => if canon(jview(expected)) == canon(jview(listed[i].value)) {
            PubState::Published
        } else {
            PubState::Changed
        },
    }
}

/// Compare the expected publication record with the listed ones.
pub fn publication_state(expected: &Json, listed: &Vec<RemoteDoc>, rkey: &str) -> (r: PubState)
    requires
        json_wf(jview(*expected)),
        forall|j: int| 0 <= j < listed@.len() ==> json_wf(jview(#[trigger] listed@[j].value)),
    ensures
        r == pub_state_spec(*expected, listed@, rkey@),
{
    match find_remote(listed, rkey) {
        None => PubState::Missing,
        Some(j) => {
            if equal(expected, &listed[j].value) {
                PubState::Published
            } else {
                PubState::Changed
            }
        },
    }
}

/// The publication's status line.
pub open spec fn pub_line(state: PubState, site_uri: Seq<char>) -> Seq<char> {
    match state {
        PubState::Published => "  ok       publication "@ + site_uri,
        PubState::Changed => "  CHANGED  publication "@ + site_uri,
        PubState::Missing => "  MISSING  publication "@ + site_uri,
    }
}

/// The lines reporting the documents, in the order published, changed,
/// missing, orphaned.
pub open spec fn doc_lines(r: Report) -> Seq<Seq<char>> {
    Seq::new(r.published@.len(), |i: int| "  ok       "@ + r.published@[i]@)
        + Seq::new(r.changed@.len(), |i: int| "  CHANGED  "@ + r.changed@[i].0@ + " (rkey="@ + r.changed@[i].1@
            + ") — local content differs from the PDS"@)
        + Seq::new(r.missing@.len(), |i: int| "  MISSING  "@ + r.missing@[i].0@ + " (rkey="@ + r.missing@[i].1@ + ")"@)
        + Seq::new(r.orphaned@.len(), |i: int| "  ORPHANED "@ + r.orphaned@[i]@
            + " (no matching local doc — deleted or renamed?)"@)
}

/// The closing count line.
pub open spec fn count_line(r: Report) -> Seq<char> {
    decimal(r.published@.len()) + " published, "@ + decimal(r.changed@.len()) + " changed, "@ + decimal(
        r.missing@.len(),
    ) + " missing, "@ + decimal(r.orphaned@.len()) + " orphaned"@
}

/// How many records are missing or changed, the publication included.
pub open spec fn out_of_sync(state: PubState, r: Report) -> nat {
    r.missing@.len() + r.changed@.len() + if state == PubState::Published { 0nat } else { 1nat }
}

/// What a status check reports: the lines for stdout, a note for stderr when
/// there are orphans, and the error when anything is missing or changed.
pub struct StatusOutput {
    pub lines: Vec<String>,
    pub note: Option<String>,
    pub error: Option<String>,
}

/// The note printed when orphans were found.
pub open spec fn orphan_note() -> Seq<char> {
    "note: orphaned records can be removed with com.atproto.repo.deleteRecord (see docs/guides/verifying-atproto.md)"@
}

/// The error of a check that found records missing or changed.
pub open spec fn out_of_sync_msg(n: nat) -> Seq<char> {
    decimal(n) + " record(s) missing or changed — run `italic atproto publish`"@
}

fn push_all<F>(lines: &mut Vec<String>, n: usize, f: F)
    where F: Fn(usize) -> String,
    requires
        forall|i: usize| i < n ==> f.requires((i,)),
    ensures
        final(lines)@.len() == old(lines)@.len() + n,
        forall|k: int| 0 <= k < old(lines)@.len() ==> final(lines)@[k] == old(lines)@[k],
        forall|i: int| 0 <= i < n ==> f.ensures((i as usize,), #[trigger] final(lines)@[old(lines)@.len() + i]),
{
    let ghost start = lines@;
    let mut i: usize = 0;
    while i < n
        invariant
            i <= n,
            forall|i: usize| i < n ==> f.requires((i,)),
            lines@.len() == start.len() + i,
            forall|k: int| 0 <= k < start.len() ==> lines@[k] == start[k],
            forall|j: int| 0 <= j < i ==> f.ensures((j as usize,), #[trigger] lines@[start.len() + j]),
        decreases n - i,
    {
        let line = f(i);
        lines.push(line);
        i = i + 1;
    }
}

/// Report a status check: the publication line, a line per document, the
/// counts; the orphan note; and the error when anything is out of sync.
pub fn status_output(site_uri: &str, state: PubState, report: &Report) -> (o: StatusOutput)
    requires
        report.missing@.len() + report.changed@.len() + 1 <= usize::MAX,
    ensures
        views(o.lines@) == seq![pub_line(state, site_uri@)] + doc_lines(*report) + seq![count_line(*report)],
        report.orphaned@.len() > 0 ==> (o.note matches Some(n) && n@ == orphan_note()),
        report.orphaned@.len() == 0 ==> o.note is None,
        out_of_sync(state, *report) > 0 ==> (o.error matches Some(e) && e@ == out_of_sync_msg(out_of_sync(state, *report))),
        out_of_sync(state, *report) == 0 ==> o.error is None,
{
    let mut lines: Vec<String> = Vec::new();
    let mut first = match state {
        PubState::Published => String::from_str("  ok       publication "),
        PubState::Changed => String::from_str("  CHANGED  publication "),
        PubState::Missing => String::from_str("  MISSING  publication "),
    };
    first.append(site_uri);
    lines.push(first);
    let ghost s0 = lines@;
    push_all(&mut lines, report.published.len(), |i: usize| -> (r: String)
        requires i < report.published@.len(),
        ensures r@ == "  ok       "@ + report.published@[i as int]@,
    {
        let mut l = String::from_str("  ok       ");
        l.append(report.published[i].as_str());
        l
    });
    let ghost s1 = lines@;
    push_all(&mut lines, report.changed.len(), |i: usize| -> (r: String)
        requires i < report.changed@.len(),
        ensures r@ == "  CHANGED  "@ + report.changed@[i as int].0@ + " (rkey="@ + report.changed@[i as int].1@
            + ") — local content differs from the PDS"@,
    {
        let mut l = String::from_str("  CHANGED  ");
        l.append(report.changed[i].0.as_str());
        l.append(" (rkey=");
        l.append(report.changed[i].1.as_str());
        l.append(") — local content differs from the PDS");
        l
    });
    let ghost s2 = lines@;
    push_all(&mut lines, report.missing.len(), |i: usize| -> (r: String)
        requires i < report.missing@.len(),
        ensures r@ == "  MISSING  "@ + report.missing@[i as int].0@ + " (rkey="@ + report.missing@[i as int].1@ + ")"@,
    {
        let mut l = String::from_str("  MISSING  ");
        l.append(report.missing[i].0.as_str());
        l.append(" (rkey=");
        l.append(report.missing[i].1.as_str());
        l.append(")");
        l
    });
    let ghost s3 = lines@;
    push_all(&mut lines, report.orphaned.len(), |i: usize| -> (r: String)
        requires i < report.orphaned@.len(),
        ensures r@ == "  ORPHANED "@ + report.orphaned@[i as int]@ + " (no matching local doc — deleted or renamed?)"@,
    {
        let mut l = String::from_str("  ORPHANED ");
        l.append(report.orphaned[i].as_str());
        l.append(" (no matching local doc — deleted or renamed?)");
        l
    });
    let ghost s4 = lines@;
    let mut counts = decimal_string(report.published.len());
    counts.append(" published, ");
    counts.append(decimal_string(report.changed.len()).as_str());
    counts.append(" changed, ");
    counts.append(decimal_string(report.missing.len()).as_str());
    counts.append(" missing, ");
    counts.append(decimal_string(report.orphaned.len()).as_str());
    counts.append(" orphaned");
    lines.push(counts);
    proof {
        let r = *report;
        let (np, nc, nm, no) = (r.published@.len(), r.changed@.len(), r.missing@.len(), r.orphaned@.len());
        let expected = seq![pub_line(state, site_uri@)] + doc_lines(r) + seq![count_line(r)];
        assert(s0.len() == 1 && s1.len() == 1 + np && s2.len() == 1 + np + nc);
        assert(s3.len() == 1 + np + nc + nm && s4.len() == 1 + np + nc + nm + no);
        assert(views(lines@).len() == expected.len());
        assert forall|k: int| 0 <= k < expected.len() implies views(lines@)[k] == expected[k] by {
            if k == 0 {
                assert(lines@[0] == s4[0] && s4[0] == s3[0] && s3[0] == s2[0] && s2[0] == s1[0] && s1[0] == s0[0]);
            } else if k < 1 + np {
                let i = k - 1;
                assert(lines@[k] == s4[k] && s4[k] == s3[k] && s3[k] == s2[k] && s2[k] == s1[k]);
                assert(s1[s0.len() + i]@ == "  ok       "@ + r.published@[i]@);
            } else if k < 1 + np + nc {
                let i = k - 1 - np;
                assert(lines@[k] == s4[k] && s4[k] == s3[k] && s3[k] == s2[k]);
                assert(s2[s1.len() + i]@ == "  CHANGED  "@ + r.changed@[i].0@ + " (rkey="@ + r.changed@[i].1@
                    + ") — local content differs from the PDS"@);
            } else if k < 1 + np + nc + nm {
                let i = k - 1 - np - nc;
                assert(lines@[k] == s4[k] && s4[k] == s3[k]);
                assert(s3[s2.len() + i]@ == "  MISSING  "@ + r.missing@[i].0@ + " (rkey="@ + r.missing@[i].1@ + ")"@);
            } else if k < 1 + np + nc + nm + no {
                let i = k - 1 - np - nc - nm;
                assert(lines@[k] == s4[k]);
                assert(s4[s3.len() + i]@ == "  ORPHANED "@ + r.orphaned@[i]@ + " (no matching local doc — deleted or renamed?)"@);
            }
        }
        assert(views(lines@) =~= expected);
    }
    let note = if report.orphaned.len() > 0 {
        Some(String::from_str(
            "note: orphaned records can be removed with com.atproto.repo.deleteRecord (see docs/guides/verifying-atproto.md)",
        ))
    } else {
        None
    };
    let n = report.missing.len() + report.changed.len() + match state {
        PubState::Published => 0,
        _ => 1,
    };
    let error = if n > 0 {
        let mut e = decimal_string(n);
        e.append(" record(s) missing or changed — run `italic atproto publish`");
        Some(e)
    } else {
        None
    };
    StatusOutput { lines, note, error }
}

/// Classification partitions the expected records: each lands in exactly
/// one of published, changed and missing.
pub proof fn lemma_classify_partitions(expected: Seq<(String, Expected)>, remote: Seq<RemoteDoc>, n: int)
    requires
        0 <= n <= expected.len(),
    ensures
        ids_with(expected, remote, 0, n).len() + ids_with(expected, remote, 1, n).len() + ids_with(
            expected,
            remote,
            2,
            n,
        ).len() == n,
    decreases n,
{
    if n > 0 {
        lemma_classify_partitions(expected, remote, n - 1);
        let o = outcome(expected[n - 1].1, remote);
        assert(o == 0 || o == 1 || o == 2);
    }
}

} // verus!
