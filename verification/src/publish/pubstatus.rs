//! Read-back verification of what `publish` wrote: which recorded records to
//! fetch, how each fetched CID classifies against local state (ok / CHANGED /
//! MISSING), the status lines, and the verdict. Any MISSING or CHANGED record
//! fails the check so CI can gate on it.
use vstd::prelude::*;
use crate::atproto::last_segment;
use crate::publish::rkey_from_uri;
use crate::publish::state::{DocRecords, RecordRef, State};
use crate::text::{decimal, decimal_string, str_eq, views};

verus! {

/// Which record kinds to verify.
#[derive(Clone, Copy)]
pub struct Options {
    /// Check `site.standard.document` (+ publication) records.
    pub documents: bool,
    /// Check `app.bsky.feed.post` summaries.
    pub bluesky: bool,
}

impl Default for Options {
    fn default() -> (o: Self)
        ensures
            o.documents && o.bluesky,
    {
        Options { documents: true, bluesky: true }
    }
}

/// The outcome of checking one record against the PDS.
#[derive(Debug, Clone, Copy, PartialEq, Eq, Structural)]
pub enum Status {
    /// Present, and its CID matches local state.
    Matches,
    /// Present, but its CID differs from state.
    Changed,
    /// Absent from the PDS.
    Missing,
}

/// Running tally of record outcomes.
#[derive(Clone, Copy)]
pub struct Tally {
    pub ok: usize,
    pub changed: usize,
    pub missing: usize,
}

impl Default for Tally {
    fn default() -> (t: Self)
        ensures
            t.ok == 0 && t.changed == 0 && t.missing == 0,
    {
        Tally { ok: 0, changed: 0, missing: 0 }
    }
}

impl Tally {
    /// Count one more record with `status`.
    pub fn add(&mut self, status: Status)
        requires
            old(self).ok < usize::MAX,
            old(self).changed < usize::MAX,
            old(self).missing < usize::MAX,
        ensures
            final(self).ok == old(self).ok + if status == Status::Matches { 1int } else { 0int },
            final(self).changed == old(self).changed + if status == Status::Changed {
                1int
            } else {
                0int
            },
            final(self).missing == old(self).missing + if status == Status::Missing {
                1int
            } else {
                0int
            },
    {
        match status {
            Status::Matches => self.ok = self.ok + 1,
            Status::Changed => self.changed = self.changed + 1,
            Status::Missing => self.missing = self.missing + 1,
        }
    }

    /// `"{ok} ok, {missing} missing, {changed} changed"`.
    pub fn summary(&self) -> (s: String)
        ensures
            s@ == decimal(self.ok as nat) + " ok, "@ + decimal(self.missing as nat) + " missing, "@
                + decimal(self.changed as nat) + " changed"@,
    {
        let mut s = decimal_string(self.ok);
        s.append(" ok, ");
        s.append(decimal_string(self.missing).as_str());
        s.append(" missing, ");
        s.append(decimal_string(self.changed).as_str());
        s.append(" changed");
        s
    }

    /// The check passes only when nothing is missing or changed; otherwise
    /// the failure message counts both.
    pub fn verdict(&self) -> (r: Result<(), String>)
        ensures
            self.missing == 0 && self.changed == 0 ==> r is Ok,
            self.missing > 0 || self.changed > 0 ==> (r matches Err(m) && m@
                == "verification failed: "@ + decimal(self.missing as nat) + " missing, "@
                + decimal(self.changed as nat) + " changed"@),
    {
        if self.missing > 0 || self.changed > 0 {
            let mut m = String::from_str("verification failed: ");
            m.append(decimal_string(self.missing).as_str());
            m.append(" missing, ");
            m.append(decimal_string(self.changed).as_str());
            m.append(" changed");
            Err(m)
        } else {
            Ok(())
        }
    }
}

/// Classify a record from its locally-recorded CID and the CID the PDS
/// returned (`None` if the record was not found).
pub fn classify(expected_cid: &str, fetched: Option<&str>) -> (s: Status)
    ensures
        fetched is None ==> s == Status::Missing,
        fetched matches Some(c) ==> (c@ == expected_cid@ ==> s == Status::Matches),
        fetched matches Some(c) ==> (c@ != expected_cid@ ==> s == Status::Changed),
{
    match fetched {
        None => Status::Missing,
        Some(cid) => if str_eq(cid, expected_cid) {
            Status::Matches
        } else {
            Status::Changed
        },
    }
}

/// The publication record's status: classified against its recorded CID, or
/// — for state files without one — present means ok.
pub fn publication_status(expected_cid: Option<&str>, fetched: Option<&str>) -> (s: Status)
    ensures
        fetched is None ==> s == Status::Missing,
        expected_cid matches Some(e) ==> (fetched matches Some(c) ==> (c@ == e@ <==> s
            == Status::Matches) && (c@ != e@ <==> s == Status::Changed)),
        expected_cid is None ==> (fetched is Some ==> s == Status::Matches),
{
    match expected_cid {
        Some(cid) => classify(cid, fetched),
        None => if fetched.is_some() {
            Status::Matches
        } else {
            Status::Missing
        },
    }
}

/// One record to fetch and classify.
pub struct Check {
    /// The doc it belongs to; `None` for the publication record.
    pub id_path: Option<String>,
    /// `"document"` or `"bsky"` (`"publication"` for the publication record).
    pub kind: &'static str,
    /// The record's collection NSID.
    pub nsid: &'static str,
    pub rkey: String,
    /// The CID recorded in state (the publication's may be absent).
    pub cid: Option<String>,
}

/// A check's content as plain values: (doc key, kind, NSID, rkey, CID).
pub open spec fn check_view(c: Check) -> (Option<Seq<char>>, Seq<char>, Seq<char>, Seq<char>, Option<
    Seq<char>,
>) {
    (
        match c.id_path {
            Some(p) => Some(p@),
            None => None,
        },
        c.kind@,
        c.nsid@,
        c.rkey@,
        match c.cid {
            Some(x) => Some(x@),
            None => None,
        },
    )
}

pub const PUBLICATION_NSID: &'static str = "site.standard.publication";
pub const DOCUMENT_NSID: &'static str = "site.standard.document";

/// The checks one doc's records contribute, in order: its document record
/// (when documents are checked), then its post (when Bluesky is checked).
pub open spec fn doc_checks(
    key: Seq<char>,
    recs: DocRecords,
    options: Options,
) -> Seq<(Option<Seq<char>>, Seq<char>, Seq<char>, Seq<char>, Option<Seq<char>>)> {
    (if options.documents && recs.document is Some {
        let d = recs.document->0;
        seq![(Some(key), "document"@, DOCUMENT_NSID@, d.rkey@, Some(d.cid@))]
    } else {
        Seq::empty()
    }) + (if options.bluesky && recs.bsky is Some {
        let b = recs.bsky->0;
        seq![(Some(key), "bsky"@, crate::publish::bsky::FEED_POST_NSID@, b.rkey@, Some(b.cid@))]
    } else {
        Seq::empty()
    })
}

/// The checks of the first `n` doc entries.
pub open spec fn records_checks(
    records: Seq<(String, DocRecords)>,
    options: Options,
    n: int,
) -> Seq<(Option<Seq<char>>, Seq<char>, Seq<char>, Seq<char>, Option<Seq<char>>)>
    decreases n,
{
    if n <= 0 {
        Seq::empty()
    } else {
        records_checks(records, options, n - 1) + doc_checks(
            records[n - 1].0@,
            records[n - 1].1,
            options,
        )
    }
}

/// Every record to verify, in order: the publication (when documents are
/// checked and it was bootstrapped; its rkey recovered from the recorded
/// URI), then each doc's records in state order.
pub open spec fn planned_checks(state: State, options: Options) -> Seq<
    (Option<Seq<char>>, Seq<char>, Seq<char>, Seq<char>, Option<Seq<char>>),
> {
    (if options.documents && state.publication_uri is Some {
        seq![
            (
                None,
                "publication"@,
                PUBLICATION_NSID@,
                last_segment(state.publication_uri->0@),
                match state.publication_cid {
                    Some(x) => Some(x@),
                    None => None,
                },
            ),
        ]
    } else {
        Seq::empty()
    }) + records_checks(state.records@, options, state.records@.len() as int)
}

/// A check's kind is one the options ask for: documents (and the
/// publication) only when documents are checked, posts only when Bluesky is.
pub open spec fn kind_allowed(kind: Seq<char>, options: Options) -> bool {
    &&& kind == "publication"@ ==> options.documents
    &&& kind == "document"@ ==> options.documents
    &&& kind == "bsky"@ ==> options.bluesky
    &&& (kind == "publication"@ || kind == "document"@ || kind == "bsky"@)
}

proof fn lemma_records_checks_kinds(records: Seq<(String, DocRecords)>, options: Options, n: int)
    ensures
        forall|i: int| 0 <= i < records_checks(records, options, n).len() ==> {
            let c = #[trigger] records_checks(records, options, n)[i];
            &&& c.0 is Some
            &&& (c.1 == "document"@ && options.documents) || (c.1 == "bsky"@ && options.bluesky)
        },
    decreases n,
{
    if n > 0 {
        lemma_records_checks_kinds(records, options, n - 1);
        let prev = records_checks(records, options, n - 1);
        let dc = doc_checks(records[n - 1].0@, records[n - 1].1, options);
        assert forall|i: int| 0 <= i < (prev + dc).len() implies {
            let c = #[trigger] (prev + dc)[i];
            &&& c.0 is Some
            &&& (c.1 == "document"@ && options.documents) || (c.1 == "bsky"@ && options.bluesky)
        } by {
            if i < prev.len() {
                assert((prev + dc)[i] == prev[i]);
            }
        }
        assert(records_checks(records, options, n) == prev + dc);
    }
}

/// Every planned check is of a kind the options ask for: with documents off
/// (`--bsky-only`) nothing but Bluesky posts is fetched, not even the
/// publication record; with Bluesky off no post is. Only the publication
/// check has no doc.
pub proof fn lemma_checks_follow_options(state: State, options: Options)
    ensures
        forall|i: int| 0 <= i < planned_checks(state, options).len() ==> {
            let c = #[trigger] planned_checks(state, options)[i];
            &&& kind_allowed(c.1, options)
            &&& (c.0 is None <==> c.1 == "publication"@)
        },
{
    reveal_strlit("publication");
    reveal_strlit("document");
    reveal_strlit("bsky");
    assert("document"@.len() != "publication"@.len());
    assert("bsky"@.len() != "publication"@.len());
    assert("bsky"@.len() != "document"@.len());
    let n = state.records@.len() as int;
    lemma_records_checks_kinds(state.records@, options, n);
    let rc = records_checks(state.records@, options, n);
    let head: Seq<(Option<Seq<char>>, Seq<char>, Seq<char>, Seq<char>, Option<Seq<char>>)> = if options.documents && state.publication_uri is Some {
        seq![
            (
                None,
                "publication"@,
                PUBLICATION_NSID@,
                last_segment(state.publication_uri->0@),
                match state.publication_cid {
                    Some(x) => Some(x@),
                    None => None,
                },
            ),
        ]
    } else {
        Seq::empty()
    };
    assert(planned_checks(state, options) == head + rc);
    assert forall|i: int| 0 <= i < (head + rc).len() implies {
        let c = #[trigger] (head + rc)[i];
        &&& kind_allowed(c.1, options)
        &&& (c.0 is None <==> c.1 == "publication"@)
    } by {
        if i < head.len() {
            assert((head + rc)[i] == head[i]);
        } else {
            assert((head + rc)[i] == rc[i - head.len()]);
            let c = rc[i - head.len()];
            assert(c.0 is Some);
        }
    }
}

/// When documents are checked and the publication was bootstrapped, the
/// first check is the publication record, at the rkey its recorded URI ends
/// in and with its recorded CID.
pub proof fn lemma_publication_checked_first(state: State, options: Options)
    requires
        options.documents,
        state.publication_uri is Some,
    ensures
        planned_checks(state, options).len() > 0,
        planned_checks(state, options)[0].1 == "publication"@,
        planned_checks(state, options)[0].3 == last_segment(state.publication_uri->0@),
        planned_checks(state, options)[0].4 == match state.publication_cid {
            Some(x) => Some(x@),
            None => None::<Seq<char>>,
        },
{
}

fn record_check(key: &String, kind: &'static str, nsid: &'static str, rec: &RecordRef) -> (c: Check)
    ensures
        check_view(c) == (Some(key@), kind@, nsid@, rec.rkey@, Some(rec.cid@)),
{
    Check {
        id_path: Some(key.clone()),
        kind,
        nsid,
        rkey: rec.rkey.clone(),
        cid: Some(rec.cid.clone()),
    }
}

/// The records a verification run fetches, in order.
pub fn plan_checks(state: &State, options: Options) -> (checks: Vec<Check>)
    ensures
        checks@.map_values(|c: Check| check_view(c)) == planned_checks(*state, options),
{
    let mut checks: Vec<Check> = Vec::new();
    if options.documents {
        if let Some(uri) = &state.publication_uri {
            let cid = match &state.publication_cid {
                Some(x) => Some(x.clone()),
                None => None,
            };
            checks.push(
                Check {
                    id_path: None,
                    kind: "publication",
                    nsid: PUBLICATION_NSID,
                    rkey: rkey_from_uri(uri.as_str()),
                    cid,
                },
            );
        }
    }
    let ghost head = checks@.map_values(|c: Check| check_view(c));
    proof {
        assert(head =~= planned_checks(*state, options).take(head.len() as int)) by {
            assert(planned_checks(*state, options) =~= head + records_checks(
                state.records@,
                options,
                state.records@.len() as int,
            ));
        }
    }
    let mut i: usize = 0;
    while i < state.records.len()
        invariant
            i <= state.records@.len(),
            checks@.map_values(|c: Check| check_view(c)) == head + records_checks(
                state.records@,
                options,
                i as int,
            ),
        decreases state.records@.len() - i,
    {
        let entry = &state.records[i];
        let ghost before = checks@.map_values(|c: Check| check_view(c));
        if options.documents {
            if let Some(d) = &entry.1.document {
                checks.push(record_check(&entry.0, "document", DOCUMENT_NSID, d));
            }
        }
        let ghost mid = checks@.map_values(|c: Check| check_view(c));
        if options.bluesky {
            if let Some(b) = &entry.1.bsky {
                checks.push(record_check(&entry.0, "bsky", crate::publish::bsky::FEED_POST_NSID, b));
            }
        }
        proof {
            let dc = doc_checks(entry.0@, entry.1, options);
            assert(checks@.map_values(|c: Check| check_view(c)) =~= before + dc);
        }
        i = i + 1;
    }
    proof {
        assert(planned_checks(*state, options) =~= head + records_checks(
            state.records@,
            options,
            state.records@.len() as int,
        ));
    }
    checks
}

/// `kind` left-aligned in a field of 8 columns (`{kind:8}`).
pub open spec fn pad8(kind: Seq<char>) -> Seq<char> {
    if kind.len() < 8 {
        kind + Seq::new((8 - kind.len()) as nat, |i: int| ' ')
    } else {
        kind
    }
}

fn pad8_text(kind: &str) -> (r: String)
    ensures
        r@ == pad8(kind@),
{
    let mut r = String::from_str(kind);
    let n = kind.unicode_len();
    let mut k = n;
    while k < 8
        invariant
            n == kind@.len(),
            n <= k <= 8 || (n > 8 && k == n),
            k < 8 || k == 8 || k == n,
            r@ == kind@ + Seq::new((if k > n { k - n } else { 0 }) as nat, |i: int| ' '),
        decreases 8 - k,
    {
        let ghost before = r@;
        crate::text::push_char(&mut r, ' ');
        proof {
            assert(r@ =~= kind@ + Seq::new((k + 1 - n) as nat, |i: int| ' '));
        }
        k = k + 1;
    }
    proof {
        if n < 8 {
            assert(k == 8);
        } else {
            assert(r@ =~= kind@);
        }
    }
    r
}

/// The status word of a line, padded to 8 columns.
pub open spec fn status_word(s: Status) -> Seq<char> {
    match s {
        Status::Matches => "ok      "@,
        Status::Changed => "CHANGED "@,
        Status::Missing => "MISSING "@,
    }
}

/// The line reporting one check's status.
pub open spec fn report_line(c: (Option<Seq<char>>, Seq<char>, Seq<char>, Seq<char>, Option<Seq<char>>), s: Status) -> Seq<char> {
    match c.0 {
        None => "  "@ + status_word(s) + "publication"@,
        Some(id) => "  "@ + status_word(s) + pad8(c.1) + " "@ + id + if s == Status::Matches {
            Seq::empty()
        } else {
            " (rkey="@ + c.3 + ")"@
        },
    }
}

/// Print-ready status line for one checked record.
pub fn report(check: &Check, status: Status) -> (line: String)
    ensures
        line@ == report_line(check_view(*check), status),
{
    let mut line = String::from_str("  ");
    match status {
        Status::Matches => line.append("ok      "),
        Status::Changed => line.append("CHANGED "),
        Status::Missing => line.append("MISSING "),
    }
    match &check.id_path {
        None => {
            line.append("publication");
        },
        Some(id) => {
            line.append(pad8_text(check.kind).as_str());
            line.append(" ");
            line.append(id.as_str());
            if status != Status::Matches {
                line.append(" (rkey=");
                line.append(check.rkey.as_str());
                line.append(")");
            }
        },
    }
    line
}

} // verus!
