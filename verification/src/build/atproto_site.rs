//! Site-level atproto identity for templates: the account DID and the
//! publication record's AT-URI, set on the `site` context as `atproto_did`
//! and `atproto_publication_uri`.
use vstd::prelude::*;
use crate::atproto::document::{at_uri, publication_uri, rkey_spec, PUBLICATION_NSID};
use crate::doc::{insert_entry, lookup, Yaml};

verus! {

/// Site key the account DID is exposed under.
pub const DID_KEY: &'static str = "atproto_did";

/// Site key the publication record's AT-URI is exposed under.
pub const PUBLICATION_KEY: &'static str = "atproto_publication_uri";

/// `new` is `site` with the DID and the derived publication URI set, and
/// every other key unchanged.
pub open spec fn identity_set(site: Seq<(String, Yaml)>, new: Seq<(String, Yaml)>, did: Seq<char>, site_url: Seq<char>) -> bool {
    &&& lookup(new, DID_KEY@) matches Some(Yaml::Str(d)) && d@ == did
    &&& lookup(new, PUBLICATION_KEY@) matches Some(Yaml::Str(u)) && u@ == at_uri(
        did,
        PUBLICATION_NSID@,
        rkey_spec(site_url),
    )
    &&& forall|k: Seq<char>| k != DID_KEY@ && k != PUBLICATION_KEY@ ==> #[trigger] lookup(new, k) == lookup(site, k)
}

/// Set the DID and the derived publication AT-URI on the `site` data.
pub fn inject(site: &mut Vec<(String, Yaml)>, did: &str, site_url: &str)
    ensures
        identity_set(old(site)@, final(site)@, did@, site_url@),
{
    insert_entry(site, String::from_str(DID_KEY), Yaml::Str(String::from_str(did)));
    insert_entry(site, String::from_str(PUBLICATION_KEY), Yaml::Str(publication_uri(did, site_url)));
    proof {
        reveal_strlit("atproto_did");
        reveal_strlit("atproto_publication_uri");
        assert(DID_KEY@ != PUBLICATION_KEY@) by {
            assert(DID_KEY@.len() != PUBLICATION_KEY@.len());
        }
    }
}

/// Inject the identity when verification is on and the DID and `site.url`
/// are known; otherwise leave `site` untouched (a hand-set value survives).
pub fn run(verification: bool, did: Option<&str>, site_url: Option<&str>, site: &mut Vec<(String, Yaml)>)
    ensures
        verification && did is Some && site_url is Some ==> identity_set(
            old(site)@,
            final(site)@,
            did->0@,
            site_url->0@,
        ),
        !(verification && did is Some && site_url is Some) ==> final(site)@ == old(site)@,
{
    if !verification {
        return;
    }
    match (did, site_url) {
        (Some(d), Some(u)) => inject(site, d, u),
        _ => {},
    }
}

} // verus!
