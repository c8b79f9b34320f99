//! The standard.site publication-ownership proof: a static
//! `/.well-known/site.standard.publication` file whose body is the
//! publication record's AT-URI, derived offline from the account DID and the
//! site origin.
use vstd::prelude::*;
use crate::atproto::document::{at_uri, publication_uri, rkey_spec, PUBLICATION_NSID};
use crate::build::Output;

verus! {

/// Output path of the proof file, relative to `output_dir`.
pub const OUTPUT_PATH: &'static str = ".well-known/site.standard.publication";

/// The proof file's body: the publication AT-URI and a newline.
pub open spec fn proof_content(did: Seq<char>, site_url: Seq<char>) -> Seq<char> {
    at_uri(did, PUBLICATION_NSID@, rkey_spec(site_url)) + seq!['\n']
}

/// The proof output: one file carrying the derived publication AT-URI.
pub fn proof_outputs(did: &str, site_url: &str) -> (outputs: Vec<Output>)
    ensures
        outputs@.len() == 1,
        outputs@[0].output_path@ == OUTPUT_PATH@,
        outputs@[0].id_path@ == OUTPUT_PATH@,
        outputs@[0].content@ == proof_content(did@, site_url@),
{
    let mut content = publication_uri(did, site_url);
    crate::text::push_char(&mut content, '\n');
    let mut outputs: Vec<Output> = Vec::new();
    outputs.push(
        Output {
            output_path: String::from_str(OUTPUT_PATH),
            content,
            id_path: String::from_str(OUTPUT_PATH),
        },
    );
    outputs
}

/// Emit the proof, or nothing when verification is off or the DID /
/// `site.url` (the derivation inputs) are missing.
pub fn run(verification: bool, site_url: Option<&str>, did: Option<&str>) -> (outputs: Vec<Output>)
    ensures
        !verification || did is None || site_url is None ==> outputs@.len() == 0,
        verification ==> (did matches Some(d) ==> (site_url matches Some(u) ==> (outputs@.len() == 1
            && outputs@[0].output_path@ == OUTPUT_PATH@ && outputs@[0].id_path@ == OUTPUT_PATH@
            && outputs@[0].content@ == proof_content(d@, u@)))),
{
    if !verification {
        return Vec::new();
    }
    match (did, site_url) {
        (Some(d), Some(u)) => proof_outputs(d, u),
        _ => Vec::new(),
    }
}

} // verus!
