//! Credential resolution for the PDS client: the account DID and app password
//! come only from the environment, the non-secret host from the environment
//! first and the `atproto:` config second. The values are read by the caller
//! and handed in; this module decides what they amount to.
use vstd::prelude::*;
use crate::atproto::config::Atproto;
use crate::text::has_prefix;
use crate::text::starts_with;

verus! {

/// Env var names. The app password and DID are read only from here; the host
/// reads from here first, then falls back to the (non-secret) `atproto:` config.
pub const ENV_PDS_HOST: &'static str = "ITALIC_ATPROTO_PDS_HOST";
pub const ENV_DID: &'static str = "ITALIC_ATPROTO_DID";
pub const ENV_APP_PASSWORD: &'static str = "ITALIC_ATPROTO_APP_PASSWORD";

/// Why credentials could not be resolved.
pub enum CredentialError {
    /// `ITALIC_ATPROTO_DID` is set to something that is not a DID.
    MalformedDid(String),
    /// `ITALIC_ATPROTO_DID` is unset.
    NoDid,
    /// `ITALIC_ATPROTO_APP_PASSWORD` is unset.
    NoAppPassword,
}

impl CredentialError {
    /// The error as the user sees it.
    pub fn message(&self) -> (m: String)
        ensures
            self matches CredentialError::MalformedDid(v) ==> m@
                == "ITALIC_ATPROTO_DID must be a DID like `did:plc:…` (got `"@ + v@
                + "`) — run `italic atproto did "@ + v@ + "` to look yours up"@,
            *self is NoDid ==> m@
                == "no DID — set ITALIC_ATPROTO_DID (run `italic atproto did <your-handle>` to look it up)"@,
            *self is NoAppPassword ==> m@
                == "no app password — set ITALIC_ATPROTO_APP_PASSWORD (create one at https://bsky.app/settings/app-passwords). Never put it in config.yaml."@,
    {
        match self {
            CredentialError::MalformedDid(v) => {
                let mut m = String::from_str(
                    "ITALIC_ATPROTO_DID must be a DID like `did:plc:…` (got `",
                );
                m.append(v.as_str());
                m.append("`) — run `italic atproto did ");
                m.append(v.as_str());
                m.append("` to look yours up");
                m
            },
            CredentialError::NoDid => String::from_str(
                "no DID — set ITALIC_ATPROTO_DID (run `italic atproto did <your-handle>` to look it up)",
            ),
            CredentialError::NoAppPassword => String::from_str(
                "no app password — set ITALIC_ATPROTO_APP_PASSWORD (create one at https://bsky.app/settings/app-passwords). Never put it in config.yaml.",
            ),
        }
    }
}

/// An environment value as the library reads it: unset and empty both count
/// as absent.
pub open spec fn env_value(raw: Option<String>) -> Option<Seq<char>> {
    match raw {
        Some(v) => if v@.len() > 0 {
            Some(v@)
        } else {
            None
        },
        None => None,
    }
}

pub(crate) fn present(raw: Option<String>) -> (r: Option<String>)
    ensures
        r matches Some(v) ==> env_value(raw) == Some(v@),
        r is None ==> env_value(raw) is None,
{
    match raw {
        Some(v) => if v.as_str().is_empty() {
            None
        } else {
            Some(v)
        },
        None => None,
    }
}

/// The account DID from the raw value of `ITALIC_ATPROTO_DID`. `Ok(None)` when
/// unset or empty; a set value must start with `did:`, else it is an error
/// carrying the value (so a pasted handle fails loudly).
pub fn env_did(raw: Option<String>) -> (r: Result<Option<String>, CredentialError>)
    ensures
        env_value(raw) is None ==> r matches Ok(None),
        env_value(raw) matches Some(v) ==> (has_prefix(v, "did:"@) ==> (r matches Ok(Some(d))
            && d@ == v)),
        env_value(raw) matches Some(v) ==> (!has_prefix(v, "did:"@) ==> (r matches Err(
            CredentialError::MalformedDid(got),
        ) && got@ == v)),
{
    match present(raw) {
        None => Ok(None),
        Some(did) => if starts_with(did.as_str(), "did:") {
            Ok(Some(did))
        } else {
            Err(CredentialError::MalformedDid(did))
        },
    }
}

/// Resolved connection secrets. The host may come from config; the DID and app
/// password must come from the environment.
pub struct Credentials {
    pub pds_host: String,
    pub did: String,
    pub app_password: String,
}

impl Credentials {
    /// Resolve credentials from the raw environment values, with a config
    /// fallback for the non-secret host. A malformed DID is reported first,
    /// then a missing DID, then a missing app password.
    pub fn load(
        atproto: &Atproto,
        env_host: Option<String>,
        env_did_raw: Option<String>,
        env_password: Option<String>,
    ) -> (r: Result<Credentials, CredentialError>)
        ensures
            env_value(env_did_raw) matches Some(v) ==> (!has_prefix(v, "did:"@) ==> (r matches Err(
                CredentialError::MalformedDid(got),
            ) && got@ == v)),
            env_value(env_did_raw) is None ==> r matches Err(CredentialError::NoDid),
            env_value(env_did_raw) matches Some(v) ==> (has_prefix(v, "did:"@) && env_value(
                env_password,
            ) is None ==> r matches Err(CredentialError::NoAppPassword)),
            r matches Ok(c) ==> (env_value(env_did_raw) == Some(c.did@) && has_prefix(
                c.did@,
                "did:"@,
            ) && env_value(env_password) == Some(c.app_password@) && c.pds_host@ == match env_value(
                env_host,
            ) {
                Some(h) => h,
                None => atproto.pds_host@,
            }),
            env_value(env_did_raw) matches Some(v) ==> (has_prefix(v, "did:"@) && env_value(
                env_password,
            ) is Some ==> r is Ok),
    {
        let pds_host = match present(env_host) {
            Some(h) => h,
            None => atproto.pds_host.clone(),
        };
        let did = match env_did(env_did_raw) {
            Err(e) => {
                return Err(e);
            },
            Ok(None) => {
                return Err(CredentialError::NoDid);
            },
            Ok(Some(d)) => d,
        };
        let app_password = match present(env_password) {
            Some(p) => p,
            None => {
                return Err(CredentialError::NoAppPassword);
            },
        };
        Ok(Credentials { pds_host, did, app_password })
    }
}

/// A reference to a written record: AT-URI + content hash.
pub struct WriteResult {
    pub uri: String,
    pub cid: String,
}

} // verus!
