//! Credentials for the publish layer's PDS client: the app password comes
//! only from the environment; the non-secret host and handle come from the
//! environment first and the `publish:` config second. The values are read
//! by the caller and handed in.
use vstd::prelude::*;
use crate::atproto::client::{env_value, present};
use crate::publish::config::Publish;
use crate::text::opt_chars;

verus! {

/// The handle's env var.
pub const ENV_HANDLE: &'static str = "ITALIC_ATPROTO_HANDLE";

/// Why credentials could not be resolved.
pub enum LoadError {
    /// Neither `ITALIC_ATPROTO_HANDLE` nor `publish.handle` is set.
    NoHandle,
    /// `ITALIC_ATPROTO_APP_PASSWORD` is unset.
    NoAppPassword,
}

impl LoadError {
    /// The error as the user sees it.
    pub fn message(&self) -> (m: String)
        ensures
            *self is NoHandle ==> m@
                == "no handle configured — set ITALIC_ATPROTO_HANDLE or `publish.handle` in config.yaml"@,
            *self is NoAppPassword ==> m@
                == "no app password — set ITALIC_ATPROTO_APP_PASSWORD (create one at https://bsky.app/settings/app-passwords). Never put it in config.yaml."@,
    {
        match self {
            LoadError::NoHandle => String::from_str(
                "no handle configured — set ITALIC_ATPROTO_HANDLE or `publish.handle` in config.yaml",
            ),
            LoadError::NoAppPassword => String::from_str(
                "no app password — set ITALIC_ATPROTO_APP_PASSWORD (create one at https://bsky.app/settings/app-passwords). Never put it in config.yaml.",
            ),
        }
    }
}

/// Resolved connection secrets.
pub struct Credentials {
    pub pds_host: String,
    pub handle: String,
    pub app_password: String,
}

/// The handle: the environment's, else the config's.
pub open spec fn handle_of(publish: Publish, env_handle: Option<String>) -> Option<Seq<char>> {
    match env_value(env_handle) {
        Some(h) => Some(h),
        None => opt_chars(publish.handle),
    }
}

impl Credentials {
    /// Resolve credentials from the raw environment values (unset and empty
    /// count as absent), with the config as fallback for the host and handle.
    /// A missing handle is reported before a missing app password.
    pub fn load(
        publish: &Publish,
        env_host: Option<String>,
        env_handle: Option<String>,
        env_password: Option<String>,
    ) -> (r: Result<Credentials, LoadError>)
        ensures
            handle_of(*publish, env_handle) is None ==> r matches Err(LoadError::NoHandle),
            handle_of(*publish, env_handle) is Some && env_value(env_password) is None ==> r matches Err(
                LoadError::NoAppPassword,
            ),
            handle_of(*publish, env_handle) is Some && env_value(env_password) is Some ==> r is Ok,
            r matches Ok(c) ==> (Some(c.handle@) == handle_of(*publish, env_handle) && env_value(env_password)
                == Some(c.app_password@) && c.pds_host@ == match env_value(env_host) {
                Some(h) => h,
                None => publish.pds_host@,
            }),
    {
        let pds_host = match present(env_host) {
            Some(h) => h,
            None => String::from_str(publish.pds_host.as_str()),
        };
        let handle = match present(env_handle) {
            Some(h) => h,
            None => match &publish.handle {
                Some(h) => String::from_str(h.as_str()),
                None => {
                    return Err(LoadError::NoHandle);
                },
            },
        };
        let app_password = match present(env_password) {
            Some(p) => p,
            None => {
                return Err(LoadError::NoAppPassword);
            },
        };
        Ok(Credentials { pds_host, handle, app_password })
    }
}

/// A reference to a written record: AT-URI + content hash.
pub struct WriteResult {
    pub uri: String,
    pub cid: String,
}

} // verus!
