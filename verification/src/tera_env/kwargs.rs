//! A filter call's keyword arguments as tera hands them over, and the typed
//! reads the filters make of them.
use vstd::prelude::*;

verus! {

#[verifier::external_type_specification]
#[verifier::external_body]
pub struct ExKwargs(tera::Kwargs);

/// What `Kwargs::get::<&str>(key)` reads from the call's arguments.
pub uninterp spec fn str_arg(kwargs: tera::Kwargs, key: Seq<char>) -> Result<Option<Seq<char>>, Seq<char>>;

/// What `Kwargs::get::<usize>(key)` reads from the call's arguments.
pub uninterp spec fn usize_arg(kwargs: tera::Kwargs, key: Seq<char>) -> Result<Option<usize>, Seq<char>>;

/// What `Kwargs::get::<Vec<String>>(key)` reads from the call's arguments.
pub uninterp spec fn list_arg(kwargs: tera::Kwargs, key: Seq<char>) -> Result<Option<Seq<Seq<char>>>, Seq<char>>;

/// `Kwargs::get::<&str>(key)`: `Ok(None)` when the call has no `key`, the
/// string when it is one, tera's type error (as text) otherwise. The source
/// looks the key up in the call's immutable argument map, so the outcome is
/// named by [`str_arg`].
#[verifier::external_body]
pub(crate) fn kwarg_str(kwargs: &tera::Kwargs, key: &str) -> (r: Result<Option<String>, String>)
    ensures
        read_chars(r) == str_arg(*kwargs, key@),
{
    match kwargs.get::<&str>(key) {
        Ok(Some(s)) => Ok(Some(s.to_string())),
        Ok(None) => Ok(None),
        Err(e) => Err(e.to_string()),
    }
}

/// `Kwargs::get::<usize>(key)`: `Ok(None)` when absent, the number when the
/// value is an integer (or integral float) that fits, tera's error otherwise.
/// The outcome is named by [`usize_arg`].
#[verifier::external_body]
pub(crate) fn kwarg_usize(kwargs: &tera::Kwargs, key: &str) -> (r: Result<Option<usize>, String>)
    ensures
        read_num(r) == usize_arg(*kwargs, key@),
{
    match kwargs.get::<usize>(key) {
        Ok(v) => Ok(v),
        Err(e) => Err(e.to_string()),
    }
}

/// `Kwargs::get::<Vec<String>>(key)`: `Ok(None)` when absent, the strings
/// when the value is an array of strings, tera's error otherwise. The
/// outcome is named by [`list_arg`].
#[verifier::external_body]
pub(crate) fn kwarg_strings(kwargs: &tera::Kwargs, key: &str) -> (r: Result<Option<Vec<String>>, String>)
    ensures
        read_list(r) == list_arg(*kwargs, key@),
{
    match kwargs.get::<Vec<String>>(key) {
        Ok(v) => Ok(v),
        Err(e) => Err(e.to_string()),
    }
}

/// A read of an optional argument, as characters.
pub open spec fn read_chars(r: Result<Option<String>, String>) -> Result<Option<Seq<char>>, Seq<char>> {
    match r {
        Ok(Some(s)) => Ok(Some(s@)),
        Ok(None) => Ok(None),
        Err(e) => Err(e@),
    }
}

/// A read of an optional list of strings, as characters.
pub open spec fn read_list(r: Result<Option<Vec<String>>, String>) -> Result<Option<Seq<Seq<char>>>, Seq<char>> {
    match r {
        Ok(Some(v)) => Ok(Some(v@.map_values(|s: String| s@))),
        Ok(None) => Ok(None),
        Err(e) => Err(e@),
    }
}

/// A read of an optional number, its error as characters.
pub open spec fn read_num(r: Result<Option<usize>, String>) -> Result<Option<usize>, Seq<char>> {
    match r {
        Ok(v) => Ok(v),
        Err(e) => Err(e@),
    }
}

} // verus!
