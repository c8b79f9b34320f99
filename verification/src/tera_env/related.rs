//! The per-call options of the `related` filter: the configured base with
//! the call's `limit` and `omit` keyword arguments laid over it. (The
//! configured per-namespace weights pass through unchanged and are not
//! held here.)
use vstd::prelude::*;
use crate::tera_env::kwargs::{kwarg_strings, kwarg_usize, list_arg, read_list, read_num, usize_arg};

verus! {

/// The options a `related` call sets: how many docs at most, and which
/// id_paths to leave out.
pub struct CallOptions {
    pub limit: Option<usize>,
    pub omit: Vec<String>,
}

/// Options as (limit, omit).
pub type CallModel = (Option<usize>, Seq<Seq<char>>);

impl CallOptions {
    pub open spec fn model(&self) -> CallModel {
        (self.limit, self.omit@.map_values(|s: String| s@))
    }
}

/// The options of a result, as characters.
pub open spec fn call_result(r: Result<CallOptions, String>) -> Result<CallModel, Seq<char>> {
    match r {
        Ok(o) => Ok(o.model()),
        Err(e) => Err(e@),
    }
}

/// The base with the call's `limit`, then `omit`, laid over it: a present
/// argument replaces the base's value, a failed read is the error.
pub open spec fn related_options(
    base: CallModel,
    limit: Result<Option<usize>, Seq<char>>,
    omit: Result<Option<Seq<Seq<char>>>, Seq<char>>,
) -> Result<CallModel, Seq<char>> {
    match limit {
        Err(e) => Err(e),
        Ok(l) => match omit {
            Err(e) => Err(e),
            Ok(om) => Ok((
                match l {
                    Some(n) => Some(n),
                    None => base.0,
                },
                match om {
                    Some(v) => v,
                    None => base.1,
                },
            )),
        },
    }
}

/// Lay the results of reading `limit` and `omit` over `base`.
pub fn options_over(base: CallOptions, limit: Result<Option<usize>, String>, omit: Result<Option<Vec<String>>, String>) -> (r: Result<CallOptions, String>)
    ensures
        call_result(r) == related_options(base.model(), read_num(limit), read_list(omit)),
{
    let mut opts = base;
    match limit {
        Err(e) => {
            return Err(e);
        },
        Ok(Some(n)) => {
            opts.limit = Some(n);
        },
        Ok(None) => {},
    }
    match omit {
        Err(e) => {
            return Err(e);
        },
        Ok(Some(v)) => {
            opts.omit = v;
        },
        Ok(None) => {},
    }
    Ok(opts)
}

/// Build the per-call options from the configured base and the call's
/// keyword arguments `limit` and `omit`, as [`options_over`] combines them.
pub fn from_kwargs(base: CallOptions, kwargs: &tera::Kwargs) -> (r: Result<CallOptions, String>)
    ensures
        call_result(r) == related_options(
            base.model(),
            usize_arg(*kwargs, "limit"@),
            list_arg(*kwargs, "omit"@),
        ),
{
    let limit = kwarg_usize(kwargs, "limit");
    let omit = kwarg_strings(kwargs, "omit");
    options_over(base, limit, omit)
}

} // verus!
