//! `entries` — a map turned into a key-sorted array: the direction the
//! `sort` keyword argument asks for.
use vstd::prelude::*;
use crate::tera_env::kwargs::{kwarg_str, read_chars, str_arg};
use crate::text::str_eq;

verus! {

/// The error for a `sort` other than `asc` or `desc`.
pub open spec fn bad_sort_msg() -> Seq<char> {
    "entries filter: `sort` must be \"asc\" or \"desc\""@
}

/// Descending for `"desc"`, ascending for `"asc"` or no argument, an error
/// for anything else (and a failed read stays an error).
pub open spec fn descending(sort: Result<Option<Seq<char>>, Seq<char>>) -> Result<bool, Seq<char>> {
    match sort {
        Err(e) => Err(e),
        Ok(None) => Ok(false),
        Ok(Some(s)) => if s == "asc"@ {
            Ok(false)
        } else if s == "desc"@ {
            Ok(true)
        } else {
            Err(bad_sort_msg())
        },
    }
}

/// The direction, as the result of reading `sort`, as characters.
pub open spec fn bool_result(r: Result<bool, String>) -> Result<bool, Seq<char>> {
    match r {
        Ok(b) => Ok(b),
        Err(e) => Err(e@),
    }
}

/// Whether the entries go in descending key order, from the read of `sort`.
pub fn descending_from(sort: Result<Option<String>, String>) -> (r: Result<bool, String>)
    ensures
        bool_result(r) == descending(read_chars(sort)),
{
    proof {
        reveal_strlit("asc");
        reveal_strlit("desc");
    }
    match sort {
        Err(e) => Err(e),
        Ok(None) => Ok(false),
        Ok(Some(s)) => {
            if str_eq(s.as_str(), "asc") {
                Ok(false)
            } else if str_eq(s.as_str(), "desc") {
                Ok(true)
            } else {
                Err(String::from_str("entries filter: `sort` must be \"asc\" or \"desc\""))
            }
        },
    }
}

/// `false` for `"asc"` (the default), `true` for `"desc"`, an error for any
/// other value, as [`descending_from`] reads the `sort` argument.
pub fn sort_is_descending(kwargs: &tera::Kwargs) -> (r: Result<bool, String>)
    ensures
        bool_result(r) == descending(str_arg(*kwargs, "sort"@)),
{
    let sort = kwarg_str(kwargs, "sort");
    descending_from(sort)
}

} // verus!
