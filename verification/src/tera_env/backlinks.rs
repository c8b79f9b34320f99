//! The `backlinks` filter's options, read from its keyword arguments:
//! `order_by` (title|date|updated), `sort` (asc|desc), `omit` (id_paths) and
//! `limit`.
use vstd::prelude::*;
use crate::tera_env::kwargs::{
    kwarg_str, kwarg_strings, kwarg_usize, list_arg, read_chars, read_list, read_num, str_arg, usize_arg,
};
use crate::text::str_eq;

verus! {

/// The field backlinks are ordered by.
#[derive(Clone, Copy, Debug, PartialEq, Eq)]
pub enum OrderKey {
    Title,
    Date,
    Updated,
}

/// The sort direction.
#[derive(Clone, Copy, Debug, PartialEq, Eq)]
pub enum SortDir {
    Asc,
    Desc,
}

/// How to list the docs linking to a target.
pub struct Backlinks {
    pub order_by: OrderKey,
    pub sort: SortDir,
    /// id_paths left out of the listing.
    pub omit: Vec<String>,
    pub limit: Option<usize>,
}

impl Default for Backlinks {
    /// Newest first, nothing omitted, no limit.
    fn default() -> (b: Self)
        ensures
            b.order_by == OrderKey::Date,
            b.sort == SortDir::Desc,
            b.omit@.len() == 0,
            b.limit is None,
    {
        Backlinks { order_by: OrderKey::Date, sort: SortDir::Desc, omit: Vec::new(), limit: None }
    }
}

/// Options as (order_by, sort, omit, limit).
pub type BacklinksModel = (OrderKey, SortDir, Seq<Seq<char>>, Option<usize>);

impl Backlinks {
    pub open spec fn model(&self) -> BacklinksModel {
        (self.order_by, self.sort, self.omit@.map_values(|s: String| s@), self.limit)
    }
}

/// The options of a result, as characters.
pub open spec fn result_model(r: Result<Backlinks, String>) -> Result<BacklinksModel, Seq<char>> {
    match r {
        Ok(b) => Ok(b.model()),
        Err(e) => Err(e@),
    }
}

/// The key an `order_by` value names.
pub open spec fn order_key(s: Seq<char>) -> Option<OrderKey> {
    if s == "title"@ {
        Some(OrderKey::Title)
    } else if s == "date"@ {
        Some(OrderKey::Date)
    } else if s == "updated"@ {
        Some(OrderKey::Updated)
    } else {
        None
    }
}

/// The direction a `sort` value names.
pub open spec fn sort_dir(s: Seq<char>) -> Option<SortDir> {
    if s == "asc"@ {
        Some(SortDir::Asc)
    } else if s == "desc"@ {
        Some(SortDir::Desc)
    } else {
        None
    }
}

/// The error for an unknown `order_by`.
pub open spec fn bad_order_by(s: Seq<char>) -> Seq<char> {
    "backlinks: `order_by` must be one of title|date|updated (got `"@ + s + "`)"@
}

/// The error for an unknown `sort`.
pub open spec fn bad_sort(s: Seq<char>) -> Seq<char> {
    "backlinks: `sort` must be one of asc|desc (got `"@ + s + "`)"@
}

/// The options the four argument reads give: each is checked in the order
/// `order_by`, `sort`, `omit`, `limit`, the first failure is the error, and
/// an absent argument keeps the default.
pub open spec fn backlinks_options(
    order_by: Result<Option<Seq<char>>, Seq<char>>,
    sort: Result<Option<Seq<char>>, Seq<char>>,
    omit: Result<Option<Seq<Seq<char>>>, Seq<char>>,
    limit: Result<Option<usize>, Seq<char>>,
) -> Result<BacklinksModel, Seq<char>> {
    match order_by {
        Err(e) => Err(e),
        Ok(o) => {
            let key: Result<OrderKey, Seq<char>> = match o {
                None => Ok(OrderKey::Date),
                Some(s) => match order_key(s) {
                    Some(k) => Ok(k),
                    None => Err(bad_order_by(s)),
                },
            };
            match key {
                Err(e) => Err(e),
                Ok(k) => match sort {
                    Err(e) => Err(e),
                    Ok(so) => {
                        let dir: Result<SortDir, Seq<char>> = match so {
                            None => Ok(SortDir::Desc),
                            Some(s) => match sort_dir(s) {
                                Some(d) => Ok(d),
                                None => Err(bad_sort(s)),
                            },
                        };
                        match dir {
                            Err(e) => Err(e),
                            Ok(d) => match omit {
                                Err(e) => Err(e),
                                Ok(om) => match limit {
                                    Err(e) => Err(e),
                                    Ok(l) => Ok((
                                        k,
                                        d,
                                        match om {
                                            Some(v) => v,
                                            None => Seq::empty(),
                                        },
                                        l,
                                    )),
                                },
                            },
                        }
                    },
                }
            }
        },
    }
}

fn message(prefix: &str, s: &str) -> (r: String)
    ensures
        r@ == prefix@ + s@ + "`)"@,
{
    let mut r = String::from_str(prefix);
    r.append(s);
    r.append("`)");
    r
}

/// Build the options from the results of reading the four arguments.
pub fn options_from(
    order_by: Result<Option<String>, String>,
    sort: Result<Option<String>, String>,
    omit: Result<Option<Vec<String>>, String>,
    limit: Result<Option<usize>, String>,
) -> (r: Result<Backlinks, String>)
    ensures
        result_model(r) == backlinks_options(read_chars(order_by), read_chars(sort), read_list(omit), read_num(limit)),
{
    proof {
        reveal_strlit("title");
        reveal_strlit("date");
        reveal_strlit("updated");
        reveal_strlit("asc");
        reveal_strlit("desc");
    }
    let mut b = Backlinks { order_by: OrderKey::Date, sort: SortDir::Desc, omit: Vec::new(), limit: None };
    match order_by {
        Err(e) => {
            return Err(e);
        },
        Ok(None) => {},
        Ok(Some(s)) => {
            if str_eq(s.as_str(), "title") {
                b.order_by = OrderKey::Title;
            } else if str_eq(s.as_str(), "date") {
                b.order_by = OrderKey::Date;
            } else if str_eq(s.as_str(), "updated") {
                b.order_by = OrderKey::Updated;
            } else {
                return Err(message("backlinks: `order_by` must be one of title|date|updated (got `", s.as_str()));
            }
        },
    }
    match sort {
        Err(e) => {
            return Err(e);
        },
        Ok(None) => {},
        Ok(Some(s)) => {
            if str_eq(s.as_str(), "asc") {
                b.sort = SortDir::Asc;
            } else if str_eq(s.as_str(), "desc") {
                b.sort = SortDir::Desc;
            } else {
                return Err(message("backlinks: `sort` must be one of asc|desc (got `", s.as_str()));
            }
        },
    }
    match omit {
        Err(e) => {
            return Err(e);
        },
        Ok(None) => {},
        Ok(Some(v)) => {
            b.omit = v;
        },
    }
    match limit {
        Err(e) => {
            return Err(e);
        },
        Ok(l) => {
            b.limit = l;
        },
    }
    proof {
        assert(Seq::<String>::empty().map_values(|s: String| s@) =~= Seq::<Seq<char>>::empty());
    }
    Ok(b)
}

/// Read the `backlinks` filter's options from its keyword arguments
/// `order_by`, `sort`, `omit` and `limit`, as [`options_from`] combines them.
pub fn from_kwargs(kwargs: &tera::Kwargs) -> (r: Result<Backlinks, String>)
    ensures
        result_model(r) == backlinks_options(
            str_arg(*kwargs, "order_by"@),
            str_arg(*kwargs, "sort"@),
            list_arg(*kwargs, "omit"@),
            usize_arg(*kwargs, "limit"@),
        ),
{
    let order_by = kwarg_str(kwargs, "order_by");
    let sort = kwarg_str(kwargs, "sort");
    let omit = kwarg_strings(kwargs, "omit");
    let limit = kwarg_usize(kwargs, "limit");
    options_from(order_by, sort, omit, limit)
}

} // verus!
