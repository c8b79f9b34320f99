use italic::tera_env::backlinks::{from_kwargs, options_from, Backlinks, OrderKey, SortDir};
use italic::tera_env::entries::{descending_from, sort_is_descending};
use italic::tera_env::related::{self, CallOptions};
use tera::{Kwargs, Value};

fn kwargs<const N: usize>(pairs: [(&'static str, Value); N]) -> Kwargs {
    Kwargs::from(pairs)
}

fn ok(r: Result<Backlinks, String>) -> Backlinks {
    match r {
        Ok(b) => b,
        Err(e) => panic!("{e}"),
    }
}

#[test]
fn from_kwargs_empty_is_default() {
    let b = ok(from_kwargs(&kwargs([])));
    assert_eq!(b.order_by, OrderKey::Date);
    assert_eq!(b.sort, SortDir::Desc);
}

#[test]
fn from_kwargs_all_fields() {
    let b = ok(from_kwargs(&kwargs([("order_by", Value::from("title")), ("sort", Value::from("asc"))])));
    assert_eq!(b.order_by, OrderKey::Title);
    assert_eq!(b.sort, SortDir::Asc);
}

#[test]
fn from_kwargs_parses_limit() {
    let b = ok(from_kwargs(&kwargs([("limit", Value::from(3u64))])));
    assert_eq!(b.limit, Some(3));
}

#[test]
fn backlinks_from_kwargs_limit_not_integer_errors() {
    assert!(from_kwargs(&kwargs([("limit", Value::from("3"))])).is_err());
}

#[test]
fn backlinks_from_kwargs_parses_omit() {
    let b = ok(from_kwargs(&kwargs([("omit", Value::from(vec![Value::from("a.md"), Value::from("b.md")]))])));
    assert_eq!(b.omit, vec!["a.md".to_string(), "b.md".to_string()]);
}

#[test]
fn backlinks_from_kwargs_omit_not_array_errors() {
    assert!(from_kwargs(&kwargs([("omit", Value::from("a.md"))])).is_err());
}

#[test]
fn from_kwargs_bad_order_by_errors() {
    assert!(from_kwargs(&kwargs([("order_by", Value::from("nope"))])).is_err());
}

#[test]
fn from_kwargs_bad_sort_errors() {
    assert!(from_kwargs(&kwargs([("sort", Value::from("upward"))])).is_err());
}

#[test]
fn backlinks_errors_name_the_bad_value_and_come_in_order() {
    let e = options_from(Ok(Some("nope".into())), Ok(Some("upward".into())), Ok(None), Ok(None)).err();
    assert_eq!(e.as_deref(), Some("backlinks: `order_by` must be one of title|date|updated (got `nope`)"));
    let e = options_from(Ok(Some("updated".into())), Ok(Some("upward".into())), Ok(None), Ok(None)).err();
    assert_eq!(e.as_deref(), Some("backlinks: `sort` must be one of asc|desc (got `upward`)"));
    let e = options_from(Ok(None), Ok(None), Err("omit read".into()), Err("limit read".into())).err();
    assert_eq!(e.as_deref(), Some("omit read"));
    let b = ok(options_from(Ok(Some("updated".into())), Ok(None), Ok(None), Ok(Some(0))));
    assert_eq!(b.order_by, OrderKey::Updated);
    assert_eq!(b.sort, SortDir::Desc);
    assert!(b.omit.is_empty());
    assert_eq!(b.limit, Some(0));
}

fn base() -> CallOptions {
    CallOptions { limit: None, omit: Vec::new() }
}

#[test]
fn related_from_kwargs_empty_keeps_the_base() {
    let opts = related::from_kwargs(CallOptions { limit: Some(7), omit: vec!["x.md".into()] }, &kwargs([])).unwrap();
    assert_eq!(opts.limit, Some(7));
    assert_eq!(opts.omit, vec!["x.md".to_string()]);
    let opts = related::from_kwargs(base(), &kwargs([])).unwrap();
    assert!(opts.limit.is_none());
    assert!(opts.omit.is_empty());
}

#[test]
fn from_kwargs_limit_comes_from_kwarg() {
    let opts = related::from_kwargs(base(), &kwargs([("limit", Value::from(2u64))])).unwrap();
    assert_eq!(opts.limit, Some(2));
}

#[test]
fn related_from_kwargs_parses_omit() {
    let opts = related::from_kwargs(
        base(),
        &kwargs([("omit", Value::from(vec![Value::from("a.md"), Value::from("b.md")]))]),
    )
    .unwrap();
    assert_eq!(opts.omit, vec!["a.md".to_string(), "b.md".to_string()]);
}

#[test]
fn related_from_kwargs_limit_not_integer_errors() {
    assert!(related::from_kwargs(base(), &kwargs([("limit", Value::from("3"))])).is_err());
}

#[test]
fn related_from_kwargs_omit_not_array_errors() {
    assert!(related::from_kwargs(base(), &kwargs([("omit", Value::from("a.md"))])).is_err());
}

#[test]
fn entries_sort_direction() {
    assert_eq!(sort_is_descending(&kwargs([])), Ok(false));
    assert_eq!(sort_is_descending(&kwargs([("sort", Value::from("asc"))])), Ok(false));
    assert_eq!(sort_is_descending(&kwargs([("sort", Value::from("desc"))])), Ok(true));
    assert_eq!(
        descending_from(Ok(Some("sideways".into()))),
        Err("entries filter: `sort` must be \"asc\" or \"desc\"".to_string())
    );
    assert!(sort_is_descending(&kwargs([("sort", Value::from(1u64))])).is_err());
}
