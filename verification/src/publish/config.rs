//! The non-secret `publish:` block of `config.yaml`: PDS host, handle, the
//! collection to sync and the publication metadata. Unknown keys are refused
//! so typos fail loudly; secrets come from the environment, never from here.
use vstd::prelude::*;
use crate::atproto::config::{
    find_bad_key, first_bad_key, lookup_member, unknown_key_message, unknown_key_msg,
};
use crate::doc::{ylookup, Yaml};
use crate::text::{opt_chars, views};

verus! {

/// The PDS host used when `publish.pds_host` is unset.
pub const DEFAULT_PDS_HOST: &'static str = "https://bsky.social";

/// Metadata for the one `site.standard.publication` record. `name` and `url`
/// are required only when publishing, so a block without them still parses.
#[derive(Debug, Clone, Default)]
pub struct Publication {
    pub name: Option<String>,
    pub url: Option<String>,
    pub description: Option<String>,
    /// Path (relative to the working dir) of an icon image.
    pub icon: Option<String>,
}

/// The `publish:` block.
#[derive(Debug, Clone)]
pub struct Publish {
    /// PDS XRPC host, e.g. `https://bsky.social`.
    pub pds_host: String,
    /// Account handle; the environment may supply it instead.
    pub handle: Option<String>,
    /// The collection whose docs get a `site.standard.document` record.
    pub collection: String,
    /// Whether `build` emits the verification artifacts.
    pub verification: bool,
    pub publication: Publication,
}

/// A publication as (name, url, description, icon).
pub type PublicationModel = (Option<Seq<char>>, Option<Seq<char>>, Option<Seq<char>>, Option<Seq<char>>);

/// A publish block as (pds_host, handle, collection, verification, publication).
pub type PublishModel = (Seq<char>, Option<Seq<char>>, Seq<char>, bool, PublicationModel);

impl Publication {
    pub open spec fn model(&self) -> PublicationModel {
        (opt_chars(self.name), opt_chars(self.url), opt_chars(self.description), opt_chars(self.icon))
    }
}

impl Publish {
    pub open spec fn model(&self) -> PublishModel {
        (self.pds_host@, opt_chars(self.handle), self.collection@, self.verification, self.publication.model())
    }
}

/// The keys a `publish:` block may have.
pub open spec fn publish_keys() -> Seq<Seq<char>> {
    seq!["pds_host"@, "handle"@, "collection"@, "verification"@, "publication"@]
}

/// The keys a `publish.publication:` block may have.
pub open spec fn publication_keys() -> Seq<Seq<char>> {
    seq!["name"@, "url"@, "description"@, "icon"@]
}

/// An optional string field: absent or null is `None`; a non-string is an
/// error.
pub open spec fn string_field(m: Seq<(Yaml, Yaml)>, key: Seq<char>) -> Result<Option<Seq<char>>, Seq<char>> {
    match ylookup(m, key) {
        None => Ok(None),
        Some(Yaml::Null) => Ok(None),
        Some(Yaml::Str(s)) => Ok(Some(s@)),
        Some(_) => Err("publish: `"@ + key + "` must be a string"@),
    }
}

/// An optional bool field with a default; a non-bool is an error.
pub open spec fn bool_field(m: Seq<(Yaml, Yaml)>, key: Seq<char>, default: bool) -> Result<bool, Seq<char>> {
    match ylookup(m, key) {
        None => Ok(default),
        Some(Yaml::Null) => Ok(default),
        Some(Yaml::Bool(b)) => Ok(b),
        Some(_) => Err("publish: `"@ + key + "` must be a boolean"@),
    }
}

/// An optional mapping field; a non-mapping is an error.
pub open spec fn mapping_field(m: Seq<(Yaml, Yaml)>, key: Seq<char>) -> Result<Option<Seq<(Yaml, Yaml)>>, Seq<char>> {
    match ylookup(m, key) {
        None => Ok(None),
        Some(Yaml::Null) => Ok(None),
        Some(Yaml::Mapping(x)) => Ok(Some(x@)),
        Some(_) => Err("publish: `"@ + key + "` must be a mapping"@),
    }
}

/// The `publication:` sub-block: unknown keys first, then each field in
/// order.
pub open spec fn publication_model(m: Seq<(Yaml, Yaml)>) -> Result<PublicationModel, Seq<char>> {
    match first_bad_key(m, publication_keys()) {
        Some(k) => Err(unknown_key_msg("publish.publication"@, k, publication_keys())),
        None => match string_field(m, "name"@) {
            Err(e) => Err(e),
            Ok(name) => match string_field(m, "url"@) {
                Err(e) => Err(e),
                Ok(url) => match string_field(m, "description"@) {
                    Err(e) => Err(e),
                    Ok(description) => match string_field(m, "icon"@) {
                        Err(e) => Err(e),
                        Ok(icon) => Ok((name, url, description, icon)),
                    },
                },
            },
        },
    }
}

/// The `publish:` block read with `default_collection` for an absent
/// `collection`: unknown keys first, then each field in order, defaults
/// filled in.
pub open spec fn publish_model(m: Seq<(Yaml, Yaml)>, default_collection: Seq<char>) -> Result<PublishModel, Seq<char>> {
    match first_bad_key(m, publish_keys()) {
        Some(k) => Err(unknown_key_msg("publish"@, k, publish_keys())),
        None => match string_field(m, "pds_host"@) {
            Err(e) => Err(e),
            Ok(host) => match string_field(m, "handle"@) {
                Err(e) => Err(e),
                Ok(handle) => match string_field(m, "collection"@) {
                    Err(e) => Err(e),
                    Ok(collection) => match bool_field(m, "verification"@, true) {
                        Err(e) => Err(e),
                        Ok(verification) => {
                            let publication = match mapping_field(m, "publication"@) {
                                Err(e) => Err(e),
                                Ok(None) => Ok((None, None, None, None)),
                                Ok(Some(pm)) => publication_model(pm),
                            };
                            match publication {
                                Err(e) => Err(e),
                                Ok(p) => Ok((
                                    match host {
                                        Some(h) => h,
                                        None => DEFAULT_PDS_HOST@,
                                    },
                                    handle,
                                    match collection {
                                        Some(c) => c,
                                        None => default_collection,
                                    },
                                    verification,
                                    p,
                                )),
                            }
                        },
                    },
                },
            },
        },
    }
}

fn field_error(key: &str, what: &str) -> (r: String)
    ensures
        r@ == "publish: `"@ + key@ + what@,
{
    let mut r = String::from_str("publish: `");
    r.append(key);
    r.append(what);
    r
}

fn string_field_exec(m: &Vec<(Yaml, Yaml)>, key: &str) -> (r: Result<Option<String>, String>)
    ensures
        string_field(m@, key@) matches Ok(o) ==> (r matches Ok(x) && opt_chars(x) == o),
        string_field(m@, key@) matches Err(e) ==> (r matches Err(x) && x@ == e),
{
    match lookup_member(m, key) {
        None => Ok(None),
        Some(Yaml::Null) => Ok(None),
        Some(Yaml::Str(s)) => Ok(Some(s.clone())),
        Some(_) => {
            Err(field_error(key, "` must be a string"))
        },
    }
}

fn bool_field_exec(m: &Vec<(Yaml, Yaml)>, key: &str, default: bool) -> (r: Result<bool, String>)
    ensures
        bool_field(m@, key@, default) matches Ok(b) ==> r == Ok::<bool, String>(b),
        bool_field(m@, key@, default) matches Err(e) ==> (r matches Err(x) && x@ == e),
{
    match lookup_member(m, key) {
        None => Ok(default),
        Some(Yaml::Null) => Ok(default),
        Some(Yaml::Bool(b)) => Ok(*b),
        Some(_) => {
            Err(field_error(key, "` must be a boolean"))
        },
    }
}

fn mapping_field_exec<'a>(m: &'a Vec<(Yaml, Yaml)>, key: &str) -> (r: Result<Option<&'a Vec<(Yaml, Yaml)>>, String>)
    ensures
        mapping_field(m@, key@) matches Ok(o) ==> (r matches Ok(x) && match o {
            Some(v) => x matches Some(y) && y@ == v,
            None => x is None,
        }),
        mapping_field(m@, key@) matches Err(e) ==> (r matches Err(x) && x@ == e),
{
    match lookup_member(m, key) {
        None => Ok(None),
        Some(Yaml::Null) => Ok(None),
        Some(Yaml::Mapping(x)) => Ok(Some(x)),
        Some(_) => {
            Err(field_error(key, "` must be a mapping"))
        },
    }
}

fn strings(items: &[&str]) -> (v: Vec<String>)
    ensures
        v@.len() == items@.len(),
        forall|i: int| 0 <= i < items@.len() ==> (#[trigger] v@[i])@ == items@[i]@,
{
    let mut v: Vec<String> = Vec::new();
    let mut i: usize = 0;
    while i < items.len()
        invariant
            i <= items@.len(),
            v@.len() == i,
            forall|k: int| 0 <= k < i ==> (#[trigger] v@[k])@ == items@[k]@,
        decreases items@.len() - i,
    {
        v.push(String::from_str(items[i]));
        i = i + 1;
    }
    v
}

fn parse_publication(m: &Vec<(Yaml, Yaml)>) -> (r: Result<Publication, String>)
    ensures
        publication_model(m@) matches Ok(p) ==> (r matches Ok(x) && x.model() == p),
        publication_model(m@) matches Err(e) ==> (r matches Err(x) && x@ == e),
{
    let allowed = strings(&["name", "url", "description", "icon"]);
    proof {
        reveal_strlit("name");
        reveal_strlit("url");
        reveal_strlit("description");
        reveal_strlit("icon");
        assert(views(allowed@) =~= publication_keys());
    }
    if let Some(k) = find_bad_key(m, &allowed) {
        return Err(unknown_key_message("publish.publication", &k, &allowed));
    }
    let name = match string_field_exec(m, "name") {
        Ok(x) => x,
        Err(e) => {
            return Err(e);
        },
    };
    let url = match string_field_exec(m, "url") {
        Ok(x) => x,
        Err(e) => {
            return Err(e);
        },
    };
    let description = match string_field_exec(m, "description") {
        Ok(x) => x,
        Err(e) => {
            return Err(e);
        },
    };
    let icon = match string_field_exec(m, "icon") {
        Ok(x) => x,
        Err(e) => {
            return Err(e);
        },
    };
    Ok(Publication { name, url, description, icon })
}

/// Parse the `publish:` mapping. Unknown keys are refused (also in the
/// `publication` sub-block); `default_collection` is used when `collection`
/// is omitted, `DEFAULT_PDS_HOST` when `pds_host` is, and `verification` is
/// on unless set.
pub fn parse_publish(map: &Vec<(Yaml, Yaml)>, default_collection: &str) -> (r: Result<Publish, String>)
    ensures
        publish_model(map@, default_collection@) matches Ok(p) ==> (r matches Ok(x) && x.model() == p),
        publish_model(map@, default_collection@) matches Err(e) ==> (r matches Err(x) && x@ == e),
{
    let allowed = strings(&["pds_host", "handle", "collection", "verification", "publication"]);
    proof {
        reveal_strlit("pds_host");
        reveal_strlit("handle");
        reveal_strlit("collection");
        reveal_strlit("verification");
        reveal_strlit("publication");
        assert(views(allowed@) =~= publish_keys());
    }
    if let Some(k) = find_bad_key(map, &allowed) {
        return Err(unknown_key_message("publish", &k, &allowed));
    }
    let host = match string_field_exec(map, "pds_host") {
        Ok(x) => x,
        Err(e) => {
            return Err(e);
        },
    };
    let handle = match string_field_exec(map, "handle") {
        Ok(x) => x,
        Err(e) => {
            return Err(e);
        },
    };
    let collection = match string_field_exec(map, "collection") {
        Ok(x) => x,
        Err(e) => {
            return Err(e);
        },
    };
    let verification = match bool_field_exec(map, "verification", true) {
        Ok(x) => x,
        Err(e) => {
            return Err(e);
        },
    };
    let publication = match mapping_field_exec(map, "publication") {
        Err(e) => {
            return Err(e);
        },
        Ok(None) => Publication { name: None, url: None, description: None, icon: None },
        Ok(Some(pm)) => match parse_publication(pm) {
            Ok(p) => p,
            Err(e) => {
                return Err(e);
            },
        },
    };
    let pds_host = match host {
        Some(h) => h,
        None => String::from_str(DEFAULT_PDS_HOST),
    };
    let collection = match collection {
        Some(c) => c,
        None => String::from_str(default_collection),
    };
    Ok(Publish { pds_host, handle, collection, verification, publication })
}

/// An empty `publish:` block parses to the defaults: the Bluesky-operated
/// PDS, no handle, the default collection, verification on and an empty
/// publication.
pub proof fn lemma_empty_block_is_default(default_collection: Seq<char>)
    ensures
        publish_model(Seq::<(Yaml, Yaml)>::empty(), default_collection) == Ok::<PublishModel, Seq<char>>(
            (DEFAULT_PDS_HOST@, None, default_collection, true, (None, None, None, None)),
        ),
{
}

} // verus!
