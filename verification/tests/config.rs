use italic::atproto::config::{parse_atproto, parse_hex_color, Atproto, Rgb, DEFAULT_PDS_HOST};
use italic::doc::Yaml;

fn to_yaml(v: &serde_yaml_ng::Value) -> Yaml {
    match v {
        serde_yaml_ng::Value::Null => Yaml::Null,
        serde_yaml_ng::Value::Bool(b) => Yaml::Bool(*b),
        serde_yaml_ng::Value::Number(_) => Yaml::Number,
        serde_yaml_ng::Value::String(s) => Yaml::Str(s.clone()),
        serde_yaml_ng::Value::Sequence(items) => Yaml::List(items.iter().map(to_yaml).collect()),
        serde_yaml_ng::Value::Mapping(m) => Yaml::Mapping(m.iter().map(|(k, v)| (to_yaml(k), to_yaml(v))).collect()),
        serde_yaml_ng::Value::Tagged(t) => to_yaml(&t.value),
    }
}

fn parse(yaml: &str) -> Result<Atproto, String> {
    let v: serde_yaml_ng::Value = serde_yaml_ng::from_str(yaml).unwrap();
    match to_yaml(&v) {
        Yaml::Mapping(m) => parse_atproto(&m),
        _ => panic!("not a mapping"),
    }
}

#[test]
fn config_defaults_apply_for_minimal_block() {
    let p = parse("verification: true\n").ok().unwrap();
    assert_eq!(p.pds_host, DEFAULT_PDS_HOST);
    assert_eq!(p.collections, vec!["all"]);
    assert!(p.verification);
    assert!(p.publication.icon.is_none());
    assert!(p.publication.theme.is_none());
}

#[test]
fn empty_block_matches_struct_default() {
    let p = parse("{}\n").ok().unwrap();
    let d = Atproto::default();
    assert_eq!(p.pds_host, d.pds_host);
    assert_eq!(p.collections, d.collections);
    assert_eq!(p.verification, d.verification);
    assert_eq!(p.publication.icon, d.publication.icon);
    assert!(p.publication.theme == d.publication.theme);
}

#[test]
fn config_full_block_parses() {
    let p = parse(
        "pds_host: https://pds.example\n\
         collections: [posts, notes]\n\
         verification: false\n\
         publication:\n\
         \x20 icon: static/icon.png\n\
         \x20 theme:\n\
         \x20   background: \"#1a1a2e\"\n\
         \x20   foreground: \"#EEeeEE\"\n\
         \x20   accent: \"#e94560\"\n\
         \x20   accent_foreground: \"#ffffff\"\n",
    )
    .ok()
    .unwrap();
    assert_eq!(p.pds_host, "https://pds.example");
    assert_eq!(p.collections, vec!["posts", "notes"]);
    assert!(!p.verification);
    assert_eq!(p.publication.icon.as_deref(), Some("static/icon.png"));
    let theme = p.publication.theme.unwrap();
    assert!(theme.background == Rgb { r: 0x1a, g: 0x1a, b: 0x2e });
    assert!(theme.foreground == Rgb { r: 0xee, g: 0xee, b: 0xee });
    assert!(theme.accent_foreground == Rgb { r: 255, g: 255, b: 255 });
}

#[test]
fn collections_empty_list_is_allowed() {
    let p = parse("collections: []\n").ok().unwrap();
    assert!(p.collections.is_empty());
}

#[test]
fn collections_bare_string_errors() {
    let err = parse("collections: posts\n").err().unwrap();
    assert!(err.contains("must be a list"), "{err}");
}

#[test]
fn collections_non_string_entry_errors() {
    let err = parse("collections: [5]\n").err().unwrap();
    assert!(err.contains("collection name"), "{err}");
}

#[test]
fn legacy_collection_key_errors_with_hint() {
    let err = parse("collection: posts\n").err().unwrap();
    assert!(err.contains("`collections`"), "{err}");
}

#[test]
fn legacy_publication_keys_error_with_hint() {
    for key in ["name: My Garden", "url: https://example.com", "description: A blog"] {
        let err = parse(&format!("publication:\n  {key}\n")).err().unwrap();
        assert!(err.contains("site.title"), "{key}: {err}");
    }
}

#[test]
fn theme_missing_color_errors() {
    let err = parse(
        "publication:\n  theme:\n    background: \"#ffffff\"\n\
         \x20   foreground: \"#000000\"\n    accent: \"#ff0000\"\n",
    )
    .err()
    .unwrap();
    assert!(err.contains("accent_foreground"), "{err}");
}

#[test]
fn theme_bad_hex_errors() {
    for bad in ["ffffff", "#fff", "#gggggg", "#ffffff00", "#ff ff0"] {
        let yaml = format!(
            "publication:\n  theme:\n    background: \"{bad}\"\n\
             \x20   foreground: \"#000000\"\n    accent: \"#ff0000\"\n\
             \x20   accent_foreground: \"#ffffff\"\n"
        );
        let err = parse(&yaml).err().unwrap();
        assert!(err.contains("6-digit hex color"), "{bad}: {err}");
    }
}

#[test]
fn hex_colors_parse_case_insensitively() {
    assert!(parse_hex_color("#EEeeEE", "fg").ok().unwrap() == Rgb { r: 0xee, g: 0xee, b: 0xee });
    assert_eq!(
        parse_hex_color("#12345", "fg").err().unwrap(),
        "atproto.publication.theme: `fg` must be a 6-digit hex color like \"#1a1a2e\" (got `#12345`)"
    );
}

#[test]
fn theme_unknown_key_errors() {
    let err = parse("publication:\n  theme:\n    bakground: \"#ffffff\"\n").err().unwrap();
    assert!(err.contains("unknown key"), "{err}");
}

#[test]
fn publication_unknown_key_errors() {
    let err = parse("publication:\n  ikon: x\n").err().unwrap();
    assert!(err.contains("unknown key"), "{err}");
}

#[test]
fn config_unknown_top_level_key_errors() {
    let err = parse("pds_hsot: x\n").err().unwrap();
    assert!(err.contains("unknown key"), "{err}");
    assert_eq!(err, "atproto: unknown key `pds_hsot` (allowed: pds_host, collections, verification, publication, bsky)");
}

#[test]
fn bsky_defaults_to_disabled() {
    let p = parse("{}\n").ok().unwrap();
    assert!(!p.bsky.enabled);
    assert!(p.bsky.since.is_none());
}

#[test]
fn bsky_block_parses() {
    let p = parse("bsky:\n  enabled: true\n  since: 2026-01-15\n").ok().unwrap();
    assert!(p.bsky.enabled);
    assert_eq!(p.bsky.since, Some(20468));
}

#[test]
fn bsky_bad_since_errors() {
    let err = parse("bsky:\n  since: yesterday\n").err().unwrap();
    assert!(err.contains("2026-01-01"), "{err}");
}

#[test]
fn bsky_non_bool_enabled_errors() {
    let err = parse("bsky:\n  enabled: yes please\n").err().unwrap();
    assert!(err.contains("boolean"), "{err}");
}

#[test]
fn bsky_unknown_key_errors() {
    let err = parse("bsky:\n  enable: true\n").err().unwrap();
    assert!(err.contains("unknown key"), "{err}");
    assert_eq!(err, "atproto.bsky: unknown key `enable` (allowed: enabled, since)");
}

fn parse_pub(yaml: &str) -> Result<italic::publish::config::Publish, String> {
    let v: serde_yaml_ng::Value = serde_yaml_ng::from_str(yaml).unwrap();
    match to_yaml(&v) {
        Yaml::Mapping(m) => italic::publish::config::parse_publish(&m, "all"),
        _ => panic!("not a mapping"),
    }
}

#[test]
fn publish_config_defaults_apply_for_minimal_block() {
    let p = parse_pub("handle: alice.example.com\n").unwrap();
    assert_eq!(p.pds_host, italic::publish::config::DEFAULT_PDS_HOST);
    assert_eq!(p.handle.as_deref(), Some("alice.example.com"));
    assert_eq!(p.collection, "all");
    assert!(p.verification);
    assert!(p.publication.name.is_none() && p.publication.icon.is_none());
}

#[test]
fn publish_config_full_block_parses() {
    let p = parse_pub(
        "pds_host: https://pds.example\n\
         handle: alice.example.com\n\
         collection: posts\n\
         verification: false\n\
         publication:\n  name: My Garden\n  url: https://example.com\n  icon: static/icon.png\n",
    )
    .unwrap();
    assert_eq!(p.pds_host, "https://pds.example");
    assert_eq!(p.collection, "posts");
    assert!(!p.verification);
    assert_eq!(p.publication.name.as_deref(), Some("My Garden"));
    assert_eq!(p.publication.url.as_deref(), Some("https://example.com"));
    assert_eq!(p.publication.icon.as_deref(), Some("static/icon.png"));
    assert_eq!(p.publication.description, None);
}

#[test]
fn publish_config_unknown_top_level_key_errors() {
    let err = parse_pub("pds_hsot: x\n").unwrap_err();
    assert_eq!(
        err,
        "publish: unknown key `pds_hsot` (allowed: pds_host, handle, collection, verification, publication)"
    );
}

#[test]
fn publish_config_field_type_errors() {
    assert_eq!(parse_pub("handle: 3\n").unwrap_err(), "publish: `handle` must be a string");
    assert_eq!(parse_pub("verification: yes please\n").unwrap_err(), "publish: `verification` must be a boolean");
    assert_eq!(parse_pub("publication: x\n").unwrap_err(), "publish: `publication` must be a mapping");
    assert_eq!(
        parse_pub("publication:\n  theme: x\n").unwrap_err(),
        "publish.publication: unknown key `theme` (allowed: name, url, description, icon)"
    );
    assert_eq!(
        parse_pub("publication:\n  name: 7\n").unwrap_err(),
        "publish: `name` must be a string"
    );
}

#[test]
fn publish_config_nulls_take_defaults() {
    let p = parse_pub("pds_host:\nverification:\ncollection: ~\npublication:\n").unwrap();
    assert_eq!(p.pds_host, "https://bsky.social");
    assert!(p.verification);
    assert_eq!(p.collection, "all");
}

#[test]
fn hex_colors_round_trip_in_both_cases() {
    for (r, g, b) in [(0u8, 0u8, 0u8), (0x1a, 0x2b, 0x3c), (255, 128, 7), (0xab, 0xcd, 0xef)] {
        let lower = format!("#{:02x}{:02x}{:02x}", r, g, b);
        let upper = format!("#{:02X}{:02X}{:02X}", r, g, b);
        assert!(parse_hex_color(&lower, "accent").ok().unwrap() == Rgb { r, g, b });
        assert!(parse_hex_color(&upper, "fg").ok().unwrap() == Rgb { r, g, b });
    }
}
