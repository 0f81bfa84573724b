use stateknot_core::digest::Digest;
use stateknot_core::extension::{
    ExtensionLimit, ExtensionLimits, ExtensionLimitsError, ExtensionValue, Extensions,
    ExtensionsError,
};
use stateknot_core::extension_key::{
    check_uri_key, ExtensionKey, ExtensionKeyError, ExtensionKeyKind,
};
use stateknot_core::json::{BoundedJson, BoundedJsonError, JsonLimit, JsonLimits};
use stateknot_core::json_value::{JsonMember, JsonNumber, JsonValue};
use stateknot_core::pins::{SchemaId, SchemaReference};
use stateknot_core::uri::{AuthorityParts, UriParts};
use stateknot_core::version::Version;

fn convert(value: &serde_json::Value) -> JsonValue {
    match value {
        serde_json::Value::Null => JsonValue::Null,
        serde_json::Value::Bool(value) => JsonValue::Bool(*value),
        serde_json::Value::Number(number) => {
            JsonValue::Number(JsonNumber::parse(&number.to_string()).unwrap())
        }
        serde_json::Value::String(text) => JsonValue::text(text),
        serde_json::Value::Array(items) => JsonValue::array(items.iter().map(convert).collect()),
        serde_json::Value::Object(members) => JsonValue::object(
            members
                .iter()
                .map(|(name, value)| JsonMember::new(name, convert(value)))
                .collect(),
        ),
    }
}

fn json(text: &str) -> JsonValue {
    convert(&serde_json::from_str(text).unwrap())
}

fn bounded(text: &str) -> BoundedJson {
    BoundedJson::try_from_value(json(text)).unwrap()
}

fn schema_reference() -> SchemaReference {
    SchemaReference::new(
        "https://stateknot.github.io/schema/extension/citations/1.0.0"
            .parse::<SchemaId>()
            .unwrap(),
        Version { major: 1, minor: 0, patch: 0 },
        Digest::sha256(b"canonical extension schema"),
    )
}

fn opaque(text: &str) -> ExtensionValue {
    ExtensionValue::opaque(bounded(text))
}

fn limits(
    max_entries: usize,
    max_total_bytes: usize,
    max_key_bytes: usize,
    value_json_limits: JsonLimits,
) -> ExtensionLimits {
    ExtensionLimits::try_new(
        max_entries,
        max_total_bytes,
        max_key_bytes,
        value_json_limits,
    )
    .unwrap()
}

#[test]
fn keys_accept_canonical_uri_and_reverse_dns_namespaces() {
    for (value, kind) in [
        (
            "https://example.com/extensions/citations/v1",
            ExtensionKeyKind::Uri,
        ),
        (
            "https://example.com:8443/extensions/a%20b/v1",
            ExtensionKeyKind::Uri,
        ),
        ("urn:example:extension:citations:v1", ExtensionKeyKind::Uri),
        ("urn:ietf:rfc:8141", ExtensionKeyKind::Uri),
        ("io.stateknot.feature", ExtensionKeyKind::ReverseDns),
        ("com.example.citations-v1", ExtensionKeyKind::ReverseDns),
    ] {
        let key = ExtensionKey::new(value).unwrap();
        assert_eq!(key.as_str(), value);
        assert_eq!(key.kind(), kind);
        assert_eq!(key.to_string(), value);
        assert_eq!(value.parse::<ExtensionKey>().unwrap(), key);
        assert_eq!(String::from(key), value);
    }
}

#[test]
fn keys_reject_ambiguous_active_or_non_canonical_namespaces() {
    for value in [
        "example.feature",
        "com..feature",
        "com.example.",
        "1com.example.feature",
        "com.Example.feature",
        "com.example.-feature",
        "com.example.feature-",
        "com.example.feat_ure",
        "com.example.feature/name",
        "com.example.例",
        "http://example.com/extension/v1",
        "ftp://example.com/extension/v1",
        "did:example:extension",
        "HTTPS://example.com/extension/v1",
        "https://EXAMPLE.com/extension/v1",
        "https://example.com:443/extension/v1",
        "https://example.com/a/../extension/v1",
        "https://example.com/extension/%7eowner",
        "https://user@example.com/extension/v1",
        "https://example.com/extension/v1?profile=full",
        "https://example.com/extension/v1#metadata",
        "https:/example.com/extension/v1",
        "urn:a:value",
        "urn:Example:value",
        "urn:example:",
        "urn:example",
        "URN:example:value",
        "urn:example:value?profile=full",
        "urn:example:value#metadata",
    ] {
        assert!(
            ExtensionKey::new(value).is_err(),
            "accepted extension key {value:?}"
        );
    }

    assert_eq!(ExtensionKey::new(""), Err(ExtensionKeyError::Empty));
    let oversized = "a".repeat(ExtensionKey::MAX_LEN + 1);
    assert_eq!(
        ExtensionKey::new(&oversized),
        Err(ExtensionKeyError::TooLong {
            max: ExtensionKey::MAX_LEN,
            actual: oversized.len(),
        })
    );
}

#[test]
fn key_rules_name_the_first_defect() {
    for (value, error) in [
        ("a b:c", ExtensionKeyError::InvalidUri),
        ("https://example.com/v1?", ExtensionKeyError::QueryNotAllowed),
        ("https://example.com/v1#", ExtensionKeyError::FragmentNotAllowed),
        ("https:/example.com/v1", ExtensionKeyError::MissingAuthority),
        ("https:///v1", ExtensionKeyError::MissingAuthority),
        ("https://user@example.com/v1", ExtensionKeyError::UserInfoNotAllowed),
        ("urn:a:value", ExtensionKeyError::InvalidUrn),
        ("did:example:extension", ExtensionKeyError::UnsupportedUriScheme),
        ("https://example.com:443/v1", ExtensionKeyError::NonCanonicalUri),
        ("example.feature", ExtensionKeyError::TooFewReverseDnsLabels),
        (
            "com..feature",
            ExtensionKeyError::InvalidReverseDnsLabelLength { label_index: 1, actual: 0 },
        ),
        (
            "com.1x.feature",
            ExtensionKeyError::InvalidReverseDnsLabelStart { label_index: 1 },
        ),
        (
            "com.example.feature-",
            ExtensionKeyError::InvalidReverseDnsLabelEnd { label_index: 2 },
        ),
        (
            "com.example.feat_ure",
            ExtensionKeyError::InvalidReverseDnsByte { index: 16 },
        ),
    ] {
        assert_eq!(ExtensionKey::new(value), Err(error), "{value:?}");
    }
    let parts = UriParts {
        scheme: "HTTPS".to_owned(),
        authority: Some(AuthorityParts {
            host: "h".to_owned(),
            has_userinfo: false,
            port: None,
        }),
        has_query: false,
        has_fragment: false,
    };
    assert_eq!(check_uri_key("HTTPS://h", &Some(parts), &Some("HTTPS://h".to_owned())), Ok(()));
    assert_eq!(check_uri_key("x", &None, &None), Err(ExtensionKeyError::InvalidUri));
}

#[test]
fn extension_values_have_closed_explicit_trust_modes() {
    let secret = "credential-like-secret";
    let opaque = opaque(r#"{"secret":"credential-like-secret"}"#);
    assert!(opaque.is_opaque());
    assert!(opaque.schema().is_none());
    assert_eq!(
        opaque.value().as_value().to_string(),
        r#"{"secret":"credential-like-secret"}"#
    );
    assert!(!format!("{opaque:?}").contains(secret));
    assert_eq!(
        opaque.to_json().to_string(),
        r#"{"kind":"opaque","value":{"secret":"credential-like-secret"}}"#
    );

    let reference = schema_reference();
    let bound = ExtensionValue::schema_bound(reference.clone(), bounded("[1,2,3]"));
    assert!(!bound.is_opaque());
    assert_eq!(bound.schema(), Some(&reference));
    assert_eq!(
        bound.to_json().to_string(),
        format!(
            r#"{{"kind":"schema_bound","schema":{},"value":[1,2,3]}}"#,
            reference.to_json().to_string()
        )
    );

    let (schema, value) = bound.into_parts();
    assert_eq!(schema, Some(reference));
    assert_eq!(value.as_value(), &json("[1,2,3]"));
}

#[test]
fn extension_limit_profiles_have_stable_defaults_and_minimums() {
    let hard = ExtensionLimits::hard_maximum();
    assert_eq!(ExtensionLimits::default(), hard);
    assert_eq!(hard.max_entries(), 64);
    assert_eq!(hard.max_total_bytes(), 256 * 1024);
    assert_eq!(hard.max_key_bytes(), ExtensionKey::MAX_LEN);
    assert_eq!(hard.value_json_limits(), JsonLimits::default());

    for (limit, result) in [
        (
            ExtensionLimit::Entries,
            ExtensionLimits::try_new(
                0,
                hard.max_total_bytes(),
                hard.max_key_bytes(),
                JsonLimits::default(),
            ),
        ),
        (
            ExtensionLimit::TotalBytes,
            ExtensionLimits::try_new(
                hard.max_entries(),
                0,
                hard.max_key_bytes(),
                JsonLimits::default(),
            ),
        ),
        (
            ExtensionLimit::KeyBytes,
            ExtensionLimits::try_new(
                hard.max_entries(),
                hard.max_total_bytes(),
                0,
                JsonLimits::default(),
            ),
        ),
    ] {
        assert_eq!(result, Err(ExtensionLimitsError::Zero { limit }));
    }

    assert_eq!(
        ExtensionLimits::try_new(1, 1, 1, JsonLimits::default()),
        Err(ExtensionLimitsError::BelowMinimum {
            limit: ExtensionLimit::TotalBytes,
            minimum: 2,
            actual: 1,
        })
    );
}

#[test]
fn extension_limit_profiles_cannot_exceed_hard_ceilings() {
    let hard = ExtensionLimits::hard_maximum();
    for (limit, result, maximum) in [
        (
            ExtensionLimit::Entries,
            ExtensionLimits::try_new(
                hard.max_entries() + 1,
                hard.max_total_bytes(),
                hard.max_key_bytes(),
                JsonLimits::default(),
            ),
            hard.max_entries(),
        ),
        (
            ExtensionLimit::TotalBytes,
            ExtensionLimits::try_new(
                hard.max_entries(),
                hard.max_total_bytes() + 1,
                hard.max_key_bytes(),
                JsonLimits::default(),
            ),
            hard.max_total_bytes(),
        ),
        (
            ExtensionLimit::KeyBytes,
            ExtensionLimits::try_new(
                hard.max_entries(),
                hard.max_total_bytes(),
                hard.max_key_bytes() + 1,
                JsonLimits::default(),
            ),
            hard.max_key_bytes(),
        ),
    ] {
        assert_eq!(
            result,
            Err(ExtensionLimitsError::AboveHardMaximum {
                limit,
                maximum,
                actual: maximum + 1,
            })
        );
    }

    let wider_json = JsonLimits::try_new(
        JsonLimits::default().max_bytes() + 1,
        JsonLimits::default().max_depth(),
        JsonLimits::default().max_container_entries(),
        JsonLimits::default().max_nodes(),
        JsonLimits::default().max_string_bytes(),
        JsonLimits::default().max_object_key_bytes(),
    )
    .unwrap();
    assert_eq!(
        ExtensionLimits::try_new(1, 2, 1, wider_json),
        Err(ExtensionLimitsError::AboveHardMaximum {
            limit: ExtensionLimit::ValueJson(JsonLimit::Bytes),
            maximum: JsonLimits::default().max_bytes(),
            actual: JsonLimits::default().max_bytes() + 1,
        })
    );
}

#[test]
fn maps_are_sorted_unique_and_track_exact_compact_bytes() {
    let empty = Extensions::try_new(Vec::new()).unwrap();
    assert!(empty.is_empty());
    assert_eq!(empty, Extensions::default());
    assert_eq!(empty.compact_bytes(), 2);
    assert_eq!(empty.to_json().to_string(), "{}");

    let secret = "opaque-secret";
    let entries = vec![
        (
            ExtensionKey::new("urn:example:zeta:v1").unwrap(),
            opaque(r#"{"secret":"opaque-secret"}"#),
        ),
        (
            ExtensionKey::new("com.example.alpha").unwrap(),
            ExtensionValue::schema_bound(
                schema_reference(),
                bounded(r#"{"enabled":true}"#),
            ),
        ),
    ];
    let extensions = Extensions::try_new(entries).unwrap();
    let encoded = extensions.to_json().to_string();

    assert_eq!(extensions.len(), 2);
    assert_eq!(extensions.compact_bytes(), encoded.len());
    assert!(extensions.get("com.example.alpha").is_some());
    assert!(extensions.get("com.example.missing").is_none());
    assert_eq!(
        extensions
            .iter()
            .iter()
            .map(|entry| entry.key().as_str())
            .collect::<Vec<_>>(),
        ["com.example.alpha", "urn:example:zeta:v1"]
    );

    let debug = format!("{extensions:?}");
    assert!(debug.contains("entries: 2"));
    assert!(!debug.contains(secret));
    assert!(!debug.contains("com.example.alpha"));

    let entries = extensions.clone().into_entries();
    assert_eq!(entries[0].0.as_str(), "com.example.alpha");
    assert_eq!(Extensions::try_new(entries).unwrap(), extensions);
}

#[test]
fn map_construction_rejects_duplicates_before_capacity_errors() {
    let key = ExtensionKey::new("com.example.duplicate").unwrap();
    assert_eq!(
        Extensions::try_new(vec![
            (key.clone(), opaque("1")),
            (key, opaque("2")),
        ]),
        Err(ExtensionsError::DuplicateKey)
    );

    let duplicate_at_capacity = limits(1, 1024, 128, JsonLimits::default());
    let key = ExtensionKey::new("com.example.duplicate").unwrap();
    assert_eq!(
        Extensions::try_new_with_limits(
            vec![(key.clone(), opaque("1")), (key, opaque("2"))],
            duplicate_at_capacity,
        ),
        Err(ExtensionsError::DuplicateKey)
    );
}

#[test]
fn narrowed_profiles_enforce_every_map_dimension() {
    let first = (
        ExtensionKey::new("com.example.alpha").unwrap(),
        opaque(r#""one""#),
    );
    let second = (
        ExtensionKey::new("com.example.beta").unwrap(),
        opaque(r#""two""#),
    );

    assert_eq!(
        Extensions::try_new_with_limits(
            vec![first.clone(), second.clone()],
            limits(1, 1024, 128, JsonLimits::default()),
        ),
        Err(ExtensionsError::TooManyEntries {
            max: 1,
            observed: 2,
        })
    );
    assert_eq!(
        Extensions::try_new_with_limits(
            vec![first.clone()],
            limits(1, 1024, 8, JsonLimits::default()),
        ),
        Err(ExtensionsError::KeyTooLong {
            max: 8,
            actual: first.0.as_str().len(),
        })
    );

    let narrow_json = JsonLimits::try_new(128, 4, 8, 8, 3, 16).unwrap();
    assert_eq!(
        Extensions::try_new_with_limits(
            vec![(
                ExtensionKey::new("com.example.alpha").unwrap(),
                opaque(r#""four""#),
            )],
            limits(1, 1024, 128, narrow_json),
        ),
        Err(ExtensionsError::Value {
            source: BoundedJsonError::StringTooLong {
                maximum: 3,
                actual: 4,
            },
        })
    );

    let complete = Extensions::try_new(vec![first]).unwrap();
    let exact = complete.compact_bytes();
    assert_eq!(
        complete
            .clone()
            .try_restrict(limits(1, exact - 1, 128, JsonLimits::default())),
        Err(ExtensionsError::TotalBytesExceeded {
            max: exact - 1,
            actual: exact,
        })
    );
    let restricted = complete
        .clone()
        .try_restrict(limits(1, exact, 128, JsonLimits::default()))
        .unwrap();
    assert_eq!(restricted, complete);
    assert_eq!(restricted.compact_bytes(), exact);
}

#[test]
fn insertion_order_does_not_change_the_map() {
    let forward = ["zulu", "alpha", "mike", "b2", "b10"]
        .iter()
        .enumerate()
        .map(|(index, name)| {
            (
                ExtensionKey::new(&format!("com.example.{name}")).unwrap(),
                opaque(&format!("{{\"n\":{index},\"t\":\"a\\n\u{e9}\"}}")),
            )
        })
        .collect::<Vec<_>>();
    let reverse = forward.iter().cloned().rev().collect::<Vec<_>>();
    let forward = Extensions::try_new(forward).unwrap();
    let reverse = Extensions::try_new(reverse).unwrap();
    assert_eq!(forward, reverse);
    let encoded = forward.to_json().to_string();
    assert_eq!(encoded, reverse.to_json().to_string());
    assert_eq!(forward.compact_bytes(), encoded.len());
    assert!(serde_json::from_str::<serde_json::Value>(&encoded).is_ok());
}

#[test]
fn limit_dimensions_have_names() {
    assert_eq!(ExtensionLimit::Entries.to_string(), "extension entries");
    assert_eq!(
        ExtensionLimit::ValueJson(JsonLimit::Bytes).to_string(),
        format!("extension value {}", JsonLimit::Bytes.to_string())
    );
}

#[test]
fn maps_and_keys_convert() {
    let key = ExtensionKey::try_from("com.example.first").unwrap();
    assert_eq!(ExtensionKey::try_from("com.example.first".to_owned()).unwrap(), key);
    assert_eq!(ExtensionKey::try_from(""), Err(ExtensionKeyError::Empty));
    let map = Extensions::try_from(vec![(key.clone(), opaque("1"))]).unwrap();
    assert_eq!(map, Extensions::try_new(vec![(key.clone(), opaque("1"))]).unwrap());
    assert_eq!(
        Extensions::try_from(vec![(key.clone(), opaque("1")), (key.clone(), opaque("2"))]),
        Err(ExtensionsError::DuplicateKey)
    );
    assert_eq!(String::from(key), "com.example.first");
}

struct Shown<F>(F);

impl<F: Fn(&mut std::fmt::Formatter<'_>) -> std::fmt::Result> std::fmt::Debug for Shown<F> {
    fn fmt(&self, formatter: &mut std::fmt::Formatter<'_>) -> std::fmt::Result {
        (self.0)(formatter)
    }
}

fn assert_shown<F>(value: &dyn std::fmt::Debug, mirror: F)
where
    F: Fn(&mut std::fmt::Formatter<'_>) -> std::fmt::Result,
{
    let shown = Shown(mirror);
    assert_eq!(format!("{value:?}"), format!("{shown:?}"));
    assert_eq!(format!("{value:#?}"), format!("{shown:#?}"));
}

#[test]
fn extension_debug_follows_the_standard_builders() {
    for value in ["com.example.first", "https://example.com/extensions/a"] {
        let key = ExtensionKey::new(value).unwrap();
        assert_shown(&key, |f| {
            f.debug_struct("ExtensionKey")
                .field("value", &key.as_str())
                .field("kind", &key.kind())
                .finish()
        });
    }
    let hidden = opaque(r#"{"secret":"credential-like-secret"}"#);
    assert_shown(&hidden, |f| {
        f.debug_struct("ExtensionValue::Opaque")
            .field("value", &hidden.value())
            .finish_non_exhaustive()
    });
    let bound = ExtensionValue::schema_bound(schema_reference(), bounded("[1,2,3]"));
    assert_shown(&bound, |f| {
        f.debug_struct("ExtensionValue::SchemaBound")
            .field("schema", &bound.schema().unwrap())
            .field("value", &bound.value())
            .finish_non_exhaustive()
    });
    let map =
        Extensions::try_new(vec![(ExtensionKey::new("com.example.first").unwrap(), hidden)])
            .unwrap();
    assert_shown(&map, |f| {
        f.debug_struct("Extensions")
            .field("entries", &map.len())
            .field("compact_bytes", &map.compact_bytes())
            .finish_non_exhaustive()
    });
    assert_eq!((&map).into_iter().count(), 1);
}

#[test]
fn entries_are_checked_before_their_values_are_read() {
    let key = |n: usize| ExtensionKey::new(&format!("com.example.key{n}")).unwrap();
    let mut map = Extensions::default();
    for n in 0..64 {
        assert_eq!(map.check_room(), Ok(()));
        assert_eq!(map.check_key(&key(n)), Ok(()));
        map = map.with_entry(key(n), opaque("0")).unwrap();
        assert_eq!(map.check_key(&key(n)), Err(ExtensionsError::DuplicateKey));
    }
    assert_eq!(
        map.check_room(),
        Err(ExtensionsError::TooManyEntries { max: 64, observed: 65 })
    );
    assert_eq!(
        map.clone().with_entry(key(3), opaque("0")),
        Err(ExtensionsError::DuplicateKey)
    );
    assert_eq!(
        map.with_entry(key(64), opaque("0")),
        Err(ExtensionsError::TooManyEntries { max: 64, observed: 65 })
    );
}
