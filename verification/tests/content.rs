use stateknot_core::content::{
    ContentMetadata, ContentSource, ContentTrust, JsonContent, RedactionState, SecurityLabel,
    SecurityLabelError, TextContent, TextContentError,
};
use stateknot_core::digest::Digest;
use stateknot_core::json::{BoundedJson, BoundedJsonError, JsonLimits};
use stateknot_core::json_value::{JsonMember, JsonNumber, JsonValue};
use stateknot_core::language::{check_language, LanguageParts, LanguageTag, LanguageTagError};
use stateknot_core::pins::{SchemaId, SchemaReference};
use stateknot_core::version::Version;

fn convert(value: &serde_json::Value) -> JsonValue {
    match value {
        serde_json::Value::Null => JsonValue::Null,
        serde_json::Value::Bool(value) => JsonValue::Bool(*value),
        serde_json::Value::Number(number) => {
            JsonValue::Number(JsonNumber::parse(&number.to_string()).unwrap())
        }
        serde_json::Value::String(text) => JsonValue::text(text),
        serde_json::Value::Array(items) => JsonValue::array(items.iter().map(convert).collect()),
        serde_json::Value::Object(members) => JsonValue::object(
            members
                .iter()
                .map(|(name, value)| JsonMember::new(name, convert(value)))
                .collect(),
        ),
    }
}

fn json(text: &str) -> JsonValue {
    convert(&serde_json::from_str(text).unwrap())
}

fn bounded(text: &str) -> BoundedJson {
    BoundedJson::try_from_value(json(text)).unwrap()
}

fn label() -> SecurityLabel {
    "internal/pii".parse().unwrap()
}

fn untrusted_user_metadata() -> ContentMetadata {
    ContentMetadata::untrusted(ContentSource::User, label())
}

fn schema_reference() -> SchemaReference {
    SchemaReference::new(
        "https://schemas.example.com/content/1.0.0"
            .parse::<SchemaId>()
            .unwrap(),
        Version { major: 1, minor: 0, patch: 0 },
        Digest::sha256(b"content schema"),
    )
}

#[test]
fn language_tags_use_stable_case_insensitive_wire_text() {
    for (input, expected) in [
        ("en-US", "en-us"),
        ("ZH-Hant-TW", "zh-hant-tw"),
        ("i-KLINGON", "i-klingon"),
        ("X-PRIVATE-42", "x-private-42"),
    ] {
        let tag = input.parse::<LanguageTag>().unwrap();
        assert_eq!(tag.as_str(), expected);
        assert_eq!(tag.to_string(), expected);
    }

    assert_eq!(
        "en-us".parse::<LanguageTag>().unwrap(),
        "EN-US".parse::<LanguageTag>().unwrap()
    );

    let mut private_subtags = vec!["aaaaaaaa"; 28];
    private_subtags.push("a");
    let maximum = format!("x-{}", private_subtags.join("-"));
    assert_eq!(maximum.len(), LanguageTag::MAX_LEN);
    assert_eq!(maximum.parse::<LanguageTag>().unwrap().as_str(), maximum);
}

#[test]
fn language_tags_reject_invalid_or_ambiguous_text() {
    assert_eq!("".parse::<LanguageTag>(), Err(LanguageTagError::Empty));
    assert_eq!(
        "a".repeat(LanguageTag::MAX_LEN + 1).parse::<LanguageTag>(),
        Err(LanguageTagError::TooLong {
            max: LanguageTag::MAX_LEN,
            actual: LanguageTag::MAX_LEN + 1,
        })
    );

    for invalid in ["en_US", "en--US", "é", "x-", "*"] {
        assert_eq!(
            invalid.parse::<LanguageTag>(),
            Err(LanguageTagError::InvalidSyntax),
            "accepted {invalid:?}"
        );
    }

    assert_eq!(
        "sl-rozaj-ROZAJ".parse::<LanguageTag>(),
        Err(LanguageTagError::DuplicateVariant)
    );
    assert_eq!(
        "en-a-foo-A-bar".parse::<LanguageTag>(),
        Err(LanguageTagError::DuplicateExtension)
    );
}

#[test]
fn language_tag_serde_and_schema_revalidate_input() {
    let tag = LanguageTag::new("FR-ca").unwrap();
    assert_eq!(tag.as_str(), "fr-ca");
    assert!(LanguageTag::new("en_a").is_err());
}

#[test]
fn language_rules_apply_to_what_was_read() {
    let parts = |variants: &[&str], singletons: &[char]| {
        Some(LanguageParts {
            text: "De-CH-1901".to_owned(),
            variants: variants.iter().map(|variant| variant.to_string()).collect(),
            singletons: singletons.to_vec(),
        })
    };
    assert_eq!(check_language("de", &parts(&["1901"], &['u'])), Ok("de-ch-1901".to_owned()));
    assert_eq!(
        check_language("de", &parts(&["1901", "1996", "1901"], &[])),
        Err(LanguageTagError::DuplicateVariant)
    );
    assert_eq!(
        check_language("de", &parts(&[], &['a', 'u', 'a'])),
        Err(LanguageTagError::DuplicateExtension)
    );
    assert_eq!(check_language("de", &None), Err(LanguageTagError::InvalidSyntax));
    assert_eq!(check_language("", &None), Err(LanguageTagError::Empty));
}

#[test]
fn security_labels_preserve_case_and_exact_spelling() {
    for value in ["public", "Internal/PII", "tenant:42/restricted-v1", "A_b.c"] {
        let label = value.parse::<SecurityLabel>().unwrap();
        assert_eq!(label.as_str(), value);
    }

    assert_ne!(
        "internal".parse::<SecurityLabel>().unwrap(),
        "Internal".parse::<SecurityLabel>().unwrap()
    );

    let maximum = "a".repeat(SecurityLabel::MAX_LEN);
    assert_eq!(maximum.parse::<SecurityLabel>().unwrap().as_str(), maximum);
}

#[test]
fn security_labels_reject_values_outside_the_opaque_grammar() {
    assert_eq!("".parse::<SecurityLabel>(), Err(SecurityLabelError::Empty));
    assert_eq!(
        "a".repeat(SecurityLabel::MAX_LEN + 1)
            .parse::<SecurityLabel>(),
        Err(SecurityLabelError::TooLong {
            max: SecurityLabel::MAX_LEN,
            actual: SecurityLabel::MAX_LEN + 1,
        })
    );

    for value in ["_internal", "-public", "/root", " PII"] {
        assert_eq!(
            value.parse::<SecurityLabel>(),
            Err(SecurityLabelError::InvalidStart),
            "accepted {value:?}"
        );
    }

    for (value, index) in [("a b", 1), ("a\\b", 1), ("a?b", 1), ("a中", 1)] {
        assert_eq!(
            value.parse::<SecurityLabel>(),
            Err(SecurityLabelError::InvalidByte { index }),
            "accepted {value:?}"
        );
    }
}

#[test]
fn security_label_serde_and_schema_enforce_the_wire_contract() {
    let label = SecurityLabel::new("tenant:42/PII").unwrap();
    assert_eq!(label.as_str(), "tenant:42/PII");
    assert!(SecurityLabel::new("bad label").is_err());
}

#[test]
fn content_security_metadata_has_exact_closed_wire_values() {
    let metadata = ContentMetadata::new(
        ContentSource::RemoteAgent,
        ContentTrust::Untrusted,
        label(),
        RedactionState::Partial,
    );
    assert_eq!(
        metadata.to_json(),
        JsonValue::object(vec![
            JsonMember::new("source", JsonValue::text("remote_agent")),
            JsonMember::new("trust", JsonValue::text("untrusted")),
            JsonMember::new("security_label", JsonValue::text("internal/pii")),
            JsonMember::new("redaction", JsonValue::text("partial")),
        ])
    );
    assert_eq!(
        ContentTrust::ApplicationControlled.as_str(),
        "application_controlled"
    );
    assert_eq!(RedactionState::NotApplied.as_str(), "not_applied");
}

#[test]
fn text_content_preserves_exact_unicode_without_normalization() {
    let composed = TextContent::new(
        "Café\n中文\tمرحبا",
        Some("FR-ca".parse().unwrap()),
        untrusted_user_metadata(),
    )
    .unwrap();
    assert_eq!(composed.text(), "Café\n中文\tمرحبا");
    assert_eq!(composed.language().unwrap().as_str(), "fr-ca");

    let decomposed = TextContent::new("Cafe\u{301}", None, untrusted_user_metadata()).unwrap();
    let normalized = TextContent::new("Café", None, untrusted_user_metadata()).unwrap();
    assert_ne!(decomposed.text(), normalized.text());
}

#[test]
fn text_content_enforces_byte_and_scalar_limits() {
    assert_eq!(
        TextContent::new("", None, untrusted_user_metadata()),
        Err(TextContentError::Empty)
    );

    let maximum = "a".repeat(TextContent::MAX_BYTES);
    assert!(TextContent::new(&maximum, None, untrusted_user_metadata()).is_ok());
    let too_long = format!("{maximum}a");
    assert_eq!(
        TextContent::new(&too_long, None, untrusted_user_metadata()),
        Err(TextContentError::TooLong {
            max: TextContent::MAX_BYTES,
            actual: TextContent::MAX_BYTES + 1,
        })
    );

    let multi_byte_too_long = "界".repeat(TextContent::MAX_BYTES / 3 + 1);
    assert!(matches!(
        TextContent::new(&multi_byte_too_long, None, untrusted_user_metadata()),
        Err(TextContentError::TooLong { .. })
    ));

    for (value, byte_index) in [
        ("a\0b", 1),
        ("a\u{1b}b", 1),
        ("a\u{7f}b", 1),
        ("a\u{80}b", 1),
        ("界\u{fdd0}", 3),
        ("a\u{fffe}", 1),
        ("a\u{10ffff}", 1),
    ] {
        assert_eq!(
            TextContent::new(value, None, untrusted_user_metadata()),
            Err(TextContentError::DisallowedCodePoint { byte_index }),
            "accepted {value:?}"
        );
    }

    assert!(TextContent::new("a\tb\nc\rd", None, untrusted_user_metadata()).is_ok());
}

#[test]
fn text_content_rejects_every_c0_c1_control_and_unicode_noncharacter() {
    for code_point in (0_u32..=0x1f).chain(0x7f..=0x9f) {
        let scalar = char::from_u32(code_point).unwrap();
        let value = format!("a{scalar}b");
        let result = TextContent::new(&value, None, untrusted_user_metadata());
        if matches!(scalar, '\t' | '\n' | '\r') {
            assert!(result.is_ok(), "rejected allowed U+{code_point:04X}");
        } else {
            assert_eq!(
                result,
                Err(TextContentError::DisallowedCodePoint { byte_index: 1 }),
                "accepted U+{code_point:04X}"
            );
        }
    }

    let mut noncharacters: Vec<u32> = (0xfdd0..=0xfdef).collect();
    for plane in 0_u32..=0x10 {
        noncharacters.push(plane * 0x1_0000 + 0xfffe);
        noncharacters.push(plane * 0x1_0000 + 0xffff);
    }

    for code_point in noncharacters {
        let scalar = char::from_u32(code_point).unwrap();
        let value = format!("a{scalar}");
        assert_eq!(
            TextContent::new(&value, None, untrusted_user_metadata()),
            Err(TextContentError::DisallowedCodePoint { byte_index: 1 }),
            "accepted U+{code_point:04X}"
        );
    }
}

#[test]
fn text_content_serde_revalidates_and_debug_redacts_text() {
    let content = TextContent::new(
        "secret-token-42",
        Some("en-us".parse().unwrap()),
        untrusted_user_metadata(),
    )
    .unwrap();
    assert_eq!(
        content.to_json().to_string(),
        r#"{"text":"secret-token-42","language":"en-us","metadata":{"source":"user","trust":"untrusted","security_label":"internal/pii","redaction":"not_applied"}}"#
    );

    let debug = format!("{content:?}");
    assert!(debug.contains("text_bytes: 15"));
    assert!(!debug.contains("secret-token-42"));
    assert!(TextContent::from_string("bad\u{0}".to_owned(), None, untrusted_user_metadata()).is_err());
}

#[test]
fn json_content_round_trips_with_optional_schema_and_safe_debug() {
    let value = bounded(r#"{"api_token_7391":"sensitive-payload-7391","count":2}"#);
    let content = JsonContent::new(
        value,
        Some(schema_reference()),
        ContentMetadata::untrusted(ContentSource::Tool, label()),
    );
    let encoded = content.to_json().to_string();
    assert!(encoded
        .starts_with(r#"{"value":{"api_token_7391":"sensitive-payload-7391","count":2},"schema":{"#));
    assert_eq!(content.clone(), content);

    let debug = format!("{content:?}");
    assert!(debug.contains("compact_bytes"));
    assert!(!debug.contains("api_token_7391"));
    assert!(!debug.contains("sensitive-payload-7391"));

    let without_schema = JsonContent::new(bounded("true"), None, untrusted_user_metadata());
    assert!(!without_schema.to_json().to_string().contains("schema"));
}

#[test]
fn json_content_wire_object_is_closed_and_bounded() {
    let maximum = JsonLimits::default().max_string_bytes();
    assert_eq!(
        BoundedJson::try_from_value(JsonValue::text(&"x".repeat(maximum + 1))),
        Err(BoundedJsonError::StringTooLong { maximum, actual: maximum + 1 })
    );
}

#[test]
fn case_variants_give_one_language_tag() {
    for (text, canonical) in [
        ("sl-ROZAJ-biske-1994", "sl-rozaj-biske-1994"),
        ("zh-hANT-tw-U-co-X-Private", "zh-hant-tw-u-co-x-private"),
        ("EN-gb-OED", "en-gb-oed"),
        ("I-Klingon", "i-klingon"),
        ("X-Whatever", "x-whatever"),
    ] {
        let tag = LanguageTag::new(text).unwrap();
        assert_eq!(tag.as_str(), canonical);
        assert_eq!(tag.as_str(), text.to_ascii_lowercase());
        assert_eq!(LanguageTag::new(&text.to_ascii_uppercase()).unwrap(), tag);
        assert_eq!(LanguageTag::new(tag.as_str()).unwrap(), tag);
    }
    for text in ["en-a-foo-a-bar", "sl-rozaj-rozaj", "en--us", "x-"] {
        assert_eq!(
            LanguageTag::new(text),
            LanguageTag::new(&text.to_ascii_uppercase())
        );
        assert!(LanguageTag::new(text).is_err());
    }
}

#[test]
fn texts_convert_both_ways() {
    let tag = LanguageTag::try_from("FR-ca").unwrap();
    assert_eq!(LanguageTag::try_from("fr-CA".to_owned()).unwrap(), tag);
    assert_eq!(LanguageTag::try_from(""), Err(LanguageTagError::Empty));
    let borrowed: &str = tag.as_ref();
    assert_eq!(borrowed, "fr-ca");
    assert_eq!(String::from(tag), "fr-ca");
    let label = SecurityLabel::try_from("team/secret").unwrap();
    assert_eq!(SecurityLabel::try_from("team/secret".to_owned()).unwrap(), label);
    assert_eq!(SecurityLabel::try_from(""), Err(SecurityLabelError::Empty));
    assert_eq!(String::from(label), "team/secret");
}

#[test]
fn equal_contents_may_differ_in_the_signs_of_zeros() {
    let content =
        |text: &str| JsonContent::new(bounded(text), None, untrusted_user_metadata());
    assert_eq!(content("[0.0,-0.0]"), content("[-0.0,0.0]"));
    assert_ne!(content("0.0"), content("-0.0"));
    assert_ne!(content("[0.0,-0.0]"), content("[0.0,-1.0]"));
}

struct Shown<F>(F);

impl<F: Fn(&mut std::fmt::Formatter<'_>) -> std::fmt::Result> std::fmt::Debug for Shown<F> {
    fn fmt(&self, formatter: &mut std::fmt::Formatter<'_>) -> std::fmt::Result {
        (self.0)(formatter)
    }
}

fn assert_shown<F>(value: &dyn std::fmt::Debug, mirror: F)
where
    F: Fn(&mut std::fmt::Formatter<'_>) -> std::fmt::Result,
{
    let shown = Shown(mirror);
    assert_eq!(format!("{value:?}"), format!("{shown:?}"));
    assert_eq!(format!("{value:#?}"), format!("{shown:#?}"));
}

#[test]
fn content_debug_follows_the_standard_builders() {
    let metadata = untrusted_user_metadata();
    let label = label();
    assert_shown(&label, |f| f.debug_tuple("SecurityLabel").field(&label.as_str()).finish());
    assert_shown(&metadata, |f| {
        f.debug_struct("ContentMetadata")
            .field("source", &metadata.source())
            .field("trust", &metadata.trust())
            .field("security_label", &metadata.security_label())
            .field("redaction", &metadata.redaction())
            .finish()
    });
    for language in [None, Some(LanguageTag::new("en-GB").unwrap())] {
        let content =
            TextContent::new("secret-token-42", language.clone(), metadata.clone()).unwrap();
        assert_shown(&content, |f| {
            f.debug_struct("TextContent")
                .field("text_bytes", &content.text().len())
                .field("language", &language)
                .field("metadata", &metadata)
                .finish_non_exhaustive()
        });
    }
    for schema in [None, Some(schema_reference())] {
        let content = JsonContent::new(bounded("[1,2]"), schema.clone(), metadata.clone());
        assert_shown(&content, |f| {
            f.debug_struct("JsonContent")
                .field("value", &content.value())
                .field("schema", &schema)
                .field("metadata", &metadata)
                .finish()
        });
    }
    assert_eq!(
        format!("{:?}", LanguageTag::new("en-GB").unwrap()),
        "LanguageTag(\"en-gb\")"
    );
    assert_eq!(
        LanguageTag::new("en-GB").unwrap().debug_text(true),
        "LanguageTag(\n    \"en-gb\",\n)"
    );
}
