use stateknot_core::digest::Digest;
use stateknot_core::failure::{
    failure_details_json_limits, Failure, FailureBuildError, FailureCategory, FailureCode,
    FailureDetails, FailureDetailsError, FailureIdentifierError, FailureMessage,
    FailureMessageError, FailureOrigin, RetryAdvice, RetryAdviceError, RetryAdviceKind,
};
use stateknot_core::ids::{EventId, FailureId};
use stateknot_core::json::{BoundedJson, BoundedJsonError};
use stateknot_core::json_value::{JsonMember, JsonNumber, JsonValue};
use stateknot_core::pins::{SchemaId, SchemaReference};
use stateknot_core::time::DurationMillis;
use stateknot_core::version::Version;

fn convert(value: &serde_json::Value) -> JsonValue {
    match value {
        serde_json::Value::Null => JsonValue::Null,
        serde_json::Value::Bool(value) => JsonValue::Bool(*value),
        serde_json::Value::Number(number) => {
            JsonValue::Number(JsonNumber::parse(&number.to_string()).unwrap())
        }
        serde_json::Value::String(text) => JsonValue::text(text),
        serde_json::Value::Array(items) => JsonValue::array(items.iter().map(convert).collect()),
        serde_json::Value::Object(members) => JsonValue::object(
            members
                .iter()
                .map(|(name, value)| JsonMember::new(name, convert(value)))
                .collect(),
        ),
    }
}

fn json(text: &str) -> JsonValue {
    convert(&serde_json::from_str(text).unwrap())
}

fn bounded(text: &str) -> BoundedJson {
    BoundedJson::try_from_value(json(text)).unwrap()
}

fn schema_reference() -> SchemaReference {
    SchemaReference::new(
        "https://stateknot.github.io/schema/failure-details/1.0.0"
            .parse::<SchemaId>()
            .unwrap(),
        Version { major: 1, minor: 0, patch: 0 },
        Digest::sha256(b"failure details schema"),
    )
}

fn failure(category: FailureCategory, retry_advice: RetryAdvice) -> Failure {
    Failure::new(
        FailureId::generate(),
        category,
        "dependency.rate_limited".parse().unwrap(),
        "provider.openai".parse().unwrap(),
        "The dependency is temporarily unavailable."
            .parse()
            .unwrap(),
        retry_advice,
    )
    .unwrap()
}

#[test]
fn stable_failure_identifiers_enforce_the_segmented_grammar() {
    for value in [
        "a",
        "rate_limited",
        "provider.openai",
        "stateknot.tool-runtime_v2",
    ] {
        assert_eq!(value.parse::<FailureCode>().unwrap().as_str(), value);
        assert_eq!(value.parse::<FailureOrigin>().unwrap().as_str(), value);
    }

    for value in [
        "",
        "A",
        "2provider",
        ".provider",
        "provider.",
        "provider..openai",
        "provider/OpenAI",
        "provider:openai",
        "provider.é",
    ] {
        assert!(value.parse::<FailureCode>().is_err(), "accepted {value:?}");
        assert!(
            value.parse::<FailureOrigin>().is_err(),
            "accepted {value:?}"
        );
    }

    let too_long = "a".repeat(FailureCode::MAX_LEN + 1);
    assert_eq!(
        too_long.parse::<FailureCode>(),
        Err(FailureIdentifierError::TooLong {
            max: FailureCode::MAX_LEN,
            actual: FailureCode::MAX_LEN + 1,
        })
    );
}

#[test]
fn public_messages_are_bounded_single_line_values_with_redacted_debug() {
    let message = FailureMessage::new("请求暂时无法完成。").unwrap();
    assert_eq!(message.as_str(), "请求暂时无法完成。");
    assert_eq!(message.to_string(), "请求暂时无法完成。");
    assert!(!format!("{message:?}").contains("请求"));

    for value in [
        "",
        " padded",
        "padded ",
        "two\nlines",
        "tab\tinside",
        "line\u{2028}separator",
        "bidi\u{202e}override",
        "noncharacter\u{fdd0}",
    ] {
        assert!(FailureMessage::new(value).is_err(), "accepted {value:?}");
    }

    assert_eq!(
        FailureMessage::new(&"a".repeat(FailureMessage::MAX_BYTES + 1)),
        Err(FailureMessageError::TooLong {
            max: FailureMessage::MAX_BYTES,
            actual: FailureMessage::MAX_BYTES + 1,
        })
    );
}

#[test]
fn categories_and_retry_advice_have_closed_canonical_wire_forms() {
    let categories = [
        (FailureCategory::InvalidInput, "invalid_input"),
        (FailureCategory::Unauthenticated, "unauthenticated"),
        (FailureCategory::PermissionDenied, "permission_denied"),
        (FailureCategory::PolicyDenied, "policy_denied"),
        (FailureCategory::NotFound, "not_found"),
        (FailureCategory::Conflict, "conflict"),
        (FailureCategory::Unsupported, "unsupported"),
        (FailureCategory::RateLimited, "rate_limited"),
        (FailureCategory::DeadlineExceeded, "deadline_exceeded"),
        (FailureCategory::Cancelled, "cancelled"),
        (
            FailureCategory::DependencyUnavailable,
            "dependency_unavailable",
        ),
        (FailureCategory::DataCorruption, "data_corruption"),
        (
            FailureCategory::AmbiguousExternalOutcome,
            "ambiguous_external_outcome",
        ),
        (FailureCategory::Internal, "internal"),
    ];
    for (category, text) in categories {
        assert_eq!(category.as_str(), text);
    }

    let retry_forms = [
        (RetryAdvice::Never, r#"{"kind":"never"}"#),
        (
            RetryAdvice::SafeAfter {
                delay: DurationMillis::new(250).unwrap(),
            },
            r#"{"kind":"safe_after","delay":"250"}"#,
        ),
        (
            RetryAdvice::ReconcileFirst,
            r#"{"kind":"reconcile_first"}"#,
        ),
    ];
    for (advice, value) in retry_forms {
        assert_eq!(advice.to_json().to_string(), value);
    }
    let delay = Some(DurationMillis::new(1).unwrap());
    assert_eq!(
        RetryAdvice::from_parts(RetryAdviceKind::Never, delay),
        Err(RetryAdviceError::UnexpectedDelay)
    );
    assert_eq!(
        RetryAdvice::from_parts(RetryAdviceKind::SafeAfter, None),
        Err(RetryAdviceError::MissingDelay)
    );
    assert_eq!(
        RetryAdvice::from_parts(RetryAdviceKind::ReconcileFirst, None),
        Ok(RetryAdvice::ReconcileFirst)
    );
    assert!(RetryAdvice::ReconcileFirst.requires_reconciliation());
    assert_eq!(RetryAdvice::Never.safe_after_delay(), None);
}

#[test]
fn failure_details_revalidate_every_tighter_json_dimension() {
    let valid = FailureDetails::try_from_value(
        schema_reference(),
        json(r#"{"field":"region","reason":"unsupported"}"#),
    )
    .unwrap();
    assert_eq!(
        valid.value().as_value().to_string(),
        r#"{"field":"region","reason":"unsupported"}"#
    );
    assert!(!format!("{valid:?}").contains("unsupported"));

    let long_string = JsonValue::text(&"a".repeat(FailureDetails::MAX_JSON_STRING_BYTES + 1));
    assert!(matches!(
        FailureDetails::try_from_value(schema_reference(), long_string),
        Err(FailureDetailsError::Json {
            source: BoundedJsonError::StringTooLong { .. }
        })
    ));

    let many_entries = JsonValue::array(
        (0..=FailureDetails::MAX_JSON_CONTAINER_ENTRIES)
            .map(|value| JsonValue::Number(JsonNumber::from_u64(value as u64)))
            .collect(),
    );
    assert!(matches!(
        FailureDetails::try_from_value(schema_reference(), many_entries),
        Err(FailureDetailsError::Json {
            source: BoundedJsonError::TooManyContainerEntries { .. }
        })
    ));

    let mut nested = JsonValue::Null;
    for _ in 0..=FailureDetails::MAX_JSON_DEPTH {
        nested = JsonValue::array(vec![nested]);
    }
    assert!(matches!(
        FailureDetails::try_from_value(schema_reference(), nested),
        Err(FailureDetailsError::Json {
            source: BoundedJsonError::NestingTooDeep { .. }
        })
    ));

    let oversized_compact = JsonValue::array(
        (0..5)
            .map(|_| JsonValue::text(&"a".repeat(FailureDetails::MAX_JSON_STRING_BYTES)))
            .collect(),
    );
    assert!(matches!(
        FailureDetails::try_from_value(schema_reference(), oversized_compact),
        Err(FailureDetailsError::Json {
            source: BoundedJsonError::CompactRepresentationTooLarge { .. }
        })
    ));

    let too_many_nodes = JsonValue::array(
        (0..FailureDetails::MAX_JSON_CONTAINER_ENTRIES)
            .map(|_| JsonValue::array((0..8).map(|_| JsonValue::Null).collect()))
            .collect(),
    );
    assert!(matches!(
        FailureDetails::try_from_value(schema_reference(), too_many_nodes),
        Err(FailureDetailsError::Json {
            source: BoundedJsonError::TooManyNodes { .. }
        })
    ));

    let oversized_key = JsonValue::object(vec![JsonMember::new(
        &"k".repeat(FailureDetails::MAX_JSON_OBJECT_KEY_BYTES + 1),
        JsonValue::Null,
    )]);
    assert!(matches!(
        FailureDetails::try_from_value(schema_reference(), oversized_key),
        Err(FailureDetailsError::Json {
            source: BoundedJsonError::ObjectKeyTooLong { .. }
        })
    ));

    let limits = failure_details_json_limits().unwrap();
    assert_eq!(limits.max_bytes(), FailureDetails::MAX_JSON_BYTES);
    assert_eq!(limits.max_depth(), FailureDetails::MAX_JSON_DEPTH);
    assert_eq!(
        limits.max_container_entries(),
        FailureDetails::MAX_JSON_CONTAINER_ENTRIES
    );
    assert_eq!(limits.max_nodes(), FailureDetails::MAX_JSON_NODES);
    assert_eq!(
        limits.max_string_bytes(),
        FailureDetails::MAX_JSON_STRING_BYTES
    );
    assert_eq!(
        limits.max_object_key_bytes(),
        FailureDetails::MAX_JSON_OBJECT_KEY_BYTES
    );
}

#[test]
fn ambiguous_outcomes_and_reconciliation_are_an_exact_pair() {
    assert!(
        Failure::new(
            FailureId::generate(),
            FailureCategory::AmbiguousExternalOutcome,
            "tool.outcome_unknown".parse().unwrap(),
            "tool.payments".parse().unwrap(),
            "The payment outcome must be reconciled.".parse().unwrap(),
            RetryAdvice::ReconcileFirst,
        )
        .is_ok()
    );

    assert_eq!(
        Failure::new(
            FailureId::generate(),
            FailureCategory::AmbiguousExternalOutcome,
            "tool.outcome_unknown".parse().unwrap(),
            "tool.payments".parse().unwrap(),
            "The payment outcome must be reconciled.".parse().unwrap(),
            RetryAdvice::Never,
        )
        .unwrap_err(),
        FailureBuildError::AmbiguousOutcomeRequiresReconciliation
    );
    assert_eq!(
        Failure::new(
            FailureId::generate(),
            FailureCategory::Internal,
            "runtime.invariant".parse().unwrap(),
            "stateknot.runtime".parse().unwrap(),
            "The operation could not be completed.".parse().unwrap(),
            RetryAdvice::ReconcileFirst,
        )
        .unwrap_err(),
        FailureBuildError::ReconciliationRequiresAmbiguousOutcome
    );
}

#[test]
fn wire_debug_and_public_display_never_expose_private_diagnostics() {
    let details = FailureDetails::try_from_value(
        schema_reference(),
        json(r#"{"safe":"public detail"}"#),
    )
    .unwrap();
    let event_id = EventId::generate();
    let failure = failure(FailureCategory::DependencyUnavailable, RetryAdvice::Never)
        .with_details(details.clone())
        .with_caused_by_event(event_id);

    let encoded = failure.to_json().to_string();
    assert!(encoded.contains(&format!("\"caused_by_event_id\":\"{}\"", event_id.to_string())));
    assert!(!encoded.contains("private_source"));

    let debug = format!("{failure:?}");
    assert!(!debug.contains("public detail"));
    assert_eq!(
        failure.to_string(),
        "The dependency is temporarily unavailable."
    );
    assert_eq!(failure.caused_by_event_id(), Some(event_id));
    assert_eq!(failure.details(), Some(&details));
    assert_eq!(failure.category(), FailureCategory::DependencyUnavailable);
}

#[test]
fn message_rules_name_the_first_defect() {
    assert_eq!(FailureMessage::new(""), Err(FailureMessageError::Empty));
    assert_eq!(
        FailureMessage::new("padded\u{2003}"),
        Err(FailureMessageError::SurroundingWhitespace)
    );
    assert_eq!(
        FailureMessage::new("é\u{202e}x"),
        Err(FailureMessageError::DisallowedScalar { index: 2 })
    );
    assert_eq!(
        FailureMessage::new("ab\u{2029}x"),
        Err(FailureMessageError::DisallowedScalar { index: 2 })
    );
    assert_eq!(FailureMessage::new("a\u{2003}b").unwrap().len_bytes(), 5);
}

#[test]
fn white_space_and_control_follow_the_standard_library() {
    let mut n: u32 = 0;
    while n <= 0x10ffff {
        if let Some(c) = char::from_u32(n) {
            assert_eq!(stateknot_core::scalars::white_space(c), c.is_whitespace(), "{n:x}");
            let text = format!("a{c}b");
            let line = FailureMessage::new(&text);
            if c.is_control() {
                assert_eq!(line, Err(FailureMessageError::DisallowedScalar { index: 1 }));
            }
        }
        n += 1;
    }
}

#[test]
fn failure_texts_convert_both_ways() {
    let code = FailureCode::try_from("provider.timeout").unwrap();
    assert_eq!(FailureCode::try_from("provider.timeout".to_owned()).unwrap(), code);
    assert_eq!(String::from(code), "provider.timeout");
    let origin = FailureOrigin::try_from("provider.http").unwrap();
    let borrowed: &str = origin.as_ref();
    assert_eq!(borrowed, "provider.http");
    let message = FailureMessage::try_from("It failed").unwrap();
    assert_eq!(String::from(message), "It failed");
    assert!(FailureMessage::try_from("").is_err());
}

struct Shown<F>(F);

impl<F: Fn(&mut std::fmt::Formatter<'_>) -> std::fmt::Result> std::fmt::Debug for Shown<F> {
    fn fmt(&self, formatter: &mut std::fmt::Formatter<'_>) -> std::fmt::Result {
        (self.0)(formatter)
    }
}

fn assert_shown<F>(value: &dyn std::fmt::Debug, mirror: F)
where
    F: Fn(&mut std::fmt::Formatter<'_>) -> std::fmt::Result,
{
    let shown = Shown(mirror);
    assert_eq!(format!("{value:?}"), format!("{shown:?}"));
    assert_eq!(format!("{value:#?}"), format!("{shown:#?}"));
}

#[test]
fn failure_debug_follows_the_standard_builders() {
    let details = FailureDetails::try_new(schema_reference(), bounded(r#"{"a":1}"#)).unwrap();
    assert_shown(&details, |f| {
        f.debug_struct("FailureDetails")
            .field("schema", &details.schema())
            .field("value", &details.value())
            .finish_non_exhaustive()
    });
    let message = FailureMessage::new("It failed").unwrap();
    assert_shown(&message, |f| {
        f.debug_struct("FailureMessage")
            .field("utf8_bytes", &message.len_bytes())
            .finish_non_exhaustive()
    });
    let plain = failure(FailureCategory::DependencyUnavailable, RetryAdvice::Never);
    let event_id = EventId::generate();
    let caused = plain.clone().with_details(details).with_caused_by_event(event_id);
    for value in [plain, caused] {
        assert_shown(&value, |f| {
            f.debug_struct("Failure")
                .field("id", &value.id())
                .field("category", &value.category())
                .field("code", &value.code())
                .field("origin", &value.origin())
                .field("message_utf8_bytes", &value.message().len_bytes())
                .field("retry_advice", &value.retry_advice())
                .field("has_details", &value.details().is_some())
                .field("caused_by_event_id", &value.caused_by_event_id())
                .field("has_private_source", &false)
                .finish_non_exhaustive()
        });
    }
    let code = FailureCode::new("provider.timeout").unwrap();
    assert_eq!(format!("{code:?}"), "FailureCode(\"provider.timeout\")");
    let text = failure(FailureCategory::Internal, RetryAdvice::Never).debug_text(true, false);
    assert!(text.ends_with(", has_private_source: true, .. }"));
    assert!(text.contains("category: Internal, "));
    let advice = RetryAdvice::SafeAfter { delay: DurationMillis::new(250).unwrap() };
    assert_eq!(format!("{advice:?}"), "SafeAfter { delay: DurationMillis(250) }");
}
