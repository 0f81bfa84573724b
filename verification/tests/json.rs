use std::fmt;

use serde::de::{self, DeserializeSeed, Deserializer, MapAccess, SeqAccess, Visitor};
use stateknot_core::canonical::{CanonicalJson, CanonicalJsonError};
use stateknot_core::json::{
    BoundedJson, BoundedJsonError, JsonLimit, JsonLimits, JsonLimitsError, JsonTracker, MemberNames,
};
use stateknot_core::json_value::{JsonMember, JsonNumber, JsonValue};

struct Reader<'a> {
    tracker: &'a mut JsonTracker,
    failure: &'a mut Option<BoundedJsonError>,
    parent_depth: usize,
}

impl Reader<'_> {
    fn check<T, E: de::Error>(&mut self, outcome: Result<T, BoundedJsonError>) -> Result<T, E> {
        outcome.map_err(|error| {
            *self.failure = Some(error);
            E::custom("value rejected")
        })
    }

    fn reject<T, E: de::Error>(&mut self, error: BoundedJsonError) -> Result<T, E> {
        self.check(Err(error))
    }

    fn number<E: de::Error>(mut self, text: &str) -> Result<JsonValue, E> {
        let outcome = self.tracker.add_compact_bytes(text.len());
        self.check::<(), E>(outcome)?;
        match JsonNumber::parse(text) {
            Some(number) => Ok(JsonValue::Number(number)),
            None => self.reject(BoundedJsonError::NumberOutOfRange),
        }
    }
}

impl<'de> DeserializeSeed<'de> for Reader<'_> {
    type Value = JsonValue;

    fn deserialize<D: Deserializer<'de>>(self, deserializer: D) -> Result<JsonValue, D::Error> {
        deserializer.deserialize_any(self)
    }
}

impl<'de> Visitor<'de> for Reader<'_> {
    type Value = JsonValue;

    fn expecting(&self, formatter: &mut fmt::Formatter<'_>) -> fmt::Result {
        formatter.write_str("a resource-bounded JSON value")
    }

    fn visit_unit<E: de::Error>(mut self) -> Result<JsonValue, E> {
        let outcome = self.tracker.add_compact_bytes(4);
        self.check::<(), E>(outcome)?;
        Ok(JsonValue::Null)
    }

    fn visit_none<E: de::Error>(self) -> Result<JsonValue, E> {
        self.visit_unit()
    }

    fn visit_bool<E: de::Error>(mut self, value: bool) -> Result<JsonValue, E> {
        let outcome = self.tracker.add_compact_bytes(if value { 4 } else { 5 });
        self.check::<(), E>(outcome)?;
        Ok(JsonValue::Bool(value))
    }

    fn visit_i64<E: de::Error>(self, value: i64) -> Result<JsonValue, E> {
        self.number(&serde_json::Number::from(value).to_string())
    }

    fn visit_u64<E: de::Error>(self, value: u64) -> Result<JsonValue, E> {
        self.number(&serde_json::Number::from(value).to_string())
    }

    fn visit_i128<E: de::Error>(mut self, value: i128) -> Result<JsonValue, E> {
        match serde_json::Number::from_i128(value) {
            Some(number) => self.number(&number.to_string()),
            None => self.reject(BoundedJsonError::NumberOutOfRange),
        }
    }

    fn visit_u128<E: de::Error>(mut self, value: u128) -> Result<JsonValue, E> {
        match serde_json::Number::from_u128(value) {
            Some(number) => self.number(&number.to_string()),
            None => self.reject(BoundedJsonError::NumberOutOfRange),
        }
    }

    fn visit_f64<E: de::Error>(mut self, value: f64) -> Result<JsonValue, E> {
        match serde_json::Number::from_f64(value) {
            Some(number) => self.number(&number.to_string()),
            None => self.reject(BoundedJsonError::NonFiniteNumber),
        }
    }

    fn visit_str<E: de::Error>(mut self, value: &str) -> Result<JsonValue, E> {
        let outcome = self.tracker.check_string(value);
        self.check::<(), E>(outcome)?;
        Ok(JsonValue::text(value))
    }

    fn visit_seq<A: SeqAccess<'de>>(mut self, mut sequence: A) -> Result<JsonValue, A::Error> {
        let outcome = self.tracker.enter_container(self.parent_depth);
        let depth = self.check::<usize, A::Error>(outcome)?;
        let mut values = Vec::new();
        loop {
            let next = sequence.next_element_seed(Element {
                reader: Reader {
                    tracker: &mut *self.tracker,
                    failure: &mut *self.failure,
                    parent_depth: depth,
                },
                entries: values.len(),
            })?;
            match next {
                Some(value) => values.push(value),
                None => return Ok(JsonValue::array(values)),
            }
        }
    }

    fn visit_map<A: MapAccess<'de>>(mut self, mut object: A) -> Result<JsonValue, A::Error> {
        let outcome = self.tracker.enter_container(self.parent_depth);
        let depth = self.check::<usize, A::Error>(outcome)?;
        let mut names = MemberNames::new();
        let mut members = Vec::new();
        loop {
            let name = object.next_key_seed(Name {
                reader: Reader {
                    tracker: &mut *self.tracker,
                    failure: &mut *self.failure,
                    parent_depth: depth,
                },
                entries: members.len(),
            })?;
            let Some(name) = name else {
                return Ok(JsonValue::object(members));
            };
            let outcome = self.tracker.enter_member(&mut names, &name);
            self.check::<(), A::Error>(outcome)?;
            let value = object.next_value_seed(Reader {
                tracker: &mut *self.tracker,
                failure: &mut *self.failure,
                parent_depth: depth,
            })?;
            members.push(JsonMember::new(&name, value));
        }
    }
}

struct Element<'a> {
    reader: Reader<'a>,
    entries: usize,
}

impl<'de> DeserializeSeed<'de> for Element<'_> {
    type Value = JsonValue;

    fn deserialize<D: Deserializer<'de>>(mut self, deserializer: D) -> Result<JsonValue, D::Error> {
        let outcome = self.reader.tracker.enter_element(self.entries);
        self.reader.check::<(), D::Error>(outcome)?;
        self.reader.deserialize(deserializer)
    }
}

struct Name<'a> {
    reader: Reader<'a>,
    entries: usize,
}

impl<'de> DeserializeSeed<'de> for Name<'_> {
    type Value = String;

    fn deserialize<D: Deserializer<'de>>(mut self, deserializer: D) -> Result<String, D::Error> {
        let outcome = self.reader.tracker.check_entry(self.entries);
        self.reader.check::<(), D::Error>(outcome)?;
        deserializer.deserialize_string(self)
    }
}

impl<'de> Visitor<'de> for Name<'_> {
    type Value = String;

    fn expecting(&self, formatter: &mut fmt::Formatter<'_>) -> fmt::Result {
        formatter.write_str("a bounded member name")
    }

    fn visit_str<E: de::Error>(self, value: &str) -> Result<String, E> {
        Ok(value.to_owned())
    }
}

fn read<'de, D: Deserializer<'de>>(
    deserializer: D,
    limits: JsonLimits,
    failure: &mut Option<BoundedJsonError>,
) -> Result<JsonValue, D::Error> {
    let mut tracker = JsonTracker::new(limits);
    let mut reader = Reader {
        tracker: &mut tracker,
        failure,
        parent_depth: 0,
    };
    let outcome = reader.tracker.add_node();
    reader.check::<(), D::Error>(outcome)?;
    reader.deserialize(deserializer)
}

fn from_slice_with_limits(
    input: &[u8],
    limits: JsonLimits,
) -> Result<BoundedJson, BoundedJsonError> {
    BoundedJson::check_input(input.len(), limits)?;
    let mut failure = None;
    let mut deserializer = serde_json::Deserializer::from_slice(input);
    let outcome = read(&mut deserializer, limits, &mut failure);
    let outcome = outcome.and_then(|value| deserializer.end().map(|()| value));
    match outcome {
        Ok(value) => BoundedJson::try_from_value_with_limits(value, limits),
        Err(error) => Err(failure.unwrap_or(BoundedJsonError::InvalidJson {
            line: error.line(),
            column: error.column(),
        })),
    }
}

fn from_slice(input: &[u8]) -> Result<BoundedJson, BoundedJsonError> {
    from_slice_with_limits(input, JsonLimits::default())
}

fn from_str(input: &str) -> Result<BoundedJson, BoundedJsonError> {
    from_slice(input.as_bytes())
}

fn from_str_with_limits(input: &str, limits: JsonLimits) -> Result<BoundedJson, BoundedJsonError> {
    from_slice_with_limits(input.as_bytes(), limits)
}

fn limits(
    max_bytes: usize,
    max_depth: usize,
    max_container_entries: usize,
    max_nodes: usize,
    max_string_bytes: usize,
    max_object_key_bytes: usize,
) -> JsonLimits {
    JsonLimits::try_new(
        max_bytes,
        max_depth,
        max_container_entries,
        max_nodes,
        max_string_bytes,
        max_object_key_bytes,
    )
    .unwrap()
}

#[test]
fn default_and_hard_limits_are_stable_and_validated() {
    assert_eq!(JsonLimits::default(), JsonLimits::default());
    assert_eq!(JsonLimits::default().max_bytes(), 256 * 1024);
    assert_eq!(JsonLimits::default().max_depth(), 32);
    assert_eq!(JsonLimits::default().max_container_entries(), 1024);
    assert_eq!(JsonLimits::default().max_nodes(), 16_384);
    assert_eq!(JsonLimits::default().max_string_bytes(), 64 * 1024);
    assert_eq!(JsonLimits::default().max_object_key_bytes(), 256);

    for limit in [
        JsonLimit::Bytes,
        JsonLimit::Depth,
        JsonLimit::ContainerEntries,
        JsonLimit::Nodes,
        JsonLimit::StringBytes,
        JsonLimit::ObjectKeyBytes,
    ] {
        let result = match limit {
            JsonLimit::Bytes => JsonLimits::try_new(0, 1, 1, 1, 1, 1),
            JsonLimit::Depth => JsonLimits::try_new(1, 0, 1, 1, 1, 1),
            JsonLimit::ContainerEntries => JsonLimits::try_new(1, 1, 0, 1, 1, 1),
            JsonLimit::Nodes => JsonLimits::try_new(1, 1, 1, 0, 1, 1),
            JsonLimit::StringBytes => JsonLimits::try_new(1, 1, 1, 1, 0, 1),
            JsonLimit::ObjectKeyBytes => JsonLimits::try_new(1, 1, 1, 1, 1, 0),
        };
        assert_eq!(result, Err(JsonLimitsError::Zero { limit }));
    }

    assert_eq!(
        JsonLimits::try_new(JsonLimits::maximum().max_bytes() + 1, 1, 1, 1, 1, 1),
        Err(JsonLimitsError::AboveHardMaximum {
            limit: JsonLimit::Bytes,
            maximum: JsonLimits::maximum().max_bytes(),
            actual: JsonLimits::maximum().max_bytes() + 1,
        })
    );

    for (limit, result, maximum) in [
        (
            JsonLimit::Depth,
            JsonLimits::try_new(1, JsonLimits::maximum().max_depth() + 1, 1, 1, 1, 1),
            JsonLimits::maximum().max_depth(),
        ),
        (
            JsonLimit::ContainerEntries,
            JsonLimits::try_new(
                1,
                1,
                JsonLimits::maximum().max_container_entries() + 1,
                1,
                1,
                1,
            ),
            JsonLimits::maximum().max_container_entries(),
        ),
        (
            JsonLimit::Nodes,
            JsonLimits::try_new(1, 1, 1, JsonLimits::maximum().max_nodes() + 1, 1, 1),
            JsonLimits::maximum().max_nodes(),
        ),
        (
            JsonLimit::StringBytes,
            JsonLimits::try_new(1, 1, 1, 1, JsonLimits::maximum().max_string_bytes() + 1, 1),
            JsonLimits::maximum().max_string_bytes(),
        ),
        (
            JsonLimit::ObjectKeyBytes,
            JsonLimits::try_new(
                1,
                1,
                1,
                1,
                1,
                JsonLimits::maximum().max_object_key_bytes() + 1,
            ),
            JsonLimits::maximum().max_object_key_bytes(),
        ),
    ] {
        assert_eq!(
            result,
            Err(JsonLimitsError::AboveHardMaximum {
                limit,
                maximum,
                actual: maximum + 1,
            })
        );
    }
}

#[test]
fn parses_every_json_kind_and_tracks_exact_compact_statistics() {
    let input = r#" { "z": [null, true, false, -2, 3, 1.5, "a\né"], "a": {} } "#;
    let bounded = from_slice(input.as_bytes()).unwrap();
    let compact = bounded.as_value().to_string();
    let reference: serde_json::Value = serde_json::from_str(input).unwrap();

    assert_eq!(compact, serde_json::to_string(&reference).unwrap());
    assert_eq!(bounded.stats().compact_bytes(), compact.len());
    assert_eq!(bounded.stats().max_depth(), 2);
    assert_eq!(bounded.stats().nodes(), 10);
    assert_eq!(compact, "{\"a\":{},\"z\":[null,true,false,-2,3,1.5,\"a\\né\"]}");
}

#[test]
fn rejects_duplicate_keys_after_escape_processing_before_reading_value() {
    for input in [
        r#"{"a":1,"a":2}"#,
        r#"{"a":1,"\u0061":2}"#,
        r#"{"nested":{"x":1,"\u0078":2}}"#,
    ] {
        assert_eq!(
            from_str(input),
            Err(BoundedJsonError::DuplicateObjectKey),
            "accepted {input}"
        );
    }

    let deep_value = format!("{}0{}", "[".repeat(200), "]".repeat(200));
    let input = format!(r#"{{"a":1,"\u0061":{deep_value}}}"#);
    assert_eq!(
        from_str(&input),
        Err(BoundedJsonError::DuplicateObjectKey)
    );
}

#[test]
fn rejects_invalid_syntax_and_trailing_values_without_echoing_input() {
    for input in ["", "[1,]", r#"{"a":}"#, "true false", "\u{feff}null"] {
        let error = from_str(input).unwrap_err();
        assert!(matches!(error, BoundedJsonError::InvalidJson { .. }));
        if !input.is_empty() {
            assert!(!format!("{error:?}").contains(input));
        }
    }

    assert!(matches!(
        from_slice(&[0xff]),
        Err(BoundedJsonError::InvalidJson { .. })
    ));
}

#[test]
fn raw_input_is_bounded_before_whitespace_or_syntax_processing() {
    let configured = limits(4, 4, 4, 4, 4, 4);
    assert!(from_str_with_limits("null", configured).is_ok());
    assert_eq!(
        from_str_with_limits(" null", configured),
        Err(BoundedJsonError::InputTooLarge {
            maximum: 4,
            actual: 5,
        })
    );
}

#[test]
fn compact_encoding_is_bounded_for_trusted_values() {
    let configured = limits(3, 4, 4, 4, 4, 4);
    assert!(
        BoundedJson::try_from_value_with_limits(JsonValue::text("a"), configured).is_ok()
    );
    assert_eq!(
        BoundedJson::try_from_value_with_limits(JsonValue::text("aa"), configured),
        Err(BoundedJsonError::CompactRepresentationTooLarge {
            maximum: 3,
            actual: 4,
        })
    );
}

#[test]
fn nesting_depth_uses_zero_for_scalars_and_one_for_root_containers() {
    let configured = limits(128, 2, 8, 16, 32, 32);
    assert_eq!(
        from_str_with_limits("0", configured)
            .unwrap()
            .stats()
            .max_depth(),
        0
    );
    assert_eq!(
        from_str_with_limits("[[0]]", configured)
            .unwrap()
            .stats()
            .max_depth(),
        2
    );
    assert_eq!(
        from_str_with_limits("[[[0]]]", configured),
        Err(BoundedJsonError::NestingTooDeep {
            maximum: 2,
            actual: 3,
        })
    );
}

#[test]
fn container_limit_stops_before_traversing_an_extra_value() {
    let configured = limits(2048, 4, 2, 16, 32, 32);
    assert!(from_str_with_limits("[0,1]", configured).is_ok());
    assert!(from_str_with_limits(r#"{"a":0,"b":1}"#, configured).is_ok());

    let deep_value = format!("{}0{}", "[".repeat(200), "]".repeat(200));
    for input in [
        format!("[0,1,{deep_value}]"),
        format!(r#"{{"a":0,"b":1,"c":{deep_value}}}"#),
    ] {
        assert_eq!(
            from_str_with_limits(&input, configured),
            Err(BoundedJsonError::TooManyContainerEntries {
                maximum: 2,
                actual: 3,
            })
        );
    }
}

#[test]
fn node_limit_stops_before_traversing_an_extra_value() {
    let configured = limits(1024, 4, 8, 2, 32, 32);
    assert!(from_str_with_limits("[0]", configured).is_ok());

    let deep_value = format!("{}0{}", "[".repeat(200), "]".repeat(200));
    let input = format!("[0,{deep_value}]");
    assert_eq!(
        from_str_with_limits(&input, configured),
        Err(BoundedJsonError::TooManyNodes {
            maximum: 2,
            actual: 3,
        })
    );
}

#[test]
fn string_and_key_limits_count_decoded_utf8_bytes() {
    let configured = limits(128, 4, 8, 8, 2, 2);
    assert!(from_str_with_limits(r#""\u00e9""#, configured).is_ok());
    assert_eq!(
        from_str_with_limits(r#""\u00e9a""#, configured),
        Err(BoundedJsonError::StringTooLong {
            maximum: 2,
            actual: 3,
        })
    );
    assert!(from_str_with_limits(r#"{"\u00e9":0}"#, configured).is_ok());
    assert_eq!(
        from_str_with_limits(r#"{"\u00e9a":0}"#, configured),
        Err(BoundedJsonError::ObjectKeyTooLong {
            maximum: 2,
            actual: 3,
        })
    );
}

#[test]
fn generic_serde_rejects_non_json_numeric_values() {
    let mut failure = None;
    let nan = de::value::F64Deserializer::<de::value::Error>::new(f64::NAN);
    assert!(read(nan, JsonLimits::default(), &mut failure).is_err());
    assert_eq!(failure, Some(BoundedJsonError::NonFiniteNumber));

    let mut failure = None;
    let integer = de::value::U128Deserializer::<de::value::Error>::new(u128::MAX);
    assert!(read(integer, JsonLimits::default(), &mut failure).is_err());
    assert_eq!(failure, Some(BoundedJsonError::NumberOutOfRange));
}

#[test]
fn serde_round_trip_revalidates_and_debug_is_redacted() {
    let secret = "credential-like-secret";
    let bounded = from_str(&format!(r#"{{"secret":"{secret}"}}"#)).unwrap();
    let debug = format!("{bounded:?}");
    assert!(!debug.contains(secret));
    assert!(debug.contains("compact_bytes"));

    let decoded = from_str(&bounded.as_value().to_string()).unwrap();
    assert_eq!(decoded, bounded);
    assert_eq!(decoded.stats(), bounded.stats());
}

#[test]
fn trusted_value_construction_sorts_objects_without_claiming_canonicalization() {
    let object = JsonValue::object(vec![
        JsonMember::new("z", JsonValue::Number(JsonNumber::from_u64(1))),
        JsonMember::new("a", JsonValue::Number(JsonNumber::from_u64(2))),
    ]);
    let bounded = BoundedJson::try_from_value(object).unwrap();
    assert_eq!(bounded.as_value().to_string(), r#"{"a":2,"z":1}"#);
    assert_eq!(bounded.stats().compact_bytes(), 13);
}

#[test]
fn written_text_is_that_of_serde_json() {
    for input in [
        "null",
        "[]",
        "{}",
        r#""\u0000\u001f\b\t\n\f\r\"\\/é\u2028""#,
        "[0,-0.0,1e3,1.25e-7,18446744073709551615,-9223372036854775808,0.1]",
        r#"{"b":[{"c":1}],"a":{"d":"x"},"B":null}"#,
    ] {
        let reference: serde_json::Value = serde_json::from_str(input).unwrap();
        let bounded = from_str(input).unwrap();
        let text = serde_json::to_string(&reference).unwrap();
        assert_eq!(bounded.as_value().to_string(), text, "{input}");
        assert_eq!(bounded.stats().compact_bytes(), text.len());
    }
}

#[test]
fn member_order_does_not_change_what_is_counted() {
    let a = from_str(r#"{"x":[1,{"k":"v"}],"y":null,"z":{"p":1,"q":2}}"#).unwrap();
    let b = from_str(r#"{"z":{"q":2,"p":1},"y":null,"x":[1,{"k":"v"}]}"#).unwrap();
    assert_eq!(a, b);
    assert_eq!(a.stats(), b.stats());
}

#[test]
fn canonical_form_is_that_of_the_canonicalizer() {
    let value = from_str(r#"{"b":1.0,"a":[true,1e2],"\u00e9":"\u000f"}"#).unwrap();
    let canonical = CanonicalJson::new(&value).unwrap();
    assert_eq!(
        canonical.as_bytes(),
        "{\"a\":[true,100],\"b\":1,\"é\":\"\\u000f\"}".as_bytes()
    );
    assert_eq!(
        canonical.digest(),
        stateknot_core::digest::Digest::sha256(canonical.as_bytes())
    );
    for unsafe_integer in ["9007199254740992", "-9007199254740992", "[{\"n\":18446744073709551615}]"] {
        assert_eq!(
            CanonicalJson::new(&from_str(unsafe_integer).unwrap()),
            Err(CanonicalJsonError::IntegerOutsideIJsonSafeRange)
        );
    }
    assert!(CanonicalJson::new(&from_str("9007199254740991").unwrap()).is_ok());
}

#[test]
fn zeros_are_equal_whatever_their_sign() {
    let number = |text: &str| JsonNumber::parse(text).unwrap();
    assert_eq!(number("0.0").to_string(), "0.0");
    assert_eq!(number("-0.0").to_string(), "-0.0");
    assert_eq!(number("-0").to_string(), "-0.0");
    assert_eq!(number("0e7"), number("-0.0"));
    assert_ne!(number("0"), number("0.0"));
    assert_ne!(number("1.5"), number("-1.5"));
    assert_eq!(number("1.50"), number("15e-1"));
    for (a, b) in [("0.0", "-0.0"), ("[0.0,-0.0]", "[-0.0,0.0]"), ("1.0", "-1.0"), ("0", "-0")] {
        let x: serde_json::Value = serde_json::from_str(a).unwrap();
        let y: serde_json::Value = serde_json::from_str(b).unwrap();
        let (bx, by) = (from_str(a).unwrap(), from_str(b).unwrap());
        assert_eq!(bx.as_value() == by.as_value(), x == y, "{a} {b}");
        assert_eq!(bx == by, x == y && a.len() == b.len(), "{a} {b}");
    }
}

#[test]
fn a_refused_entry_counts_what_was_read_of_it() {
    let configured = limits(16, 4, 4, 3, 8, 4);
    let mut tracker = JsonTracker::new(configured);
    assert_eq!(tracker.enter_container(0), Ok(1));
    assert_eq!(tracker.enter_element(0), Ok(()));
    assert_eq!(tracker.enter_element(1), Ok(()));
    assert_eq!(tracker.enter_element(2), Ok(()));
    let before = tracker.stats();
    assert_eq!(
        tracker.enter_element(3),
        Err(BoundedJsonError::TooManyNodes { maximum: 3, actual: 4 })
    );
    assert_eq!(tracker.stats().nodes(), before.nodes());
    assert_eq!(tracker.stats().compact_bytes(), before.compact_bytes() + 1);
    assert_eq!(
        tracker.enter_element(4),
        Err(BoundedJsonError::TooManyContainerEntries { maximum: 4, actual: 5 })
    );
    assert_eq!(tracker.stats().compact_bytes(), before.compact_bytes() + 1);
    let before = tracker.stats();
    assert_eq!(
        tracker.check_string("far too long"),
        Err(BoundedJsonError::StringTooLong { maximum: 8, actual: 12 })
    );
    assert_eq!(tracker.stats(), before);
}

#[test]
fn values_convert_under_the_default_limits() {
    let bounded = BoundedJson::try_from(JsonValue::text("abc")).unwrap();
    let value: &JsonValue = bounded.as_ref();
    assert_eq!(*value, JsonValue::text("abc"));
    assert_eq!(bounded, BoundedJson::try_from_value(JsonValue::text("abc")).unwrap());
}

struct Shown<F>(F);

impl<F: Fn(&mut std::fmt::Formatter<'_>) -> std::fmt::Result> std::fmt::Debug for Shown<F> {
    fn fmt(&self, formatter: &mut std::fmt::Formatter<'_>) -> std::fmt::Result {
        (self.0)(formatter)
    }
}

fn assert_shown<F>(value: &dyn std::fmt::Debug, mirror: F)
where
    F: Fn(&mut std::fmt::Formatter<'_>) -> std::fmt::Result,
{
    let shown = Shown(mirror);
    assert_eq!(format!("{value:?}"), format!("{shown:?}"));
    assert_eq!(format!("{value:#?}"), format!("{shown:#?}"));
}

#[test]
fn json_debug_follows_the_standard_builders() {
    let bounded = from_str(r#"{"secret":[1,2,[]]}"#).unwrap();
    let stats = bounded.stats();
    assert_shown(&bounded, |f| {
        f.debug_struct("BoundedJson")
            .field("compact_bytes", &stats.compact_bytes())
            .field("max_depth", &stats.max_depth())
            .field("nodes", &stats.nodes())
            .finish_non_exhaustive()
    });
    assert_shown(&stats, |f| {
        f.debug_struct("JsonStats")
            .field("compact_bytes", &stats.compact_bytes())
            .field("max_depth", &stats.max_depth())
            .field("nodes", &stats.nodes())
            .finish()
    });
    assert_eq!(
        format!("{stats:?}"),
        "JsonStats { compact_bytes: 19, max_depth: 3, nodes: 5 }"
    );
}
