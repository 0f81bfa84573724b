use stateknot_core::canonical::CanonicalJsonError;
use stateknot_core::digest::Digest;
use stateknot_core::ids::{AttemptId, EventId, RunId, TenantId};
use stateknot_core::journal::{
    JournalAppend, JournalAppendError, JournalAuthorityError, JournalChainError,
    JournalChainVerifier, JournalEvent, JournalEventError, JournalEventIntent, JournalEventKind,
    JournalEventKindError, JournalEventSource, JournalExpectation, JournalHead, JournalIntentError,
    JournalPayload, JournalPayloadError, JournalSequence, JournalSequenceError,
};
use stateknot_core::json::BoundedJson;
use stateknot_core::json_value::{JsonMember, JsonNumber, JsonValue};
use stateknot_core::lease::{FencingEpoch, RunFence, RunLease, RunLeaseValidationError};
use stateknot_core::pins::{SchemaId, SchemaReference};
use stateknot_core::time::Timestamp;
use stateknot_core::version::Version;

fn convert(value: &serde_json::Value) -> JsonValue {
    match value {
        serde_json::Value::Null => JsonValue::Null,
        serde_json::Value::Bool(value) => JsonValue::Bool(*value),
        serde_json::Value::Number(number) => {
            JsonValue::Number(JsonNumber::parse(&number.to_string()).unwrap())
        }
        serde_json::Value::String(text) => JsonValue::text(text),
        serde_json::Value::Array(items) => JsonValue::array(items.iter().map(convert).collect()),
        serde_json::Value::Object(members) => JsonValue::object(
            members
                .iter()
                .map(|(name, value)| JsonMember::new(name, convert(value)))
                .collect(),
        ),
    }
}

fn json(text: &str) -> JsonValue {
    convert(&serde_json::from_str(text).unwrap())
}

fn bounded(text: &str) -> BoundedJson {
    BoundedJson::try_from_value(json(text)).unwrap()
}

fn at(offset_micros: i64) -> Timestamp {
    let base = "2030-01-01T00:00:00.000000Z".parse::<Timestamp>().unwrap();
    Timestamp::from_unix_micros(base.unix_micros() + offset_micros).unwrap()
}

fn tenant() -> TenantId {
    TenantId::new("tenant-a").unwrap()
}

fn other_tenant() -> TenantId {
    TenantId::new("tenant-b").unwrap()
}

fn run() -> RunId {
    "01912345-6789-7abc-8def-0123456789ab".parse().unwrap()
}

fn other_run() -> RunId {
    "01912345-6789-7abc-8def-0123456789bb".parse().unwrap()
}

fn event(suffix: &str) -> EventId {
    format!("01912345-6789-7abc-8def-0123456789{suffix}")
        .parse()
        .unwrap()
}

fn attempt(suffix: &str) -> AttemptId {
    format!("01912345-6789-7abc-8def-0123456789{suffix}")
        .parse()
        .unwrap()
}

fn schema() -> SchemaReference {
    SchemaReference::new(
        "https://stateknot.github.io/schema/run-event/1.0.0"
            .parse::<SchemaId>()
            .unwrap(),
        Version { major: 1, minor: 0, patch: 0 },
        Digest::sha256(b"run event schema v1"),
    )
}

fn payload(value: JsonValue) -> JournalPayload {
    JournalPayload::new(
        schema(),
        JournalEventKind::new("run-transition-applied").unwrap(),
        BoundedJson::try_from_value(value).unwrap(),
    )
    .unwrap()
}

fn control_intent(event_id: EventId, value: JsonValue) -> JournalEventIntent {
    JournalEventIntent::control_plane(tenant(), run(), event_id, payload(value)).unwrap()
}

fn first_event() -> JournalEvent {
    JournalEvent::commit(
        JournalAppend::new(
            JournalExpectation::Empty,
            control_intent(event("a1"), json(r#"{"revision":"0"}"#)),
        )
        .unwrap(),
        at(10),
    )
    .unwrap()
}

fn worker_fence() -> RunFence {
    RunFence::new(tenant(), run(), attempt("ac"), FencingEpoch::first())
}

#[test]
fn sequences_are_positive_canonical_database_ordinals() {
    assert_eq!(JournalSequence::new(1), Ok(JournalSequence::first()));
    assert_eq!(JournalSequence::new(0), Err(JournalSequenceError::Zero));
    assert_eq!(
        JournalSequence::new(9_223_372_036_854_775_808),
        Err(JournalSequenceError::AboveMaximum)
    );
    assert_eq!(JournalSequence::max().checked_next(), None);
    assert_eq!(JournalSequence::first().checked_next().unwrap().get(), 2);
    assert_eq!(JournalSequence::first().to_string(), "1");
    for invalid in ["0", "01", "x"] {
        assert!(invalid.parse::<JournalSequence>().is_err());
    }
}

#[test]
fn event_kinds_enforce_lower_kebab_case_and_bounds() {
    for valid in ["run-admitted", "tool2-result", "a"] {
        assert_eq!(JournalEventKind::new(valid).unwrap().as_str(), valid);
    }
    assert_eq!(JournalEventKind::new(""), Err(JournalEventKindError::Empty));
    assert_eq!(
        JournalEventKind::new("9event"),
        Err(JournalEventKindError::InvalidStart)
    );
    assert!(matches!(
        JournalEventKind::new("Run-Admitted"),
        Err(JournalEventKindError::InvalidStart)
    ));
    assert!(matches!(
        JournalEventKind::new("run--admitted"),
        Err(JournalEventKindError::NonCanonicalSeparator { .. })
    ));
    assert!(matches!(
        JournalEventKind::new("run-admitted-"),
        Err(JournalEventKindError::NonCanonicalSeparator { .. })
    ));
    assert!(matches!(
        JournalEventKind::new("run_admitted"),
        Err(JournalEventKindError::InvalidByte { .. })
    ));
}

#[test]
fn payload_digest_is_rfc_8785_stable_and_redacted() {
    let first = payload(json(r#"{"z":-0.0,"a":[1,true]}"#));
    let second = JournalPayload::new(
        schema(),
        JournalEventKind::new("run-transition-applied").unwrap(),
        bounded(r#"{"a":[1,true],"z":0}"#),
    )
    .unwrap();
    assert_eq!(first.digest(), second.digest());
    assert_eq!(
        first.canonical_json().unwrap(),
        second.canonical_json().unwrap()
    );
    assert_eq!(first.canonical_json().unwrap().digest(), first.digest());
    let debug = format!("{:?}", payload(json(r#"{"secret":"never-print-me"}"#)));
    assert!(!debug.contains("never-print-me"));
}

#[test]
fn payload_rejects_non_interoperable_integers() {
    let result = JournalPayload::new(
        schema(),
        JournalEventKind::new("run-transition-applied").unwrap(),
        bounded("9007199254740992"),
    );
    assert!(matches!(
        result,
        Err(JournalPayloadError::Canonical {
            source: CanonicalJsonError::IntegerOutsideIJsonSafeRange
        })
    ));
}

#[test]
fn first_event_has_stable_idempotency_and_chain_identity() {
    let intent = control_intent(event("a1"), json(r#"{"revision":"0"}"#));
    let append = JournalAppend::new(JournalExpectation::Empty, intent.clone()).unwrap();
    let committed = JournalEvent::commit(append, at(10)).unwrap();
    assert_eq!(committed.sequence(), JournalSequence::first());
    assert_eq!(committed.previous_digest(), None);
    assert_eq!(committed.payload_digest(), committed.payload().digest());
    assert!(committed.matches_intent(&intent));
    assert_eq!(committed.head().digest(), committed.digest());

    let round_trip = JournalEvent::from_columns(
        (committed.tenant_id().clone(), committed.run_id()),
        (committed.sequence(), committed.event_id(), committed.recorded_at()),
        (committed.source().clone(), committed.payload().clone()),
        (
            committed.payload_digest(),
            committed.intent_digest(),
            committed.previous_digest(),
            committed.digest(),
        ),
    )
    .unwrap();
    assert_eq!(round_trip, committed);
}

#[test]
fn storage_restore_recomputes_the_complete_event_integrity_layer() {
    let committed = first_event();
    let intent = control_intent(committed.event_id(), json(r#"{"revision":"0"}"#));
    let restored = JournalEvent::restore(
        intent.clone(),
        committed.sequence(),
        committed.recorded_at(),
        committed.previous_digest(),
        committed.digest(),
    )
    .unwrap();
    assert_eq!(restored, committed);
    assert_eq!(
        JournalEvent::restore(
            intent,
            committed.sequence(),
            committed.recorded_at(),
            committed.previous_digest(),
            Digest::sha256(b"corrupt durable event"),
        ),
        Err(JournalEventError::EventDigestMismatch)
    );
}

#[test]
fn same_event_id_with_different_content_is_not_an_idempotent_match() {
    let committed = first_event();
    let same = control_intent(event("a1"), json(r#"{"revision":"0"}"#));
    let conflict = control_intent(event("a1"), json(r#"{"revision":"1"}"#));
    assert!(committed.matches_intent(&same));
    assert!(!committed.matches_intent(&conflict));
    assert_ne!(same.intent_digest(), conflict.intent_digest());
}

#[test]
fn worker_intent_binds_scope_and_current_lease() {
    let fence = worker_fence();
    let intent = JournalEventIntent::worker(
        tenant(),
        run(),
        event("a2"),
        fence.clone(),
        payload(json(r#"{"revision":"1"}"#)),
    )
    .unwrap();
    let append =
        JournalAppend::new(JournalExpectation::exact(first_event().head()), intent).unwrap();
    let lease = RunLease::new(fence, at(10), at(20)).unwrap();
    assert_eq!(append.validate_worker_lease(&lease, at(19)), Ok(()));
    assert!(matches!(
        append.validate_worker_lease(&lease, at(20)),
        Err(JournalAuthorityError::Lease {
            source: RunLeaseValidationError::Expired { .. }
        })
    ));

    let wrong_tenant = JournalEventIntent::worker(
        other_tenant(),
        run(),
        event("a2"),
        worker_fence(),
        payload(json(r#"{}"#)),
    );
    assert_eq!(wrong_tenant, Err(JournalIntentError::FenceTenantMismatch));
}

#[test]
fn exact_head_must_share_the_intent_scope() {
    let first = first_event();
    let intent = JournalEventIntent::control_plane(
        other_tenant(),
        run(),
        event("a2"),
        payload(json(r#"{}"#)),
    )
    .unwrap();
    assert_eq!(
        JournalAppend::new(JournalExpectation::exact(first.head()), intent),
        Err(JournalAppendError::HeadTenantMismatch)
    );

    let intent = JournalEventIntent::control_plane(
        tenant(),
        other_run(),
        event("a2"),
        payload(json(r#"{}"#)),
    )
    .unwrap();
    assert_eq!(
        JournalAppend::new(JournalExpectation::exact(first.head()), intent),
        Err(JournalAppendError::HeadRunMismatch)
    );
}

#[test]
fn contiguous_chain_verifies_without_buffering_payloads() {
    let first = first_event();
    let second = JournalEvent::commit(
        JournalAppend::new(
            JournalExpectation::exact(first.head()),
            control_intent(event("a2"), json(r#"{"revision":"1"}"#)),
        )
        .unwrap(),
        at(11),
    )
    .unwrap();
    assert_eq!(second.sequence().get(), 2);
    assert_eq!(second.previous_digest(), Some(first.digest()));

    let mut verifier = JournalChainVerifier::new();
    verifier.verify_next(&first).unwrap();
    verifier.verify_next(&second).unwrap();
    assert_eq!(verifier.head(), Some(&second.head()));
}

#[test]
fn chain_verifier_rejects_gaps_wrong_scope_and_wrong_predecessor() {
    let first = first_event();
    let second = JournalEvent::commit(
        JournalAppend::new(
            JournalExpectation::exact(first.head()),
            control_intent(event("a2"), json(r#"{}"#)),
        )
        .unwrap(),
        at(11),
    )
    .unwrap();
    let third = JournalEvent::commit(
        JournalAppend::new(
            JournalExpectation::exact(second.head()),
            control_intent(event("a3"), json(r#"{}"#)),
        )
        .unwrap(),
        at(12),
    )
    .unwrap();

    let mut gap = JournalChainVerifier::after(first.head());
    assert!(matches!(
        gap.verify_next(&third),
        Err(JournalChainError::SequenceGap { .. })
    ));
    assert_eq!(gap.head(), Some(&first.head()));

    let foreign = JournalEvent::commit(
        JournalAppend::new(
            JournalExpectation::Empty,
            JournalEventIntent::control_plane(
                other_tenant(),
                run(),
                event("b1"),
                payload(json(r#"{}"#)),
            )
            .unwrap(),
        )
        .unwrap(),
        at(11),
    )
    .unwrap();
    let mut scoped = JournalChainVerifier::after(first.head());
    assert_eq!(
        scoped.verify_next(&foreign),
        Err(JournalChainError::TenantMismatch)
    );

    let alternate_head = JournalHead::new(
        tenant(),
        run(),
        JournalSequence::first(),
        first.event_id(),
        first.recorded_at(),
        Digest::sha256(b"alternate-head"),
    );
    let wrong_predecessor = JournalEvent::commit(
        JournalAppend::new(
            JournalExpectation::exact(alternate_head),
            control_intent(event("b2"), json(r#"{}"#)),
        )
        .unwrap(),
        at(11),
    )
    .unwrap();
    let mut predecessor = JournalChainVerifier::after(first.head());
    assert_eq!(
        predecessor.verify_next(&wrong_predecessor),
        Err(JournalChainError::PreviousDigestMismatch)
    );

    let earlier_head = JournalHead::new(
        tenant(),
        run(),
        JournalSequence::first(),
        first.event_id(),
        at(1),
        first.digest(),
    );
    let earlier = JournalEvent::commit(
        JournalAppend::new(
            JournalExpectation::exact(earlier_head),
            control_intent(event("b3"), json(r#"{}"#)),
        )
        .unwrap(),
        at(2),
    )
    .unwrap();
    let mut clock = JournalChainVerifier::after(first.head());
    assert!(matches!(
        clock.verify_next(&earlier),
        Err(JournalChainError::ClockRegression { .. })
    ));
}

#[test]
fn commit_rejects_clock_regression_and_sequence_exhaustion() {
    let first = first_event();
    let append = JournalAppend::new(
        JournalExpectation::exact(first.head()),
        control_intent(event("a2"), json(r#"{}"#)),
    )
    .unwrap();
    assert!(matches!(
        JournalEvent::commit(append, at(9)),
        Err(JournalEventError::ClockRegression { .. })
    ));

    let exhausted = JournalHead::new(
        tenant(),
        run(),
        JournalSequence::max(),
        event("af"),
        at(10),
        Digest::sha256(b"head"),
    );
    let append = JournalAppend::new(
        JournalExpectation::exact(exhausted),
        control_intent(event("b0"), json(r#"{}"#)),
    )
    .unwrap();
    assert_eq!(
        JournalEvent::commit(append, at(11)),
        Err(JournalEventError::SequenceOverflow)
    );
}

fn tampered(
    payload_digest: Digest,
    intent_digest: Digest,
    previous_digest: Option<Digest>,
    digest: Digest,
) -> Result<JournalEvent, JournalEventError> {
    let event = first_event();
    JournalEvent::from_columns(
        (event.tenant_id().clone(), event.run_id()),
        (event.sequence(), event.event_id(), event.recorded_at()),
        (event.source().clone(), event.payload().clone()),
        (payload_digest, intent_digest, previous_digest, digest),
    )
}

#[test]
fn event_deserialization_detects_every_integrity_layer() {
    let event = first_event();
    let wrong = Digest::sha256(b"wrong");
    let (payload, intent, digest) = (
        event.payload_digest(),
        event.intent_digest(),
        event.digest(),
    );
    assert_eq!(tampered(payload, intent, None, digest), Ok(first_event()));
    assert_eq!(
        tampered(wrong, intent, None, digest),
        Err(JournalEventError::PayloadDigestMismatch)
    );
    assert_eq!(
        tampered(payload, wrong, None, digest),
        Err(JournalEventError::IntentDigestMismatch)
    );
    assert_eq!(
        tampered(payload, intent, None, wrong),
        Err(JournalEventError::EventDigestMismatch)
    );
    assert_eq!(
        tampered(payload, intent, Some(Digest::sha256(b"unexpected")), digest),
        Err(JournalEventError::UnexpectedPreviousDigest)
    );
}

#[test]
fn later_event_without_a_predecessor_is_rejected() {
    let event = first_event();
    assert_eq!(
        JournalEvent::restore(
            control_intent(event.event_id(), json(r#"{"revision":"0"}"#)),
            JournalSequence::new(2).unwrap(),
            event.recorded_at(),
            None,
            event.digest(),
        ),
        Err(JournalEventError::MissingPreviousDigest)
    );
}

#[test]
fn restored_intents_recompute_their_digest() {
    let intent = control_intent(event("a1"), json("{}"));
    let restore = |source: JournalEventSource, digest: Digest| {
        JournalEventIntent::restore(
            tenant(),
            run(),
            event("a1"),
            source,
            payload(json("{}")),
            digest,
        )
    };
    assert_eq!(
        restore(JournalEventSource::control_plane(), intent.intent_digest()),
        Ok(intent.clone())
    );
    assert_eq!(
        restore(JournalEventSource::control_plane(), Digest::sha256(b"other")),
        Err(JournalIntentError::IntentDigestMismatch)
    );
    assert_eq!(
        restore(
            JournalEventSource::worker(RunFence::new(
                tenant(),
                other_run(),
                attempt("ac"),
                FencingEpoch::first(),
            )),
            intent.intent_digest(),
        ),
        Err(JournalIntentError::FenceRunMismatch)
    );
    let append = JournalAppend::new(JournalExpectation::empty(), intent).unwrap();
    let lease = RunLease::new(worker_fence(), at(0), at(5)).unwrap();
    assert_eq!(
        append.validate_worker_lease(&lease, at(1)),
        Err(JournalAuthorityError::ControlPlaneSource)
    );
}

#[test]
fn chains_of_any_length_replay_to_their_last_head() {
    for length in [1_i64, 2, 17] {
        let mut verifier = JournalChainVerifier::new();
        let mut head: Option<JournalHead> = None;
        for index in 0..length {
            let intent = control_intent(EventId::generate(), json(&format!("{{\"index\":\"{index}\"}}")));
            let expectation = match &head {
                None => JournalExpectation::Empty,
                Some(head) => JournalExpectation::exact(head.clone()),
            };
            let event =
                JournalEvent::commit(JournalAppend::new(expectation, intent).unwrap(), at(index))
                    .unwrap();
            verifier.verify_next(&event).unwrap();
            head = Some(event.head());
        }
        assert_eq!(verifier.head(), head.as_ref());
    }
}

#[test]
fn digests_bind_the_documented_preimages() {
    let event = first_event();
    let preimage = format!(
        "stateknot-journal-event-v1\0{{\"event_id\":\"{}\",\"intent_digest\":\"{}\",\"payload_digest\":\"{}\",\"previous_digest\":null,\"recorded_at\":\"2030-01-01T00:00:00.000010Z\",\"run_id\":\"{}\",\"sequence\":\"1\",\"tenant_id\":\"tenant-a\"}}",
        event.event_id().to_string(),
        event.intent_digest().to_string(),
        event.payload_digest().to_string(),
        event.run_id().to_string(),
    );
    assert_eq!(event.digest(), Digest::sha256(preimage.as_bytes()));
    let intent = format!(
        "stateknot-journal-intent-v1\0{{\"event_id\":\"{}\",\"payload_digest\":\"{}\",\"run_id\":\"{}\",\"source\":{{\"kind\":\"control_plane\"}},\"tenant_id\":\"tenant-a\"}}",
        event.event_id().to_string(),
        event.payload_digest().to_string(),
        event.run_id().to_string(),
    );
    assert_eq!(event.intent_digest(), Digest::sha256(intent.as_bytes()));
}

struct Shown<F>(F);

impl<F: Fn(&mut std::fmt::Formatter<'_>) -> std::fmt::Result> std::fmt::Debug for Shown<F> {
    fn fmt(&self, formatter: &mut std::fmt::Formatter<'_>) -> std::fmt::Result {
        (self.0)(formatter)
    }
}

fn assert_shown<F>(value: &dyn std::fmt::Debug, mirror: F)
where
    F: Fn(&mut std::fmt::Formatter<'_>) -> std::fmt::Result,
{
    let shown = Shown(mirror);
    assert_eq!(format!("{value:?}"), format!("{shown:?}"));
    assert_eq!(format!("{value:#?}"), format!("{shown:#?}"));
}

#[test]
fn journal_debug_follows_the_standard_builders() {
    let payload = payload(json(r#"{"secret":"never-print-me"}"#));
    assert_shown(&payload, |f| {
        f.debug_struct("JournalPayload")
            .field("schema", &payload.schema())
            .field("kind", &payload.kind())
            .field("data_stats", &payload.data().stats())
            .field("digest", &payload.digest())
            .finish_non_exhaustive()
    });
    let event = first_event();
    assert_shown(&event, |f| {
        f.debug_struct("JournalEvent")
            .field("tenant_id", &event.tenant_id())
            .field("run_id", &event.run_id())
            .field("sequence", &event.sequence())
            .field("event_id", &event.event_id())
            .field("recorded_at", &event.recorded_at())
            .field("source", &event.source())
            .field("payload", &event.payload())
            .field("payload_digest", &event.payload_digest())
            .field("intent_digest", &event.intent_digest())
            .field("previous_digest", &event.previous_digest())
            .field("digest", &event.digest())
            .finish_non_exhaustive()
    });
    let intent = control_intent(event.event_id(), json("1"));
    assert_shown(&intent, |f| {
        f.debug_struct("JournalEventIntent")
            .field("tenant_id", &intent.tenant_id())
            .field("run_id", &intent.run_id())
            .field("event_id", &intent.event_id())
            .field("source", &intent.source())
            .field("payload", &intent.payload())
            .field("intent_digest", &intent.intent_digest())
            .finish_non_exhaustive()
    });
    let append = JournalAppend::new(JournalExpectation::empty(), intent.clone()).unwrap();
    assert_shown(&append, |f| {
        f.debug_struct("JournalAppend")
            .field("expectation", &append.expectation())
            .field("intent", &append.intent())
            .finish_non_exhaustive()
    });
    assert_eq!(
        format!("{:?}", JournalSequence::first()),
        "JournalSequence(1)"
    );
    let source = JournalEventSource::Worker { fence: worker_fence() };
    assert_shown(&source, |f| f.debug_struct("Worker").field("fence", &worker_fence()).finish());
    let head = event.head();
    assert_shown(&head, |f| {
        f.debug_struct("JournalHead")
            .field("tenant_id", &head.tenant_id())
            .field("run_id", &head.run_id())
            .field("sequence", &head.sequence())
            .field("event_id", &head.event_id())
            .field("recorded_at", &head.recorded_at())
            .field("digest", &head.digest())
            .finish()
    });
    let expectation = JournalExpectation::Exact { head: head.clone() };
    assert_shown(&expectation, |f| f.debug_struct("Exact").field("head", &head).finish());
}
