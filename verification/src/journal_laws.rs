//! What holds of every journal, event by event.

use vstd::prelude::*;
use vstd::utf8::encode_utf8;

use crate::canonical::domain_digest;
use crate::decimal::written_decimal_reads_back;
use crate::digest::written_digest_reads_back;
use crate::ids::{uuid_text_injective, AttemptId, EventId, RunId};
use crate::journal::{
    append_check, chain_check, commitment, event_check, event_digest_of, event_domain, event_head,
    event_json, event_matches, follows, intent_digest_of, intent_domain, intent_json, intent_of,
    scope_check, AppendModel, EventModel, EventSourceModel, HeadModel, IntentModel,
    JournalAppendError, JournalChainError, JournalEventError, JournalIntentError, JournalSequence,
};
use crate::lease::{fence_json, FencingEpoch};
use crate::time::{moment_supported, timestamp_texts_are_distinct, Timestamp};

verus! {

/// A worker speaks for its own tenant and run only. The control plane speaks for
/// all.
pub proof fn sources_belong_to_their_run(
    tenant_id: Seq<char>,
    run_id: RunId,
    source: EventSourceModel,
)
    ensures
        scope_check(tenant_id, run_id, source) is Ok <==> (source matches EventSourceModel::Worker {
            fence,
        } ==> fence.tenant_id == tenant_id && fence.run_id == run_id),
        scope_check(tenant_id, run_id, source) matches Err(e) ==> {
            ||| e == JournalIntentError::FenceTenantMismatch && source->fence.tenant_id != tenant_id
            ||| e == JournalIntentError::FenceRunMismatch && source->fence.tenant_id == tenant_id
                && source->fence.run_id != run_id
        },
{
}

/// An append goes on a head of the same tenant and run, or on an empty journal.
pub proof fn appends_belong_to_their_head(expected: Option<HeadModel>, intent: IntentModel)
    ensures
        append_check(expected, intent) is Ok <==> (expected matches Some(head) ==> head.tenant_id
            == intent.tenant_id && head.run_id == intent.run_id),
        append_check(expected, intent) matches Err(e) ==> {
            ||| e == JournalAppendError::HeadTenantMismatch && expected->0.tenant_id
                != intent.tenant_id
            ||| e == JournalAppendError::HeadRunMismatch && expected->0.tenant_id
                == intent.tenant_id && expected->0.run_id != intent.run_id
        },
{
}

/// An event is valid by itself exactly if it names a predecessor just where it
/// is not the first, its source may speak for its run, and each of the three
/// digests that it carries is the one that its parts have.
pub proof fn events_valid_exactly(event: EventModel)
    ensures
        event_check(event) is Ok <==> {
            &&& event.sequence@ == 1 <==> event.previous_digest is None
            &&& event.payload_digest == event.payload.digest
            &&& event.source matches EventSourceModel::Worker { fence } ==> fence.tenant_id
                == event.tenant_id && fence.run_id == event.run_id
            &&& intent_digest_of(
                event.tenant_id,
                event.run_id,
                event.event_id,
                event.source,
                event.payload.digest,
            ) == Some(event.intent_digest)
            &&& event_digest_of(event) == Some(event.digest)
        },
        event_check(event) == Err::<(), JournalEventError>(
            JournalEventError::UnexpectedPreviousDigest,
        ) <==> event.sequence@ == 1 && event.previous_digest is Some,
        event_check(event) == Err::<(), JournalEventError>(
            JournalEventError::MissingPreviousDigest,
        ) <==> event.sequence@ != 1 && event.previous_digest is None,
        event_check(event) == Err::<(), JournalEventError>(
            JournalEventError::PayloadDigestMismatch,
        ) ==> event.payload_digest != event.payload.digest,
        event_check(event) == Err::<(), JournalEventError>(JournalEventError::EventDigestMismatch)
            ==> event_digest_of(event) is Some && event_digest_of(event) != Some(event.digest),
{
}

/// An event is accepted as the next of a journal exactly if it is valid by
/// itself and either begins the journal, as number one and without a
/// predecessor, or follows its head: in the same tenant and run, with the next
/// number, naming the digest of the head, and no earlier than it.
pub proof fn chain_accepted_exactly(
    head: Option<HeadModel>,
    event: EventModel,
    next: JournalSequence,
)
    requires
        head matches Some(head) ==> 1 <= head.sequence@ <= 9223372036854775807,
        1 <= event.sequence@ <= 9223372036854775807,
    ensures
        chain_check(head, event, next) is Ok <==> event_check(event) is Ok && match head {
            None => event.sequence@ == 1 && event.previous_digest is None,
            Some(head) => {
                &&& event.tenant_id == head.tenant_id
                &&& event.run_id == head.run_id
                &&& event.sequence@ == head.sequence@ + 1
                &&& event.previous_digest == Some(head.digest)
                &&& head.recorded_at@ <= event.recorded_at@
            },
        },
{
}

/// A journal that is cut at its start, that lacks an event, that repeats one,
/// or that mixes two runs, is refused, and the refusal says which.
pub proof fn broken_chain_says_where(
    head: Option<HeadModel>,
    event: EventModel,
    next: JournalSequence,
)
    requires
        event_check(event) is Ok,
        1 <= event.sequence@ <= 9223372036854775807,
        head matches Some(head) ==> 1 <= head.sequence@ <= 9223372036854775807,
    ensures
        head is None && event.sequence@ != 1 ==> chain_check(head, event, next) == Err::<
            (),
            JournalChainError,
        >(JournalChainError::FirstSequence { actual: event.sequence }),
        head matches Some(h) ==> {
            let r = chain_check(head, event, next);
            &&& event.tenant_id != h.tenant_id <==> r == Err::<(), JournalChainError>(
                JournalChainError::TenantMismatch,
            )
            &&& event.tenant_id == h.tenant_id && event.run_id != h.run_id <==> r == Err::<
                (),
                JournalChainError,
            >(JournalChainError::RunMismatch)
            &&& event.tenant_id == h.tenant_id && event.run_id == h.run_id && h.sequence@
                == 9223372036854775807 <==> r == Err::<(), JournalChainError>(
                JournalChainError::SequenceOverflow,
            )
            &&& event.tenant_id == h.tenant_id && event.run_id == h.run_id && h.sequence@
                < 9223372036854775807 && event.sequence@ != h.sequence@ + 1 <==> r == Err::<
                (),
                JournalChainError,
            >(JournalChainError::SequenceGap { expected: next, actual: event.sequence })
            &&& event.tenant_id == h.tenant_id && event.run_id == h.run_id && event.sequence@
                == h.sequence@ + 1 && event.previous_digest != Some(h.digest) <==> r == Err::<
                (),
                JournalChainError,
            >(JournalChainError::PreviousDigestMismatch)
            &&& event.tenant_id == h.tenant_id && event.run_id == h.run_id && event.sequence@
                == h.sequence@ + 1 && event.previous_digest == Some(h.digest) && event.recorded_at@
                < h.recorded_at@ <==> r == Err::<(), JournalChainError>(
                JournalChainError::ClockRegression {
                    previous: h.recorded_at,
                    actual: event.recorded_at,
                },
            )
        },
{
}

/// The head on which the event at a place is to follow.
pub open spec fn head_before(events: Seq<EventModel>, i: int) -> Option<HeadModel> {
    if i <= 0 {
        None
    } else {
        Some(event_head(events[i - 1]))
    }
}

/// Each event is accepted after those before it.
pub open spec fn accepted_in_turn(events: Seq<EventModel>) -> bool {
    forall|i: int|
        #![trigger events[i]]
        0 <= i < events.len() ==> exists|next: JournalSequence| #[trigger]
            chain_check(head_before(events, i), events[i], next) is Ok
}

/// In a journal that is accepted from its start every event has its place as its
/// number, all are of one tenant and run, each names the digest of the one
/// before, and time does not go back.
pub proof fn accepted_journal_is_complete(events: Seq<EventModel>, i: int)
    requires
        accepted_in_turn(events),
        forall|k: int|
            0 <= k < events.len() ==> 1 <= (#[trigger] events[k]).sequence@ <= 9223372036854775807,
        0 <= i < events.len(),
    ensures
        events[i].sequence@ == i + 1,
        events[i].tenant_id == events[0].tenant_id,
        events[i].run_id == events[0].run_id,
        i == 0 ==> events[i].previous_digest is None,
        i > 0 ==> events[i].previous_digest == Some(events[i - 1].digest)
            && events[i - 1].recorded_at@ <= events[i].recorded_at@,
    decreases i,
{
    let head = head_before(events, i);
    let event = events[i];
    let next = choose|next: JournalSequence| #[trigger] chain_check(head, event, next) is Ok;
    if i > 0 {
        accepted_journal_is_complete(events, i - 1);
    }
    chain_accepted_exactly(head, event, next);
}

/// The head that an event makes is that of the event.
pub proof fn heads_are_of_their_event(event: EventModel)
    ensures
        event_head(event).tenant_id == event.tenant_id,
        event_head(event).run_id == event.run_id,
        event_head(event).sequence == event.sequence,
        event_head(event).event_id == event.event_id,
        event_head(event).recorded_at == event.recorded_at,
        event_head(event).digest == event.digest,
{
}

/// The number after a head is one more; that of a first event is one.
pub proof fn numbers_follow(expected: Option<HeadModel>, next: JournalSequence)
    requires
        follows(expected, next),
    ensures
        expected is None ==> next@ == 1,
        expected matches Some(head) ==> head.sequence@ < 9223372036854775807 ==> next@
            == head.sequence@ + 1,
{
}

/// What is recorded is the intent, under the time that was asked for and the
/// next number, and it names the head that it was to follow. Only a clock that
/// went back, the last number, or a value without canonical form refuses it.
pub proof fn commitments_record_the_intent(
    append: AppendModel,
    recorded_at: Timestamp,
    next: JournalSequence,
)
    requires
        follows(append.expected, next),
    ensures
        commitment(append, recorded_at, next) matches Ok(event) ==> {
            &&& event.tenant_id == append.intent.tenant_id
            &&& event.run_id == append.intent.run_id
            &&& event.event_id == append.intent.event_id
            &&& event.source == append.intent.source
            &&& event.payload == append.intent.payload
            &&& event.payload_digest == append.intent.payload.digest
            &&& event.intent_digest == append.intent.intent_digest
            &&& event.recorded_at == recorded_at
            &&& event.sequence == next
            &&& match append.expected {
                None => event.sequence@ == 1 && event.previous_digest is None,
                Some(head) => {
                    &&& event.sequence@ == head.sequence@ + 1
                    &&& event.previous_digest == Some(head.digest)
                    &&& head.recorded_at@ <= event.recorded_at@
                },
            }
            &&& event_digest_of(event) == Some(event.digest)
        },
        commitment(append, recorded_at, next) matches Err(e) ==> {
            ||| append.expected matches Some(head) && recorded_at@ < head.recorded_at@ && e == (
            JournalEventError::ClockRegression {
                previous: head.recorded_at,
                actual: recorded_at,
            })
            ||| append.expected matches Some(head) && head.recorded_at@ <= recorded_at@
                && head.sequence@ == 9223372036854775807 && e == JournalEventError::SequenceOverflow
            ||| e is Integrity
        },
        append.expected matches Some(head) ==> (recorded_at@ < head.recorded_at@ || head.sequence@
            == 9223372036854775807) ==> commitment(append, recorded_at, next) is Err,
{
}

/// An intent is what it was made of, and its digest is that of those parts.
pub proof fn intents_keep_their_parts(
    tenant_id: Seq<char>,
    run_id: RunId,
    event_id: EventId,
    source: EventSourceModel,
    payload: crate::journal::PayloadModel,
)
    ensures
        intent_of(tenant_id, run_id, event_id, source, payload) matches Ok(intent) ==> {
            &&& intent.tenant_id == tenant_id
            &&& intent.run_id == run_id
            &&& intent.event_id == event_id
            &&& intent.source == source
            &&& intent.payload == payload
            &&& source matches EventSourceModel::Worker { fence } ==> fence.tenant_id == tenant_id
                && fence.run_id == run_id
            &&& domain_digest(
                intent_domain(),
                intent_json(tenant_id, run_id, event_id, source, payload.digest),
            ) == Some(intent.intent_digest)
        },
        source == EventSourceModel::ControlPlane && domain_digest(
            intent_domain(),
            intent_json(tenant_id, run_id, event_id, source, payload.digest),
        ) is Some ==> intent_of(tenant_id, run_id, event_id, source, payload) is Ok,
{
}

/// An event is the answer to an intent only if it is of the same tenant and run,
/// under the same identifier, from the same source, with the same payload.
pub proof fn matching_events_agree(event: EventModel, intent: IntentModel)
    ensures
        event_matches(event, intent) ==> {
            &&& event.tenant_id == intent.tenant_id
            &&& event.run_id == intent.run_id
            &&& event.event_id == intent.event_id
            &&& event.source == intent.source
            &&& event.payload.schema == intent.payload.schema
            &&& event.payload.kind == intent.payload.kind
            &&& event.payload.digest == intent.payload.digest
            &&& event.intent_digest == intent.intent_digest
            &&& crate::json_value::json_alike(event.payload.data, intent.payload.data)
        },
{
}

// ---------------------------------------------------------------------------
// What digests bind
// ---------------------------------------------------------------------------

proof fn numbers_read_apart(a: u64, b: u64)
    requires
        crate::decimal::decimal_text(a as nat) == crate::decimal::decimal_text(b as nat),
    ensures
        a == b,
{
    written_decimal_reads_back(a, 18446744073709551615);
    written_decimal_reads_back(b, 18446744073709551615);
}

proof fn digests_read_apart(a: Seq<u8>, b: Seq<u8>)
    requires
        a.len() == 32,
        b.len() == 32,
        crate::digest::digest_text(a) == crate::digest::digest_text(b),
    ensures
        a == b,
{
    written_digest_reads_back(a);
    written_digest_reads_back(b);
}

/// Two sources with one JSON form are one.
pub proof fn sources_read_apart(a: EventSourceModel, b: EventSourceModel)
    requires
        crate::journal::source_json(a) == crate::journal::source_json(b),
    ensures
        a == b,
{
    broadcast use RunId::view_determines, AttemptId::view_determines, FencingEpoch::view_determines;

    let (x, y) = (
        crate::journal::source_json(a)->Object_0,
        crate::journal::source_json(b)->Object_0,
    );
    assert(x.len() == y.len());
    match (a, b) {
        (EventSourceModel::Worker { fence: f }, EventSourceModel::Worker { fence: g }) => {
            assert(x[1].value == fence_json(f));
            assert(y[1].value == fence_json(g));
            let (p, q) = (fence_json(f)->Object_0, fence_json(g)->Object_0);
            assert(p[0].value == q[0].value);
            assert(p[1].value == q[1].value);
            assert(p[2].value == q[2].value);
            assert(p[3].value == q[3].value);
            uuid_text_injective(f.run_id@, g.run_id@);
            uuid_text_injective(f.attempt_id@, g.attempt_id@);
            numbers_read_apart(f.epoch@, g.epoch@);
        },
        _ => {},
    }
}

/// The digest of an intent binds everything that the intent says: two intents
/// whose digests are computed of the same are of the same tenant, run, event,
/// source and payload.
pub proof fn intent_digest_binds_the_intent(a: IntentModel, b: IntentModel)
    requires
        a.payload.digest.len() == 32,
        b.payload.digest.len() == 32,
        intent_json(a.tenant_id, a.run_id, a.event_id, a.source, a.payload.digest) == intent_json(
            b.tenant_id,
            b.run_id,
            b.event_id,
            b.source,
            b.payload.digest,
        ),
    ensures
        a.tenant_id == b.tenant_id,
        a.run_id == b.run_id,
        a.event_id == b.event_id,
        a.source == b.source,
        a.payload.digest == b.payload.digest,
{
    broadcast use RunId::view_determines, EventId::view_determines;

    let (x, y) = (
        intent_json(a.tenant_id, a.run_id, a.event_id, a.source, a.payload.digest)->Object_0,
        intent_json(b.tenant_id, b.run_id, b.event_id, b.source, b.payload.digest)->Object_0,
    );
    assert(x[0].value == y[0].value);
    assert(x[1].value == y[1].value);
    assert(x[2].value == y[2].value);
    assert(x[3].value == y[3].value);
    assert(x[4].value == y[4].value);
    uuid_text_injective(a.run_id@, b.run_id@);
    uuid_text_injective(a.event_id@, b.event_id@);
    sources_read_apart(a.source, b.source);
    digests_read_apart(a.payload.digest, b.payload.digest);
}

/// The digest of an event binds everything that the event says: two events whose
/// digests are computed of the same agree in tenant, run, number, identifier,
/// time, payload, intent and predecessor.
pub proof fn event_digest_binds_the_event(a: EventModel, b: EventModel)
    requires
        moment_supported(a.recorded_at@),
        moment_supported(b.recorded_at@),
        a.payload_digest.len() == 32,
        b.payload_digest.len() == 32,
        a.intent_digest.len() == 32,
        b.intent_digest.len() == 32,
        a.previous_digest matches Some(digest) ==> digest.len() == 32,
        b.previous_digest matches Some(digest) ==> digest.len() == 32,
        event_json(a) == event_json(b),
    ensures
        a.tenant_id == b.tenant_id,
        a.run_id == b.run_id,
        a.sequence@ == b.sequence@,
        a.event_id == b.event_id,
        a.recorded_at@ == b.recorded_at@,
        a.payload_digest == b.payload_digest,
        a.intent_digest == b.intent_digest,
        a.previous_digest == b.previous_digest,
{
    broadcast use RunId::view_determines, EventId::view_determines;

    let (x, y) = (event_json(a)->Object_0, event_json(b)->Object_0);
    assert(x[0].value == y[0].value);
    assert(x[1].value == y[1].value);
    assert(x[2].value == y[2].value);
    assert(x[3].value == y[3].value);
    assert(x[4].value == y[4].value);
    assert(x[5].value == y[5].value);
    assert(x[6].value == y[6].value);
    assert(x[7].value == y[7].value);
    uuid_text_injective(a.run_id@, b.run_id@);
    uuid_text_injective(a.event_id@, b.event_id@);
    numbers_read_apart(a.sequence@, b.sequence@);
    timestamp_texts_are_distinct(a.recorded_at@, b.recorded_at@);
    digests_read_apart(a.payload_digest, b.payload_digest);
    digests_read_apart(a.intent_digest, b.intent_digest);
    match (a.previous_digest, b.previous_digest) {
        (Some(p), Some(q)) => digests_read_apart(p, q),
        _ => {},
    }
}

/// The digests of an event and of an intent are computed under domains of their
/// own, and of nothing else.
pub proof fn digests_have_domains_of_their_own(event: EventModel)
    ensures
        event_digest_of(event) == domain_digest(
            encode_utf8("stateknot-journal-event-v1"@).push(0u8),
            event_json(event),
        ),
        intent_domain() == encode_utf8("stateknot-journal-intent-v1"@).push(0u8),
        event_domain() != intent_domain(),
{
    reveal_strlit("stateknot-journal-event-v1");
    reveal_strlit("stateknot-journal-intent-v1");
    let (a, b) = ("stateknot-journal-event-v1"@, "stateknot-journal-intent-v1"@);
    assert(vstd::utf8::is_ascii_chars(a));
    assert(vstd::utf8::is_ascii_chars(b));
    crate::text::ascii_utf8(a);
    crate::text::ascii_utf8(b);
    assert(event_domain().len() != intent_domain().len());
}

} // verus!
