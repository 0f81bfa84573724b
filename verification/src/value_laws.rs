//! What holds of values that are checked on their own: messages, failures,
//! numbers and limits.

use vstd::prelude::*;
use vstd::utf8::encode_utf8;

use crate::canonical::{canonical_bytes, canonical_check, has_unsafe_integer, CanonicalJsonError};
use crate::content::{ContentSource, ContentTrust};
use crate::extension::{extension_limits_check, ExtensionLimitsModel};
use crate::failure::{
    advice_of, details_limits, recovery_check, FailureBuildError, FailureCategory, RetryAdvice,
    RetryAdviceError, RetryAdviceKind,
};
use crate::ids::{generated_bits, generated_id, uuid_text, GeneratedIdError};
use crate::journal::{sequence_check, JournalSequenceError};
use crate::json::{default_limits, limits_check, maximum_limits, LimitsModel};
use crate::json_value::{json_text, json_text_size, Json, NumberModel};
use crate::language::{language_check, LanguageModel};
use crate::lease::{epoch_check, FencingEpochError};
use crate::message::{
    accepts_producer, accepts_source, instruction_check, instruction_digest, message_check,
    part_bytes, parts_bytes, parts_check, parts_failure, producer_kind, InstructionContentModel,
    MessageRole, PartModel, ProducerModel, ProvenanceModel,
};
use crate::pins::{schema_id_check, SchemaIdError};
use crate::time::DurationMillis;
use crate::uri::UriModel;

verus! {

// ---------------------------------------------------------------------------
// Messages
// ---------------------------------------------------------------------------

/// A principal speaks as a user, a model or a capability as the assistant, and a
/// tool as a tool. No one speaks otherwise.
pub proof fn producers_speak_in_their_role(role: MessageRole, producer: ProducerModel)
    ensures
        accepts_producer(role, producer_kind(producer)) <==> match producer {
            ProducerModel::Principal { principal } => role == MessageRole::User,
            ProducerModel::ModelAttempt { attempt_id } => role == MessageRole::Assistant,
            ProducerModel::Capability { owner, capability } => role == MessageRole::Assistant,
            ProducerModel::ToolInvocation { owner, capability, invocation_id } => role
                == MessageRole::Tool,
        },
{
}

/// Stored artifacts may stand in every message. What a user typed stands in that
/// of a user, what a model wrote in that of the assistant, what a tool gave in
/// that of a tool; what the application or a remote agent gave in both of the
/// first.
pub proof fn sources_stand_in_their_role(role: MessageRole, source: ContentSource)
    ensures
        accepts_source(role, source) <==> match source {
            ContentSource::Artifact => true,
            ContentSource::User => role == MessageRole::User,
            ContentSource::Model => role == MessageRole::Assistant,
            ContentSource::Tool => role == MessageRole::Tool,
            ContentSource::RemoteAgent => role != MessageRole::Tool,
            ContentSource::Application => role != MessageRole::Tool,
        },
{
}

/// An accepted message has a producer and sources of its role.
pub proof fn accepted_messages_keep_their_role(
    role: MessageRole,
    parts: Seq<PartModel>,
    provenance: ProvenanceModel,
)
    requires
        message_check(role, parts, provenance) is Ok,
    ensures
        provenance.producer is Principal ==> role == MessageRole::User,
        provenance.producer is ToolInvocation ==> role == MessageRole::Tool,
        provenance.producer is ModelAttempt || provenance.producer is Capability ==> role
            == MessageRole::Assistant,
        forall|i: int|
            0 <= i < parts.len() ==> part_stands(role, #[trigger] parts[i]),
{
    crate::message::message_accepted_exactly(role, parts, provenance);
    assert forall|i: int| 0 <= i < parts.len() implies part_stands(role, #[trigger] parts[i]) by {
        assert(accepts_source(role, crate::message::part_metadata(parts[i]).source));
    }
}

/// The part is of a source that may stand in a message of the role.
pub open spec fn part_stands(role: MessageRole, part: PartModel) -> bool {
    let source = match part {
        PartModel::Text(content) => content.metadata.source,
        PartModel::Json(content) => content.metadata.source,
        PartModel::Artifact(content) => content.metadata.source,
    };
    match source {
        ContentSource::Artifact => true,
        ContentSource::User => role == MessageRole::User,
        ContentSource::Model => role == MessageRole::Assistant,
        ContentSource::Tool => role == MessageRole::Tool,
        ContentSource::RemoteAgent => role != MessageRole::Tool,
        ContentSource::Application => role != MessageRole::Tool,
    }
}

/// An instruction is under the control of the application, and its text comes
/// from there too. Its digest is that of the bytes of its text, or that of the
/// stored artifact.
pub proof fn instructions_are_controlled(content: InstructionContentModel)
    ensures
        instruction_check(content) is Ok <==> match content {
            InstructionContentModel::Text(text) => text.metadata.trust
                == ContentTrust::ApplicationControlled && text.metadata.source
                == ContentSource::Application,
            InstructionContentModel::Artifact(artifact) => artifact.metadata.trust
                == ContentTrust::ApplicationControlled,
        },
        content matches InstructionContentModel::Text(text) ==> instruction_digest(content)
            == crate::digest::sha256_hash(encode_utf8(text.text)),
        content matches InstructionContentModel::Artifact(artifact) ==> instruction_digest(content)
            == artifact.digest,
{
}

/// A part carries the bytes of its text, or of the compact text of its JSON; an
/// artifact carries none.
pub proof fn parts_carry_their_bytes(part: PartModel)
    ensures
        part_bytes(part) == match part {
            PartModel::Text(content) => encode_utf8(content.text).len(),
            PartModel::Json(content) => encode_utf8(json_text(content.value)).len(),
            PartModel::Artifact(content) => 0,
        },
{
    if let PartModel::Json(content) = part {
        json_text_size(content.value);
    }
}

proof fn bytes_grow(parts: Seq<PartModel>, n: int, m: int)
    requires
        0 <= n <= m <= parts.len(),
    ensures
        parts_bytes(parts.take(n)) <= parts_bytes(parts.take(m)),
    decreases m - n,
{
    if n < m {
        bytes_grow(parts, n, m - 1);
        assert(parts.take(m).drop_last() =~= parts.take(m - 1));
    }
}

proof fn parts_fail_exactly(parts: Seq<PartModel>, n: int)
    requires
        0 <= n <= parts.len(),
    ensures
        parts_failure(parts, n) is None <==> n <= 64 && parts_bytes(parts.take(n)) <= 2097152,
    decreases n,
{
    if n > 0 {
        parts_fail_exactly(parts, n - 1);
        bytes_grow(parts, n - 1, n);
    } else {
        assert(parts.take(0) =~= Seq::<PartModel>::empty());
    }
}

/// A message has 1 to 64 parts, which carry at most 2097152 bytes together.
pub proof fn parts_accepted_exactly(parts: Seq<PartModel>)
    ensures
        parts_check(parts) is Ok <==> 0 < parts.len() <= 64 && parts_bytes(parts) <= 2097152,
{
    parts_fail_exactly(parts, parts.len() as int);
    assert(parts.take(parts.len() as int) =~= parts);
}

// ---------------------------------------------------------------------------
// Failures
// ---------------------------------------------------------------------------

/// Advice to wait comes with a delay, and no other does.
pub proof fn advice_has_a_delay_exactly_to_wait(
    kind: RetryAdviceKind,
    delay: Option<DurationMillis>,
)
    ensures
        advice_of(kind, delay) is Ok <==> (kind == RetryAdviceKind::SafeAfter <==> delay is Some),
        advice_of(kind, delay) matches Ok(advice) ==> match kind {
            RetryAdviceKind::Never => advice == RetryAdvice::Never,
            RetryAdviceKind::ReconcileFirst => advice == RetryAdvice::ReconcileFirst,
            RetryAdviceKind::SafeAfter => delay matches Some(delay) && advice == (
            RetryAdvice::SafeAfter { delay }),
        },
        advice_of(kind, delay) matches Err(e) ==> e == (if delay is Some {
            RetryAdviceError::UnexpectedDelay
        } else {
            RetryAdviceError::MissingDelay
        }),
{
}

/// An outcome that is unknown is to be reconciled, and only such a one is; a
/// refusal says which of the two was missing.
pub proof fn unknown_outcomes_are_reconciled(category: FailureCategory, advice: RetryAdvice)
    ensures
        recovery_check(category, advice) is Ok <==> (category
            == FailureCategory::AmbiguousExternalOutcome <==> advice
            == RetryAdvice::ReconcileFirst),
        recovery_check(category, advice) matches Err(e) ==> e == (if category
            == FailureCategory::AmbiguousExternalOutcome {
            FailureBuildError::AmbiguousOutcomeRequiresReconciliation
        } else {
            FailureBuildError::ReconciliationRequiresAmbiguousOutcome
        }),
{
}

/// The details of a failure are bounded more tightly than other JSON.
pub proof fn details_are_tightly_bounded()
    ensures
        details_limits().max_bytes == 16 * 1024,
        details_limits().max_depth == 8,
        details_limits().max_container_entries == 64,
        details_limits().max_nodes == 512,
        details_limits().max_string_bytes == 4 * 1024,
        details_limits().max_object_key_bytes == 128,
{
}

// ---------------------------------------------------------------------------
// Language tags
// ---------------------------------------------------------------------------

/// A tag is accepted exactly if it has 1 to 255 bytes, reads as a tag, and
/// repeats neither a variant nor a singleton. It then is the lowercase of what
/// was read.
pub proof fn tags_accepted_exactly(text: Seq<char>, parsed: Option<LanguageModel>)
    ensures
        language_check(text, parsed) is Ok <==> {
            &&& 1 <= encode_utf8(text).len() <= 255
            &&& parsed matches Some(tag)
            &&& forall|i: int, j: int|
                0 <= i < j < tag.variants.len() ==> #[trigger] tag.variants[i]
                    != #[trigger] tag.variants[j]
            &&& forall|i: int, j: int|
                0 <= i < j < tag.singletons.len() ==> #[trigger] tag.singletons[i]
                    != #[trigger] tag.singletons[j]
        },
        language_check(text, parsed) matches Ok(canonical) ==> canonical.len()
            == parsed->0.text.len() && forall|i: int|
            0 <= i < canonical.len() ==> {
                let (c, d) = (#[trigger] canonical[i], parsed->0.text[i]);
                if 65 <= (d as u32) <= 90 {
                    c as u32 == d as u32 + 32
                } else {
                    c == d
                }
            },
{
    if let Some(tag) = parsed {
        if forall|i: int, j: int|
            0 <= i < j < tag.variants.len() ==> #[trigger] tag.variants[i]
                != #[trigger] tag.variants[j] {
            assert(tag.variants.no_duplicates());
        }
        if forall|i: int, j: int|
            0 <= i < j < tag.singletons.len() ==> #[trigger] tag.singletons[i]
                != #[trigger] tag.singletons[j] {
            assert(tag.singletons.no_duplicates());
        }
    }
}

// ---------------------------------------------------------------------------
// Identifiers and numbers
// ---------------------------------------------------------------------------

/// A generated identifier is a UUID of version 7 and of the RFC variant: the
/// thirteenth hexadecimal digit is 7, and the lower half begins with the bits 10.
pub proof fn identifiers_are_of_version_seven(bits: u128)
    ensures
        generated_bits(bits) is Ok <==> (bits >> 76) & 0xf == 7 && (bits >> 62) & 3 == 2,
        generated_bits(bits) matches Ok(same) ==> same == bits,
{
    let version: u128 = (bits >> 76) & 0xf;
    let variant: u128 = (bits >> 62) & 3;
    assert(version == (bits / 0x1000_0000_0000_0000_0000u128) % 16) by (bit_vector)
        requires
            version == (bits >> 76) & 0xf,
    ;
    assert(variant == (bits / 0x4000_0000_0000_0000u128) % 4) by (bit_vector)
        requires
            variant == (bits >> 62) & 3,
    ;
}

/// The text of an identifier is accepted exactly if it reads as a UUID, is the
/// canonical text of that UUID, and the UUID is a generated one.
pub proof fn identifier_texts_accepted_exactly(parsed: Option<u128>, text: Seq<char>)
    ensures
        generated_id(parsed, text) is Ok <==> (parsed matches Some(bits) && text == uuid_text(bits)
            && generated_bits(bits) is Ok),
        generated_id(parsed, text) matches Ok(bits) ==> parsed == Some(bits),
        parsed is None <==> generated_id(parsed, text) == Err::<u128, GeneratedIdError>(
            GeneratedIdError::InvalidUuid,
        ),
{
}

/// The identity of a schema is a URI of 1 to 512 bytes; a refusal says which of
/// these it is not.
pub proof fn schema_ids_accepted_exactly(bytes: Seq<u8>, parsed: Option<UriModel>)
    ensures
        schema_id_check(bytes, parsed) is Ok <==> 0 < bytes.len() <= 512 && parsed is Some,
        schema_id_check(bytes, parsed) == Err::<(), SchemaIdError>(SchemaIdError::Empty)
            <==> bytes.len() == 0,
        schema_id_check(bytes, parsed) == Err::<(), SchemaIdError>(SchemaIdError::InvalidUri)
            <==> 0 < bytes.len() <= 512 && parsed is None,
{
}

/// Epochs and sequence numbers run from 1 to the largest signed number of 64
/// bits.
pub proof fn ordinals_accepted_exactly(value: u64)
    ensures
        epoch_check(value) is Ok <==> 0 < value && value < 0x8000_0000_0000_0000,
        sequence_check(value) is Ok <==> 0 < value && value < 0x8000_0000_0000_0000,
        epoch_check(value) matches Ok(same) ==> same == value,
        sequence_check(value) matches Ok(same) ==> same == value,
        epoch_check(value) == Err::<u64, FencingEpochError>(FencingEpochError::Zero) <==> value
            == 0,
        sequence_check(value) == Err::<u64, JournalSequenceError>(JournalSequenceError::Zero)
            <==> value == 0,
{
}

// ---------------------------------------------------------------------------
// JSON
// ---------------------------------------------------------------------------

/// Limits on JSON are accepted exactly if none is zero and none is above the
/// hard maximum.
pub proof fn json_limits_accepted_exactly(limits: LimitsModel)
    ensures
        limits_check(limits) is Ok <==> {
            &&& 0 < limits.max_bytes <= 2 * 1024 * 1024
            &&& 0 < limits.max_depth <= 64
            &&& 0 < limits.max_container_entries <= 8192
            &&& 0 < limits.max_nodes <= 131072
            &&& 0 < limits.max_string_bytes <= 1024 * 1024
            &&& 0 < limits.max_object_key_bytes <= 1024
        },
        limits_check(default_limits()) is Ok,
        limits_check(maximum_limits()) is Ok,
{
}

/// Limits on extensions are accepted exactly between their minimum and the hard
/// maximum, and those on their values no wider than the default.
pub proof fn extension_limits_accepted_exactly(limits: ExtensionLimitsModel)
    ensures
        extension_limits_check(limits) is Ok <==> {
            let json = limits.value_json_limits;
            &&& 1 <= limits.max_entries <= 64
            &&& 2 <= limits.max_total_bytes <= 256 * 1024
            &&& 1 <= limits.max_key_bytes <= 512
            &&& json.max_bytes <= 256 * 1024
            &&& json.max_depth <= 32
            &&& json.max_container_entries <= 1024
            &&& json.max_nodes <= 16384
            &&& json.max_string_bytes <= 64 * 1024
            &&& json.max_object_key_bytes <= 256
        },
{
}

/// Some integer of the value is outside the range that doubles hold exactly.
pub open spec fn holds_large_integer(value: Json) -> bool
    decreases value,
{
    match value {
        Json::Number(NumberModel::Unsigned(n)) => n >= 0x20_0000_0000_0000,
        Json::Number(NumberModel::Negative(n)) => n <= -0x20_0000_0000_0000,
        Json::Array(items) => exists|i: int|
            0 <= i < items.len() && holds_large_integer(#[trigger] items[i]),
        Json::Object(members) => exists|i: int|
            0 <= i < members.len() && holds_large_integer((#[trigger] members[i]).value),
        _ => false,
    }
}

proof fn large_integers_are_found(value: Json)
    ensures
        has_unsafe_integer(value) <==> holds_large_integer(value),
    decreases value,
{
    match value {
        Json::Array(items) => {
            assert forall|i: int| 0 <= i < items.len() implies (has_unsafe_integer(
                #[trigger] items[i],
            ) <==> holds_large_integer(items[i])) by {
                large_integers_are_found(items[i]);
            }
        },
        Json::Object(members) => {
            assert forall|i: int| 0 <= i < members.len() implies (has_unsafe_integer(
                (#[trigger] members[i]).value,
            ) <==> holds_large_integer(members[i].value)) by {
                large_integers_are_found(members[i].value);
            }
        },
        _ => {},
    }
}

/// A value has a canonical form exactly if it holds no integer that a double
/// would not hold, and can be written.
pub proof fn canonical_forms_exist_exactly(value: Json)
    ensures
        canonical_check(value) is Ok <==> !holds_large_integer(value) && canonical_bytes(
            value,
        ) is Some,
        canonical_check(value) matches Ok(bytes) ==> Some(bytes) == canonical_bytes(value),
        holds_large_integer(value) <==> canonical_check(value) == Err::<
            Seq<u8>,
            CanonicalJsonError,
        >(CanonicalJsonError::IntegerOutsideIJsonSafeRange),
{
    large_integers_are_found(value);
}

} // verus!
