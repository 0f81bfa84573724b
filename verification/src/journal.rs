//! The append-only journal of a run: integrity-bound events and their chain.

use vstd::prelude::*;
use vstd::utf8::encode_utf8;

use crate::canonical::{
    canonical_check, domain_digest, domain_separated_digest, CanonicalJson, CanonicalJsonError,
};
use crate::debug::{
    entry_string, entry_text, is_alternate, name_string, name_text, option_string, struct_string,
    struct_text, tuple_string, tuple_text, write_text,
};
use crate::decimal::{
    decimal_string, decimal_text, parse_bounded_u64, parsed_decimal, UnsignedDecimalError,
};
use crate::digest::{digest_shown, digest_text, sha256_hash, Digest};
use crate::ids::{generated_shown, uuid_text, EventId, RunId, TenantId};
use crate::json::{
    json_equal, maximum_limits, normal, stats_shown, tally_document, BoundedJson, BoundedJsonError,
    JsonLimits,
};
use crate::json_laws::measure;
use crate::json_value::{alike_is_reflexive, Json, JsonMember, JsonValue, Member};
use crate::lease::{
    fence_json, fence_shown, write_check, FenceModel, RunFence, RunLease, RunLeaseValidationError,
};
use crate::options::{option_digest, option_ref_view, option_view, same_digests};
use crate::pins::{schema_json, schema_shown, SchemaModel, SchemaReference};
use crate::text::{admits, byte_is_lower, class_admits, is_lower, texts, ByteClass};
use crate::time::{timestamp_text, Timestamp};

verus! {

// ---------------------------------------------------------------------------
// Sequences and kinds
// ---------------------------------------------------------------------------

/// The position of an event in the journal of its run, counted from one.
#[derive(Clone, Copy, PartialEq, Eq, PartialOrd, Ord, Hash, Structural)]
pub struct JournalSequence {
    value: u64,
}

/// Rejected journal sequence.
#[derive(Clone, Copy, Debug, PartialEq, Eq, Structural)]
pub enum JournalSequenceError {
    /// The number is zero.
    Zero,
    /// The number exceeds a signed 64-bit column.
    AboveMaximum,
    /// The text is empty or not all digits.
    InvalidFormat,
    /// The text has a leading zero.
    NonCanonical,
}

/// What the rules say of the number of a journal sequence.
pub open spec fn sequence_check(value: u64) -> Result<u64, JournalSequenceError> {
    if value == 0 {
        Err(JournalSequenceError::Zero)
    } else if value > 9223372036854775807 {
        Err(JournalSequenceError::AboveMaximum)
    } else {
        Ok(value)
    }
}

/// What the bytes of the text of a journal sequence say.
pub open spec fn parsed_sequence(bytes: Seq<u8>) -> Result<u64, JournalSequenceError> {
    match parsed_decimal(bytes, 9223372036854775807) {
        Ok(value) => sequence_check(value),
        Err(UnsignedDecimalError::Empty) => Err(JournalSequenceError::InvalidFormat),
        Err(UnsignedDecimalError::InvalidCharacter { .. }) => Err(JournalSequenceError::InvalidFormat),
        Err(UnsignedDecimalError::LeadingZero) => Err(JournalSequenceError::NonCanonical),
        Err(UnsignedDecimalError::TooLong { .. }) => Err(JournalSequenceError::AboveMaximum),
        Err(UnsignedDecimalError::Overflow) => Err(JournalSequenceError::AboveMaximum),
    }
}

impl View for JournalSequence {
    type V = u64;

    closed spec fn view(&self) -> u64 {
        self.value
    }
}

impl JournalSequence {
    /// The number is positive and fits a signed 64-bit column.
    #[verifier::type_invariant]
    pub open spec fn well_formed(&self) -> bool {
        1 <= self@ <= 9223372036854775807
    }

    /// A journal sequence is its number.
    pub broadcast proof fn view_determines(a: JournalSequence, b: JournalSequence)
        ensures
            #![trigger a.view(), b.view()]
            a.view() == b.view() ==> a == b,
    {
    }

    /// Returns the first journal sequence.
    pub fn first() -> (r: JournalSequence)
        ensures
            r@ == 1,
    {
        JournalSequence { value: 1 }
    }

    /// Returns the last journal sequence.
    pub fn max() -> (r: JournalSequence)
        ensures
            r@ == 9223372036854775807,
    {
        JournalSequence { value: 9223372036854775807 }
    }

    /// Validates a number.
    pub fn new(value: u64) -> (r: Result<JournalSequence, JournalSequenceError>)
        ensures
            match (r, sequence_check(value)) {
                (Ok(made), Ok(_)) => made@ == value,
                (Err(e), Err(expected)) => e == expected,
                _ => false,
            },
    {
        if value == 0 {
            return Err(JournalSequenceError::Zero);
        }
        if value > 9223372036854775807 {
            return Err(JournalSequenceError::AboveMaximum);
        }
        Ok(JournalSequence { value })
    }

    /// Returns the number.
    pub fn get(self) -> (r: u64)
        ensures
            r == self@,
            self.well_formed(),
    {
        proof {
            use_type_invariant(&self);
        }
        self.value
    }

    /// Returns the next journal sequence, or `None` after the last.
    pub fn checked_next(self) -> (r: Option<JournalSequence>)
        ensures
            r is Some <==> self@ < 9223372036854775807,
            r matches Some(next) ==> next@ == self@ + 1,
    {
        proof {
            use_type_invariant(&self);
        }
        if self.value == 9223372036854775807 {
            None
        } else {
            Some(JournalSequence { value: self.value + 1 })
        }
    }

    /// Parses canonical decimal text.
    pub fn parse(value: &str) -> (r: Result<JournalSequence, JournalSequenceError>)
        ensures
            match (r, parsed_sequence(encode_utf8(value@))) {
                (Ok(made), Ok(number)) => made@ == number,
                (Err(e), Err(expected)) => e == expected,
                _ => false,
            },
    {
        match parse_bounded_u64(value, 9223372036854775807) {
            Ok(number) => JournalSequence::new(number),
            Err(UnsignedDecimalError::Empty) => Err(JournalSequenceError::InvalidFormat),
            Err(UnsignedDecimalError::InvalidCharacter { index: _ }) => Err(JournalSequenceError::InvalidFormat),
            Err(UnsignedDecimalError::LeadingZero) => Err(JournalSequenceError::NonCanonical),
            Err(UnsignedDecimalError::TooLong { max: _, actual: _ }) => Err(JournalSequenceError::AboveMaximum),
            Err(UnsignedDecimalError::Overflow) => Err(JournalSequenceError::AboveMaximum),
        }
    }

    /// Writes canonical decimal text.
    pub fn to_string(&self) -> (r: String)
        ensures
            r@ == decimal_text(self@ as nat),
    {
        decimal_string(self.value)
    }

    /// The text that `to_string` writes reads back as the same number.
    pub proof fn written_reads_back(self)
        requires
            self.well_formed(),
        ensures
            parsed_sequence(encode_utf8(decimal_text(self@ as nat))) == Ok::<u64, JournalSequenceError>(self@),
    {
        crate::decimal::written_decimal_reads_back(self@, 9223372036854775807);
    }
}

impl core::str::FromStr for JournalSequence {
    type Err = JournalSequenceError;

    fn from_str(value: &str) -> (r: Result<Self, Self::Err>)
        ensures
            match (r, parsed_sequence(encode_utf8(value@))) {
                (Ok(made), Ok(number)) => made@ == number,
                (Err(e), Err(expected)) => e == expected,
                _ => false,
            },
    {
        JournalSequence::parse(value)
    }
}

/// Rejected event kind.
#[derive(Clone, Copy, Debug, PartialEq, Eq, Structural)]
pub enum JournalEventKindError {
    /// The name has no bytes.
    Empty,
    /// The name is longer than the maximum.
    TooLong { maximum: usize, actual: usize },
    /// The first byte is not a lowercase letter.
    InvalidStart,
    /// The byte at this offset is outside the grammar.
    InvalidByte { index: usize },
    /// The hyphen at this offset is repeated or last.
    NonCanonicalSeparator { index: usize },
}

/// What the bytes from an offset on fail on.
pub open spec fn kind_failure(bytes: Seq<u8>, from: int) -> Option<JournalEventKindError>
    decreases bytes.len() - from,
{
    if from < 0 || from >= bytes.len() {
        None
    } else if !admits(ByteClass::LowerKebab, bytes[from]) {
        Some(JournalEventKindError::InvalidByte { index: from as usize })
    } else if bytes[from] == 45 && (from + 1 == bytes.len() || (from > 0 && bytes[from - 1]
        == 45)) {
        Some(JournalEventKindError::NonCanonicalSeparator { index: from as usize })
    } else {
        kind_failure(bytes, from + 1)
    }
}

/// What the grammar of event kinds says of the bytes.
pub open spec fn event_kind_check(bytes: Seq<u8>) -> Result<(), JournalEventKindError> {
    if bytes.len() == 0 {
        Err(JournalEventKindError::Empty)
    } else if bytes.len() > 96 {
        Err(JournalEventKindError::TooLong { maximum: 96, actual: bytes.len() as usize })
    } else if !is_lower(bytes[0]) {
        Err(JournalEventKindError::InvalidStart)
    } else {
        match kind_failure(bytes, 0) {
            Some(e) => Err(e),
            None => Ok(()),
        }
    }
}

/// The stable lower-kebab-case name of a kind of event.
#[derive(Eq, PartialOrd, Ord, Hash)]
pub struct JournalEventKind {
    text: String,
}

impl JournalEventKind {
    /// Maximum length in bytes.
    pub const MAX_LEN: usize = 96;

    /// The text satisfies the grammar.
    #[verifier::type_invariant]
    pub open spec fn well_formed(&self) -> bool {
        event_kind_check(encode_utf8(self@)) is Ok
    }

    /// Validates the text.
    pub fn new(value: &str) -> (r: Result<JournalEventKind, JournalEventKindError>)
        ensures
            match (r, event_kind_check(encode_utf8(value@))) {
                (Ok(id), Ok(())) => id@ == value@,
                (Err(e), Err(expected)) => e == expected,
                _ => false,
            },
    {
        let bytes = value.as_bytes();
        if bytes.len() == 0 {
            return Err(JournalEventKindError::Empty);
        }
        if bytes.len() > 96 {
            return Err(JournalEventKindError::TooLong { maximum: 96, actual: bytes.len() });
        }
        if !byte_is_lower(bytes[0]) {
            return Err(JournalEventKindError::InvalidStart);
        }
        let mut i: usize = 0;
        while i < bytes.len()
            invariant
                i <= bytes@.len(),
                kind_failure(bytes@, 0) == kind_failure(bytes@, i as int),
                bytes@ == encode_utf8(value@),
                0 < bytes@.len() <= 96,
                is_lower(bytes@[0]),
            decreases bytes@.len() - i,
        {
            let b: u8 = bytes[i];
            if !class_admits(ByteClass::LowerKebab, b) {
                return Err(JournalEventKindError::InvalidByte { index: i });
            }
            if b == 45 && (i + 1 == bytes.len() || (i > 0 && bytes[i - 1] == 45)) {
                return Err(JournalEventKindError::NonCanonicalSeparator { index: i });
            }
            i = i + 1;
        }
        Ok(JournalEventKind { text: value.to_owned() })
    }

    /// Returns the exact text.
    pub fn as_str(&self) -> (r: &str)
        ensures
            r@ == self@,
            self.well_formed(),
    {
        proof {
            use_type_invariant(self);
        }
        self.text.as_str()
    }

    /// Copies the exact text.
    pub fn to_string(&self) -> (r: String)
        ensures
            r@ == self@,
    {
        self.text.clone()
    }
}

impl View for JournalEventKind {
    type V = Seq<char>;

    /// The text.
    closed spec fn view(&self) -> Seq<char> {
        self.text@
    }
}

impl Clone for JournalEventKind {
    fn clone(&self) -> (r: Self)
        ensures
            r == *self,
    {
        proof {
            use_type_invariant(self);
        }
        JournalEventKind { text: self.text.clone() }
    }
}

impl PartialEq for JournalEventKind {
    fn eq(&self, other: &Self) -> (r: bool) {
        self.text.eq(&other.text)
    }
}

impl vstd::std_specs::cmp::PartialEqSpecImpl for JournalEventKind {
    open spec fn obeys_eq_spec() -> bool {
        true
    }

    open spec fn eq_spec(&self, other: &Self) -> bool {
        self@ == other@
    }
}

impl core::str::FromStr for JournalEventKind {
    type Err = JournalEventKindError;

    fn from_str(value: &str) -> (r: Result<Self, Self::Err>)
        ensures
            match (r, event_kind_check(encode_utf8(value@))) {
                (Ok(id), Ok(())) => id@ == value@,
                (Err(e), Err(expected)) => e == expected,
                _ => false,
            },
    {
        JournalEventKind::new(value)
    }
}

impl AsRef<str> for JournalEventKind {
    fn as_ref(&self) -> (r: &str)
        ensures
            r@ == self@,
    {
        self.as_str()
    }
}

// ---------------------------------------------------------------------------
// Payloads
// ---------------------------------------------------------------------------

/// Rejected payload.
#[derive(Clone, Copy, Debug, PartialEq, Eq, Structural)]
#[allow(inconsistent_fields)]
pub enum JournalPayloadError {
    /// The envelope could not be written.
    EnvelopeSerialization,
    /// The envelope exceeds the bounds of JSON values.
    EnvelopeBounds { source: BoundedJsonError },
    /// The envelope has no canonical form.
    Canonical { source: CanonicalJsonError },
    /// The canonical form has another digest than before.
    DigestChanged,
}

/// The envelope of a payload.
pub open spec fn envelope_json(schema: SchemaModel, kind: Seq<char>, data: Json) -> Json {
    Json::Object(
        seq![
            Member { name: "schema"@, value: schema_json(schema) },
            Member { name: "kind"@, value: Json::Text(kind) },
            Member { name: "data"@, value: data },
        ],
    )
}

/// The canonical bytes of an envelope, or what it fails on.
pub open spec fn envelope_bytes(schema: SchemaModel, kind: Seq<char>, data: Json) -> Result<
    Seq<u8>,
    JournalPayloadError,
> {
    let envelope = envelope_json(schema, kind, data);
    match tally_document(maximum_limits(), envelope) {
        Err(source) => Err(JournalPayloadError::EnvelopeBounds { source }),
        Ok(_) => match canonical_check(normal(envelope)) {
            Err(source) => Err(JournalPayloadError::Canonical { source }),
            Ok(bytes) => Ok(bytes),
        },
    }
}

/// What an event says, under a pinned schema.
pub struct JournalPayload {
    schema: SchemaReference,
    kind: JournalEventKind,
    data: BoundedJson,
    digest: Digest,
}

/// The values of [`JournalPayload`].
pub ghost struct PayloadModel {
    pub schema: SchemaModel,
    pub kind: Seq<char>,
    pub data: Json,
    pub digest: Seq<u8>,
}

/// What holds of every payload.
pub open spec fn payload_sound(payload: PayloadModel) -> bool {
    envelope_bytes(payload.schema, payload.kind, payload.data) matches Ok(bytes) && payload.digest
        == sha256_hash(bytes)
}

fn canonical_payload(schema: &SchemaReference, kind: &JournalEventKind, data: &BoundedJson) -> (r:
    Result<CanonicalJson, JournalPayloadError>)
    ensures
        match (r, envelope_bytes(schema@, kind@, data@)) {
            (Ok(canonical), Ok(bytes)) => canonical@ == bytes,
            (Err(e), Err(expected)) => e == expected,
            _ => false,
        },
{
    let members = vec![
        JsonMember::new("schema", schema.to_json()),
        JsonMember::new("kind", JsonValue::text(kind.as_str())),
        JsonMember::new("data", data.as_value().duplicate()),
    ];
    let envelope = JsonValue::object(members);
    assert(envelope@->Object_0 =~= envelope_json(schema@, kind@, data@)->Object_0);
    match BoundedJson::try_from_value_with_limits(envelope, JsonLimits::maximum()) {
        Err(source) => Err(JournalPayloadError::EnvelopeBounds { source }),
        Ok(bounded) => match CanonicalJson::new(&bounded) {
            Ok(canonical) => Ok(canonical),
            Err(source) => Err(JournalPayloadError::Canonical { source }),
        },
    }
}

impl View for JournalPayload {
    type V = PayloadModel;

    closed spec fn view(&self) -> PayloadModel {
        PayloadModel {
            schema: self.schema@,
            kind: self.kind@,
            data: self.data@,
            digest: self.digest@,
        }
    }
}

impl JournalPayload {
    /// The digest is that of the canonical envelope.
    #[verifier::type_invariant]
    pub open spec fn well_formed(&self) -> bool {
        payload_sound(self@)
    }

    /// Makes a payload.
    pub fn new(schema: SchemaReference, kind: JournalEventKind, data: BoundedJson) -> (r: Result<
        JournalPayload,
        JournalPayloadError,
    >)
        ensures
            match (r, envelope_bytes(schema@, kind@, data@)) {
                (Ok(payload), Ok(bytes)) => payload@ == (PayloadModel {
                    schema: schema@,
                    kind: kind@,
                    data: data@,
                    digest: sha256_hash(bytes),
                }),
                (Err(e), Err(expected)) => e == expected,
                _ => false,
            },
    {
        let canonical = canonical_payload(&schema, &kind, &data)?;
        let digest = canonical.digest();
        Ok(JournalPayload { schema, kind, data, digest })
    }

    /// Returns the pinned schema.
    pub fn schema(&self) -> (r: &SchemaReference)
        ensures
            r@ == self@.schema,
    {
        &self.schema
    }

    /// Returns the kind of event.
    pub fn kind(&self) -> (r: &JournalEventKind)
        ensures
            r@ == self@.kind,
    {
        &self.kind
    }

    /// Returns the data.
    pub fn data(&self) -> (r: &BoundedJson)
        ensures
            r@ == self@.data,
    {
        &self.data
    }

    /// Returns the digest of the canonical envelope.
    pub fn digest(&self) -> (r: Digest)
        ensures
            r@ == self@.digest,
            self.well_formed(),
    {
        proof {
            use_type_invariant(self);
        }
        self.digest
    }

    /// Computes the canonical envelope again. Its digest is the same.
    pub fn canonical_json(&self) -> (r: Result<CanonicalJson, JournalPayloadError>)
        ensures
            r matches Ok(canonical) && Ok::<Seq<u8>, JournalPayloadError>(canonical@)
                == envelope_bytes(self@.schema, self@.kind, self@.data) && sha256_hash(canonical@)
                == self@.digest,
    {
        proof {
            use_type_invariant(self);
        }
        let canonical = canonical_payload(&self.schema, &self.kind, &self.data)?;
        if canonical.digest() != self.digest {
            return Err(JournalPayloadError::DigestChanged);
        }
        Ok(canonical)
    }
}

impl Clone for JournalPayload {
    fn clone(&self) -> (r: Self)
        ensures
            r@ == self@,
    {
        proof {
            use_type_invariant(self);
        }
        JournalPayload {
            schema: self.schema.clone(),
            kind: self.kind.clone(),
            data: self.data.clone(),
            digest: self.digest,
        }
    }
}

/// The payloads carry equal JSON and agree in all else.
pub open spec fn payload_equal(a: PayloadModel, b: PayloadModel) -> bool {
    &&& a.schema == b.schema
    &&& a.kind == b.kind
    &&& json_equal(a.data, b.data)
    &&& a.digest == b.digest
}

impl PartialEq for JournalPayload {
    fn eq(&self, other: &Self) -> (r: bool) {
        self.schema == other.schema && self.kind == other.kind && self.data == other.data
            && self.digest == other.digest
    }
}

impl vstd::std_specs::cmp::PartialEqSpecImpl for JournalPayload {
    open spec fn obeys_eq_spec() -> bool {
        true
    }

    open spec fn eq_spec(&self, other: &Self) -> bool {
        payload_equal(self@, other@)
    }
}

impl Eq for JournalPayload {

}

// ---------------------------------------------------------------------------
// Intents
// ---------------------------------------------------------------------------

/// Who appends an event.
pub enum JournalEventSource {
    /// The trusted control plane.
    ControlPlane,
    /// A worker under a lease.
    Worker {
        /// The token of the lease.
        fence: RunFence,
    },
}

/// The values of [`JournalEventSource`].
pub ghost enum EventSourceModel {
    ControlPlane,
    Worker { fence: FenceModel },
}

impl View for JournalEventSource {
    type V = EventSourceModel;

    open spec fn view(&self) -> EventSourceModel {
        match self {
            JournalEventSource::ControlPlane => EventSourceModel::ControlPlane,
            JournalEventSource::Worker { fence } => EventSourceModel::Worker { fence: fence@ },
        }
    }
}

/// The token of a worker.
pub open spec fn source_fence(source: EventSourceModel) -> Option<FenceModel> {
    match source {
        EventSourceModel::ControlPlane => None,
        EventSourceModel::Worker { fence } => Some(fence),
    }
}

/// The JSON form of a source.
pub open spec fn source_json(source: EventSourceModel) -> Json {
    match source {
        EventSourceModel::ControlPlane => Json::Object(
            seq![Member { name: "kind"@, value: Json::Text("control_plane"@) }],
        ),
        EventSourceModel::Worker { fence } => Json::Object(
            seq![
                Member { name: "kind"@, value: Json::Text("worker"@) },
                Member { name: "fence"@, value: fence_json(fence) },
            ],
        ),
    }
}

impl JournalEventSource {
    /// Names the control plane.
    pub fn control_plane() -> (r: JournalEventSource)
        ensures
            r@ == EventSourceModel::ControlPlane,
    {
        JournalEventSource::ControlPlane
    }

    /// Names a worker.
    pub fn worker(fence: RunFence) -> (r: JournalEventSource)
        ensures
            r@ == (EventSourceModel::Worker { fence: fence@ }),
    {
        JournalEventSource::Worker { fence }
    }

    /// Returns the token of a worker.
    pub fn worker_fence(&self) -> (r: Option<&RunFence>)
        ensures
            option_ref_view(r) == source_fence(self@),
    {
        match self {
            JournalEventSource::ControlPlane => None,
            JournalEventSource::Worker { fence } => Some(fence),
        }
    }

    /// Writes the JSON form.
    pub fn to_json(&self) -> (r: JsonValue)
        ensures
            r@ == source_json(self@),
    {
        match self {
            JournalEventSource::ControlPlane => {
                let r = JsonValue::object(
                    vec![JsonMember::new("kind", JsonValue::text("control_plane"))],
                );
                assert(r@->Object_0 =~= source_json(self@)->Object_0);
                r
            },
            JournalEventSource::Worker { fence } => {
                let r = JsonValue::object(
                    vec![
                        JsonMember::new("kind", JsonValue::text("worker")),
                        JsonMember::new("fence", fence.to_json()),
                    ],
                );
                assert(r@->Object_0 =~= source_json(self@)->Object_0);
                r
            },
        }
    }
}

impl Clone for JournalEventSource {
    fn clone(&self) -> (r: Self)
        ensures
            r@ == self@,
    {
        match self {
            JournalEventSource::ControlPlane => JournalEventSource::ControlPlane,
            JournalEventSource::Worker { fence } => JournalEventSource::Worker {
                fence: fence.clone(),
            },
        }
    }
}

impl PartialEq for JournalEventSource {
    fn eq(&self, other: &Self) -> (r: bool) {
        match (self, other) {
            (JournalEventSource::ControlPlane, JournalEventSource::ControlPlane) => true,
            (
                JournalEventSource::Worker { fence: a },
                JournalEventSource::Worker { fence: b },
            ) => *a == *b,
            _ => false,
        }
    }
}

impl vstd::std_specs::cmp::PartialEqSpecImpl for JournalEventSource {
    open spec fn obeys_eq_spec() -> bool {
        true
    }

    open spec fn eq_spec(&self, other: &Self) -> bool {
        self@ == other@
    }
}

impl Eq for JournalEventSource {

}

/// A digest that could not be computed.
#[derive(Clone, Copy, Debug, PartialEq, Eq, Structural)]
pub enum JournalIntegrityError {
    /// The preimage has no canonical form.
    CanonicalSerialization,
}

/// Rejected intent.
#[derive(Clone, Copy, Debug, PartialEq, Eq, Structural)]
pub enum JournalIntentError {
    /// The token names another tenant.
    FenceTenantMismatch,
    /// The token names another run.
    FenceRunMismatch,
    /// The digest of the intent could not be computed.
    Integrity { source: JournalIntegrityError },
    /// The intent does not have the given digest.
    IntentDigestMismatch,
}

/// What a source fails on as that of an event of the run.
pub open spec fn scope_check(tenant_id: Seq<char>, run_id: RunId, source: EventSourceModel) -> Result<
    (),
    JournalIntentError,
> {
    match source_fence(source) {
        None => Ok(()),
        Some(fence) => if fence.tenant_id != tenant_id {
            Err(JournalIntentError::FenceTenantMismatch)
        } else if fence.run_id != run_id {
            Err(JournalIntentError::FenceRunMismatch)
        } else {
            Ok(())
        },
    }
}

/// The bytes of `stateknot-journal-intent-v1` and a zero byte.
pub open spec fn intent_domain() -> Seq<u8> {
    encode_utf8("stateknot-journal-intent-v1"@).push(0u8)
}

/// What the digest of an intent is computed of.
pub open spec fn intent_json(
    tenant_id: Seq<char>,
    run_id: RunId,
    event_id: EventId,
    source: EventSourceModel,
    payload_digest: Seq<u8>,
) -> Json {
    Json::Object(
        seq![
            Member { name: "tenant_id"@, value: Json::Text(tenant_id) },
            Member { name: "run_id"@, value: Json::Text(uuid_text(run_id@)) },
            Member { name: "event_id"@, value: Json::Text(uuid_text(event_id@)) },
            Member { name: "source"@, value: source_json(source) },
            Member { name: "payload_digest"@, value: Json::Text(digest_text(payload_digest)) },
        ],
    )
}

/// The digest of an intent.
pub open spec fn intent_digest_of(
    tenant_id: Seq<char>,
    run_id: RunId,
    event_id: EventId,
    source: EventSourceModel,
    payload_digest: Seq<u8>,
) -> Option<Seq<u8>> {
    domain_digest(
        intent_domain(),
        intent_json(tenant_id, run_id, event_id, source, payload_digest),
    )
}

fn validate_source_scope(tenant_id: &TenantId, run_id: RunId, source: &JournalEventSource) -> (r:
    Result<(), JournalIntentError>)
    ensures
        r == scope_check(tenant_id@, run_id, source@),
{
    if let Some(fence) = source.worker_fence() {
        if *fence.tenant_id() != *tenant_id {
            return Err(JournalIntentError::FenceTenantMismatch);
        }
        if fence.run_id() != run_id {
            return Err(JournalIntentError::FenceRunMismatch);
        }
    }
    Ok(())
}

fn compute_intent_digest(
    tenant_id: &TenantId,
    run_id: RunId,
    event_id: EventId,
    source: &JournalEventSource,
    payload_digest: Digest,
) -> (r: Result<Digest, JournalIntegrityError>)
    ensures
        match (r, intent_digest_of(tenant_id@, run_id, event_id, source@, payload_digest@)) {
            (Ok(digest), Some(expected)) => digest@ == expected,
            (Err(e), None) => e == JournalIntegrityError::CanonicalSerialization,
            _ => false,
        },
{
    let mut domain: Vec<u8> = Vec::new();
    domain.extend_from_slice("stateknot-journal-intent-v1".as_bytes());
    domain.push(0);
    assert(domain@ =~= intent_domain());
    let members = vec![
        JsonMember::new("tenant_id", JsonValue::text(tenant_id.as_str())),
        JsonMember::new("run_id", JsonValue::Text(run_id.to_string())),
        JsonMember::new("event_id", JsonValue::Text(event_id.to_string())),
        JsonMember::new("source", source.to_json()),
        JsonMember::new("payload_digest", JsonValue::Text(payload_digest.to_string())),
    ];
    let preimage = JsonValue::object(members);
    assert(preimage@->Object_0 =~= intent_json(
        tenant_id@,
        run_id,
        event_id,
        source@,
        payload_digest@,
    )->Object_0);
    match domain_separated_digest(domain.as_slice(), &preimage) {
        Some(digest) => Ok(digest),
        None => Err(JournalIntegrityError::CanonicalSerialization),
    }
}

/// A request to append an event, the same however often it is made.
pub struct JournalEventIntent {
    tenant_id: TenantId,
    run_id: RunId,
    event_id: EventId,
    source: JournalEventSource,
    payload: JournalPayload,
    intent_digest: Digest,
}

/// The values of [`JournalEventIntent`].
pub ghost struct IntentModel {
    pub tenant_id: Seq<char>,
    pub run_id: RunId,
    pub event_id: EventId,
    pub source: EventSourceModel,
    pub payload: PayloadModel,
    pub intent_digest: Seq<u8>,
}

/// What making an intent comes to.
pub open spec fn intent_of(
    tenant_id: Seq<char>,
    run_id: RunId,
    event_id: EventId,
    source: EventSourceModel,
    payload: PayloadModel,
) -> Result<IntentModel, JournalIntentError> {
    match scope_check(tenant_id, run_id, source) {
        Err(e) => Err(e),
        Ok(()) => match intent_digest_of(tenant_id, run_id, event_id, source, payload.digest) {
            None => Err(
                JournalIntentError::Integrity {
                    source: JournalIntegrityError::CanonicalSerialization,
                },
            ),
            Some(intent_digest) => Ok(
                IntentModel { tenant_id, run_id, event_id, source, payload, intent_digest },
            ),
        },
    }
}

/// What holds of every intent.
pub open spec fn intent_sound(intent: IntentModel) -> bool {
    &&& payload_sound(intent.payload)
    &&& intent_of(
        intent.tenant_id,
        intent.run_id,
        intent.event_id,
        intent.source,
        intent.payload,
    ) == Ok::<IntentModel, JournalIntentError>(intent)
}

/// The outcome is the expected one.
pub open spec fn intent_outcome(
    r: Result<JournalEventIntent, JournalIntentError>,
    expected: Result<IntentModel, JournalIntentError>,
) -> bool {
    match (r, expected) {
        (Ok(intent), Ok(model)) => intent@ == model,
        (Err(e), Err(failure)) => e == failure,
        _ => false,
    }
}

impl View for JournalEventIntent {
    type V = IntentModel;

    closed spec fn view(&self) -> IntentModel {
        IntentModel {
            tenant_id: self.tenant_id@,
            run_id: self.run_id,
            event_id: self.event_id,
            source: self.source@,
            payload: self.payload@,
            intent_digest: self.intent_digest@,
        }
    }
}

impl JournalEventIntent {
    /// The source belongs to the run, and the digest is that of the intent.
    #[verifier::type_invariant]
    pub open spec fn well_formed(&self) -> bool {
        intent_sound(self@)
    }

    /// Makes an intent of the control plane.
    pub fn control_plane(
        tenant_id: TenantId,
        run_id: RunId,
        event_id: EventId,
        payload: JournalPayload,
    ) -> (r: Result<JournalEventIntent, JournalIntentError>)
        ensures
            intent_outcome(
                r,
                intent_of(
                    tenant_id@,
                    run_id,
                    event_id,
                    EventSourceModel::ControlPlane,
                    payload@,
                ),
            ),
    {
        JournalEventIntent::from_parts(
            tenant_id,
            run_id,
            event_id,
            JournalEventSource::ControlPlane,
            payload,
        )
    }

    /// Makes an intent of a worker.
    pub fn worker(
        tenant_id: TenantId,
        run_id: RunId,
        event_id: EventId,
        fence: RunFence,
        payload: JournalPayload,
    ) -> (r: Result<JournalEventIntent, JournalIntentError>)
        ensures
            intent_outcome(
                r,
                intent_of(
                    tenant_id@,
                    run_id,
                    event_id,
                    EventSourceModel::Worker { fence: fence@ },
                    payload@,
                ),
            ),
    {
        JournalEventIntent::from_parts(
            tenant_id,
            run_id,
            event_id,
            JournalEventSource::worker(fence),
            payload,
        )
    }

    /// Makes an intent of any source.
    pub fn from_parts(
        tenant_id: TenantId,
        run_id: RunId,
        event_id: EventId,
        source: JournalEventSource,
        payload: JournalPayload,
    ) -> (r: Result<JournalEventIntent, JournalIntentError>)
        ensures
            intent_outcome(r, intent_of(tenant_id@, run_id, event_id, source@, payload@)),
    {
        validate_source_scope(&tenant_id, run_id, &source)?;
        match compute_intent_digest(&tenant_id, run_id, event_id, &source, payload.digest()) {
            Ok(intent_digest) => Ok(
                JournalEventIntent { tenant_id, run_id, event_id, source, payload, intent_digest },
            ),
            Err(source) => Err(JournalIntentError::Integrity { source }),
        }
    }

    /// Restores an intent and compares its digest with the recorded one.
    pub fn restore(
        tenant_id: TenantId,
        run_id: RunId,
        event_id: EventId,
        source: JournalEventSource,
        payload: JournalPayload,
        intent_digest: Digest,
    ) -> (r: Result<JournalEventIntent, JournalIntentError>)
        ensures
            intent_outcome(
                r,
                match intent_of(tenant_id@, run_id, event_id, source@, payload@) {
                    Err(e) => Err(e),
                    Ok(intent) => if intent.intent_digest != intent_digest@ {
                        Err(JournalIntentError::IntentDigestMismatch)
                    } else {
                        Ok(intent)
                    },
                },
            ),
    {
        let intent = JournalEventIntent::from_parts(tenant_id, run_id, event_id, source, payload)?;
        if intent.intent_digest != intent_digest {
            return Err(JournalIntentError::IntentDigestMismatch);
        }
        Ok(intent)
    }

    /// Returns the tenant.
    pub fn tenant_id(&self) -> (r: &TenantId)
        ensures
            r@ == self@.tenant_id,
    {
        &self.tenant_id
    }

    /// Returns the run.
    pub fn run_id(&self) -> (r: RunId)
        ensures
            r == self@.run_id,
    {
        self.run_id
    }

    /// Returns the event.
    pub fn event_id(&self) -> (r: EventId)
        ensures
            r == self@.event_id,
    {
        self.event_id
    }

    /// Returns the source.
    pub fn source(&self) -> (r: &JournalEventSource)
        ensures
            r@ == self@.source,
    {
        &self.source
    }

    /// Returns the payload.
    pub fn payload(&self) -> (r: &JournalPayload)
        ensures
            r@ == self@.payload,
    {
        &self.payload
    }

    /// Returns the digest of the intent.
    pub fn intent_digest(&self) -> (r: Digest)
        ensures
            r@ == self@.intent_digest,
            self.well_formed(),
    {
        proof {
            use_type_invariant(self);
        }
        self.intent_digest
    }
}

impl Clone for JournalEventIntent {
    fn clone(&self) -> (r: Self)
        ensures
            r@ == self@,
    {
        proof {
            use_type_invariant(self);
        }
        JournalEventIntent {
            tenant_id: self.tenant_id.clone(),
            run_id: self.run_id,
            event_id: self.event_id,
            source: self.source.clone(),
            payload: self.payload.clone(),
            intent_digest: self.intent_digest,
        }
    }
}

/// The intents have equal payloads and agree in all else.
pub open spec fn intent_equal(a: IntentModel, b: IntentModel) -> bool {
    payload_equal(a.payload, b.payload) && a == (IntentModel { payload: a.payload, ..b })
}

impl PartialEq for JournalEventIntent {
    fn eq(&self, other: &Self) -> (r: bool) {
        self.tenant_id == other.tenant_id && self.run_id == other.run_id && self.event_id
            == other.event_id && self.source == other.source && self.payload == other.payload
            && self.intent_digest == other.intent_digest
    }
}

impl vstd::std_specs::cmp::PartialEqSpecImpl for JournalEventIntent {
    open spec fn obeys_eq_spec() -> bool {
        true
    }

    open spec fn eq_spec(&self, other: &Self) -> bool {
        intent_equal(self@, other@)
    }
}

impl Eq for JournalEventIntent {

}

// ---------------------------------------------------------------------------
// Appends
// ---------------------------------------------------------------------------

/// The last event of a journal, as far as an append needs it.
pub struct JournalHead {
    tenant_id: TenantId,
    run_id: RunId,
    sequence: JournalSequence,
    event_id: EventId,
    recorded_at: Timestamp,
    digest: Digest,
}

/// The values of [`JournalHead`].
pub ghost struct HeadModel {
    pub tenant_id: Seq<char>,
    pub run_id: RunId,
    pub sequence: JournalSequence,
    pub event_id: EventId,
    pub recorded_at: Timestamp,
    pub digest: Seq<u8>,
}

impl View for JournalHead {
    type V = HeadModel;

    closed spec fn view(&self) -> HeadModel {
        HeadModel {
            tenant_id: self.tenant_id@,
            run_id: self.run_id,
            sequence: self.sequence,
            event_id: self.event_id,
            recorded_at: self.recorded_at,
            digest: self.digest@,
        }
    }
}

impl JournalHead {
    /// Names a head.
    pub fn new(
        tenant_id: TenantId,
        run_id: RunId,
        sequence: JournalSequence,
        event_id: EventId,
        recorded_at: Timestamp,
        digest: Digest,
    ) -> (r: JournalHead)
        ensures
            r@ == (HeadModel {
                tenant_id: tenant_id@,
                run_id: run_id,
                sequence: sequence,
                event_id: event_id,
                recorded_at: recorded_at,
                digest: digest@,
            }),
    {
        JournalHead { tenant_id, run_id, sequence, event_id, recorded_at, digest }
    }

    /// Returns the tenant.
    pub fn tenant_id(&self) -> (r: &TenantId)
        ensures
            r@ == self@.tenant_id,
    {
        &self.tenant_id
    }

    /// Returns the run.
    pub fn run_id(&self) -> (r: RunId)
        ensures
            r == self@.run_id,
    {
        self.run_id
    }

    /// Returns the sequence.
    pub fn sequence(&self) -> (r: JournalSequence)
        ensures
            r == self@.sequence,
    {
        self.sequence
    }

    /// Returns the event.
    pub fn event_id(&self) -> (r: EventId)
        ensures
            r == self@.event_id,
    {
        self.event_id
    }

    /// Returns when the event was recorded.
    pub fn recorded_at(&self) -> (r: Timestamp)
        ensures
            r == self@.recorded_at,
    {
        self.recorded_at
    }

    /// Returns the digest of the event.
    pub fn digest(&self) -> (r: Digest)
        ensures
            r@ == self@.digest,
    {
        self.digest
    }
}

impl Clone for JournalHead {
    fn clone(&self) -> (r: Self)
        ensures
            r@ == self@,
    {
        JournalHead {
            tenant_id: self.tenant_id.clone(),
            run_id: self.run_id,
            sequence: self.sequence,
            event_id: self.event_id,
            recorded_at: self.recorded_at,
            digest: self.digest,
        }
    }
}

impl PartialEq for JournalHead {
    fn eq(&self, other: &Self) -> (r: bool) {
        self.tenant_id == other.tenant_id
            && self.run_id == other.run_id
            && self.sequence == other.sequence
            && self.event_id == other.event_id
            && self.recorded_at == other.recorded_at
            && self.digest == other.digest
    }
}

impl vstd::std_specs::cmp::PartialEqSpecImpl for JournalHead {
    open spec fn obeys_eq_spec() -> bool {
        true
    }

    open spec fn eq_spec(&self, other: &Self) -> bool {
        self@ == other@
    }
}

impl Eq for JournalHead {

}

/// What the journal must look like for an append.
#[derive(PartialEq, Eq)]
pub enum JournalExpectation {
    /// The journal has no event.
    Empty,
    /// The journal ends with this head.
    Exact {
        /// The head.
        head: JournalHead,
    },
}

impl View for JournalExpectation {
    type V = Option<HeadModel>;

    /// The expected head.
    open spec fn view(&self) -> Option<HeadModel> {
        match self {
            JournalExpectation::Empty => None,
            JournalExpectation::Exact { head } => Some(head@),
        }
    }
}

impl JournalExpectation {
    /// Expects an empty journal.
    pub fn empty() -> (r: JournalExpectation)
        ensures
            r@ == None::<HeadModel>,
    {
        JournalExpectation::Empty
    }

    /// Expects a head.
    pub fn exact(head: JournalHead) -> (r: JournalExpectation)
        ensures
            r@ == Some(head@),
    {
        JournalExpectation::Exact { head }
    }

    /// Returns the expected head.
    pub fn head(&self) -> (r: Option<&JournalHead>)
        ensures
            option_ref_view(r) == self@,
    {
        match self {
            JournalExpectation::Empty => None,
            JournalExpectation::Exact { head } => Some(head),
        }
    }
}

/// Rejected append.
#[derive(Clone, Copy, Debug, PartialEq, Eq, Structural)]
pub enum JournalAppendError {
    /// The head belongs to another tenant.
    HeadTenantMismatch,
    /// The head belongs to another run.
    HeadRunMismatch,
}

/// Rejected authority.
#[derive(Clone, Copy, Debug, PartialEq, Eq, Structural)]
pub enum JournalAuthorityError {
    /// The append is not that of a worker.
    ControlPlaneSource,
    /// The lease refuses the worker.
    Lease { source: RunLeaseValidationError },
}

/// What an intent fails on as one to append to the expected head.
pub open spec fn append_check(expected: Option<HeadModel>, intent: IntentModel) -> Result<
    (),
    JournalAppendError,
> {
    match expected {
        None => Ok(()),
        Some(head) => if head.tenant_id != intent.tenant_id {
            Err(JournalAppendError::HeadTenantMismatch)
        } else if head.run_id != intent.run_id {
            Err(JournalAppendError::HeadRunMismatch)
        } else {
            Ok(())
        },
    }
}

/// An intent, and the head that it is to follow.
#[derive(PartialEq, Eq)]
pub struct JournalAppend {
    expectation: JournalExpectation,
    intent: JournalEventIntent,
}

/// The values of [`JournalAppend`].
pub ghost struct AppendModel {
    pub expected: Option<HeadModel>,
    pub intent: IntentModel,
}

/// What holds of every append.
pub open spec fn append_sound(append: AppendModel) -> bool {
    append_check(append.expected, append.intent) is Ok && intent_sound(append.intent)
}

impl View for JournalAppend {
    type V = AppendModel;

    closed spec fn view(&self) -> AppendModel {
        AppendModel { expected: self.expectation@, intent: self.intent@ }
    }
}

impl JournalAppend {
    /// The head belongs to the run of the intent.
    #[verifier::type_invariant]
    pub open spec fn well_formed(&self) -> bool {
        append_sound(self@)
    }

    /// Makes an append.
    pub fn new(expectation: JournalExpectation, intent: JournalEventIntent) -> (r: Result<
        JournalAppend,
        JournalAppendError,
    >)
        ensures
            match (r, append_check(expectation@, intent@)) {
                (Ok(append), Ok(())) => append@ == (AppendModel {
                    expected: expectation@,
                    intent: intent@,
                }),
                (Err(e), Err(expected)) => e == expected,
                _ => false,
            },
    {
        proof {
            use_type_invariant(&intent);
        }
        if let Some(head) = expectation.head() {
            if *head.tenant_id() != intent.tenant_id {
                return Err(JournalAppendError::HeadTenantMismatch);
            }
            if head.run_id() != intent.run_id {
                return Err(JournalAppendError::HeadRunMismatch);
            }
        }
        Ok(JournalAppend { expectation, intent })
    }

    /// Returns the expected head.
    pub fn expectation(&self) -> (r: &JournalExpectation)
        ensures
            r@ == self@.expected,
    {
        &self.expectation
    }

    /// Returns the intent.
    pub fn intent(&self) -> (r: &JournalEventIntent)
        ensures
            r@ == self@.intent,
    {
        &self.intent
    }

    /// Returns the token of a worker.
    pub fn worker_fence(&self) -> (r: Option<&RunFence>)
        ensures
            option_ref_view(r) == source_fence(self@.intent.source),
    {
        self.intent.source.worker_fence()
    }

    /// Checks the append of a worker against its lease.
    pub fn validate_worker_lease(&self, lease: &RunLease, observed_at: Timestamp) -> (r: Result<
        (),
        JournalAuthorityError,
    >)
        ensures
            r == (match source_fence(self@.intent.source) {
                None => Err(JournalAuthorityError::ControlPlaneSource),
                Some(fence) => match write_check(lease@, fence, observed_at) {
                    Ok(()) => Ok(()),
                    Err(source) => Err(JournalAuthorityError::Lease { source }),
                },
            }),
    {
        match self.worker_fence() {
            None => Err(JournalAuthorityError::ControlPlaneSource),
            Some(fence) => match lease.validate_write(fence, observed_at) {
                Ok(()) => Ok(()),
                Err(source) => Err(JournalAuthorityError::Lease { source }),
            },
        }
    }
}

// ---------------------------------------------------------------------------
// Events
// ---------------------------------------------------------------------------

/// Rejected event.
#[derive(Clone, Copy, Debug, PartialEq, Eq, Structural)]
#[allow(inconsistent_fields)]
pub enum JournalEventError {
    /// There is no next sequence.
    SequenceOverflow,
    /// The event is recorded before the head.
    ClockRegression { previous: Timestamp, actual: Timestamp },
    /// The first event names a predecessor.
    UnexpectedPreviousDigest,
    /// A later event names no predecessor.
    MissingPreviousDigest,
    /// The payload does not have the recorded digest.
    PayloadDigestMismatch,
    /// The intent does not have the recorded digest.
    IntentDigestMismatch,
    /// The event does not have the recorded digest.
    EventDigestMismatch,
    /// The source does not belong to the run.
    Intent { source: JournalIntentError },
    /// A digest could not be computed.
    Integrity { source: JournalIntegrityError },
}

/// An event of a journal.
pub struct JournalEvent {
    tenant_id: TenantId,
    run_id: RunId,
    sequence: JournalSequence,
    event_id: EventId,
    recorded_at: Timestamp,
    source: JournalEventSource,
    payload: JournalPayload,
    payload_digest: Digest,
    intent_digest: Digest,
    previous_digest: Option<Digest>,
    digest: Digest,
}

/// The values of [`JournalEvent`].
pub ghost struct EventModel {
    pub tenant_id: Seq<char>,
    pub run_id: RunId,
    pub sequence: JournalSequence,
    pub event_id: EventId,
    pub recorded_at: Timestamp,
    pub source: EventSourceModel,
    pub payload: PayloadModel,
    pub payload_digest: Seq<u8>,
    pub intent_digest: Seq<u8>,
    pub previous_digest: Option<Seq<u8>>,
    pub digest: Seq<u8>,
}

/// The bytes of `stateknot-journal-event-v1` and a zero byte.
pub open spec fn event_domain() -> Seq<u8> {
    encode_utf8("stateknot-journal-event-v1"@).push(0u8)
}

/// The JSON form of an optional digest.
pub open spec fn optional_digest_json(digest: Option<Seq<u8>>) -> Json {
    match digest {
        Some(digest) => Json::Text(digest_text(digest)),
        None => Json::Null,
    }
}

/// What the digest of an event is computed of.
pub open spec fn event_json(event: EventModel) -> Json {
    Json::Object(
        seq![
            Member { name: "tenant_id"@, value: Json::Text(event.tenant_id) },
            Member { name: "run_id"@, value: Json::Text(uuid_text(event.run_id@)) },
            Member { name: "sequence"@, value: Json::Text(decimal_text(event.sequence@ as nat)) },
            Member { name: "event_id"@, value: Json::Text(uuid_text(event.event_id@)) },
            Member { name: "recorded_at"@, value: Json::Text(timestamp_text(event.recorded_at@)) },
            Member {
                name: "payload_digest"@,
                value: Json::Text(digest_text(event.payload_digest)),
            },
            Member { name: "intent_digest"@, value: Json::Text(digest_text(event.intent_digest)) },
            Member {
                name: "previous_digest"@,
                value: optional_digest_json(event.previous_digest),
            },
        ],
    )
}

/// The digest of an event.
pub open spec fn event_digest_of(event: EventModel) -> Option<Seq<u8>> {
    domain_digest(event_domain(), event_json(event))
}

/// A digest could not be computed.
pub open spec fn integrity_failure() -> JournalEventError {
    JournalEventError::Integrity { source: JournalIntegrityError::CanonicalSerialization }
}

/// What an event fails on by itself.
pub open spec fn event_check(event: EventModel) -> Result<(), JournalEventError> {
    if event.sequence@ == 1 && event.previous_digest is Some {
        Err(JournalEventError::UnexpectedPreviousDigest)
    } else if event.sequence@ != 1 && event.previous_digest is None {
        Err(JournalEventError::MissingPreviousDigest)
    } else if event.payload.digest != event.payload_digest {
        Err(JournalEventError::PayloadDigestMismatch)
    } else {
        match scope_check(event.tenant_id, event.run_id, event.source) {
            Err(source) => Err(JournalEventError::Intent { source }),
            Ok(()) => match intent_digest_of(
                event.tenant_id,
                event.run_id,
                event.event_id,
                event.source,
                event.payload_digest,
            ) {
                None => Err(integrity_failure()),
                Some(intent_digest) => if intent_digest != event.intent_digest {
                    Err(JournalEventError::IntentDigestMismatch)
                } else {
                    match event_digest_of(event) {
                        None => Err(integrity_failure()),
                        Some(digest) => if digest != event.digest {
                            Err(JournalEventError::EventDigestMismatch)
                        } else {
                            Ok(())
                        },
                    }
                },
            },
        }
    }
}

/// The event that an intent becomes.
pub open spec fn event_of(
    intent: IntentModel,
    sequence: JournalSequence,
    recorded_at: Timestamp,
    previous_digest: Option<Seq<u8>>,
    digest: Seq<u8>,
) -> EventModel {
    EventModel {
        tenant_id: intent.tenant_id,
        run_id: intent.run_id,
        sequence,
        event_id: intent.event_id,
        recorded_at,
        source: intent.source,
        payload: intent.payload,
        payload_digest: intent.payload.digest,
        intent_digest: intent.intent_digest,
        previous_digest,
        digest,
    }
}

/// The event with its own digest.
pub open spec fn sealed_event(event: EventModel) -> Result<EventModel, JournalEventError> {
    match event_digest_of(event) {
        None => Err(integrity_failure()),
        Some(digest) => Ok(EventModel { digest, ..event }),
    }
}

/// What recording an append comes to, given the sequence that follows that of
/// the head.
pub open spec fn commitment(
    append: AppendModel,
    recorded_at: Timestamp,
    next: JournalSequence,
) -> Result<EventModel, JournalEventError> {
    match append.expected {
        None => sealed_event(event_of(append.intent, next, recorded_at, None, Seq::empty())),
        Some(head) => if recorded_at@ < head.recorded_at@ {
            Err(
                JournalEventError::ClockRegression {
                    previous: head.recorded_at,
                    actual: recorded_at,
                },
            )
        } else if head.sequence@ == 9223372036854775807 {
            Err(JournalEventError::SequenceOverflow)
        } else {
            sealed_event(
                event_of(append.intent, next, recorded_at, Some(head.digest), Seq::empty()),
            )
        },
    }
}

/// The sequence follows that of the head, if there is one that does.
pub open spec fn follows(expected: Option<HeadModel>, next: JournalSequence) -> bool {
    match expected {
        None => next@ == 1,
        Some(head) => next@ == head.sequence@ + 1 || head.sequence@ == 9223372036854775807,
    }
}

/// The head that an event makes.
pub open spec fn event_head(event: EventModel) -> HeadModel {
    HeadModel {
        tenant_id: event.tenant_id,
        run_id: event.run_id,
        sequence: event.sequence,
        event_id: event.event_id,
        recorded_at: event.recorded_at,
        digest: event.digest,
    }
}

/// The event is what the intent asks for.
pub open spec fn event_matches(event: EventModel, intent: IntentModel) -> bool {
    &&& event.tenant_id == intent.tenant_id
    &&& event.run_id == intent.run_id
    &&& event.event_id == intent.event_id
    &&& event.source == intent.source
    &&& payload_equal(event.payload, intent.payload)
    &&& event.intent_digest == intent.intent_digest
}

impl View for JournalEvent {
    type V = EventModel;

    closed spec fn view(&self) -> EventModel {
        EventModel {
            tenant_id: self.tenant_id@,
            run_id: self.run_id,
            sequence: self.sequence,
            event_id: self.event_id,
            recorded_at: self.recorded_at,
            source: self.source@,
            payload: self.payload@,
            payload_digest: self.payload_digest@,
            intent_digest: self.intent_digest@,
            previous_digest: option_digest(self.previous_digest),
            digest: self.digest@,
        }
    }
}

/// The outcome is the expected one.
pub open spec fn event_outcome(
    r: Result<JournalEvent, JournalEventError>,
    expected: Result<EventModel, JournalEventError>,
) -> bool {
    match (r, expected) {
        (Ok(event), Ok(model)) => event@ == model,
        (Err(e), Err(failure)) => e == failure,
        _ => false,
    }
}

impl JournalEvent {
    fn compute_digest(&self) -> (r: Result<Digest, JournalIntegrityError>)
        ensures
            match (r, event_digest_of(self@)) {
                (Ok(digest), Some(expected)) => digest@ == expected,
                (Err(e), None) => e == JournalIntegrityError::CanonicalSerialization,
                _ => false,
            },
    {
        let mut domain: Vec<u8> = Vec::new();
        domain.extend_from_slice("stateknot-journal-event-v1".as_bytes());
        domain.push(0);
        assert(domain@ =~= event_domain());
        let previous = match self.previous_digest {
            Some(digest) => JsonValue::Text(digest.to_string()),
            None => JsonValue::Null,
        };
        let members = vec![
            JsonMember::new("tenant_id", JsonValue::text(self.tenant_id.as_str())),
            JsonMember::new("run_id", JsonValue::Text(self.run_id.to_string())),
            JsonMember::new("sequence", JsonValue::Text(self.sequence.to_string())),
            JsonMember::new("event_id", JsonValue::Text(self.event_id.to_string())),
            JsonMember::new("recorded_at", JsonValue::Text(self.recorded_at.to_string())),
            JsonMember::new("payload_digest", JsonValue::Text(self.payload_digest.to_string())),
            JsonMember::new("intent_digest", JsonValue::Text(self.intent_digest.to_string())),
            JsonMember::new("previous_digest", previous),
        ];
        let preimage = JsonValue::object(members);
        assert(preimage@->Object_0 =~= event_json(self@)->Object_0);
        match domain_separated_digest(domain.as_slice(), &preimage) {
            Some(digest) => Ok(digest),
            None => Err(JournalIntegrityError::CanonicalSerialization),
        }
    }

    /// Restores an event and recomputes its digests.
    pub fn restore(
        intent: JournalEventIntent,
        sequence: JournalSequence,
        recorded_at: Timestamp,
        previous_digest: Option<Digest>,
        digest: Digest,
    ) -> (r: Result<JournalEvent, JournalEventError>)
        ensures
            ({
                let event = event_of(
                    intent@,
                    sequence,
                    recorded_at,
                    option_digest(previous_digest),
                    digest@,
                );
                event_outcome(
                    r,
                    match event_check(event) {
                        Ok(()) => Ok(event),
                        Err(e) => Err(e),
                    },
                )
            }),
    {
        let payload_digest = intent.payload.digest();
        let event = JournalEvent {
            tenant_id: intent.tenant_id,
            run_id: intent.run_id,
            sequence,
            event_id: intent.event_id,
            recorded_at,
            source: intent.source,
            payload: intent.payload,
            payload_digest,
            intent_digest: intent.intent_digest,
            previous_digest,
            digest,
        };
        event.validate()?;
        Ok(event)
    }

    /// Restores an event from all its columns and recomputes its digests.
    pub fn from_columns(
        scope: (TenantId, RunId),
        position: (JournalSequence, EventId, Timestamp),
        content: (JournalEventSource, JournalPayload),
        digests: (Digest, Digest, Option<Digest>, Digest),
    ) -> (r: Result<JournalEvent, JournalEventError>)
        ensures
            ({
                let event = EventModel {
                    tenant_id: scope.0@,
                    run_id: scope.1,
                    sequence: position.0,
                    event_id: position.1,
                    recorded_at: position.2,
                    source: content.0@,
                    payload: content.1@,
                    payload_digest: digests.0@,
                    intent_digest: digests.1@,
                    previous_digest: option_digest(digests.2),
                    digest: digests.3@,
                };
                event_outcome(
                    r,
                    match event_check(event) {
                        Ok(()) => Ok(event),
                        Err(e) => Err(e),
                    },
                )
            }),
    {
        let event = JournalEvent {
            tenant_id: scope.0,
            run_id: scope.1,
            sequence: position.0,
            event_id: position.1,
            recorded_at: position.2,
            source: content.0,
            payload: content.1,
            payload_digest: digests.0,
            intent_digest: digests.1,
            previous_digest: digests.2,
            digest: digests.3,
        };
        event.validate()?;
        Ok(event)
    }

    /// Records an append.
    pub fn commit(append: JournalAppend, recorded_at: Timestamp) -> (r: Result<
        JournalEvent,
        JournalEventError,
    >)
        ensures
            exists|next: JournalSequence| #[trigger]
                follows(append@.expected, next) && event_outcome(
                    r,
                    commitment(append@, recorded_at, next),
                ),
    {
        proof {
            use_type_invariant(&append);
        }
        let ghost expected = append@.expected;
        let ghost model = append@;
        let (sequence, previous_digest) = match append.expectation {
            JournalExpectation::Empty => (JournalSequence::first(), None),
            JournalExpectation::Exact { head } => {
                let next = head.sequence().checked_next();
                proof {
                    use_type_invariant(&head.sequence);
                    let witness = match next {
                        Some(sequence) => sequence,
                        None => head.sequence,
                    };
                    assert(follows(expected, witness));
                }
                if recorded_at.unix_micros() < head.recorded_at().unix_micros() {
                    return Err(
                        JournalEventError::ClockRegression {
                            previous: head.recorded_at(),
                            actual: recorded_at,
                        },
                    );
                }
                match next {
                    Some(sequence) => (sequence, Some(head.digest())),
                    None => {
                        return Err(JournalEventError::SequenceOverflow);
                    },
                }
            },
        };
        assert(follows(expected, sequence));
        let intent = append.intent;
        let payload_digest = intent.payload.digest();
        let mut event = JournalEvent {
            tenant_id: intent.tenant_id,
            run_id: intent.run_id,
            sequence,
            event_id: intent.event_id,
            recorded_at,
            source: intent.source,
            payload: intent.payload,
            payload_digest,
            intent_digest: intent.intent_digest,
            previous_digest,
            digest: payload_digest,
        };
        let ghost unsealed = event_of(
            model.intent,
            sequence,
            recorded_at,
            option_digest(previous_digest),
            Seq::empty(),
        );
        proof {
            digest_not_in_preimage(unsealed, event@.digest);
        }
        match event.compute_digest() {
            Ok(digest) => {
                event.digest = digest;
                Ok(event)
            },
            Err(source) => Err(JournalEventError::Integrity { source }),
        }
    }

    /// Returns the tenant.
    pub fn tenant_id(&self) -> (r: &TenantId)
        ensures
            r@ == self@.tenant_id,
    {
        &self.tenant_id
    }

    /// Returns the run.
    pub fn run_id(&self) -> (r: RunId)
        ensures
            r == self@.run_id,
    {
        self.run_id
    }

    /// Returns the position in the journal.
    pub fn sequence(&self) -> (r: JournalSequence)
        ensures
            r == self@.sequence,
    {
        self.sequence
    }

    /// Returns the event.
    pub fn event_id(&self) -> (r: EventId)
        ensures
            r == self@.event_id,
    {
        self.event_id
    }

    /// Returns when the event was recorded.
    pub fn recorded_at(&self) -> (r: Timestamp)
        ensures
            r == self@.recorded_at,
    {
        self.recorded_at
    }

    /// Returns the source.
    pub fn source(&self) -> (r: &JournalEventSource)
        ensures
            r@ == self@.source,
    {
        &self.source
    }

    /// Returns the payload.
    pub fn payload(&self) -> (r: &JournalPayload)
        ensures
            r@ == self@.payload,
    {
        &self.payload
    }

    /// Returns the digest of the payload.
    pub fn payload_digest(&self) -> (r: Digest)
        ensures
            r@ == self@.payload_digest,
    {
        self.payload_digest
    }

    /// Returns the digest of the intent.
    pub fn intent_digest(&self) -> (r: Digest)
        ensures
            r@ == self@.intent_digest,
    {
        self.intent_digest
    }

    /// Returns the digest of the preceding event.
    pub fn previous_digest(&self) -> (r: Option<Digest>)
        ensures
            option_digest(r) == self@.previous_digest,
    {
        self.previous_digest
    }

    /// Returns the digest of the event.
    pub fn digest(&self) -> (r: Digest)
        ensures
            r@ == self@.digest,
    {
        self.digest
    }

    /// Returns the head that the event makes.
    pub fn head(&self) -> (r: JournalHead)
        ensures
            r@ == event_head(self@),
    {
        JournalHead::new(
            self.tenant_id.clone(),
            self.run_id,
            self.sequence,
            self.event_id,
            self.recorded_at,
            self.digest,
        )
    }

    /// Tests whether the event is what the intent asks for.
    pub fn matches_intent(&self, intent: &JournalEventIntent) -> (r: bool)
        ensures
            r == event_matches(self@, intent@),
    {
        self.tenant_id == intent.tenant_id && self.run_id == intent.run_id && self.event_id
            == intent.event_id && self.source == intent.source && self.payload == intent.payload
            && self.intent_digest == intent.intent_digest
    }

    /// Checks an event by itself.
    pub fn validate(&self) -> (r: Result<(), JournalEventError>)
        ensures
            r == event_check(self@),
    {
        if self.sequence.get() == 1 {
            if self.previous_digest.is_some() {
                return Err(JournalEventError::UnexpectedPreviousDigest);
            }
        } else if self.previous_digest.is_none() {
            return Err(JournalEventError::MissingPreviousDigest);
        }
        if self.payload.digest() != self.payload_digest {
            return Err(JournalEventError::PayloadDigestMismatch);
        }
        match validate_source_scope(&self.tenant_id, self.run_id, &self.source) {
            Ok(()) => {},
            Err(source) => {
                return Err(JournalEventError::Intent { source });
            },
        }
        let outcome = compute_intent_digest(
            &self.tenant_id,
            self.run_id,
            self.event_id,
            &self.source,
            self.payload_digest,
        );
        match outcome {
            Ok(expected) => {
                if expected != self.intent_digest {
                    return Err(JournalEventError::IntentDigestMismatch);
                }
            },
            Err(source) => {
                return Err(JournalEventError::Integrity { source });
            },
        }
        match self.compute_digest() {
            Ok(expected) => {
                if expected != self.digest {
                    return Err(JournalEventError::EventDigestMismatch);
                }
            },
            Err(source) => {
                return Err(JournalEventError::Integrity { source });
            },
        }
        Ok(())
    }
}

/// The digest of an event is not part of what it is computed of.
pub proof fn digest_not_in_preimage(event: EventModel, digest: Seq<u8>)
    ensures
        event_digest_of(EventModel { digest, ..event }) == event_digest_of(event),
{
}

/// The events have equal payloads and agree in all else.
pub open spec fn event_equal(a: EventModel, b: EventModel) -> bool {
    payload_equal(a.payload, b.payload) && a == (EventModel { payload: a.payload, ..b })
}

impl PartialEq for JournalEvent {
    fn eq(&self, other: &Self) -> (r: bool) {
        self.tenant_id == other.tenant_id && self.run_id == other.run_id && self.sequence
            == other.sequence && self.event_id == other.event_id && self.recorded_at
            == other.recorded_at && self.source == other.source && self.payload == other.payload
            && self.payload_digest == other.payload_digest && self.intent_digest
            == other.intent_digest && same_digests(self.previous_digest, other.previous_digest)
            && self.digest == other.digest
    }
}

impl vstd::std_specs::cmp::PartialEqSpecImpl for JournalEvent {
    open spec fn obeys_eq_spec() -> bool {
        true
    }

    open spec fn eq_spec(&self, other: &Self) -> bool {
        event_equal(self@, other@)
    }
}

impl Eq for JournalEvent {

}

// ---------------------------------------------------------------------------
// Chain
// ---------------------------------------------------------------------------

/// Rejected chain.
#[derive(Clone, Copy, Debug, PartialEq, Eq, Structural)]
#[allow(inconsistent_fields)]
pub enum JournalChainError {
    /// The event is invalid by itself.
    Event { source: JournalEventError },
    /// The journal does not begin with the first sequence.
    FirstSequence { actual: JournalSequence },
    /// The event belongs to another tenant.
    TenantMismatch,
    /// The event belongs to another run.
    RunMismatch,
    /// There is no next sequence.
    SequenceOverflow,
    /// The event does not have the next sequence.
    SequenceGap { expected: JournalSequence, actual: JournalSequence },
    /// The event names another predecessor.
    PreviousDigestMismatch,
    /// The event is recorded before the head.
    ClockRegression { previous: Timestamp, actual: Timestamp },
}

/// What an event fails on as the one after the head, given the sequence that
/// follows that of the head.
pub open spec fn chain_check(
    head: Option<HeadModel>,
    event: EventModel,
    next: JournalSequence,
) -> Result<(), JournalChainError> {
    match event_check(event) {
        Err(source) => Err(JournalChainError::Event { source }),
        Ok(()) => match head {
            None => if event.sequence@ != 1 {
                Err(JournalChainError::FirstSequence { actual: event.sequence })
            } else {
                Ok(())
            },
            Some(head) => if event.tenant_id != head.tenant_id {
                Err(JournalChainError::TenantMismatch)
            } else if event.run_id != head.run_id {
                Err(JournalChainError::RunMismatch)
            } else if head.sequence@ == 9223372036854775807 {
                Err(JournalChainError::SequenceOverflow)
            } else if event.sequence@ != head.sequence@ + 1 {
                Err(JournalChainError::SequenceGap { expected: next, actual: event.sequence })
            } else if event.previous_digest != Some(head.digest) {
                Err(JournalChainError::PreviousDigestMismatch)
            } else if event.recorded_at@ < head.recorded_at@ {
                Err(
                    JournalChainError::ClockRegression {
                        previous: head.recorded_at,
                        actual: event.recorded_at,
                    },
                )
            } else {
                Ok(())
            },
        },
    }
}

/// Checks the events of a journal one after the other.
#[derive(Debug)]
pub struct JournalChainVerifier {
    head: Option<JournalHead>,
}

impl View for JournalChainVerifier {
    type V = Option<HeadModel>;

    /// The head that was accepted last.
    closed spec fn view(&self) -> Option<HeadModel> {
        option_view(self.head)
    }
}

impl JournalChainVerifier {
    /// Begins with an empty journal.
    pub fn new() -> (r: JournalChainVerifier)
        ensures
            r@ == None::<HeadModel>,
    {
        JournalChainVerifier { head: None }
    }

    /// Begins after a trusted head.
    pub fn after(head: JournalHead) -> (r: JournalChainVerifier)
        ensures
            r@ == Some(head@),
    {
        JournalChainVerifier { head: Some(head) }
    }

    /// Returns the head that was accepted last.
    pub fn head(&self) -> (r: Option<&JournalHead>)
        ensures
            option_ref_view(r) == self@,
    {
        self.head.as_ref()
    }

    /// Accepts the next event, or rejects it and stays as it is.
    pub fn verify_next(&mut self, event: &JournalEvent) -> (r: Result<(), JournalChainError>)
        ensures
            exists|next: JournalSequence| #[trigger]
                follows(old(self)@, next) && r == chain_check(old(self)@, event@, next),
            final(self)@ == (if r is Ok {
                Some(event_head(event@))
            } else {
                old(self)@
            }),
    {
        broadcast use JournalSequence::view_determines;

        let ghost before = self@;
        let first = JournalSequence::first();
        assert(before is None ==> follows(before, first));
        match &self.head {
            None => {
                match event.validate() {
                    Ok(()) => {},
                    Err(source) => {
                        return Err(JournalChainError::Event { source });
                    },
                }
                if event.sequence.get() != 1 {
                    return Err(JournalChainError::FirstSequence { actual: event.sequence });
                }
            },
            Some(head) => {
                let next = head.sequence().checked_next();
                proof {
                    use_type_invariant(&head.sequence);
                    let witness = match next {
                        Some(sequence) => sequence,
                        None => head.sequence,
                    };
                    assert(follows(before, witness));
                }
                match event.validate() {
                    Ok(()) => {},
                    Err(source) => {
                        return Err(JournalChainError::Event { source });
                    },
                }
                if event.tenant_id != *head.tenant_id() {
                    return Err(JournalChainError::TenantMismatch);
                }
                if event.run_id != head.run_id() {
                    return Err(JournalChainError::RunMismatch);
                }
                let expected = match next {
                    Some(sequence) => sequence,
                    None => {
                        return Err(JournalChainError::SequenceOverflow);
                    },
                };
                if event.sequence.get() != expected.get() {
                    return Err(
                        JournalChainError::SequenceGap { expected, actual: event.sequence },
                    );
                }
                if !same_digests(event.previous_digest, Some(head.digest())) {
                    return Err(JournalChainError::PreviousDigestMismatch);
                }
                if event.recorded_at.unix_micros() < head.recorded_at().unix_micros() {
                    return Err(
                        JournalChainError::ClockRegression {
                            previous: head.recorded_at(),
                            actual: event.recorded_at,
                        },
                    );
                }
            },
        }
        self.head = Some(event.head());
        Ok(())
    }
}

impl Default for JournalChainVerifier {
    fn default() -> (r: Self)
        ensures
            r@ == None::<HeadModel>,
    {
        JournalChainVerifier::new()
    }
}

// ---------------------------------------------------------------------------
// Laws
// ---------------------------------------------------------------------------

/// A recorded event is valid by itself and is what its intent asks for.
pub proof fn committed_event_is_valid(
    append: AppendModel,
    recorded_at: Timestamp,
    next: JournalSequence,
)
    requires
        append_sound(append),
        follows(append.expected, next),
        append.expected matches Some(head) ==> 1 <= head.sequence@ <= 9223372036854775807,
        commitment(append, recorded_at, next) is Ok,
    ensures
        event_check(commitment(append, recorded_at, next)->Ok_0) is Ok,
        event_matches(commitment(append, recorded_at, next)->Ok_0, append.intent),
{
    let event = commitment(append, recorded_at, next)->Ok_0;
    digest_not_in_preimage(event, Seq::empty());
    alike_is_reflexive(event.payload.data);
}

/// A recorded event is accepted as the one after the head that it was
/// recorded on, and the chain then ends with it.
pub proof fn committed_event_extends_chain(
    append: AppendModel,
    recorded_at: Timestamp,
    next: JournalSequence,
)
    requires
        append_sound(append),
        follows(append.expected, next),
        append.expected matches Some(head) ==> 1 <= head.sequence@ <= 9223372036854775807,
        commitment(append, recorded_at, next) is Ok,
    ensures
        chain_check(append.expected, commitment(append, recorded_at, next)->Ok_0, next) is Ok,
        commitment(append, recorded_at, next)->Ok_0.sequence == next,
{
    committed_event_is_valid(append, recorded_at, next);
}

/// Restoring what was recorded of an event gives the event.
pub proof fn recorded_event_restores(
    append: AppendModel,
    recorded_at: Timestamp,
    next: JournalSequence,
)
    requires
        append_sound(append),
        follows(append.expected, next),
        append.expected matches Some(head) ==> 1 <= head.sequence@ <= 9223372036854775807,
        commitment(append, recorded_at, next) is Ok,
    ensures
        ({
            let event = commitment(append, recorded_at, next)->Ok_0;
            &&& event_of(
                append.intent,
                event.sequence,
                event.recorded_at,
                event.previous_digest,
                event.digest,
            ) == event
            &&& event_check(event) is Ok
        }),
{
    committed_event_is_valid(append, recorded_at, next);
}

/// The heads through which a chain of events leads from a head.
pub open spec fn replayed(head: Option<HeadModel>, events: Seq<EventModel>) -> Option<HeadModel>
    decreases events.len(),
{
    if events.len() == 0 {
        head
    } else {
        Some(event_head(events.last()))
    }
}

/// Each event was recorded on the head that those before it lead to.
pub open spec fn recorded_in_turn(head: Option<HeadModel>, events: Seq<EventModel>) -> bool {
    forall|i: int|
        #![trigger events[i]]
        0 <= i < events.len() ==> exists|append: AppendModel, at: Timestamp, next: JournalSequence|
            #[trigger] commitment(append, at, next) == Ok::<EventModel, JournalEventError>(events[i])
                && append_sound(append) && append.expected == replayed(head, events.take(i))
                && follows(append.expected, next)
}

/// A chain of events, each recorded on the head before it, is accepted from
/// end to end, and every event is exactly one sequence after the one before.
pub proof fn recorded_chain_replays(head: Option<HeadModel>, events: Seq<EventModel>, i: int)
    requires
        recorded_in_turn(head, events),
        head matches Some(h) ==> 1 <= h.sequence@ <= 9223372036854775807,
        forall|k: int|
            0 <= k < events.len() ==> 1 <= (#[trigger] events[k]).sequence@ <= 9223372036854775807,
        0 <= i < events.len(),
    ensures
        exists|next: JournalSequence| #[trigger]
            follows(replayed(head, events.take(i)), next) && chain_check(
                replayed(head, events.take(i)),
                events[i],
                next,
            ) is Ok && events[i].sequence == next,
        replayed(head, events.take(i + 1)) == Some(event_head(events[i])),
{
    let before = replayed(head, events.take(i));
    let (append, at, next) = choose|append: AppendModel, at: Timestamp, next: JournalSequence|
        #[trigger] commitment(append, at, next) == Ok::<EventModel, JournalEventError>(events[i])
            && append_sound(append) && append.expected == before && follows(append.expected, next);
    if i > 0 {
        assert(events.take(i).last() == events[i - 1]);
    }
    committed_event_extends_chain(append, at, next);
    assert(events.take(i + 1).last() == events[i]);
}

// ---------------------------------------------------------------------------
// Debug output
// ---------------------------------------------------------------------------

impl JournalEventKind {
    /// Returns what is shown of it for debugging.
    pub fn debug_text(&self, alternate: bool) -> (r: String)
        ensures
            r@ == name_text("JournalEventKind"@, self@, alternate),
    {
        name_string("JournalEventKind", self.text.as_str(), alternate)
    }
}

impl core::fmt::Debug for JournalEventKind {
    fn fmt(&self, formatter: &mut core::fmt::Formatter<'_>) -> core::fmt::Result {
        let alternate: bool = is_alternate(formatter);
        write_text(formatter, self.debug_text(alternate).as_str())
    }
}

impl JournalSequence {
    /// Returns what is shown of it for debugging.
    pub fn debug_text(&self, alternate: bool) -> (r: String)
        ensures
            r@ == tuple_text("JournalSequence"@, decimal_text(self@ as nat), alternate),
    {
        tuple_string("JournalSequence", decimal_string(self.value), alternate)
    }
}

impl core::fmt::Debug for JournalSequence {
    fn fmt(&self, formatter: &mut core::fmt::Formatter<'_>) -> core::fmt::Result {
        let alternate: bool = is_alternate(formatter);
        write_text(formatter, self.debug_text(alternate).as_str())
    }
}

/// The fields that are shown of a payload.
pub open spec fn payload_fields(model: PayloadModel, alternate: bool) -> Seq<Seq<char>> {
    seq![
        entry_text("schema"@, schema_shown(model.schema, alternate)),
        entry_text("kind"@, name_text("JournalEventKind"@, model.kind, alternate)),
        entry_text("data_stats"@, stats_shown(measure(model.data), alternate)),
        entry_text("digest"@, digest_shown(model.digest, alternate)),
    ]
}

/// What is shown of a payload: what was counted of its data, and the digest.
pub open spec fn payload_shown(model: PayloadModel, alternate: bool) -> Seq<char> {
    struct_text("JournalPayload"@, payload_fields(model, alternate), true, alternate)
}

impl JournalPayload {
    /// Returns what is shown of it for debugging.
    pub fn debug_text(&self, alternate: bool) -> (r: String)
        ensures
            r@ == payload_shown(self@, alternate),
    {
        let fields = vec![
            entry_string("schema", self.schema.debug_text(alternate)),
            entry_string("kind", self.kind.debug_text(alternate)),
            entry_string("data_stats", self.data.stats().debug_text(alternate)),
            entry_string("digest", self.digest.debug_text(alternate)),
        ];
        assert(texts(fields@) =~= payload_fields(self@, alternate));
        struct_string("JournalPayload", &fields, true, alternate)
    }
}

impl core::fmt::Debug for JournalPayload {
    fn fmt(&self, formatter: &mut core::fmt::Formatter<'_>) -> core::fmt::Result {
        let alternate: bool = is_alternate(formatter);
        write_text(formatter, self.debug_text(alternate).as_str())
    }
}

/// What is shown of a source.
pub open spec fn event_source_shown(model: EventSourceModel, alternate: bool) -> Seq<char> {
    match model {
        EventSourceModel::ControlPlane => "ControlPlane"@,
        EventSourceModel::Worker { fence } => struct_text(
            "Worker"@,
            seq![entry_text("fence"@, fence_shown(fence, alternate))],
            false,
            alternate,
        ),
    }
}

impl JournalEventSource {
    /// Returns what is shown of it for debugging.
    pub fn debug_text(&self, alternate: bool) -> (r: String)
        ensures
            r@ == event_source_shown(self@, alternate),
    {
        match self {
            JournalEventSource::ControlPlane => "ControlPlane".to_owned(),
            JournalEventSource::Worker { fence } => {
                let fields = vec![entry_string("fence", fence.debug_text(alternate))];
                assert(texts(fields@) =~= seq![
                    entry_text("fence"@, fence_shown(fence@, alternate)),
                ]);
                struct_string("Worker", &fields, false, alternate)
            },
        }
    }
}

impl core::fmt::Debug for JournalEventSource {
    fn fmt(&self, formatter: &mut core::fmt::Formatter<'_>) -> core::fmt::Result {
        let alternate: bool = is_alternate(formatter);
        write_text(formatter, self.debug_text(alternate).as_str())
    }
}

/// The fields that are shown of an intent.
pub open spec fn intent_fields(model: IntentModel, alternate: bool) -> Seq<Seq<char>> {
    seq![
        entry_text("tenant_id"@, name_text("TenantId"@, model.tenant_id, alternate)),
        entry_text("run_id"@, generated_shown("RunId"@, model.run_id@, alternate)),
        entry_text("event_id"@, generated_shown("EventId"@, model.event_id@, alternate)),
        entry_text("source"@, event_source_shown(model.source, alternate)),
        entry_text("payload"@, payload_shown(model.payload, alternate)),
        entry_text("intent_digest"@, digest_shown(model.intent_digest, alternate)),
    ]
}

/// What is shown of an intent.
pub open spec fn intent_shown(model: IntentModel, alternate: bool) -> Seq<char> {
    struct_text("JournalEventIntent"@, intent_fields(model, alternate), true, alternate)
}

impl JournalEventIntent {
    /// Returns what is shown of it for debugging.
    pub fn debug_text(&self, alternate: bool) -> (r: String)
        ensures
            r@ == intent_shown(self@, alternate),
    {
        let fields = vec![
            entry_string("tenant_id", self.tenant_id.debug_text(alternate)),
            entry_string("run_id", self.run_id.debug_text(alternate)),
            entry_string("event_id", self.event_id.debug_text(alternate)),
            entry_string("source", self.source.debug_text(alternate)),
            entry_string("payload", self.payload.debug_text(alternate)),
            entry_string("intent_digest", self.intent_digest.debug_text(alternate)),
        ];
        assert(texts(fields@) =~= intent_fields(self@, alternate));
        struct_string("JournalEventIntent", &fields, true, alternate)
    }
}

impl core::fmt::Debug for JournalEventIntent {
    fn fmt(&self, formatter: &mut core::fmt::Formatter<'_>) -> core::fmt::Result {
        let alternate: bool = is_alternate(formatter);
        write_text(formatter, self.debug_text(alternate).as_str())
    }
}

/// The fields that are shown of a head.
pub open spec fn head_fields(model: HeadModel, alternate: bool) -> Seq<Seq<char>> {
    seq![
        entry_text("tenant_id"@, name_text("TenantId"@, model.tenant_id, alternate)),
        entry_text("run_id"@, generated_shown("RunId"@, model.run_id@, alternate)),
        entry_text(
            "sequence"@,
            tuple_text("JournalSequence"@, decimal_text(model.sequence@ as nat), alternate),
        ),
        entry_text("event_id"@, generated_shown("EventId"@, model.event_id@, alternate)),
        entry_text(
            "recorded_at"@,
            tuple_text("Timestamp"@, timestamp_text(model.recorded_at@), alternate),
        ),
        entry_text("digest"@, digest_shown(model.digest, alternate)),
    ]
}

/// What is shown of a head.
pub open spec fn head_shown(model: HeadModel, alternate: bool) -> Seq<char> {
    struct_text("JournalHead"@, head_fields(model, alternate), false, alternate)
}

impl JournalHead {
    /// Returns what is shown of it for debugging.
    pub fn debug_text(&self, alternate: bool) -> (r: String)
        ensures
            r@ == head_shown(self@, alternate),
    {
        let fields = vec![
            entry_string("tenant_id", self.tenant_id.debug_text(alternate)),
            entry_string("run_id", self.run_id.debug_text(alternate)),
            entry_string("sequence", self.sequence.debug_text(alternate)),
            entry_string("event_id", self.event_id.debug_text(alternate)),
            entry_string("recorded_at", self.recorded_at.debug_text(alternate)),
            entry_string("digest", self.digest.debug_text(alternate)),
        ];
        assert(texts(fields@) =~= head_fields(self@, alternate));
        struct_string("JournalHead", &fields, false, alternate)
    }
}

impl core::fmt::Debug for JournalHead {
    fn fmt(&self, formatter: &mut core::fmt::Formatter<'_>) -> core::fmt::Result {
        let alternate: bool = is_alternate(formatter);
        write_text(formatter, self.debug_text(alternate).as_str())
    }
}

/// What is shown of an expectation.
pub open spec fn expectation_shown(expected: Option<HeadModel>, alternate: bool) -> Seq<char> {
    match expected {
        None => "Empty"@,
        Some(head) => struct_text(
            "Exact"@,
            seq![entry_text("head"@, head_shown(head, alternate))],
            false,
            alternate,
        ),
    }
}

impl JournalExpectation {
    /// Returns what is shown of it for debugging.
    pub fn debug_text(&self, alternate: bool) -> (r: String)
        ensures
            r@ == expectation_shown(self@, alternate),
    {
        match self {
            JournalExpectation::Empty => "Empty".to_owned(),
            JournalExpectation::Exact { head } => {
                let fields = vec![entry_string("head", head.debug_text(alternate))];
                assert(texts(fields@) =~= seq![entry_text("head"@, head_shown(head@, alternate))]);
                struct_string("Exact", &fields, false, alternate)
            },
        }
    }
}

impl core::fmt::Debug for JournalExpectation {
    fn fmt(&self, formatter: &mut core::fmt::Formatter<'_>) -> core::fmt::Result {
        let alternate: bool = is_alternate(formatter);
        write_text(formatter, self.debug_text(alternate).as_str())
    }
}

/// The fields that are shown of an append.
pub open spec fn append_fields(model: AppendModel, alternate: bool) -> Seq<Seq<char>> {
    seq![
        entry_text("expectation"@, expectation_shown(model.expected, alternate)),
        entry_text("intent"@, intent_shown(model.intent, alternate)),
    ]
}

/// What is shown of an append.
pub open spec fn append_shown(model: AppendModel, alternate: bool) -> Seq<char> {
    struct_text("JournalAppend"@, append_fields(model, alternate), true, alternate)
}

impl JournalAppend {
    /// Returns what is shown of it for debugging.
    pub fn debug_text(&self, alternate: bool) -> (r: String)
        ensures
            r@ == append_shown(self@, alternate),
    {
        let fields = vec![
            entry_string("expectation", self.expectation.debug_text(alternate)),
            entry_string("intent", self.intent.debug_text(alternate)),
        ];
        assert(texts(fields@) =~= append_fields(self@, alternate));
        struct_string("JournalAppend", &fields, true, alternate)
    }
}

impl core::fmt::Debug for JournalAppend {
    fn fmt(&self, formatter: &mut core::fmt::Formatter<'_>) -> core::fmt::Result {
        let alternate: bool = is_alternate(formatter);
        write_text(formatter, self.debug_text(alternate).as_str())
    }
}

/// What is shown of an optional digest.
pub open spec fn option_digest_shown(digest: Option<Seq<u8>>, alternate: bool) -> Seq<char> {
    match digest {
        Some(digest) => tuple_text("Some"@, digest_shown(digest, alternate), alternate),
        None => "None"@,
    }
}

/// The fields that are shown of an event.
pub open spec fn event_fields(model: EventModel, alternate: bool) -> Seq<Seq<char>> {
    seq![
        entry_text("tenant_id"@, name_text("TenantId"@, model.tenant_id, alternate)),
        entry_text("run_id"@, generated_shown("RunId"@, model.run_id@, alternate)),
        entry_text(
            "sequence"@,
            tuple_text("JournalSequence"@, decimal_text(model.sequence@ as nat), alternate),
        ),
        entry_text("event_id"@, generated_shown("EventId"@, model.event_id@, alternate)),
        entry_text(
            "recorded_at"@,
            tuple_text("Timestamp"@, timestamp_text(model.recorded_at@), alternate),
        ),
        entry_text("source"@, event_source_shown(model.source, alternate)),
        entry_text("payload"@, payload_shown(model.payload, alternate)),
        entry_text("payload_digest"@, digest_shown(model.payload_digest, alternate)),
        entry_text("intent_digest"@, digest_shown(model.intent_digest, alternate)),
        entry_text("previous_digest"@, option_digest_shown(model.previous_digest, alternate)),
        entry_text("digest"@, digest_shown(model.digest, alternate)),
    ]
}

/// What is shown of an event.
pub open spec fn event_shown(model: EventModel, alternate: bool) -> Seq<char> {
    struct_text("JournalEvent"@, event_fields(model, alternate), true, alternate)
}

impl JournalEvent {
    /// Returns what is shown of it for debugging.
    pub fn debug_text(&self, alternate: bool) -> (r: String)
        ensures
            r@ == event_shown(self@, alternate),
    {
        let previous_digest: Option<String> = match &self.previous_digest {
            Some(digest) => Some(digest.debug_text(alternate)),
            None => None,
        };
        let fields = vec![
            entry_string("tenant_id", self.tenant_id.debug_text(alternate)),
            entry_string("run_id", self.run_id.debug_text(alternate)),
            entry_string("sequence", self.sequence.debug_text(alternate)),
            entry_string("event_id", self.event_id.debug_text(alternate)),
            entry_string("recorded_at", self.recorded_at.debug_text(alternate)),
            entry_string("source", self.source.debug_text(alternate)),
            entry_string("payload", self.payload.debug_text(alternate)),
            entry_string("payload_digest", self.payload_digest.debug_text(alternate)),
            entry_string("intent_digest", self.intent_digest.debug_text(alternate)),
            entry_string("previous_digest", option_string(previous_digest, alternate)),
            entry_string("digest", self.digest.debug_text(alternate)),
        ];
        assert(texts(fields@) =~= event_fields(self@, alternate));
        struct_string("JournalEvent", &fields, true, alternate)
    }
}

impl core::fmt::Debug for JournalEvent {
    fn fmt(&self, formatter: &mut core::fmt::Formatter<'_>) -> core::fmt::Result {
        let alternate: bool = is_alternate(formatter);
        write_text(formatter, self.debug_text(alternate).as_str())
    }
}

} // verus!
