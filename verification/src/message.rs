//! Instructions and messages.

use vstd::prelude::*;
use vstd::std_specs::iter::IteratorSpec;
use vstd::std_specs::slice::into_iter_elts;
use vstd::utf8::encode_utf8;

use crate::content::{
    json_content_equal, metadata_shown, ContentMetadata, ContentSource, ContentTrust, JsonContent,
    JsonContentModel, MetadataModel, TextContent, TextModel,
};
use crate::debug::{
    entry_string, entry_text, is_alternate, name_string, name_text, number_string, struct_string,
    struct_text, write_text,
};
use crate::decimal::decimal_text;
use crate::digest::{digest_shown, sha256_hash, Digest};
use crate::identity::{principal_shown, PrincipalIdentity, PrincipalModel};
use crate::ids::{generated_shown, ArtifactId, AttemptId, EventId, InvocationId, MessageId, RunId};
use crate::json_value::json_size;
use crate::ordered::views;
use crate::pins::{capability_shown, CapabilityModel, CapabilityReference};
use crate::text::{
    byte_is_alphanumeric, find_outside, first_outside, is_alphanumeric, texts, utf8_len, ByteClass,
};
use crate::version::{version_shown, Version};

verus! {

// ---------------------------------------------------------------------------
// Instructions
// ---------------------------------------------------------------------------

/// Rejected instruction name.
#[derive(Clone, Copy, Debug, PartialEq, Eq, Structural)]
pub enum InstructionNameError {
    /// The name has no bytes.
    Empty,
    /// The name is longer than the maximum.
    TooLong { max: usize, actual: usize },
    /// The first byte is not an ASCII letter or digit.
    InvalidStart,
    /// The byte at this offset is outside the grammar.
    InvalidByte { index: usize },
}

/// What the grammar of instruction names says of the bytes.
pub open spec fn instruction_name_check(bytes: Seq<u8>) -> Result<(), InstructionNameError> {
    let outside = first_outside(bytes, 1, ByteClass::Name);
    if bytes.len() == 0 {
        Err(InstructionNameError::Empty)
    } else if bytes.len() > 128 {
        Err(InstructionNameError::TooLong { max: 128, actual: bytes.len() as usize })
    } else if !is_alphanumeric(bytes[0]) {
        Err(InstructionNameError::InvalidStart)
    } else if outside < bytes.len() {
        Err(InstructionNameError::InvalidByte { index: outside as usize })
    } else {
        Ok(())
    }
}

/// The stable name of an instruction.
#[derive(Eq, PartialOrd, Ord, Hash)]
pub struct InstructionName {
    text: String,
}

impl InstructionName {
    /// Maximum length in bytes.
    pub const MAX_LEN: usize = 128;

    /// The text satisfies the grammar.
    #[verifier::type_invariant]
    pub open spec fn well_formed(&self) -> bool {
        instruction_name_check(encode_utf8(self@)) is Ok
    }

    /// Validates the text.
    pub fn new(value: &str) -> (r: Result<InstructionName, InstructionNameError>)
        ensures
            match (r, instruction_name_check(encode_utf8(value@))) {
                (Ok(id), Ok(())) => id@ == value@,
                (Err(e), Err(expected)) => e == expected,
                _ => false,
            },
    {
        let bytes = value.as_bytes();
        if bytes.len() == 0 {
            return Err(InstructionNameError::Empty);
        }
        if bytes.len() > 128 {
            return Err(InstructionNameError::TooLong { max: 128, actual: bytes.len() });
        }
        if !byte_is_alphanumeric(bytes[0]) {
            return Err(InstructionNameError::InvalidStart);
        }
        let outside: usize = find_outside(bytes, 1, ByteClass::Name);
        if outside < bytes.len() {
            return Err(InstructionNameError::InvalidByte { index: outside });
        }
        Ok(InstructionName { text: value.to_owned() })
    }

    /// Returns the exact text.
    pub fn as_str(&self) -> (r: &str)
        ensures
            r@ == self@,
            self.well_formed(),
    {
        proof {
            use_type_invariant(self);
        }
        self.text.as_str()
    }

    /// Copies the exact text.
    pub fn to_string(&self) -> (r: String)
        ensures
            r@ == self@,
    {
        self.text.clone()
    }
}

impl View for InstructionName {
    type V = Seq<char>;

    /// The text.
    closed spec fn view(&self) -> Seq<char> {
        self.text@
    }
}

impl Clone for InstructionName {
    fn clone(&self) -> (r: Self)
        ensures
            r == *self,
    {
        proof {
            use_type_invariant(self);
        }
        InstructionName { text: self.text.clone() }
    }
}

impl PartialEq for InstructionName {
    fn eq(&self, other: &Self) -> (r: bool) {
        self.text.eq(&other.text)
    }
}

impl vstd::std_specs::cmp::PartialEqSpecImpl for InstructionName {
    open spec fn obeys_eq_spec() -> bool {
        true
    }

    open spec fn eq_spec(&self, other: &Self) -> bool {
        self@ == other@
    }
}

impl core::str::FromStr for InstructionName {
    type Err = InstructionNameError;

    fn from_str(value: &str) -> (r: Result<Self, Self::Err>)
        ensures
            match (r, instruction_name_check(encode_utf8(value@))) {
                (Ok(id), Ok(())) => id@ == value@,
                (Err(e), Err(expected)) => e == expected,
                _ => false,
            },
    {
        InstructionName::new(value)
    }
}

impl AsRef<str> for InstructionName {
    fn as_ref(&self) -> (r: &str)
        ensures
            r@ == self@,
    {
        self.as_str()
    }
}

impl core::borrow::Borrow<str> for InstructionName {
    fn borrow(&self) -> (r: &str)
        ensures
            str::view(r) == self@,
    {
        self.as_str()
    }
}

impl TryFrom<String> for InstructionName {
    type Error = InstructionNameError;

    fn try_from(value: String) -> (r: Result<Self, Self::Error>)
        ensures
            match (r, instruction_name_check(encode_utf8(value@))) {
                (Ok(id), Ok(())) => id@ == value@,
                (Err(e), Err(expected)) => e == expected,
                _ => false,
            },
    {
        InstructionName::new(value.as_str())
    }
}

// What comes out is stated on `try_from` itself, over views.
impl vstd::std_specs::convert::TryFromSpecImpl<String> for InstructionName {
    open spec fn obeys_try_from_spec() -> bool {
        false
    }

    open spec fn try_from_spec(value: String) -> Result<Self, InstructionNameError> {
        arbitrary()
    }
}

impl<'a> TryFrom<&'a str> for InstructionName {
    type Error = InstructionNameError;

    fn try_from(value: &'a str) -> (r: Result<Self, Self::Error>)
        ensures
            match (r, instruction_name_check(encode_utf8(value@))) {
                (Ok(id), Ok(())) => id@ == value@,
                (Err(e), Err(expected)) => e == expected,
                _ => false,
            },
    {
        InstructionName::new(value)
    }
}

// What comes out is stated on `try_from` itself, over views.
impl<'a> vstd::std_specs::convert::TryFromSpecImpl<&'a str> for InstructionName {
    open spec fn obeys_try_from_spec() -> bool {
        false
    }

    open spec fn try_from_spec(value: &'a str) -> Result<Self, InstructionNameError> {
        arbitrary()
    }
}

impl From<InstructionName> for String {
    fn from(value: InstructionName) -> (r: Self)
        ensures
            r@ == value@,
    {
        value.text
    }
}

impl vstd::std_specs::convert::FromSpecImpl<InstructionName> for String {
    open spec fn obeys_from_spec() -> bool {
        true
    }

    closed spec fn from_spec(value: InstructionName) -> String {
        value.text
    }
}

/// The name and the version of an instruction.
pub struct InstructionIdentity {
    name: InstructionName,
    version: Version,
}

/// The values of [`InstructionIdentity`].
pub ghost struct InstructionIdentityModel {
    pub name: Seq<char>,
    pub version: Version,
}

impl View for InstructionIdentity {
    type V = InstructionIdentityModel;

    closed spec fn view(&self) -> InstructionIdentityModel {
        InstructionIdentityModel {
            name: self.name@,
            version: self.version,
        }
    }
}

impl InstructionIdentity {
    /// Names an instruction.
    pub fn new(name: InstructionName, version: Version) -> (r: InstructionIdentity)
        ensures
            r@ == (InstructionIdentityModel {
                name: name@,
                version: version,
            }),
    {
        InstructionIdentity { name, version }
    }

    /// Returns the name.
    pub fn name(&self) -> (r: &InstructionName)
        ensures
            r@ == self@.name,
    {
        &self.name
    }

    /// Returns the version.
    pub fn version(&self) -> (r: Version)
        ensures
            r == self@.version,
    {
        self.version
    }
}

impl Clone for InstructionIdentity {
    fn clone(&self) -> (r: Self)
        ensures
            r@ == self@,
    {
        InstructionIdentity {
            name: self.name.clone(),
            version: self.version,
        }
    }
}

impl PartialEq for InstructionIdentity {
    fn eq(&self, other: &Self) -> (r: bool) {
        self.name == other.name
            && self.version == other.version
    }
}

impl vstd::std_specs::cmp::PartialEqSpecImpl for InstructionIdentity {
    open spec fn obeys_eq_spec() -> bool {
        true
    }

    open spec fn eq_spec(&self, other: &Self) -> bool {
        self@ == other@
    }
}

impl Eq for InstructionIdentity {

}

/// Who stands behind an instruction.
pub struct InstructionProvenance {
    owner: PrincipalIdentity,
}

/// The values of [`InstructionProvenance`].
pub ghost struct InstructionProvenanceModel {
    pub owner: PrincipalModel,
}

impl View for InstructionProvenance {
    type V = InstructionProvenanceModel;

    closed spec fn view(&self) -> InstructionProvenanceModel {
        InstructionProvenanceModel {
            owner: self.owner@,
        }
    }
}

impl InstructionProvenance {
    /// Names the owner.
    pub fn new(owner: PrincipalIdentity) -> (r: InstructionProvenance)
        ensures
            r@ == (InstructionProvenanceModel {
                owner: owner@,
            }),
    {
        InstructionProvenance { owner }
    }

    /// Returns the owner.
    pub fn owner(&self) -> (r: &PrincipalIdentity)
        ensures
            r@ == self@.owner,
    {
        &self.owner
    }
}

impl Clone for InstructionProvenance {
    fn clone(&self) -> (r: Self)
        ensures
            r@ == self@,
    {
        InstructionProvenance {
            owner: self.owner.clone(),
        }
    }
}

impl PartialEq for InstructionProvenance {
    fn eq(&self, other: &Self) -> (r: bool) {
        self.owner == other.owner
    }
}

impl vstd::std_specs::cmp::PartialEqSpecImpl for InstructionProvenance {
    open spec fn obeys_eq_spec() -> bool {
        true
    }

    open spec fn eq_spec(&self, other: &Self) -> bool {
        self@ == other@
    }
}

impl Eq for InstructionProvenance {

}

/// A stored artifact, as far as it is read.
#[derive(Debug)]
pub struct ArtifactRef {
    artifact_id: ArtifactId,
    digest: Digest,
    metadata: ContentMetadata,
}

/// The values of [`ArtifactRef`].
pub ghost struct ArtifactModel {
    pub artifact_id: ArtifactId,
    pub digest: Seq<u8>,
    pub metadata: MetadataModel,
}

impl View for ArtifactRef {
    type V = ArtifactModel;

    closed spec fn view(&self) -> ArtifactModel {
        ArtifactModel {
            artifact_id: self.artifact_id,
            digest: self.digest@,
            metadata: self.metadata@,
        }
    }
}

impl ArtifactRef {
    /// Names an artifact.
    pub fn new(artifact_id: ArtifactId, digest: Digest, metadata: ContentMetadata) -> (r: ArtifactRef)
        ensures
            r@ == (ArtifactModel {
                artifact_id: artifact_id,
                digest: digest@,
                metadata: metadata@,
            }),
    {
        ArtifactRef { artifact_id, digest, metadata }
    }

    /// Returns the artifact.
    pub fn artifact_id(&self) -> (r: ArtifactId)
        ensures
            r == self@.artifact_id,
    {
        self.artifact_id
    }

    /// Returns the digest of what is stored.
    pub fn digest(&self) -> (r: Digest)
        ensures
            r@ == self@.digest,
    {
        self.digest
    }

    /// Returns what is known of the artifact.
    pub fn metadata(&self) -> (r: &ContentMetadata)
        ensures
            r@ == self@.metadata,
    {
        &self.metadata
    }
}

impl Clone for ArtifactRef {
    fn clone(&self) -> (r: Self)
        ensures
            r@ == self@,
    {
        ArtifactRef {
            artifact_id: self.artifact_id,
            digest: self.digest,
            metadata: self.metadata.clone(),
        }
    }
}

impl PartialEq for ArtifactRef {
    fn eq(&self, other: &Self) -> (r: bool) {
        self.artifact_id == other.artifact_id
            && self.digest == other.digest
            && self.metadata == other.metadata
    }
}

impl vstd::std_specs::cmp::PartialEqSpecImpl for ArtifactRef {
    open spec fn obeys_eq_spec() -> bool {
        true
    }

    open spec fn eq_spec(&self, other: &Self) -> bool {
        self@ == other@
    }
}

impl Eq for ArtifactRef {

}

/// What an instruction says.
#[derive(Debug)]
pub enum InstructionContent {
    /// A text.
    Text(TextContent),
    /// A stored artifact.
    Artifact(ArtifactRef),
}

/// The values of [`InstructionContent`].
pub ghost enum InstructionContentModel {
    Text(TextModel),
    Artifact(ArtifactModel),
}

impl View for InstructionContent {
    type V = InstructionContentModel;

    open spec fn view(&self) -> InstructionContentModel {
        match self {
            InstructionContent::Text(content) => InstructionContentModel::Text(content@),
            InstructionContent::Artifact(content) => InstructionContentModel::Artifact(content@),
        }
    }
}

/// What is known of the content.
pub open spec fn instruction_metadata(content: InstructionContentModel) -> MetadataModel {
    match content {
        InstructionContentModel::Text(content) => content.metadata,
        InstructionContentModel::Artifact(content) => content.metadata,
    }
}

/// The digest of the content: that of the bytes of a text, or of what is
/// stored.
pub open spec fn instruction_digest(content: InstructionContentModel) -> Seq<u8> {
    match content {
        InstructionContentModel::Text(content) => sha256_hash(encode_utf8(content.text)),
        InstructionContentModel::Artifact(content) => content.digest,
    }
}

impl InstructionContent {
    /// Returns what is known of the content.
    pub fn metadata(&self) -> (r: &ContentMetadata)
        ensures
            r@ == instruction_metadata(self@),
    {
        match self {
            InstructionContent::Text(content) => content.metadata(),
            InstructionContent::Artifact(content) => content.metadata(),
        }
    }

    /// Computes the digest of the content.
    pub fn digest(&self) -> (r: Digest)
        ensures
            r@ == instruction_digest(self@),
    {
        match self {
            InstructionContent::Text(content) => Digest::sha256(content.text().as_bytes()),
            InstructionContent::Artifact(content) => content.digest(),
        }
    }
}

impl From<TextContent> for InstructionContent {
    fn from(value: TextContent) -> (r: InstructionContent) {
        InstructionContent::Text(value)
    }
}

impl vstd::std_specs::convert::FromSpecImpl<TextContent> for InstructionContent {
    open spec fn obeys_from_spec() -> bool {
        true
    }

    open spec fn from_spec(value: TextContent) -> InstructionContent {
        InstructionContent::Text(value)
    }
}

impl From<ArtifactRef> for InstructionContent {
    fn from(value: ArtifactRef) -> (r: InstructionContent) {
        InstructionContent::Artifact(value)
    }
}

impl vstd::std_specs::convert::FromSpecImpl<ArtifactRef> for InstructionContent {
    open spec fn obeys_from_spec() -> bool {
        true
    }

    open spec fn from_spec(value: ArtifactRef) -> InstructionContent {
        InstructionContent::Artifact(value)
    }
}

impl Clone for InstructionContent {
    fn clone(&self) -> (r: Self)
        ensures
            r@ == self@,
    {
        match self {
            InstructionContent::Text(content) => InstructionContent::Text(content.clone()),
            InstructionContent::Artifact(content) => InstructionContent::Artifact(content.clone()),
        }
    }
}

impl PartialEq for InstructionContent {
    fn eq(&self, other: &Self) -> (r: bool) {
        match (self, other) {
            (InstructionContent::Text(a), InstructionContent::Text(b)) => *a == *b,
            (InstructionContent::Artifact(a), InstructionContent::Artifact(b)) => *a == *b,
            _ => false,
        }
    }
}

impl vstd::std_specs::cmp::PartialEqSpecImpl for InstructionContent {
    open spec fn obeys_eq_spec() -> bool {
        true
    }

    open spec fn eq_spec(&self, other: &Self) -> bool {
        self@ == other@
    }
}

impl Eq for InstructionContent {

}

/// Rejected instruction.
#[derive(Clone, Copy, Debug, PartialEq, Eq, Structural)]
pub enum InstructionError {
    /// The text does not come from the application under its control.
    TextNotApplicationControlled { actual_source: ContentSource, trust: ContentTrust },
    /// The artifact is not under the control of the application.
    ArtifactNotApplicationControlled { actual: ContentTrust },
    /// The content does not have the given digest.
    ContentDigestMismatch,
}

/// What the rules say of the content of an instruction.
pub open spec fn instruction_check(content: InstructionContentModel) -> Result<
    (),
    InstructionError,
> {
    let metadata = instruction_metadata(content);
    let controlled = metadata.trust == ContentTrust::ApplicationControlled;
    match content {
        InstructionContentModel::Text(_) => if controlled && metadata.source
            == ContentSource::Application {
            Ok(())
        } else {
            Err(
                InstructionError::TextNotApplicationControlled {
                    actual_source: metadata.source,
                    trust: metadata.trust,
                },
            )
        },
        InstructionContentModel::Artifact(_) => if controlled {
            Ok(())
        } else {
            Err(InstructionError::ArtifactNotApplicationControlled { actual: metadata.trust })
        },
    }
}

fn validate_instruction_content(content: &InstructionContent) -> (r: Result<(), InstructionError>)
    ensures
        r == instruction_check(content@),
{
    let metadata = content.metadata();
    match content {
        InstructionContent::Text(_) => {
            if metadata.source() != ContentSource::Application || metadata.trust()
                != ContentTrust::ApplicationControlled {
                return Err(
                    InstructionError::TextNotApplicationControlled {
                        actual_source: metadata.source(),
                        trust: metadata.trust(),
                    },
                );
            }
        },
        InstructionContent::Artifact(_) => {
            if metadata.trust() != ContentTrust::ApplicationControlled {
                return Err(
                    InstructionError::ArtifactNotApplicationControlled {
                        actual: metadata.trust(),
                    },
                );
            }
        },
    }
    Ok(())
}

/// An instruction that the application controls.
pub struct Instruction {
    identity: InstructionIdentity,
    content_digest: Digest,
    content: InstructionContent,
    provenance: InstructionProvenance,
}

/// The values of [`Instruction`].
pub ghost struct InstructionModel {
    pub identity: InstructionIdentityModel,
    pub content_digest: Seq<u8>,
    pub content: InstructionContentModel,
    pub provenance: InstructionProvenanceModel,
}

impl View for Instruction {
    type V = InstructionModel;

    closed spec fn view(&self) -> InstructionModel {
        InstructionModel {
            identity: self.identity@,
            content_digest: self.content_digest@,
            content: self.content@,
            provenance: self.provenance@,
        }
    }
}

impl Instruction {
    /// The application controls the content, and the digest is that of the
    /// content.
    #[verifier::type_invariant]
    pub open spec fn well_formed(&self) -> bool {
        &&& instruction_check(self@.content) is Ok
        &&& self@.content_digest == instruction_digest(self@.content)
    }

    /// Makes an instruction.
    pub fn new(
        identity: InstructionIdentity,
        content: InstructionContent,
        provenance: InstructionProvenance,
    ) -> (r: Result<Instruction, InstructionError>)
        ensures
            match (r, instruction_check(content@)) {
                (Ok(instruction), Ok(())) => instruction@ == (InstructionModel {
                    identity: identity@,
                    content_digest: instruction_digest(content@),
                    content: content@,
                    provenance: provenance@,
                }),
                (Err(e), Err(expected)) => e == expected,
                _ => false,
            },
    {
        validate_instruction_content(&content)?;
        let content_digest = content.digest();
        Ok(Instruction { identity, content_digest, content, provenance })
    }

    /// Makes an instruction again and compares its digest with the recorded
    /// one.
    pub fn restore(
        identity: InstructionIdentity,
        content_digest: Digest,
        content: InstructionContent,
        provenance: InstructionProvenance,
    ) -> (r: Result<Instruction, InstructionError>)
        ensures
            match (r, instruction_check(content@)) {
                (Ok(instruction), Ok(())) => content_digest@ == instruction_digest(content@)
                    && instruction@ == (InstructionModel {
                    identity: identity@,
                    content_digest: content_digest@,
                    content: content@,
                    provenance: provenance@,
                }),
                (Err(e), Ok(())) => content_digest@ != instruction_digest(content@) && e
                    == InstructionError::ContentDigestMismatch,
                (Err(e), Err(expected)) => e == expected,
                _ => false,
            },
    {
        let instruction = Instruction::new(identity, content, provenance)?;
        if instruction.content_digest != content_digest {
            return Err(InstructionError::ContentDigestMismatch);
        }
        Ok(instruction)
    }

    /// Returns the name and the version.
    pub fn identity(&self) -> (r: &InstructionIdentity)
        ensures
            r@ == self@.identity,
    {
        &self.identity
    }

    /// Returns the content.
    pub fn content(&self) -> (r: &InstructionContent)
        ensures
            r@ == self@.content,
            self.well_formed(),
    {
        proof {
            use_type_invariant(self);
        }
        &self.content
    }

    /// Returns the digest of the content.
    pub fn content_digest(&self) -> (r: Digest)
        ensures
            r@ == self@.content_digest,
            r@ == instruction_digest(self@.content),
    {
        proof {
            use_type_invariant(self);
        }
        self.content_digest
    }

    /// Returns who stands behind the instruction.
    pub fn provenance(&self) -> (r: &InstructionProvenance)
        ensures
            r@ == self@.provenance,
    {
        &self.provenance
    }
}

impl Clone for Instruction {
    fn clone(&self) -> (r: Self)
        ensures
            r@ == self@,
    {
        proof {
            use_type_invariant(self);
        }
        Instruction {
            identity: self.identity.clone(),
            content_digest: self.content_digest,
            content: self.content.clone(),
            provenance: self.provenance.clone(),
        }
    }
}

impl PartialEq for Instruction {
    fn eq(&self, other: &Self) -> (r: bool) {
        self.identity == other.identity && self.content_digest == other.content_digest
            && self.content == other.content && self.provenance == other.provenance
    }
}

impl vstd::std_specs::cmp::PartialEqSpecImpl for Instruction {
    open spec fn obeys_eq_spec() -> bool {
        true
    }

    open spec fn eq_spec(&self, other: &Self) -> bool {
        self@ == other@
    }
}

impl Eq for Instruction {

}

// ---------------------------------------------------------------------------
// Producers
// ---------------------------------------------------------------------------

/// The part that a message plays in a conversation.
#[derive(Clone, Copy, Debug, PartialEq, Eq, PartialOrd, Ord, Hash, Structural)]
pub enum MessageRole {
    /// It asks.
    User,
    /// It answers.
    Assistant,
    /// It brings the result of a tool.
    Tool,
}

/// The kinds of [`MessageProducer`].
#[derive(Clone, Copy, Debug, PartialEq, Eq, PartialOrd, Ord, Hash, Structural)]
pub enum MessageProducerKind {
    /// See [`MessageProducer::Principal`].
    Principal,
    /// See [`MessageProducer::ModelAttempt`].
    ModelAttempt,
    /// See [`MessageProducer::Capability`].
    Capability,
    /// See [`MessageProducer::ToolInvocation`].
    ToolInvocation,
}

/// Who made a message.
#[allow(inconsistent_fields)]
pub enum MessageProducer {
    /// A principal.
    Principal {
        /// The principal.
        principal: PrincipalIdentity,
    },
    /// A model.
    ModelAttempt {
        /// The attempt.
        attempt_id: AttemptId,
    },
    /// A capability.
    Capability {
        /// Who owns the capability.
        owner: PrincipalIdentity,
        /// The capability.
        capability: CapabilityReference,
    },
    /// A tool.
    ToolInvocation {
        /// Who owns the tool.
        owner: PrincipalIdentity,
        /// The tool.
        capability: CapabilityReference,
        /// The invocation.
        invocation_id: InvocationId,
    },
}

/// The values of [`MessageProducer`].
#[allow(inconsistent_fields)]
pub ghost enum ProducerModel {
    Principal { principal: PrincipalModel },
    ModelAttempt { attempt_id: AttemptId },
    Capability { owner: PrincipalModel, capability: CapabilityModel },
    ToolInvocation {
        owner: PrincipalModel,
        capability: CapabilityModel,
        invocation_id: InvocationId,
    },
}

impl View for MessageProducer {
    type V = ProducerModel;

    open spec fn view(&self) -> ProducerModel {
        match self {
            MessageProducer::Principal { principal } => ProducerModel::Principal {
                principal: principal@,
            },
            MessageProducer::ModelAttempt { attempt_id } => ProducerModel::ModelAttempt {
                attempt_id: *attempt_id,
            },
            MessageProducer::Capability { owner, capability } => ProducerModel::Capability {
                owner: owner@,
                capability: capability@,
            },
            MessageProducer::ToolInvocation {
                owner,
                capability,
                invocation_id,
            } => ProducerModel::ToolInvocation {
                owner: owner@,
                capability: capability@,
                invocation_id: *invocation_id,
            },
        }
    }
}

/// The kind of a producer.
pub open spec fn producer_kind(producer: ProducerModel) -> MessageProducerKind {
    match producer {
        ProducerModel::Principal { principal } => MessageProducerKind::Principal,
        ProducerModel::ModelAttempt { attempt_id } => MessageProducerKind::ModelAttempt,
        ProducerModel::Capability { owner, capability } => MessageProducerKind::Capability,
        ProducerModel::ToolInvocation {
            owner,
            capability,
            invocation_id,
        } => MessageProducerKind::ToolInvocation,
    }
}

impl MessageProducer {
    /// Returns the kind.
    pub fn kind(&self) -> (r: MessageProducerKind)
        ensures
            r == producer_kind(self@),
    {
        match self {
            MessageProducer::Principal { principal: _ } => MessageProducerKind::Principal,
            MessageProducer::ModelAttempt { attempt_id: _ } => MessageProducerKind::ModelAttempt,
            MessageProducer::Capability { owner: _, capability: _ } => {
                MessageProducerKind::Capability
            },
            MessageProducer::ToolInvocation { owner: _, capability: _, invocation_id: _ } => {
                MessageProducerKind::ToolInvocation
            },
        }
    }
}

impl Clone for MessageProducer {
    fn clone(&self) -> (r: Self)
        ensures
            r@ == self@,
    {
        match self {
            MessageProducer::Principal { principal } => MessageProducer::Principal {
                principal: principal.clone(),
            },
            MessageProducer::ModelAttempt { attempt_id } => MessageProducer::ModelAttempt {
                attempt_id: *attempt_id,
            },
            MessageProducer::Capability { owner, capability } => MessageProducer::Capability {
                owner: owner.clone(),
                capability: capability.clone(),
            },
            MessageProducer::ToolInvocation {
                owner,
                capability,
                invocation_id,
            } => MessageProducer::ToolInvocation {
                owner: owner.clone(),
                capability: capability.clone(),
                invocation_id: *invocation_id,
            },
        }
    }
}

impl PartialEq for MessageProducer {
    fn eq(&self, other: &Self) -> (r: bool) {
        match (self, other) {
            (
                MessageProducer::Principal { principal: a },
                MessageProducer::Principal { principal: b },
            ) => *a == *b,
            (
                MessageProducer::ModelAttempt { attempt_id: a },
                MessageProducer::ModelAttempt { attempt_id: b },
            ) => *a == *b,
            (
                MessageProducer::Capability { owner: a, capability: c },
                MessageProducer::Capability { owner: b, capability: d },
            ) => *a == *b && *c == *d,
            (
                MessageProducer::ToolInvocation { owner: a, capability: c, invocation_id: e },
                MessageProducer::ToolInvocation { owner: b, capability: d, invocation_id: f },
            ) => *a == *b && *c == *d && *e == *f,
            _ => false,
        }
    }
}

impl vstd::std_specs::cmp::PartialEqSpecImpl for MessageProducer {
    open spec fn obeys_eq_spec() -> bool {
        true
    }

    open spec fn eq_spec(&self, other: &Self) -> bool {
        self@ == other@
    }
}

impl Eq for MessageProducer {

}

/// Where a message comes from.
pub struct MessageProvenance {
    run_id: RunId,
    event_id: EventId,
    producer: MessageProducer,
}

/// The values of [`MessageProvenance`].
pub ghost struct ProvenanceModel {
    pub run_id: RunId,
    pub event_id: EventId,
    pub producer: ProducerModel,
}

impl View for MessageProvenance {
    type V = ProvenanceModel;

    closed spec fn view(&self) -> ProvenanceModel {
        ProvenanceModel {
            run_id: self.run_id,
            event_id: self.event_id,
            producer: self.producer@,
        }
    }
}

impl MessageProvenance {
    /// Names the parts.
    pub fn new(run_id: RunId, event_id: EventId, producer: MessageProducer) -> (r: MessageProvenance)
        ensures
            r@ == (ProvenanceModel {
                run_id: run_id,
                event_id: event_id,
                producer: producer@,
            }),
    {
        MessageProvenance { run_id, event_id, producer }
    }

    /// Returns the run.
    pub fn run_id(&self) -> (r: RunId)
        ensures
            r == self@.run_id,
    {
        self.run_id
    }

    /// Returns the event.
    pub fn event_id(&self) -> (r: EventId)
        ensures
            r == self@.event_id,
    {
        self.event_id
    }

    /// Returns who made the message.
    pub fn producer(&self) -> (r: &MessageProducer)
        ensures
            r@ == self@.producer,
    {
        &self.producer
    }
}

impl Clone for MessageProvenance {
    fn clone(&self) -> (r: Self)
        ensures
            r@ == self@,
    {
        MessageProvenance {
            run_id: self.run_id,
            event_id: self.event_id,
            producer: self.producer.clone(),
        }
    }
}

impl PartialEq for MessageProvenance {
    fn eq(&self, other: &Self) -> (r: bool) {
        self.run_id == other.run_id
            && self.event_id == other.event_id
            && self.producer == other.producer
    }
}

impl vstd::std_specs::cmp::PartialEqSpecImpl for MessageProvenance {
    open spec fn obeys_eq_spec() -> bool {
        true
    }

    open spec fn eq_spec(&self, other: &Self) -> bool {
        self@ == other@
    }
}

impl Eq for MessageProvenance {

}

/// The kinds of producers that a role accepts.
pub open spec fn accepts_producer(role: MessageRole, producer: MessageProducerKind) -> bool {
    match role {
        MessageRole::User => producer == MessageProducerKind::Principal,
        MessageRole::Assistant => producer == MessageProducerKind::ModelAttempt || producer
            == MessageProducerKind::Capability,
        MessageRole::Tool => producer == MessageProducerKind::ToolInvocation,
    }
}

/// The sources of content that a role accepts.
pub open spec fn accepts_source(role: MessageRole, source: ContentSource) -> bool {
    source == ContentSource::Artifact || match role {
        MessageRole::User => source == ContentSource::User || source == ContentSource::RemoteAgent
            || source == ContentSource::Application,
        MessageRole::Assistant => source == ContentSource::Model || source
            == ContentSource::RemoteAgent || source == ContentSource::Application,
        MessageRole::Tool => source == ContentSource::Tool,
    }
}

/// Tests whether a role accepts a kind of producer.
pub fn role_accepts_producer(role: MessageRole, producer: MessageProducerKind) -> (r: bool)
    ensures
        r == accepts_producer(role, producer),
{
    match (role, producer) {
        (MessageRole::User, MessageProducerKind::Principal) => true,
        (MessageRole::Assistant, MessageProducerKind::ModelAttempt) => true,
        (MessageRole::Assistant, MessageProducerKind::Capability) => true,
        (MessageRole::Tool, MessageProducerKind::ToolInvocation) => true,
        _ => false,
    }
}

/// Tests whether a role accepts a source of content.
pub fn role_accepts_content_source(role: MessageRole, source: ContentSource) -> (r: bool)
    ensures
        r == accepts_source(role, source),
{
    match (role, source) {
        (_, ContentSource::Artifact) => true,
        (MessageRole::User, ContentSource::User) => true,
        (MessageRole::User, ContentSource::RemoteAgent) => true,
        (MessageRole::User, ContentSource::Application) => true,
        (MessageRole::Assistant, ContentSource::Model) => true,
        (MessageRole::Assistant, ContentSource::RemoteAgent) => true,
        (MessageRole::Assistant, ContentSource::Application) => true,
        (MessageRole::Tool, ContentSource::Tool) => true,
        _ => false,
    }
}

// ---------------------------------------------------------------------------
// Parts
// ---------------------------------------------------------------------------

/// A part of a message.
#[derive(Debug)]
pub enum ContentPart {
    /// A text.
    Text(TextContent),
    /// A JSON value.
    Json(JsonContent),
    /// A stored artifact.
    Artifact(ArtifactRef),
}

/// The values of [`ContentPart`].
pub ghost enum PartModel {
    Text(TextModel),
    Json(JsonContentModel),
    Artifact(ArtifactModel),
}

impl View for ContentPart {
    type V = PartModel;

    open spec fn view(&self) -> PartModel {
        match self {
            ContentPart::Text(content) => PartModel::Text(content@),
            ContentPart::Json(content) => PartModel::Json(content@),
            ContentPart::Artifact(content) => PartModel::Artifact(content@),
        }
    }
}

/// What is known of a part.
pub open spec fn part_metadata(part: PartModel) -> MetadataModel {
    match part {
        PartModel::Text(content) => content.metadata,
        PartModel::Json(content) => content.metadata,
        PartModel::Artifact(content) => content.metadata,
    }
}

/// How many bytes a part carries itself.
pub open spec fn part_bytes(part: PartModel) -> nat {
    match part {
        PartModel::Text(content) => encode_utf8(content.text).len(),
        PartModel::Json(content) => json_size(content.value),
        PartModel::Artifact(_) => 0,
    }
}

impl ContentPart {
    /// Returns what is known of the part.
    pub fn metadata(&self) -> (r: &ContentMetadata)
        ensures
            r@ == part_metadata(self@),
    {
        match self {
            ContentPart::Text(content) => content.metadata(),
            ContentPart::Json(content) => content.metadata(),
            ContentPart::Artifact(content) => content.metadata(),
        }
    }

    /// Returns how many bytes the part carries itself: those of a text, or of
    /// the compact text of a JSON value.
    pub fn inline_payload_bytes(&self) -> (r: usize)
        ensures
            r == part_bytes(self@),
    {
        match self {
            ContentPart::Text(content) => utf8_len(content.text()),
            ContentPart::Json(content) => content.value().stats().compact_bytes(),
            ContentPart::Artifact(_) => 0,
        }
    }
}

impl From<TextContent> for ContentPart {
    fn from(value: TextContent) -> (r: ContentPart) {
        ContentPart::Text(value)
    }
}

impl vstd::std_specs::convert::FromSpecImpl<TextContent> for ContentPart {
    open spec fn obeys_from_spec() -> bool {
        true
    }

    open spec fn from_spec(value: TextContent) -> ContentPart {
        ContentPart::Text(value)
    }
}

impl From<JsonContent> for ContentPart {
    fn from(value: JsonContent) -> (r: ContentPart) {
        ContentPart::Json(value)
    }
}

impl vstd::std_specs::convert::FromSpecImpl<JsonContent> for ContentPart {
    open spec fn obeys_from_spec() -> bool {
        true
    }

    open spec fn from_spec(value: JsonContent) -> ContentPart {
        ContentPart::Json(value)
    }
}

impl From<ArtifactRef> for ContentPart {
    fn from(value: ArtifactRef) -> (r: ContentPart) {
        ContentPart::Artifact(value)
    }
}

impl vstd::std_specs::convert::FromSpecImpl<ArtifactRef> for ContentPart {
    open spec fn obeys_from_spec() -> bool {
        true
    }

    open spec fn from_spec(value: ArtifactRef) -> ContentPart {
        ContentPart::Artifact(value)
    }
}

impl Clone for ContentPart {
    fn clone(&self) -> (r: Self)
        ensures
            r@ == self@,
    {
        match self {
            ContentPart::Text(content) => ContentPart::Text(content.clone()),
            ContentPart::Json(content) => ContentPart::Json(content.clone()),
            ContentPart::Artifact(content) => ContentPart::Artifact(content.clone()),
        }
    }
}

/// The parts are of one kind and have equal contents.
pub open spec fn part_equal(a: PartModel, b: PartModel) -> bool {
    match (a, b) {
        (PartModel::Json(x), PartModel::Json(y)) => json_content_equal(x, y),
        _ => a == b,
    }
}

impl PartialEq for ContentPart {
    fn eq(&self, other: &Self) -> (r: bool) {
        match (self, other) {
            (ContentPart::Text(a), ContentPart::Text(b)) => *a == *b,
            (ContentPart::Json(a), ContentPart::Json(b)) => *a == *b,
            (ContentPart::Artifact(a), ContentPart::Artifact(b)) => *a == *b,
            _ => false,
        }
    }
}

impl vstd::std_specs::cmp::PartialEqSpecImpl for ContentPart {
    open spec fn obeys_eq_spec() -> bool {
        true
    }

    open spec fn eq_spec(&self, other: &Self) -> bool {
        part_equal(self@, other@)
    }
}

impl Eq for ContentPart {

}

/// Rejected parts.
#[derive(Clone, Copy, Debug, PartialEq, Eq, Structural)]
pub enum MessagePartsError {
    /// There is no part.
    Empty,
    /// There are more parts than the maximum.
    TooMany { max: usize, actual: usize },
    /// The parts carry more bytes than the maximum.
    InlinePayloadTooLarge { max: usize, actual: usize },
}

/// How many bytes parts carry themselves.
pub open spec fn parts_bytes(parts: Seq<PartModel>) -> nat
    decreases parts.len(),
{
    if parts.len() == 0 {
        0
    } else {
        parts_bytes(parts.drop_last()) + part_bytes(parts.last())
    }
}

/// What the last of the parts fails on.
pub open spec fn part_failure(parts: Seq<PartModel>) -> Option<MessagePartsError> {
    let bytes = parts_bytes(parts);
    if parts.len() == 65 {
        Some(MessagePartsError::TooMany { max: 64, actual: 65 })
    } else if bytes > 2097152 {
        Some(
            MessagePartsError::InlinePayloadTooLarge {
                max: 2097152,
                actual: crate::json::capped(bytes),
            },
        )
    } else {
        None
    }
}

/// What the first parts fail on.
pub open spec fn parts_failure(parts: Seq<PartModel>, n: int) -> Option<MessagePartsError>
    decreases n,
{
    if n <= 0 {
        None
    } else {
        match parts_failure(parts, n - 1) {
            Some(e) => Some(e),
            None => part_failure(parts.take(n)),
        }
    }
}

/// What parts fail on as those of a message.
pub open spec fn parts_check(parts: Seq<PartModel>) -> Result<(), MessagePartsError> {
    match parts_failure(parts, parts.len() as int) {
        Some(e) => Err(e),
        None => if parts.len() == 0 {
            Err(MessagePartsError::Empty)
        } else {
            Ok(())
        },
    }
}

proof fn parts_stay_failed(parts: Seq<PartModel>, i: int, n: int)
    requires
        0 <= i <= n,
        parts_failure(parts, i) is Some,
    ensures
        parts_failure(parts, n) == parts_failure(parts, i),
    decreases n - i,
{
    if i < n {
        parts_stay_failed(parts, i, n - 1);
    }
}

/// The parts of a message, in order.
pub struct MessageParts {
    parts: Vec<ContentPart>,
    inline_payload_bytes: usize,
}

impl View for MessageParts {
    type V = Seq<PartModel>;

    closed spec fn view(&self) -> Seq<PartModel> {
        views(self.parts@)
    }
}

fn push_message_part(
    parts: &mut Vec<ContentPart>,
    inline_payload_bytes: &mut usize,
    part: ContentPart,
) -> (r: Result<(), MessagePartsError>)
    requires
        old(parts)@.len() <= 64,
        *old(inline_payload_bytes) == parts_bytes(views(old(parts)@)),
    ensures
        ({
            let more = views(old(parts)@).push(part@);
            let bytes = parts_bytes(more);
            match r {
                Ok(()) => {
                    &&& more.len() <= 64
                    &&& bytes <= 2097152
                    &&& views(final(parts)@) == more
                    &&& *final(inline_payload_bytes) == bytes
                },
                Err(e) => {
                    &&& final(parts)@ == old(parts)@
                    &&& *final(inline_payload_bytes) == *old(inline_payload_bytes)
                    &&& if more.len() == 65 {
                        e == (MessagePartsError::TooMany { max: 64, actual: 65 })
                    } else {
                        bytes > 2097152 && e == (MessagePartsError::InlinePayloadTooLarge {
                            max: 2097152,
                            actual: crate::json::capped(bytes),
                        })
                    }
                },
            }
        }),
{
    let ghost before = views(parts@);
    proof {
        assert(before.push(part@).drop_last() =~= before);
        assert(before.push(part@).last() == part@);
    }
    if parts.len() == 64 {
        return Err(MessagePartsError::TooMany { max: 64, actual: 65 });
    }
    let actual: usize = inline_payload_bytes.saturating_add(part.inline_payload_bytes());
    if actual > 2097152 {
        return Err(MessagePartsError::InlinePayloadTooLarge { max: 2097152, actual });
    }
    *inline_payload_bytes = actual;
    parts.push(part);
    assert(views(parts@) =~= before.push(part@));
    Ok(())
}

impl MessageParts {
    /// Maximum number of parts.
    pub const MAX_PARTS: usize = 64;

    /// Maximum number of bytes that the parts carry themselves.
    pub const MAX_INLINE_PAYLOAD_BYTES: usize = 2097152;

    /// The bytes, as they were counted.
    pub closed spec fn counted(&self) -> nat {
        self.inline_payload_bytes as nat
    }

    /// There are parts, not too many and not too large, and their bytes were
    /// counted.
    #[verifier::type_invariant]
    pub open spec fn well_formed(&self) -> bool {
        &&& 0 < self@.len() <= 64
        &&& parts_bytes(self@) <= 2097152
        &&& self.counted() == parts_bytes(self@)
    }

    /// Collects parts in their order.
    pub fn try_new(values: Vec<ContentPart>) -> (r: Result<MessageParts, MessagePartsError>)
        ensures
            match (r, parts_check(views(values@))) {
                (Ok(parts), Ok(())) => parts@ == views(values@),
                (Err(e), Err(expected)) => e == expected,
                _ => false,
            },
    {
        let ghost given = values@;
        let ghost all = views(given);
        let mut parts: Vec<ContentPart> = Vec::new();
        let mut inline_payload_bytes: usize = 0;
        assert(views(parts@) =~= all.take(0));
        for part in entries: values
            invariant
                entries.seq() == given,
                all == views(given),
                parts@.len() == entries.index(),
                parts@.len() <= 64,
                views(parts@) == all.take(entries.index() as int),
                inline_payload_bytes == parts_bytes(views(parts@)),
                inline_payload_bytes <= 2097152,
                parts_failure(all, entries.index() as int) is None,
        {
            let ghost n = entries.index() as int;
            proof {
                assert(part == given[n]);
                assert(all.take(n).push(part@) =~= all.take(n + 1));
                if parts_failure(all, n + 1) is Some {
                    parts_stay_failed(all, n + 1, all.len() as int);
                }
            }
            push_message_part(&mut parts, &mut inline_payload_bytes, part)?;
        }
        assert(all.take(all.len() as int) =~= all);
        if parts.len() == 0 {
            return Err(MessagePartsError::Empty);
        }
        Ok(MessageParts { parts, inline_payload_bytes })
    }

    /// Returns the parts.
    pub fn as_slice(&self) -> (r: &[ContentPart])
        ensures
            views(r@) == self@,
            self.well_formed(),
    {
        proof {
            use_type_invariant(self);
        }
        self.parts.as_slice()
    }

    /// Returns the parts.
    pub fn iter(&self) -> (r: &[ContentPart])
        ensures
            views(r@) == self@,
            self.well_formed(),
    {
        self.as_slice()
    }

    /// Returns the number of parts.
    pub fn len(&self) -> (r: usize)
        ensures
            r == self@.len(),
            0 < r <= 64,
    {
        proof {
            use_type_invariant(self);
        }
        self.parts.len()
    }

    /// Tests whether there is no part. There always is one.
    pub fn is_empty(&self) -> (r: bool)
        ensures
            !r,
    {
        proof {
            use_type_invariant(self);
        }
        self.parts.len() == 0
    }

    /// Returns how many bytes the parts carry themselves.
    pub fn inline_payload_bytes(&self) -> (r: usize)
        ensures
            r == parts_bytes(self@),
            r <= 2097152,
    {
        proof {
            use_type_invariant(self);
        }
        self.inline_payload_bytes
    }
}

impl Clone for MessageParts {
    fn clone(&self) -> (r: Self)
        ensures
            r@ == self@,
    {
        proof {
            use_type_invariant(self);
        }
        let mut parts: Vec<ContentPart> = Vec::new();
        let mut i: usize = 0;
        while i < self.parts.len()
            invariant
                i <= self.parts@.len(),
                parts@.len() == i,
                forall|j: int| 0 <= j < i ==> (#[trigger] parts@[j])@ == self.parts@[j]@,
            decreases self.parts@.len() - i,
        {
            parts.push(self.parts[i].clone());
            i = i + 1;
        }
        assert(views(parts@) =~= views(self.parts@));
        MessageParts { parts, inline_payload_bytes: self.inline_payload_bytes }
    }
}

/// The parts of a message that were read so far.
pub struct MessagePartsReader {
    parts: Vec<ContentPart>,
    inline_payload_bytes: usize,
}

impl View for MessagePartsReader {
    type V = Seq<PartModel>;

    closed spec fn view(&self) -> Seq<PartModel> {
        views(self.parts@)
    }
}

impl MessagePartsReader {
    /// The bytes, as they were counted.
    pub closed spec fn counted(&self) -> nat {
        self.inline_payload_bytes as nat
    }

    /// The parts are not too many and not too large, and their bytes were
    /// counted.
    #[verifier::type_invariant]
    pub open spec fn well_formed(&self) -> bool {
        &&& self@.len() <= 64
        &&& parts_bytes(self@) <= 2097152
        &&& self.counted() == parts_bytes(self@)
    }

    /// Begins without a part.
    pub fn new() -> (r: MessagePartsReader)
        ensures
            r@ == Seq::<PartModel>::empty(),
    {
        let r = MessagePartsReader { parts: Vec::new(), inline_payload_bytes: 0 };
        assert(r@ =~= Seq::<PartModel>::empty());
        r
    }

    /// Takes one more part, or rejects it before more are read.
    pub fn push(self, part: ContentPart) -> (r: Result<MessagePartsReader, MessagePartsError>)
        ensures
            match (r, part_failure(self@.push(part@))) {
                (Ok(reader), None) => reader@ == self@.push(part@),
                (Err(e), Some(expected)) => e == expected,
                _ => false,
            },
    {
        proof {
            use_type_invariant(&self);
        }
        let mut parts: Vec<ContentPart> = self.parts;
        let mut inline_payload_bytes: usize = self.inline_payload_bytes;
        push_message_part(&mut parts, &mut inline_payload_bytes, part)?;
        Ok(MessagePartsReader { parts, inline_payload_bytes })
    }

    /// Ends with the parts that were read.
    pub fn finish(self) -> (r: Result<MessageParts, MessagePartsError>)
        ensures
            match r {
                Ok(parts) => self@.len() > 0 && parts@ == self@,
                Err(e) => self@.len() == 0 && e == MessagePartsError::Empty,
            },
    {
        proof {
            use_type_invariant(&self);
        }
        if self.parts.len() == 0 {
            return Err(MessagePartsError::Empty);
        }
        Ok(MessageParts { parts: self.parts, inline_payload_bytes: self.inline_payload_bytes })
    }
}

impl<'a> IntoIterator for &'a MessageParts {
    type Item = &'a ContentPart;

    type IntoIter = core::slice::Iter<'a, ContentPart>;

    fn into_iter(self) -> (r: core::slice::Iter<'a, ContentPart>)
        ensures
            views(into_iter_elts(r)) == self@,
            r.remaining() == into_iter_elts(r).as_ref(),
    {
        let parts = self.parts.as_slice();
        let r = parts.iter();
        assert(r.remaining() == parts@.as_ref());
        assert(into_iter_elts(r) =~= parts@);
        r
    }
}

impl TryFrom<Vec<ContentPart>> for MessageParts {
    type Error = MessagePartsError;

    fn try_from(values: Vec<ContentPart>) -> (r: Result<Self, Self::Error>)
        ensures
            match (r, parts_check(views(values@))) {
                (Ok(parts), Ok(())) => parts@ == views(values@),
                (Err(e), Err(expected)) => e == expected,
                _ => false,
            },
    {
        MessageParts::try_new(values)
    }
}

// What comes out is stated on `try_from` itself, over views.
impl vstd::std_specs::convert::TryFromSpecImpl<Vec<ContentPart>> for MessageParts {
    open spec fn obeys_try_from_spec() -> bool {
        false
    }

    open spec fn try_from_spec(values: Vec<ContentPart>) -> Result<Self, MessagePartsError> {
        arbitrary()
    }
}

/// The parts are equal one by one.
pub open spec fn parts_equal(a: Seq<PartModel>, b: Seq<PartModel>) -> bool {
    a.len() == b.len() && forall|i: int| 0 <= i < a.len() ==> part_equal(#[trigger] a[i], b[i])
}

impl PartialEq for MessageParts {
    fn eq(&self, other: &Self) -> (r: bool) {
        if self.parts.len() != other.parts.len() {
            assert(self@.len() != other@.len());
            return false;
        }
        let mut i: usize = 0;
        while i < self.parts.len()
            invariant
                i <= self.parts@.len() == other.parts@.len(),
                forall|j: int| 0 <= j < i ==> part_equal(#[trigger] self@[j], other@[j]),
            decreases self.parts@.len() - i,
        {
            if self.parts[i] != other.parts[i] {
                assert(!part_equal(self@[i as int], other@[i as int]));
                return false;
            }
            i = i + 1;
        }
        true
    }
}

impl vstd::std_specs::cmp::PartialEqSpecImpl for MessageParts {
    open spec fn obeys_eq_spec() -> bool {
        true
    }

    open spec fn eq_spec(&self, other: &Self) -> bool {
        parts_equal(self@, other@)
    }
}

impl Eq for MessageParts {

}

// ---------------------------------------------------------------------------
// Messages
// ---------------------------------------------------------------------------

/// Rejected message.
#[derive(Clone, Copy, Debug, PartialEq, Eq, Structural)]
#[allow(inconsistent_fields)]
pub enum MessageError {
    /// The role does not accept the producer.
    ProducerRoleMismatch { role: MessageRole, producer: MessageProducerKind },
    /// The role does not accept the source of the part at this place.
    ContentSourceRoleMismatch { index: usize, role: MessageRole, actual_source: ContentSource },
}

/// The first part from a place on that the role does not accept.
pub open spec fn source_failure(role: MessageRole, parts: Seq<PartModel>, from: int) -> Option<
    MessageError,
>
    decreases parts.len() - from,
{
    if from < 0 || from >= parts.len() {
        None
    } else if !accepts_source(role, part_metadata(parts[from]).source) {
        Some(
            MessageError::ContentSourceRoleMismatch {
                index: from as usize,
                role,
                actual_source: part_metadata(parts[from]).source,
            },
        )
    } else {
        source_failure(role, parts, from + 1)
    }
}

/// What the rules say of a message.
pub open spec fn message_check(
    role: MessageRole,
    parts: Seq<PartModel>,
    provenance: ProvenanceModel,
) -> Result<(), MessageError> {
    let producer = producer_kind(provenance.producer);
    if !accepts_producer(role, producer) {
        Err(MessageError::ProducerRoleMismatch { role, producer })
    } else {
        match source_failure(role, parts, 0) {
            Some(e) => Err(e),
            None => Ok(()),
        }
    }
}

/// A message of a conversation.
pub struct Message {
    message_id: MessageId,
    role: MessageRole,
    parts: MessageParts,
    provenance: MessageProvenance,
}

/// The values of [`Message`].
pub ghost struct MessageModel {
    pub message_id: MessageId,
    pub role: MessageRole,
    pub parts: Seq<PartModel>,
    pub provenance: ProvenanceModel,
}

impl View for Message {
    type V = MessageModel;

    closed spec fn view(&self) -> MessageModel {
        MessageModel {
            message_id: self.message_id,
            role: self.role,
            parts: self.parts@,
            provenance: self.provenance@,
        }
    }
}

impl Message {
    /// The role accepts the producer and the sources of all parts.
    #[verifier::type_invariant]
    pub open spec fn well_formed(&self) -> bool {
        message_check(self@.role, self@.parts, self@.provenance) is Ok
    }

    /// Makes a message.
    pub fn new(
        message_id: MessageId,
        role: MessageRole,
        parts: MessageParts,
        provenance: MessageProvenance,
    ) -> (r: Result<Message, MessageError>)
        ensures
            match (r, message_check(role, parts@, provenance@)) {
                (Ok(message), Ok(())) => message@ == (MessageModel {
                    message_id,
                    role,
                    parts: parts@,
                    provenance: provenance@,
                }),
                (Err(e), Err(expected)) => e == expected,
                _ => false,
            },
    {
        let producer = provenance.producer().kind();
        if !role_accepts_producer(role, producer) {
            return Err(MessageError::ProducerRoleMismatch { role, producer });
        }
        let slice = parts.as_slice();
        let ghost models = parts@;
        let mut index: usize = 0;
        while index < slice.len()
            invariant
                index <= slice@.len(),
                models == views(slice@),
                accepts_producer(role, producer_kind(provenance@.producer)),
                models == parts@,
                source_failure(role, models, 0) == source_failure(role, models, index as int),
            decreases slice@.len() - index,
        {
            let source = slice[index].metadata().source();
            assert(models[index as int] == slice@[index as int]@);
            if !role_accepts_content_source(role, source) {
                return Err(
                    MessageError::ContentSourceRoleMismatch { index, role, actual_source: source },
                );
            }
            index = index + 1;
        }
        Ok(Message { message_id, role, parts, provenance })
    }

    /// Returns the identity.
    pub fn message_id(&self) -> (r: MessageId)
        ensures
            r == self@.message_id,
    {
        self.message_id
    }

    /// Returns the role.
    pub fn role(&self) -> (r: MessageRole)
        ensures
            r == self@.role,
            self.well_formed(),
    {
        proof {
            use_type_invariant(self);
        }
        self.role
    }

    /// Returns the parts.
    pub fn parts(&self) -> (r: &MessageParts)
        ensures
            r@ == self@.parts,
    {
        &self.parts
    }

    /// Returns where the message comes from.
    pub fn provenance(&self) -> (r: &MessageProvenance)
        ensures
            r@ == self@.provenance,
    {
        &self.provenance
    }
}

impl Clone for Message {
    fn clone(&self) -> (r: Self)
        ensures
            r@ == self@,
    {
        proof {
            use_type_invariant(self);
        }
        Message {
            message_id: self.message_id,
            role: self.role,
            parts: self.parts.clone(),
            provenance: self.provenance.clone(),
        }
    }
}

/// The messages have equal parts and agree in all else.
pub open spec fn message_equal(a: MessageModel, b: MessageModel) -> bool {
    &&& a.message_id == b.message_id
    &&& a.role == b.role
    &&& parts_equal(a.parts, b.parts)
    &&& a.provenance == b.provenance
}

impl PartialEq for Message {
    fn eq(&self, other: &Self) -> (r: bool) {
        self.message_id == other.message_id && self.role == other.role && self.parts
            == other.parts && self.provenance == other.provenance
    }
}

impl vstd::std_specs::cmp::PartialEqSpecImpl for Message {
    open spec fn obeys_eq_spec() -> bool {
        true
    }

    open spec fn eq_spec(&self, other: &Self) -> bool {
        message_equal(self@, other@)
    }
}

impl Eq for Message {

}

/// A message is accepted exactly if its role accepts its producer and the source
/// of each of its parts.
pub proof fn message_accepted_exactly(
    role: MessageRole,
    parts: Seq<PartModel>,
    provenance: ProvenanceModel,
)
    ensures
        message_check(role, parts, provenance) is Ok <==> {
            &&& accepts_producer(role, producer_kind(provenance.producer))
            &&& forall|i: int|
                0 <= i < parts.len() ==> accepts_source(
                    role,
                    part_metadata(#[trigger] parts[i]).source,
                )
        },
{
    sources_accepted_exactly(role, parts, 0);
}

proof fn sources_accepted_exactly(role: MessageRole, parts: Seq<PartModel>, from: int)
    requires
        0 <= from,
    ensures
        source_failure(role, parts, from) is None <==> forall|i: int|
            from <= i < parts.len() ==> accepts_source(
                role,
                part_metadata(#[trigger] parts[i]).source,
            ),
    decreases parts.len() - from,
{
    if from < parts.len() {
        sources_accepted_exactly(role, parts, from + 1);
    }
}

/// No kind of producer can speak for two roles.
pub proof fn producers_keep_to_one_role(a: MessageRole, b: MessageRole, producer: MessageProducerKind)
    requires
        accepts_producer(a, producer),
        accepts_producer(b, producer),
    ensures
        a == b,
{
}

// ---------------------------------------------------------------------------
// Debug output
// ---------------------------------------------------------------------------

impl InstructionName {
    /// Returns what is shown of it for debugging.
    pub fn debug_text(&self, alternate: bool) -> (r: String)
        ensures
            r@ == name_text("InstructionName"@, self@, alternate),
    {
        name_string("InstructionName", self.text.as_str(), alternate)
    }
}

impl core::fmt::Debug for InstructionName {
    fn fmt(&self, formatter: &mut core::fmt::Formatter<'_>) -> core::fmt::Result {
        let alternate: bool = is_alternate(formatter);
        write_text(formatter, self.debug_text(alternate).as_str())
    }
}

/// What is shown of a role.
pub open spec fn role_shown(value: MessageRole) -> Seq<char> {
    match value {
        MessageRole::User => "User"@,
        MessageRole::Assistant => "Assistant"@,
        MessageRole::Tool => "Tool"@,
    }
}

impl MessageRole {
    /// Returns what is shown of it for debugging.
    pub fn debug_text(self) -> (r: String)
        ensures
            r@ == role_shown(self),
    {
        let name = match self {
            MessageRole::User => "User",
            MessageRole::Assistant => "Assistant",
            MessageRole::Tool => "Tool",
        };
        name.to_owned()
    }
}

/// The fields that are shown of the identity of an instruction.
pub open spec fn instruction_identity_fields(
    model: InstructionIdentityModel,
    alternate: bool,
) -> Seq<Seq<char>> {
    seq![
        entry_text("name"@, name_text("InstructionName"@, model.name, alternate)),
        entry_text("version"@, version_shown(model.version, alternate)),
    ]
}

/// What is shown of the identity of an instruction.
pub open spec fn instruction_identity_shown(
    model: InstructionIdentityModel,
    alternate: bool,
) -> Seq<char> {
    struct_text(
        "InstructionIdentity"@,
        instruction_identity_fields(model, alternate),
        false,
        alternate,
    )
}

impl InstructionIdentity {
    /// Returns what is shown of it for debugging.
    pub fn debug_text(&self, alternate: bool) -> (r: String)
        ensures
            r@ == instruction_identity_shown(self@, alternate),
    {
        let fields = vec![
            entry_string("name", self.name.debug_text(alternate)),
            entry_string("version", self.version.debug_text(alternate)),
        ];
        assert(texts(fields@) =~= instruction_identity_fields(self@, alternate));
        struct_string("InstructionIdentity", &fields, false, alternate)
    }
}

impl core::fmt::Debug for InstructionIdentity {
    fn fmt(&self, formatter: &mut core::fmt::Formatter<'_>) -> core::fmt::Result {
        let alternate: bool = is_alternate(formatter);
        write_text(formatter, self.debug_text(alternate).as_str())
    }
}

/// The fields that are shown of where an instruction comes from.
pub open spec fn instruction_provenance_fields(
    model: InstructionProvenanceModel,
    alternate: bool,
) -> Seq<Seq<char>> {
    seq![
        entry_text("owner"@, principal_shown(model.owner, alternate)),
    ]
}

/// What is shown of where an instruction comes from.
pub open spec fn instruction_provenance_shown(
    model: InstructionProvenanceModel,
    alternate: bool,
) -> Seq<char> {
    struct_text(
        "InstructionProvenance"@,
        instruction_provenance_fields(model, alternate),
        false,
        alternate,
    )
}

impl InstructionProvenance {
    /// Returns what is shown of it for debugging.
    pub fn debug_text(&self, alternate: bool) -> (r: String)
        ensures
            r@ == instruction_provenance_shown(self@, alternate),
    {
        let fields = vec![
            entry_string("owner", self.owner.debug_text(alternate)),
        ];
        assert(texts(fields@) =~= instruction_provenance_fields(self@, alternate));
        struct_string("InstructionProvenance", &fields, false, alternate)
    }
}

impl core::fmt::Debug for InstructionProvenance {
    fn fmt(&self, formatter: &mut core::fmt::Formatter<'_>) -> core::fmt::Result {
        let alternate: bool = is_alternate(formatter);
        write_text(formatter, self.debug_text(alternate).as_str())
    }
}

/// The fields that are shown of an instruction.
pub open spec fn instruction_fields(model: InstructionModel, alternate: bool) -> Seq<Seq<char>> {
    seq![
        entry_text("identity"@, instruction_identity_shown(model.identity, alternate)),
        entry_text("content_digest"@, digest_shown(model.content_digest, alternate)),
        entry_text("metadata"@, metadata_shown(instruction_metadata(model.content), alternate)),
        entry_text("provenance"@, instruction_provenance_shown(model.provenance, alternate)),
    ]
}

/// What is shown of an instruction: everything but its content.
pub open spec fn instruction_shown(model: InstructionModel, alternate: bool) -> Seq<char> {
    struct_text("Instruction"@, instruction_fields(model, alternate), true, alternate)
}

impl Instruction {
    /// Returns what is shown of it for debugging.
    pub fn debug_text(&self, alternate: bool) -> (r: String)
        ensures
            r@ == instruction_shown(self@, alternate),
    {
        let fields = vec![
            entry_string("identity", self.identity.debug_text(alternate)),
            entry_string("content_digest", self.content_digest.debug_text(alternate)),
            entry_string("metadata", self.content.metadata().debug_text(alternate)),
            entry_string("provenance", self.provenance.debug_text(alternate)),
        ];
        assert(texts(fields@) =~= instruction_fields(self@, alternate));
        struct_string("Instruction", &fields, true, alternate)
    }
}

impl core::fmt::Debug for Instruction {
    fn fmt(&self, formatter: &mut core::fmt::Formatter<'_>) -> core::fmt::Result {
        let alternate: bool = is_alternate(formatter);
        write_text(formatter, self.debug_text(alternate).as_str())
    }
}

/// What is shown of a producer.
pub open spec fn producer_shown(model: ProducerModel, alternate: bool) -> Seq<char> {
    match model {
        ProducerModel::Principal { principal } => struct_text(
            "Principal"@,
            seq![
                entry_text("principal"@, principal_shown(principal, alternate)),
            ],
            false,
            alternate,
        ),
        ProducerModel::ModelAttempt { attempt_id } => struct_text(
            "ModelAttempt"@,
            seq![
                entry_text("attempt_id"@, generated_shown("AttemptId"@, attempt_id@, alternate)),
            ],
            false,
            alternate,
        ),
        ProducerModel::Capability { owner, capability } => struct_text(
            "Capability"@,
            seq![
                entry_text("owner"@, principal_shown(owner, alternate)),
                entry_text("capability"@, capability_shown(capability, alternate)),
            ],
            false,
            alternate,
        ),
        ProducerModel::ToolInvocation { owner, capability, invocation_id } => struct_text(
            "ToolInvocation"@,
            seq![
                entry_text("owner"@, principal_shown(owner, alternate)),
                entry_text("capability"@, capability_shown(capability, alternate)),
                entry_text(
                    "invocation_id"@,
                    generated_shown("InvocationId"@, invocation_id@, alternate),
                ),
            ],
            false,
            alternate,
        ),
    }
}

impl MessageProducer {
    /// Returns what is shown of it for debugging.
    pub fn debug_text(&self, alternate: bool) -> (r: String)
        ensures
            r@ == producer_shown(self@, alternate),
    {
        match self {
            MessageProducer::Principal { principal } => {
                let fields = vec![
                    entry_string("principal", principal.debug_text(alternate)),
                ];
                assert(texts(fields@) =~= seq![
                    entry_text("principal"@, principal_shown(principal@, alternate)),
                ]);
                struct_string("Principal", &fields, false, alternate)
            },
            MessageProducer::ModelAttempt { attempt_id } => {
                let fields = vec![
                    entry_string("attempt_id", attempt_id.debug_text(alternate)),
                ];
                assert(texts(fields@) =~= seq![
                    entry_text(
                        "attempt_id"@,
                        generated_shown("AttemptId"@, attempt_id@, alternate),
                    ),
                ]);
                struct_string("ModelAttempt", &fields, false, alternate)
            },
            MessageProducer::Capability { owner, capability } => {
                let fields = vec![
                    entry_string("owner", owner.debug_text(alternate)),
                    entry_string("capability", capability.debug_text(alternate)),
                ];
                assert(texts(fields@) =~= seq![
                    entry_text("owner"@, principal_shown(owner@, alternate)),
                    entry_text("capability"@, capability_shown(capability@, alternate)),
                ]);
                struct_string("Capability", &fields, false, alternate)
            },
            MessageProducer::ToolInvocation { owner, capability, invocation_id } => {
                let fields = vec![
                    entry_string("owner", owner.debug_text(alternate)),
                    entry_string("capability", capability.debug_text(alternate)),
                    entry_string("invocation_id", invocation_id.debug_text(alternate)),
                ];
                assert(texts(fields@) =~= seq![
                    entry_text("owner"@, principal_shown(owner@, alternate)),
                    entry_text("capability"@, capability_shown(capability@, alternate)),
                    entry_text(
                        "invocation_id"@,
                        generated_shown("InvocationId"@, invocation_id@, alternate),
                    ),
                ]);
                struct_string("ToolInvocation", &fields, false, alternate)
            },
        }
    }
}

impl core::fmt::Debug for MessageProducer {
    fn fmt(&self, formatter: &mut core::fmt::Formatter<'_>) -> core::fmt::Result {
        let alternate: bool = is_alternate(formatter);
        write_text(formatter, self.debug_text(alternate).as_str())
    }
}

/// The fields that are shown of where a message comes from.
pub open spec fn provenance_fields(model: ProvenanceModel, alternate: bool) -> Seq<Seq<char>> {
    seq![
        entry_text("run_id"@, generated_shown("RunId"@, model.run_id@, alternate)),
        entry_text("event_id"@, generated_shown("EventId"@, model.event_id@, alternate)),
        entry_text("producer"@, producer_shown(model.producer, alternate)),
    ]
}

/// What is shown of where a message comes from.
pub open spec fn provenance_shown(model: ProvenanceModel, alternate: bool) -> Seq<char> {
    struct_text("MessageProvenance"@, provenance_fields(model, alternate), false, alternate)
}

impl MessageProvenance {
    /// Returns what is shown of it for debugging.
    pub fn debug_text(&self, alternate: bool) -> (r: String)
        ensures
            r@ == provenance_shown(self@, alternate),
    {
        let fields = vec![
            entry_string("run_id", self.run_id.debug_text(alternate)),
            entry_string("event_id", self.event_id.debug_text(alternate)),
            entry_string("producer", self.producer.debug_text(alternate)),
        ];
        assert(texts(fields@) =~= provenance_fields(self@, alternate));
        struct_string("MessageProvenance", &fields, false, alternate)
    }
}

impl core::fmt::Debug for MessageProvenance {
    fn fmt(&self, formatter: &mut core::fmt::Formatter<'_>) -> core::fmt::Result {
        let alternate: bool = is_alternate(formatter);
        write_text(formatter, self.debug_text(alternate).as_str())
    }
}

/// The fields that are shown of parts.
pub open spec fn parts_fields(count: nat, inline_payload_bytes: nat) -> Seq<Seq<char>> {
    seq![
        entry_text("count"@, decimal_text(count)),
        entry_text("inline_payload_bytes"@, decimal_text(inline_payload_bytes)),
    ]
}

/// What is shown of parts: how many there are, and how many bytes they carry.
pub open spec fn parts_shown(count: nat, inline_payload_bytes: nat, alternate: bool) -> Seq<char> {
    struct_text(
        "MessageParts"@,
        parts_fields(count, inline_payload_bytes),
        true,
        alternate,
    )
}

impl MessageParts {
    /// Returns what is shown of it for debugging.
    pub fn debug_text(&self, alternate: bool) -> (r: String)
        ensures
            r@ == parts_shown(self@.len(), parts_bytes(self@), alternate),
    {
        proof {
            use_type_invariant(self);
        }
        let fields = vec![
            entry_string("count", number_string(self.parts.len())),
            entry_string("inline_payload_bytes", number_string(self.inline_payload_bytes)),
        ];
        assert(texts(fields@) =~= parts_fields(self@.len(), parts_bytes(self@)));
        struct_string("MessageParts", &fields, true, alternate)
    }
}

impl core::fmt::Debug for MessageParts {
    fn fmt(&self, formatter: &mut core::fmt::Formatter<'_>) -> core::fmt::Result {
        let alternate: bool = is_alternate(formatter);
        write_text(formatter, self.debug_text(alternate).as_str())
    }
}

/// The fields that are shown of a message.
pub open spec fn message_fields(model: MessageModel, alternate: bool) -> Seq<Seq<char>> {
    seq![
        entry_text("message_id"@, generated_shown("MessageId"@, model.message_id@, alternate)),
        entry_text("role"@, role_shown(model.role)),
        entry_text("parts"@, parts_shown(model.parts.len(), parts_bytes(model.parts), alternate)),
        entry_text("provenance"@, provenance_shown(model.provenance, alternate)),
    ]
}

/// What is shown of a message: everything but the content of its parts.
pub open spec fn message_shown(model: MessageModel, alternate: bool) -> Seq<char> {
    struct_text("Message"@, message_fields(model, alternate), true, alternate)
}

impl Message {
    /// Returns what is shown of it for debugging.
    pub fn debug_text(&self, alternate: bool) -> (r: String)
        ensures
            r@ == message_shown(self@, alternate),
    {
        let fields = vec![
            entry_string("message_id", self.message_id.debug_text(alternate)),
            entry_string("role", self.role.debug_text()),
            entry_string("parts", self.parts.debug_text(alternate)),
            entry_string("provenance", self.provenance.debug_text(alternate)),
        ];
        assert(texts(fields@) =~= message_fields(self@, alternate));
        struct_string("Message", &fields, true, alternate)
    }
}

impl core::fmt::Debug for Message {
    fn fmt(&self, formatter: &mut core::fmt::Formatter<'_>) -> core::fmt::Result {
        let alternate: bool = is_alternate(formatter);
        write_text(formatter, self.debug_text(alternate).as_str())
    }
}

} // verus!
