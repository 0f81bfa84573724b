//! Content and what is known of it.

use vstd::prelude::*;
use vstd::utf8::encode_utf8;

use crate::debug::{
    entry_string, entry_text, is_alternate, name_string, name_text, number_string, option_name_text,
    option_string, struct_string, struct_text, tuple_text, write_text,
};
use crate::decimal::decimal_text;
use crate::json::{bounded_json_shown, json_equal, BoundedJson};
use crate::json_laws::measure;
use crate::json_value::{optional_member, Json, JsonMember, JsonValue, Member};
use crate::language::LanguageTag;
use crate::options::{option_ref_view, option_view};
use crate::pins::{schema_json, schema_shown, SchemaModel, SchemaReference};
use crate::scalars::{find_disallowed, first_disallowed, ScalarRule};
use crate::text::{
    byte_is_alphanumeric, find_outside, first_outside, is_alphanumeric, same_text, texts, utf8_len,
    ByteClass,
};

verus! {

// ---------------------------------------------------------------------------
// Metadata
// ---------------------------------------------------------------------------

/// Rejected policy label.
#[derive(Clone, Copy, Debug, PartialEq, Eq, Structural)]
pub enum SecurityLabelError {
    /// The label has no bytes.
    Empty,
    /// The label is longer than the maximum.
    TooLong { max: usize, actual: usize },
    /// The first byte is not an ASCII letter or digit.
    InvalidStart,
    /// The byte at this offset is outside the grammar.
    InvalidByte { index: usize },
}

/// What the grammar of policy labels says of the bytes.
pub open spec fn security_label_check(bytes: Seq<u8>) -> Result<(), SecurityLabelError> {
    let outside = first_outside(bytes, 1, ByteClass::Label);
    if bytes.len() == 0 {
        Err(SecurityLabelError::Empty)
    } else if bytes.len() > 128 {
        Err(SecurityLabelError::TooLong { max: 128, actual: bytes.len() as usize })
    } else if !is_alphanumeric(bytes[0]) {
        Err(SecurityLabelError::InvalidStart)
    } else if outside < bytes.len() {
        Err(SecurityLabelError::InvalidByte { index: outside as usize })
    } else {
        Ok(())
    }
}

/// A policy label, opaque and case-sensitive.
#[derive(Eq, PartialOrd, Ord, Hash)]
pub struct SecurityLabel {
    text: String,
}

impl SecurityLabel {
    /// Maximum length in bytes.
    pub const MAX_LEN: usize = 128;

    /// The text satisfies the grammar.
    #[verifier::type_invariant]
    pub open spec fn well_formed(&self) -> bool {
        security_label_check(encode_utf8(self@)) is Ok
    }

    /// Validates the text.
    pub fn new(value: &str) -> (r: Result<SecurityLabel, SecurityLabelError>)
        ensures
            match (r, security_label_check(encode_utf8(value@))) {
                (Ok(id), Ok(())) => id@ == value@,
                (Err(e), Err(expected)) => e == expected,
                _ => false,
            },
    {
        let bytes = value.as_bytes();
        if bytes.len() == 0 {
            return Err(SecurityLabelError::Empty);
        }
        if bytes.len() > 128 {
            return Err(SecurityLabelError::TooLong { max: 128, actual: bytes.len() });
        }
        if !byte_is_alphanumeric(bytes[0]) {
            return Err(SecurityLabelError::InvalidStart);
        }
        let outside: usize = find_outside(bytes, 1, ByteClass::Label);
        if outside < bytes.len() {
            return Err(SecurityLabelError::InvalidByte { index: outside });
        }
        Ok(SecurityLabel { text: value.to_owned() })
    }

    /// Returns the exact text.
    pub fn as_str(&self) -> (r: &str)
        ensures
            r@ == self@,
            self.well_formed(),
    {
        proof {
            use_type_invariant(self);
        }
        self.text.as_str()
    }

    /// Copies the exact text.
    pub fn to_string(&self) -> (r: String)
        ensures
            r@ == self@,
    {
        self.text.clone()
    }
}

impl View for SecurityLabel {
    type V = Seq<char>;

    /// The text.
    closed spec fn view(&self) -> Seq<char> {
        self.text@
    }
}

impl Clone for SecurityLabel {
    fn clone(&self) -> (r: Self)
        ensures
            r == *self,
    {
        proof {
            use_type_invariant(self);
        }
        SecurityLabel { text: self.text.clone() }
    }
}

impl PartialEq for SecurityLabel {
    fn eq(&self, other: &Self) -> (r: bool) {
        self.text.eq(&other.text)
    }
}

impl vstd::std_specs::cmp::PartialEqSpecImpl for SecurityLabel {
    open spec fn obeys_eq_spec() -> bool {
        true
    }

    open spec fn eq_spec(&self, other: &Self) -> bool {
        self@ == other@
    }
}

impl core::str::FromStr for SecurityLabel {
    type Err = SecurityLabelError;

    fn from_str(value: &str) -> (r: Result<Self, Self::Err>)
        ensures
            match (r, security_label_check(encode_utf8(value@))) {
                (Ok(id), Ok(())) => id@ == value@,
                (Err(e), Err(expected)) => e == expected,
                _ => false,
            },
    {
        SecurityLabel::new(value)
    }
}

impl AsRef<str> for SecurityLabel {
    fn as_ref(&self) -> (r: &str)
        ensures
            r@ == self@,
    {
        self.as_str()
    }
}

impl core::borrow::Borrow<str> for SecurityLabel {
    fn borrow(&self) -> (r: &str)
        ensures
            str::view(r) == self@,
    {
        self.as_str()
    }
}

impl TryFrom<String> for SecurityLabel {
    type Error = SecurityLabelError;

    fn try_from(value: String) -> (r: Result<Self, Self::Error>)
        ensures
            match (r, security_label_check(encode_utf8(value@))) {
                (Ok(id), Ok(())) => id@ == value@,
                (Err(e), Err(expected)) => e == expected,
                _ => false,
            },
    {
        SecurityLabel::new(value.as_str())
    }
}

// What comes out is stated on `try_from` itself, over views.
impl vstd::std_specs::convert::TryFromSpecImpl<String> for SecurityLabel {
    open spec fn obeys_try_from_spec() -> bool {
        false
    }

    open spec fn try_from_spec(value: String) -> Result<Self, SecurityLabelError> {
        arbitrary()
    }
}

impl<'a> TryFrom<&'a str> for SecurityLabel {
    type Error = SecurityLabelError;

    fn try_from(value: &'a str) -> (r: Result<Self, Self::Error>)
        ensures
            match (r, security_label_check(encode_utf8(value@))) {
                (Ok(id), Ok(())) => id@ == value@,
                (Err(e), Err(expected)) => e == expected,
                _ => false,
            },
    {
        SecurityLabel::new(value)
    }
}

// What comes out is stated on `try_from` itself, over views.
impl<'a> vstd::std_specs::convert::TryFromSpecImpl<&'a str> for SecurityLabel {
    open spec fn obeys_try_from_spec() -> bool {
        false
    }

    open spec fn try_from_spec(value: &'a str) -> Result<Self, SecurityLabelError> {
        arbitrary()
    }
}

impl From<SecurityLabel> for String {
    fn from(value: SecurityLabel) -> (r: Self)
        ensures
            r@ == value@,
    {
        value.text
    }
}

impl vstd::std_specs::convert::FromSpecImpl<SecurityLabel> for String {
    open spec fn obeys_from_spec() -> bool {
        true
    }

    closed spec fn from_spec(value: SecurityLabel) -> String {
        value.text
    }
}

/// Where content comes from.
#[derive(Clone, Copy, Debug, PartialEq, Eq, PartialOrd, Ord, Hash, Structural)]
pub enum ContentSource {
    /// From the application.
    Application,
    /// From a user.
    User,
    /// From a model.
    Model,
    /// From a tool.
    Tool,
    /// From another agent.
    RemoteAgent,
    /// From a stored artifact.
    Artifact,
}

/// The name of a [`ContentSource`].
pub open spec fn source_text(value: ContentSource) -> Seq<char> {
    match value {
        ContentSource::Application => "application"@,
        ContentSource::User => "user"@,
        ContentSource::Model => "model"@,
        ContentSource::Tool => "tool"@,
        ContentSource::RemoteAgent => "remote_agent"@,
        ContentSource::Artifact => "artifact"@,
    }
}

impl ContentSource {
    /// Returns the name.
    pub fn as_str(&self) -> (r: &'static str)
        ensures
            r@ == source_text(*self),
    {
        match self {
            ContentSource::Application => "application",
            ContentSource::User => "user",
            ContentSource::Model => "model",
            ContentSource::Tool => "tool",
            ContentSource::RemoteAgent => "remote_agent",
            ContentSource::Artifact => "artifact",
        }
    }
}

/// How far content is trusted.
#[derive(Clone, Copy, Debug, PartialEq, Eq, PartialOrd, Ord, Hash, Structural)]
pub enum ContentTrust {
    /// The application controls it.
    ApplicationControlled,
    /// It is not trusted.
    Untrusted,
}

/// The name of a [`ContentTrust`].
pub open spec fn trust_text(value: ContentTrust) -> Seq<char> {
    match value {
        ContentTrust::ApplicationControlled => "application_controlled"@,
        ContentTrust::Untrusted => "untrusted"@,
    }
}

impl ContentTrust {
    /// Returns the name.
    pub fn as_str(&self) -> (r: &'static str)
        ensures
            r@ == trust_text(*self),
    {
        match self {
            ContentTrust::ApplicationControlled => "application_controlled",
            ContentTrust::Untrusted => "untrusted",
        }
    }
}

/// What was removed from content.
#[derive(Clone, Copy, Debug, PartialEq, Eq, PartialOrd, Ord, Hash, Structural)]
pub enum RedactionState {
    /// Nothing was removed.
    NotApplied,
    /// Parts were removed.
    Partial,
    /// Everything was removed.
    Full,
}

/// The name of a [`RedactionState`].
pub open spec fn redaction_text(value: RedactionState) -> Seq<char> {
    match value {
        RedactionState::NotApplied => "not_applied"@,
        RedactionState::Partial => "partial"@,
        RedactionState::Full => "full"@,
    }
}

impl RedactionState {
    /// Returns the name.
    pub fn as_str(&self) -> (r: &'static str)
        ensures
            r@ == redaction_text(*self),
    {
        match self {
            RedactionState::NotApplied => "not_applied",
            RedactionState::Partial => "partial",
            RedactionState::Full => "full",
        }
    }
}

/// Where content comes from and how it may be used.
pub struct ContentMetadata {
    source: ContentSource,
    trust: ContentTrust,
    security_label: SecurityLabel,
    redaction: RedactionState,
}

/// The values of [`ContentMetadata`].
pub ghost struct MetadataModel {
    pub source: ContentSource,
    pub trust: ContentTrust,
    pub security_label: Seq<char>,
    pub redaction: RedactionState,
}

impl View for ContentMetadata {
    type V = MetadataModel;

    closed spec fn view(&self) -> MetadataModel {
        MetadataModel {
            source: self.source,
            trust: self.trust,
            security_label: self.security_label@,
            redaction: self.redaction,
        }
    }
}

impl ContentMetadata {
    /// Names the parts.
    pub fn new(
        source: ContentSource,
        trust: ContentTrust,
        security_label: SecurityLabel,
        redaction: RedactionState,
    ) -> (r: ContentMetadata)
        ensures
            r@ == (MetadataModel {
                source: source,
                trust: trust,
                security_label: security_label@,
                redaction: redaction,
            }),
    {
        ContentMetadata { source, trust, security_label, redaction }
    }

    /// Returns where the content comes from.
    pub fn source(&self) -> (r: ContentSource)
        ensures
            r == self@.source,
    {
        self.source
    }

    /// Returns how far the content is trusted.
    pub fn trust(&self) -> (r: ContentTrust)
        ensures
            r == self@.trust,
    {
        self.trust
    }

    /// Returns the policy label.
    pub fn security_label(&self) -> (r: &SecurityLabel)
        ensures
            r@ == self@.security_label,
    {
        &self.security_label
    }

    /// Returns what was removed.
    pub fn redaction(&self) -> (r: RedactionState)
        ensures
            r == self@.redaction,
    {
        self.redaction
    }

    /// Writes the JSON form.
    pub fn to_json(&self) -> (r: JsonValue)
        ensures
            r@ == metadata_json(self@),
    {
        let members = vec![
            JsonMember::new("source", JsonValue::text(self.source.as_str())),
            JsonMember::new("trust", JsonValue::text(self.trust.as_str())),
            JsonMember::new("security_label", JsonValue::text(self.security_label.as_str())),
            JsonMember::new("redaction", JsonValue::text(self.redaction.as_str())),
        ];
        let r = JsonValue::object(members);
        assert(r@->Object_0 =~= metadata_json(self@)->Object_0);
        r
    }
}

/// The JSON form of [`ContentMetadata`].
pub open spec fn metadata_json(model: MetadataModel) -> Json {
    Json::Object(
        seq![
            Member { name: "source"@, value: Json::Text(source_text(model.source)) },
            Member { name: "trust"@, value: Json::Text(trust_text(model.trust)) },
            Member { name: "security_label"@, value: Json::Text(model.security_label) },
            Member { name: "redaction"@, value: Json::Text(redaction_text(model.redaction)) },
        ],
    )
}

impl Clone for ContentMetadata {
    fn clone(&self) -> (r: Self)
        ensures
            r@ == self@,
    {
        ContentMetadata {
            source: self.source,
            trust: self.trust,
            security_label: self.security_label.clone(),
            redaction: self.redaction,
        }
    }
}

impl PartialEq for ContentMetadata {
    fn eq(&self, other: &Self) -> (r: bool) {
        self.source == other.source
            && self.trust == other.trust
            && self.security_label == other.security_label
            && self.redaction == other.redaction
    }
}

impl vstd::std_specs::cmp::PartialEqSpecImpl for ContentMetadata {
    open spec fn obeys_eq_spec() -> bool {
        true
    }

    open spec fn eq_spec(&self, other: &Self) -> bool {
        self@ == other@
    }
}

impl Eq for ContentMetadata {

}

impl ContentMetadata {
    /// Names content that is not trusted and from which nothing was removed.
    pub fn untrusted(source: ContentSource, security_label: SecurityLabel) -> (r: ContentMetadata)
        ensures
            r@ == (MetadataModel {
                source,
                trust: ContentTrust::Untrusted,
                security_label: security_label@,
                redaction: RedactionState::NotApplied,
            }),
    {
        ContentMetadata::new(
            source,
            ContentTrust::Untrusted,
            security_label,
            RedactionState::NotApplied,
        )
    }
}

// ---------------------------------------------------------------------------
// Text
// ---------------------------------------------------------------------------

/// Rejected text.
#[derive(Clone, Copy, Debug, PartialEq, Eq, Structural)]
pub enum TextContentError {
    /// The text has no bytes.
    Empty,
    /// The text is longer than the maximum.
    TooLong { max: usize, actual: usize },
    /// The scalar at this byte offset is not allowed.
    DisallowedCodePoint { byte_index: usize },
}

/// What the rules say of a text.
pub open spec fn text_check(text: Seq<char>) -> Result<(), TextContentError> {
    let length = encode_utf8(text).len();
    if length == 0 {
        Err(TextContentError::Empty)
    } else if length > 262144 {
        Err(TextContentError::TooLong { max: 262144, actual: length as usize })
    } else {
        match first_disallowed(text, 0, ScalarRule::Prose) {
            Some(offset) => Err(
                TextContentError::DisallowedCodePoint { byte_index: offset as usize },
            ),
            None => Ok(()),
        }
    }
}

/// Checks a text.
pub fn validate_text(text: &str) -> (r: Result<(), TextContentError>)
    ensures
        r == text_check(text@),
{
    let length: usize = utf8_len(text);
    if length == 0 {
        return Err(TextContentError::Empty);
    }
    if length > 262144 {
        return Err(TextContentError::TooLong { max: 262144, actual: length });
    }
    match find_disallowed(text, ScalarRule::Prose) {
        Some(byte_index) => Err(TextContentError::DisallowedCodePoint { byte_index }),
        None => Ok(()),
    }
}

/// A text, its language and what is known of it.
pub struct TextContent {
    text: String,
    language: Option<LanguageTag>,
    metadata: ContentMetadata,
}

/// The values of [`TextContent`].
pub ghost struct TextModel {
    pub text: Seq<char>,
    pub language: Option<Seq<char>>,
    pub metadata: MetadataModel,
}

/// The JSON form of an optional text.
pub open spec fn optional_text_json(text: Option<Seq<char>>) -> Option<Json> {
    match text {
        Some(text) => Some(Json::Text(text)),
        None => None,
    }
}

/// The JSON form of a text.
pub open spec fn text_json(model: TextModel) -> Json {
    Json::Object(
        seq![Member { name: "text"@, value: Json::Text(model.text) }] + optional_member(
            "language"@,
            optional_text_json(model.language),
        ) + seq![Member { name: "metadata"@, value: metadata_json(model.metadata) }],
    )
}

impl View for TextContent {
    type V = TextModel;

    closed spec fn view(&self) -> TextModel {
        TextModel {
            text: self.text@,
            language: option_view(self.language),
            metadata: self.metadata@,
        }
    }
}

impl TextContent {
    /// Maximum length in bytes.
    pub const MAX_BYTES: usize = 262144;

    /// The text satisfies the rules.
    #[verifier::type_invariant]
    pub open spec fn well_formed(&self) -> bool {
        text_check(self@.text) is Ok
    }

    /// Validates a text.
    pub fn new(text: &str, language: Option<LanguageTag>, metadata: ContentMetadata) -> (r: Result<
        TextContent,
        TextContentError,
    >)
        ensures
            match (r, text_check(text@)) {
                (Ok(content), Ok(())) => content@ == (TextModel {
                    text: text@,
                    language: option_view(language),
                    metadata: metadata@,
                }),
                (Err(e), Err(expected)) => e == expected,
                _ => false,
            },
    {
        validate_text(text)?;
        Ok(TextContent { text: text.to_owned(), language, metadata })
    }

    /// Validates a text and keeps it.
    pub fn from_string(
        text: String,
        language: Option<LanguageTag>,
        metadata: ContentMetadata,
    ) -> (r: Result<TextContent, TextContentError>)
        ensures
            match (r, text_check(text@)) {
                (Ok(content), Ok(())) => content@ == (TextModel {
                    text: text@,
                    language: option_view(language),
                    metadata: metadata@,
                }),
                (Err(e), Err(expected)) => e == expected,
                _ => false,
            },
    {
        validate_text(text.as_str())?;
        Ok(TextContent { text, language, metadata })
    }

    /// Returns the text.
    pub fn text(&self) -> (r: &str)
        ensures
            r@ == self@.text,
            self.well_formed(),
    {
        proof {
            use_type_invariant(self);
        }
        self.text.as_str()
    }

    /// Returns the language.
    pub fn language(&self) -> (r: Option<&LanguageTag>)
        ensures
            option_ref_view(r) == self@.language,
    {
        self.language.as_ref()
    }

    /// Returns what is known of the text.
    pub fn metadata(&self) -> (r: &ContentMetadata)
        ensures
            r@ == self@.metadata,
    {
        &self.metadata
    }

    /// Gives the text away.
    pub fn into_text(self) -> (r: String)
        ensures
            r@ == self@.text,
    {
        self.text
    }

    /// Writes the JSON form.
    pub fn to_json(&self) -> (r: JsonValue)
        ensures
            r@ == text_json(self@),
    {
        let mut members = vec![JsonMember::new("text", JsonValue::text(self.text.as_str()))];
        if let Some(language) = &self.language {
            members.push(JsonMember::new("language", JsonValue::text(language.as_str())));
        }
        members.push(JsonMember::new("metadata", self.metadata.to_json()));
        let r = JsonValue::object(members);
        assert(r@->Object_0 =~= text_json(self@)->Object_0);
        r
    }
}

impl Clone for TextContent {
    fn clone(&self) -> (r: Self)
        ensures
            r@ == self@,
    {
        proof {
            use_type_invariant(self);
        }
        let language = match &self.language {
            Some(language) => Some(language.clone()),
            None => None,
        };
        TextContent { text: self.text.clone(), language, metadata: self.metadata.clone() }
    }
}

impl PartialEq for TextContent {
    fn eq(&self, other: &Self) -> (r: bool) {
        let same_language = match (&self.language, &other.language) {
            (Some(a), Some(b)) => *a == *b,
            (None, None) => true,
            _ => false,
        };
        same_language && same_text(self.text.as_str(), other.text.as_str()) && self.metadata
            == other.metadata
    }
}

impl vstd::std_specs::cmp::PartialEqSpecImpl for TextContent {
    open spec fn obeys_eq_spec() -> bool {
        true
    }

    open spec fn eq_spec(&self, other: &Self) -> bool {
        self@ == other@
    }
}

impl Eq for TextContent {

}

// ---------------------------------------------------------------------------
// JSON
// ---------------------------------------------------------------------------

/// A JSON value, its schema and what is known of it.
pub struct JsonContent {
    value: BoundedJson,
    schema: Option<SchemaReference>,
    metadata: ContentMetadata,
}

/// The values of [`JsonContent`].
pub ghost struct JsonContentModel {
    pub value: Json,
    pub schema: Option<SchemaModel>,
    pub metadata: MetadataModel,
}

/// The JSON form of an optional schema.
pub open spec fn optional_schema_json(schema: Option<SchemaModel>) -> Option<Json> {
    match schema {
        Some(schema) => Some(schema_json(schema)),
        None => None,
    }
}

/// The JSON form of a value with what is known of it.
pub open spec fn json_content_json(model: JsonContentModel) -> Json {
    Json::Object(
        seq![Member { name: "value"@, value: model.value }] + optional_member(
            "schema"@,
            optional_schema_json(model.schema),
        ) + seq![Member { name: "metadata"@, value: metadata_json(model.metadata) }],
    )
}

impl View for JsonContent {
    type V = JsonContentModel;

    closed spec fn view(&self) -> JsonContentModel {
        JsonContentModel {
            value: self.value@,
            schema: option_view(self.schema),
            metadata: self.metadata@,
        }
    }
}

impl JsonContent {
    /// Names the parts.
    pub fn new(value: BoundedJson, schema: Option<SchemaReference>, metadata: ContentMetadata) -> (r:
        JsonContent)
        ensures
            r@ == (JsonContentModel {
                value: value@,
                schema: option_view(schema),
                metadata: metadata@,
            }),
    {
        JsonContent { value, schema, metadata }
    }

    /// Returns the value.
    pub fn value(&self) -> (r: &BoundedJson)
        ensures
            r@ == self@.value,
    {
        &self.value
    }

    /// Returns the schema.
    pub fn schema(&self) -> (r: Option<&SchemaReference>)
        ensures
            option_ref_view(r) == self@.schema,
    {
        self.schema.as_ref()
    }

    /// Returns what is known of the value.
    pub fn metadata(&self) -> (r: &ContentMetadata)
        ensures
            r@ == self@.metadata,
    {
        &self.metadata
    }

    /// Writes the JSON form.
    pub fn to_json(&self) -> (r: JsonValue)
        ensures
            r@ == json_content_json(self@),
    {
        let mut members = vec![JsonMember::new("value", self.value.as_value().duplicate())];
        if let Some(schema) = &self.schema {
            members.push(JsonMember::new("schema", schema.to_json()));
        }
        members.push(JsonMember::new("metadata", self.metadata.to_json()));
        let r = JsonValue::object(members);
        assert(r@->Object_0 =~= json_content_json(self@)->Object_0);
        r
    }
}

impl Clone for JsonContent {
    fn clone(&self) -> (r: Self)
        ensures
            r@ == self@,
    {
        let schema = match &self.schema {
            Some(schema) => Some(schema.clone()),
            None => None,
        };
        JsonContent { value: self.value.clone(), schema, metadata: self.metadata.clone() }
    }
}

/// The contents carry equal JSON and agree in all else.
pub open spec fn json_content_equal(a: JsonContentModel, b: JsonContentModel) -> bool {
    a.schema == b.schema && a.metadata == b.metadata && json_equal(a.value, b.value)
}

impl PartialEq for JsonContent {
    fn eq(&self, other: &Self) -> (r: bool) {
        let same_schema = match (&self.schema, &other.schema) {
            (Some(a), Some(b)) => *a == *b,
            (None, None) => true,
            _ => false,
        };
        same_schema && self.value == other.value && self.metadata == other.metadata
    }
}

impl vstd::std_specs::cmp::PartialEqSpecImpl for JsonContent {
    open spec fn obeys_eq_spec() -> bool {
        true
    }

    open spec fn eq_spec(&self, other: &Self) -> bool {
        json_content_equal(self@, other@)
    }
}

impl Eq for JsonContent {

}

// ---------------------------------------------------------------------------
// Debug output
// ---------------------------------------------------------------------------

impl SecurityLabel {
    /// Returns what is shown of it for debugging.
    pub fn debug_text(&self, alternate: bool) -> (r: String)
        ensures
            r@ == name_text("SecurityLabel"@, self@, alternate),
    {
        name_string("SecurityLabel", self.text.as_str(), alternate)
    }
}

impl core::fmt::Debug for SecurityLabel {
    fn fmt(&self, formatter: &mut core::fmt::Formatter<'_>) -> core::fmt::Result {
        let alternate: bool = is_alternate(formatter);
        write_text(formatter, self.debug_text(alternate).as_str())
    }
}

/// What is shown of a source.
pub open spec fn source_shown(value: ContentSource) -> Seq<char> {
    match value {
        ContentSource::Application => "Application"@,
        ContentSource::User => "User"@,
        ContentSource::Model => "Model"@,
        ContentSource::Tool => "Tool"@,
        ContentSource::RemoteAgent => "RemoteAgent"@,
        ContentSource::Artifact => "Artifact"@,
    }
}

impl ContentSource {
    /// Returns what is shown of it for debugging.
    pub fn debug_text(self) -> (r: String)
        ensures
            r@ == source_shown(self),
    {
        let name = match self {
            ContentSource::Application => "Application",
            ContentSource::User => "User",
            ContentSource::Model => "Model",
            ContentSource::Tool => "Tool",
            ContentSource::RemoteAgent => "RemoteAgent",
            ContentSource::Artifact => "Artifact",
        };
        name.to_owned()
    }
}

/// What is shown of a level of trust.
pub open spec fn trust_shown(value: ContentTrust) -> Seq<char> {
    match value {
        ContentTrust::ApplicationControlled => "ApplicationControlled"@,
        ContentTrust::Untrusted => "Untrusted"@,
    }
}

impl ContentTrust {
    /// Returns what is shown of it for debugging.
    pub fn debug_text(self) -> (r: String)
        ensures
            r@ == trust_shown(self),
    {
        let name = match self {
            ContentTrust::ApplicationControlled => "ApplicationControlled",
            ContentTrust::Untrusted => "Untrusted",
        };
        name.to_owned()
    }
}

/// What is shown of a state of redaction.
pub open spec fn redaction_shown(value: RedactionState) -> Seq<char> {
    match value {
        RedactionState::NotApplied => "NotApplied"@,
        RedactionState::Partial => "Partial"@,
        RedactionState::Full => "Full"@,
    }
}

impl RedactionState {
    /// Returns what is shown of it for debugging.
    pub fn debug_text(self) -> (r: String)
        ensures
            r@ == redaction_shown(self),
    {
        let name = match self {
            RedactionState::NotApplied => "NotApplied",
            RedactionState::Partial => "Partial",
            RedactionState::Full => "Full",
        };
        name.to_owned()
    }
}

/// The fields that are shown of metadata.
pub open spec fn metadata_fields(model: MetadataModel, alternate: bool) -> Seq<Seq<char>> {
    seq![
        entry_text("source"@, source_shown(model.source)),
        entry_text("trust"@, trust_shown(model.trust)),
        entry_text("security_label"@, name_text("SecurityLabel"@, model.security_label, alternate)),
        entry_text("redaction"@, redaction_shown(model.redaction)),
    ]
}

/// What is shown of metadata.
pub open spec fn metadata_shown(model: MetadataModel, alternate: bool) -> Seq<char> {
    struct_text("ContentMetadata"@, metadata_fields(model, alternate), false, alternate)
}

impl ContentMetadata {
    /// Returns what is shown of it for debugging.
    pub fn debug_text(&self, alternate: bool) -> (r: String)
        ensures
            r@ == metadata_shown(self@, alternate),
    {
        let fields = vec![
            entry_string("source", self.source.debug_text()),
            entry_string("trust", self.trust.debug_text()),
            entry_string("security_label", self.security_label.debug_text(alternate)),
            entry_string("redaction", self.redaction.debug_text()),
        ];
        assert(texts(fields@) =~= metadata_fields(self@, alternate));
        struct_string("ContentMetadata", &fields, false, alternate)
    }
}

impl core::fmt::Debug for ContentMetadata {
    fn fmt(&self, formatter: &mut core::fmt::Formatter<'_>) -> core::fmt::Result {
        let alternate: bool = is_alternate(formatter);
        write_text(formatter, self.debug_text(alternate).as_str())
    }
}

/// The fields that are shown of text.
pub open spec fn text_content_fields(model: TextModel, alternate: bool) -> Seq<Seq<char>> {
    seq![
        entry_text("text_bytes"@, decimal_text(encode_utf8(model.text).len())),
        entry_text("language"@, option_name_text("LanguageTag"@, model.language, alternate)),
        entry_text("metadata"@, metadata_shown(model.metadata, alternate)),
    ]
}

/// What is shown of text: how long it is.
pub open spec fn text_content_shown(model: TextModel, alternate: bool) -> Seq<char> {
    struct_text("TextContent"@, text_content_fields(model, alternate), true, alternate)
}

impl TextContent {
    /// Returns what is shown of it for debugging.
    pub fn debug_text(&self, alternate: bool) -> (r: String)
        ensures
            r@ == text_content_shown(self@, alternate),
    {
        let language: Option<String> = match &self.language {
            Some(tag) => Some(tag.debug_text(alternate)),
            None => None,
        };
        let fields = vec![
            entry_string("text_bytes", number_string(utf8_len(self.text.as_str()))),
            entry_string("language", option_string(language, alternate)),
            entry_string("metadata", self.metadata.debug_text(alternate)),
        ];
        assert(texts(fields@) =~= text_content_fields(self@, alternate));
        struct_string("TextContent", &fields, true, alternate)
    }
}

impl core::fmt::Debug for TextContent {
    fn fmt(&self, formatter: &mut core::fmt::Formatter<'_>) -> core::fmt::Result {
        let alternate: bool = is_alternate(formatter);
        write_text(formatter, self.debug_text(alternate).as_str())
    }
}

/// What is shown of an optional schema.
pub open spec fn option_schema_shown(schema: Option<SchemaModel>, alternate: bool) -> Seq<char> {
    match schema {
        Some(schema) => tuple_text("Some"@, schema_shown(schema, alternate), alternate),
        None => "None"@,
    }
}

/// The fields that are shown of JSON content.
pub open spec fn json_content_fields(model: JsonContentModel, alternate: bool) -> Seq<Seq<char>> {
    seq![
        entry_text("value"@, bounded_json_shown(measure(model.value), alternate)),
        entry_text("schema"@, option_schema_shown(model.schema, alternate)),
        entry_text("metadata"@, metadata_shown(model.metadata, alternate)),
    ]
}

/// What is shown of JSON content: what was counted of it.
pub open spec fn json_content_shown(model: JsonContentModel, alternate: bool) -> Seq<char> {
    struct_text("JsonContent"@, json_content_fields(model, alternate), false, alternate)
}

impl JsonContent {
    /// Returns what is shown of it for debugging.
    pub fn debug_text(&self, alternate: bool) -> (r: String)
        ensures
            r@ == json_content_shown(self@, alternate),
    {
        let schema: Option<String> = match &self.schema {
            Some(schema) => Some(schema.debug_text(alternate)),
            None => None,
        };
        let fields = vec![
            entry_string("value", self.value.debug_text(alternate)),
            entry_string("schema", option_string(schema, alternate)),
            entry_string("metadata", self.metadata.debug_text(alternate)),
        ];
        assert(texts(fields@) =~= json_content_fields(self@, alternate));
        struct_string("JsonContent", &fields, false, alternate)
    }
}

impl core::fmt::Debug for JsonContent {
    fn fmt(&self, formatter: &mut core::fmt::Formatter<'_>) -> core::fmt::Result {
        let alternate: bool = is_alternate(formatter);
        write_text(formatter, self.debug_text(alternate).as_str())
    }
}

} // verus!
