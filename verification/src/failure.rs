//! Failures and what to do about them.

use vstd::prelude::*;
use vstd::utf8::encode_utf8;

use crate::debug::{
    bool_string, bool_text, entry_string, entry_text, is_alternate, name_string, name_text,
    number_string, option_string, struct_string, struct_text, tuple_text, write_text,
};
use crate::decimal::decimal_text;
use crate::ids::{generated_shown, uuid_text, EventId, FailureId};
use crate::json::{
    bounded_json_shown, json_equal, normal, tally_document, BoundedJson, BoundedJsonError,
    JsonLimits, JsonLimitsError, LimitsModel,
};
use crate::json_laws::{in_order_is_normal, measure};
use crate::json_value::{optional_member, Json, JsonMember, JsonValue, Member};
use crate::options::{option_ref_view, option_view};
use crate::pins::{schema_json, schema_shown, SchemaModel, SchemaReference};
use crate::scalars::{find_disallowed, first_disallowed, is_white_space, white_space, ScalarRule};
use crate::text::{
    admits, byte_is_lower, class_admits, is_lower, same_text, texts, utf8_len, ByteClass,
};
use crate::time::DurationMillis;

verus! {

// ---------------------------------------------------------------------------
// Identifiers
// ---------------------------------------------------------------------------

/// Rejected identifier.
#[derive(Clone, Copy, Debug, PartialEq, Eq, Structural)]
pub enum FailureIdentifierError {
    /// The identifier has no bytes.
    Empty,
    /// The identifier is longer than the maximum.
    TooLong { max: usize, actual: usize },
    /// No lowercase letter stands where a segment starts.
    InvalidSegmentStart { index: usize },
    /// The byte at this offset is outside the grammar.
    InvalidByte { index: usize },
}

/// What the bytes from a place on fail on, where a segment starts there or
/// not.
pub open spec fn segments_failure(bytes: Seq<u8>, from: int, at_start: bool) -> Option<
    FailureIdentifierError,
>
    decreases bytes.len() - from,
{
    if from < 0 || from >= bytes.len() {
        if at_start {
            Some(FailureIdentifierError::InvalidSegmentStart { index: bytes.len() as usize })
        } else {
            None
        }
    } else if at_start {
        if is_lower(bytes[from]) {
            segments_failure(bytes, from + 1, false)
        } else {
            Some(FailureIdentifierError::InvalidSegmentStart { index: from as usize })
        }
    } else if bytes[from] == 46 {
        segments_failure(bytes, from + 1, true)
    } else if admits(ByteClass::LowerSegment, bytes[from]) {
        segments_failure(bytes, from + 1, false)
    } else {
        Some(FailureIdentifierError::InvalidByte { index: from as usize })
    }
}

/// What the grammar of identifiers says of the bytes.
pub open spec fn failure_identifier_check(bytes: Seq<u8>) -> Result<(), FailureIdentifierError> {
    if bytes.len() == 0 {
        Err(FailureIdentifierError::Empty)
    } else if bytes.len() > 128 {
        Err(FailureIdentifierError::TooLong { max: 128, actual: bytes.len() as usize })
    } else {
        match segments_failure(bytes, 0, true) {
            Some(e) => Err(e),
            None => Ok(()),
        }
    }
}

fn check_segments(bytes: &[u8]) -> (r: Result<(), FailureIdentifierError>)
    ensures
        match (r, segments_failure(bytes@, 0, true)) {
            (Ok(()), None) => true,
            (Err(e), Some(expected)) => e == expected,
            _ => false,
        },
{
    let mut at_start: bool = true;
    let mut i: usize = 0;
    while i < bytes.len()
        invariant
            i <= bytes@.len(),
            segments_failure(bytes@, 0, true) == segments_failure(bytes@, i as int, at_start),
        decreases bytes@.len() - i,
    {
        let b: u8 = bytes[i];
        if at_start {
            if !byte_is_lower(b) {
                return Err(FailureIdentifierError::InvalidSegmentStart { index: i });
            }
            at_start = false;
        } else if b == 46 {
            at_start = true;
        } else if !class_admits(ByteClass::LowerSegment, b) {
            return Err(FailureIdentifierError::InvalidByte { index: i });
        }
        i = i + 1;
    }
    if at_start {
        return Err(FailureIdentifierError::InvalidSegmentStart { index: bytes.len() });
    }
    Ok(())
}

/// A stable code of a failure.
#[derive(Eq, PartialOrd, Ord, Hash)]
pub struct FailureCode {
    text: String,
}

impl FailureCode {
    /// Maximum length in bytes.
    pub const MAX_LEN: usize = 128;

    /// The text satisfies the grammar.
    #[verifier::type_invariant]
    pub open spec fn well_formed(&self) -> bool {
        failure_identifier_check(encode_utf8(self@)) is Ok
    }

    /// Validates the text.
    pub fn new(value: &str) -> (r: Result<FailureCode, FailureIdentifierError>)
        ensures
            match (r, failure_identifier_check(encode_utf8(value@))) {
                (Ok(id), Ok(())) => id@ == value@,
                (Err(e), Err(expected)) => e == expected,
                _ => false,
            },
    {
        let bytes = value.as_bytes();
        if bytes.len() == 0 {
            return Err(FailureIdentifierError::Empty);
        }
        if bytes.len() > 128 {
            return Err(FailureIdentifierError::TooLong { max: 128, actual: bytes.len() });
        }
        check_segments(bytes)?;
        Ok(FailureCode { text: value.to_owned() })
    }

    /// Returns the exact text.
    pub fn as_str(&self) -> (r: &str)
        ensures
            r@ == self@,
            self.well_formed(),
    {
        proof {
            use_type_invariant(self);
        }
        self.text.as_str()
    }

    /// Copies the exact text.
    pub fn to_string(&self) -> (r: String)
        ensures
            r@ == self@,
    {
        self.text.clone()
    }
}

impl View for FailureCode {
    type V = Seq<char>;

    /// The text.
    closed spec fn view(&self) -> Seq<char> {
        self.text@
    }
}

impl Clone for FailureCode {
    fn clone(&self) -> (r: Self)
        ensures
            r == *self,
    {
        proof {
            use_type_invariant(self);
        }
        FailureCode { text: self.text.clone() }
    }
}

impl PartialEq for FailureCode {
    fn eq(&self, other: &Self) -> (r: bool) {
        self.text.eq(&other.text)
    }
}

impl vstd::std_specs::cmp::PartialEqSpecImpl for FailureCode {
    open spec fn obeys_eq_spec() -> bool {
        true
    }

    open spec fn eq_spec(&self, other: &Self) -> bool {
        self@ == other@
    }
}

impl core::str::FromStr for FailureCode {
    type Err = FailureIdentifierError;

    fn from_str(value: &str) -> (r: Result<Self, Self::Err>)
        ensures
            match (r, failure_identifier_check(encode_utf8(value@))) {
                (Ok(id), Ok(())) => id@ == value@,
                (Err(e), Err(expected)) => e == expected,
                _ => false,
            },
    {
        FailureCode::new(value)
    }
}

impl AsRef<str> for FailureCode {
    fn as_ref(&self) -> (r: &str)
        ensures
            r@ == self@,
    {
        self.as_str()
    }
}

impl core::borrow::Borrow<str> for FailureCode {
    fn borrow(&self) -> (r: &str)
        ensures
            str::view(r) == self@,
    {
        self.as_str()
    }
}

impl TryFrom<String> for FailureCode {
    type Error = FailureIdentifierError;

    fn try_from(value: String) -> (r: Result<Self, Self::Error>)
        ensures
            match (r, failure_identifier_check(encode_utf8(value@))) {
                (Ok(id), Ok(())) => id@ == value@,
                (Err(e), Err(expected)) => e == expected,
                _ => false,
            },
    {
        FailureCode::new(value.as_str())
    }
}

// What comes out is stated on `try_from` itself, over views.
impl vstd::std_specs::convert::TryFromSpecImpl<String> for FailureCode {
    open spec fn obeys_try_from_spec() -> bool {
        false
    }

    open spec fn try_from_spec(value: String) -> Result<Self, FailureIdentifierError> {
        arbitrary()
    }
}

impl<'a> TryFrom<&'a str> for FailureCode {
    type Error = FailureIdentifierError;

    fn try_from(value: &'a str) -> (r: Result<Self, Self::Error>)
        ensures
            match (r, failure_identifier_check(encode_utf8(value@))) {
                (Ok(id), Ok(())) => id@ == value@,
                (Err(e), Err(expected)) => e == expected,
                _ => false,
            },
    {
        FailureCode::new(value)
    }
}

// What comes out is stated on `try_from` itself, over views.
impl<'a> vstd::std_specs::convert::TryFromSpecImpl<&'a str> for FailureCode {
    open spec fn obeys_try_from_spec() -> bool {
        false
    }

    open spec fn try_from_spec(value: &'a str) -> Result<Self, FailureIdentifierError> {
        arbitrary()
    }
}

impl From<FailureCode> for String {
    fn from(value: FailureCode) -> (r: Self)
        ensures
            r@ == value@,
    {
        value.text
    }
}

impl vstd::std_specs::convert::FromSpecImpl<FailureCode> for String {
    open spec fn obeys_from_spec() -> bool {
        true
    }

    closed spec fn from_spec(value: FailureCode) -> String {
        value.text
    }
}

/// The stable name of the component that a failure comes from.
#[derive(Eq, PartialOrd, Ord, Hash)]
pub struct FailureOrigin {
    text: String,
}

impl FailureOrigin {
    /// Maximum length in bytes.
    pub const MAX_LEN: usize = 128;

    /// The text satisfies the grammar.
    #[verifier::type_invariant]
    pub open spec fn well_formed(&self) -> bool {
        failure_identifier_check(encode_utf8(self@)) is Ok
    }

    /// Validates the text.
    pub fn new(value: &str) -> (r: Result<FailureOrigin, FailureIdentifierError>)
        ensures
            match (r, failure_identifier_check(encode_utf8(value@))) {
                (Ok(id), Ok(())) => id@ == value@,
                (Err(e), Err(expected)) => e == expected,
                _ => false,
            },
    {
        let bytes = value.as_bytes();
        if bytes.len() == 0 {
            return Err(FailureIdentifierError::Empty);
        }
        if bytes.len() > 128 {
            return Err(FailureIdentifierError::TooLong { max: 128, actual: bytes.len() });
        }
        check_segments(bytes)?;
        Ok(FailureOrigin { text: value.to_owned() })
    }

    /// Returns the exact text.
    pub fn as_str(&self) -> (r: &str)
        ensures
            r@ == self@,
            self.well_formed(),
    {
        proof {
            use_type_invariant(self);
        }
        self.text.as_str()
    }

    /// Copies the exact text.
    pub fn to_string(&self) -> (r: String)
        ensures
            r@ == self@,
    {
        self.text.clone()
    }
}

impl View for FailureOrigin {
    type V = Seq<char>;

    /// The text.
    closed spec fn view(&self) -> Seq<char> {
        self.text@
    }
}

impl Clone for FailureOrigin {
    fn clone(&self) -> (r: Self)
        ensures
            r == *self,
    {
        proof {
            use_type_invariant(self);
        }
        FailureOrigin { text: self.text.clone() }
    }
}

impl PartialEq for FailureOrigin {
    fn eq(&self, other: &Self) -> (r: bool) {
        self.text.eq(&other.text)
    }
}

impl vstd::std_specs::cmp::PartialEqSpecImpl for FailureOrigin {
    open spec fn obeys_eq_spec() -> bool {
        true
    }

    open spec fn eq_spec(&self, other: &Self) -> bool {
        self@ == other@
    }
}

impl core::str::FromStr for FailureOrigin {
    type Err = FailureIdentifierError;

    fn from_str(value: &str) -> (r: Result<Self, Self::Err>)
        ensures
            match (r, failure_identifier_check(encode_utf8(value@))) {
                (Ok(id), Ok(())) => id@ == value@,
                (Err(e), Err(expected)) => e == expected,
                _ => false,
            },
    {
        FailureOrigin::new(value)
    }
}

impl AsRef<str> for FailureOrigin {
    fn as_ref(&self) -> (r: &str)
        ensures
            r@ == self@,
    {
        self.as_str()
    }
}

impl core::borrow::Borrow<str> for FailureOrigin {
    fn borrow(&self) -> (r: &str)
        ensures
            str::view(r) == self@,
    {
        self.as_str()
    }
}

impl TryFrom<String> for FailureOrigin {
    type Error = FailureIdentifierError;

    fn try_from(value: String) -> (r: Result<Self, Self::Error>)
        ensures
            match (r, failure_identifier_check(encode_utf8(value@))) {
                (Ok(id), Ok(())) => id@ == value@,
                (Err(e), Err(expected)) => e == expected,
                _ => false,
            },
    {
        FailureOrigin::new(value.as_str())
    }
}

// What comes out is stated on `try_from` itself, over views.
impl vstd::std_specs::convert::TryFromSpecImpl<String> for FailureOrigin {
    open spec fn obeys_try_from_spec() -> bool {
        false
    }

    open spec fn try_from_spec(value: String) -> Result<Self, FailureIdentifierError> {
        arbitrary()
    }
}

impl<'a> TryFrom<&'a str> for FailureOrigin {
    type Error = FailureIdentifierError;

    fn try_from(value: &'a str) -> (r: Result<Self, Self::Error>)
        ensures
            match (r, failure_identifier_check(encode_utf8(value@))) {
                (Ok(id), Ok(())) => id@ == value@,
                (Err(e), Err(expected)) => e == expected,
                _ => false,
            },
    {
        FailureOrigin::new(value)
    }
}

// What comes out is stated on `try_from` itself, over views.
impl<'a> vstd::std_specs::convert::TryFromSpecImpl<&'a str> for FailureOrigin {
    open spec fn obeys_try_from_spec() -> bool {
        false
    }

    open spec fn try_from_spec(value: &'a str) -> Result<Self, FailureIdentifierError> {
        arbitrary()
    }
}

impl From<FailureOrigin> for String {
    fn from(value: FailureOrigin) -> (r: Self)
        ensures
            r@ == value@,
    {
        value.text
    }
}

impl vstd::std_specs::convert::FromSpecImpl<FailureOrigin> for String {
    open spec fn obeys_from_spec() -> bool {
        true
    }

    closed spec fn from_spec(value: FailureOrigin) -> String {
        value.text
    }
}

// ---------------------------------------------------------------------------
// Messages
// ---------------------------------------------------------------------------

/// Rejected message.
#[derive(Clone, Copy, Debug, PartialEq, Eq, Structural)]
pub enum FailureMessageError {
    /// The message has no bytes.
    Empty,
    /// The message is longer than the maximum.
    TooLong { max: usize, actual: usize },
    /// The message starts or ends with white space.
    SurroundingWhitespace,
    /// The scalar at this byte offset is not allowed.
    DisallowedScalar { index: usize },
}

/// What the rules say of a message.
pub open spec fn failure_message_check(text: Seq<char>) -> Result<(), FailureMessageError> {
    let length = encode_utf8(text).len();
    if text.len() == 0 {
        Err(FailureMessageError::Empty)
    } else if length > 1024 {
        Err(FailureMessageError::TooLong { max: 1024, actual: length as usize })
    } else if is_white_space(text[0]) || is_white_space(text.last()) {
        Err(FailureMessageError::SurroundingWhitespace)
    } else {
        match first_disallowed(text, 0, ScalarRule::SingleLine) {
            Some(index) => Err(FailureMessageError::DisallowedScalar { index: index as usize }),
            None => Ok(()),
        }
    }
}

/// A message of one line that may be shown to anyone.
#[derive(Eq, PartialOrd, Ord, Hash)]
pub struct FailureMessage {
    text: String,
}

impl View for FailureMessage {
    type V = Seq<char>;

    /// The text.
    closed spec fn view(&self) -> Seq<char> {
        self.text@
    }
}

impl FailureMessage {
    /// Maximum length in bytes.
    pub const MAX_BYTES: usize = 1024;

    /// The text satisfies the rules.
    #[verifier::type_invariant]
    pub open spec fn well_formed(&self) -> bool {
        failure_message_check(self@) is Ok
    }

    /// Validates a message.
    pub fn new(value: &str) -> (r: Result<FailureMessage, FailureMessageError>)
        ensures
            match (r, failure_message_check(value@)) {
                (Ok(message), Ok(())) => message@ == value@,
                (Err(e), Err(expected)) => e == expected,
                _ => false,
            },
    {
        let count: usize = value.unicode_len();
        if count == 0 {
            return Err(FailureMessageError::Empty);
        }
        let length: usize = utf8_len(value);
        if length > 1024 {
            return Err(FailureMessageError::TooLong { max: 1024, actual: length });
        }
        if white_space(value.get_char(0)) || white_space(value.get_char(count - 1)) {
            return Err(FailureMessageError::SurroundingWhitespace);
        }
        match find_disallowed(value, ScalarRule::SingleLine) {
            Some(index) => Err(FailureMessageError::DisallowedScalar { index }),
            None => Ok(FailureMessage { text: value.to_owned() }),
        }
    }

    /// Returns the exact text.
    pub fn as_str(&self) -> (r: &str)
        ensures
            r@ == self@,
            self.well_formed(),
    {
        proof {
            use_type_invariant(self);
        }
        self.text.as_str()
    }

    /// Returns the length in bytes.
    pub fn len_bytes(&self) -> (r: usize)
        ensures
            r == encode_utf8(self@).len(),
            0 < r <= 1024,
    {
        proof {
            use_type_invariant(self);
        }
        let r: usize = utf8_len(self.text.as_str());
        proof {
            if r == 0 {
                assert(self@.len() > 0);
                crate::text::utf8_concat(seq![self@[0]], self@.drop_first());
                crate::text::utf8_single(self@[0]);
                assert(self@ =~= seq![self@[0]] + self@.drop_first());
            }
        }
        r
    }

    /// Copies the exact text.
    pub fn to_string(&self) -> (r: String)
        ensures
            r@ == self@,
    {
        self.text.clone()
    }
}

impl Clone for FailureMessage {
    fn clone(&self) -> (r: Self)
        ensures
            r@ == self@,
    {
        proof {
            use_type_invariant(self);
        }
        FailureMessage { text: self.text.clone() }
    }
}

impl PartialEq for FailureMessage {
    fn eq(&self, other: &Self) -> (r: bool) {
        same_text(self.text.as_str(), other.text.as_str())
    }
}

impl vstd::std_specs::cmp::PartialEqSpecImpl for FailureMessage {
    open spec fn obeys_eq_spec() -> bool {
        true
    }

    open spec fn eq_spec(&self, other: &Self) -> bool {
        self@ == other@
    }
}

impl core::str::FromStr for FailureMessage {
    type Err = FailureMessageError;

    fn from_str(value: &str) -> (r: Result<Self, Self::Err>)
        ensures
            match (r, failure_message_check(value@)) {
                (Ok(message), Ok(())) => message@ == value@,
                (Err(e), Err(expected)) => e == expected,
                _ => false,
            },
    {
        FailureMessage::new(value)
    }
}

impl AsRef<str> for FailureMessage {
    fn as_ref(&self) -> (r: &str)
        ensures
            r@ == self@,
    {
        self.as_str()
    }
}

impl core::borrow::Borrow<str> for FailureMessage {
    fn borrow(&self) -> (r: &str)
        ensures
            str::view(r) == self@,
    {
        self.as_str()
    }
}

impl TryFrom<String> for FailureMessage {
    type Error = FailureMessageError;

    fn try_from(value: String) -> (r: Result<Self, Self::Error>)
        ensures
            match (r, failure_message_check(value@)) {
                (Ok(message), Ok(())) => message@ == value@,
                (Err(e), Err(expected)) => e == expected,
                _ => false,
            },
    {
        FailureMessage::new(value.as_str())
    }
}

// What comes out is stated on `try_from` itself, over views.
impl vstd::std_specs::convert::TryFromSpecImpl<String> for FailureMessage {
    open spec fn obeys_try_from_spec() -> bool {
        false
    }

    open spec fn try_from_spec(value: String) -> Result<Self, FailureMessageError> {
        arbitrary()
    }
}

impl<'a> TryFrom<&'a str> for FailureMessage {
    type Error = FailureMessageError;

    fn try_from(value: &'a str) -> (r: Result<Self, Self::Error>)
        ensures
            match (r, failure_message_check(value@)) {
                (Ok(message), Ok(())) => message@ == value@,
                (Err(e), Err(expected)) => e == expected,
                _ => false,
            },
    {
        FailureMessage::new(value)
    }
}

// What comes out is stated on `try_from` itself, over views.
impl<'a> vstd::std_specs::convert::TryFromSpecImpl<&'a str> for FailureMessage {
    open spec fn obeys_try_from_spec() -> bool {
        false
    }

    open spec fn try_from_spec(value: &'a str) -> Result<Self, FailureMessageError> {
        arbitrary()
    }
}

impl From<FailureMessage> for String {
    fn from(value: FailureMessage) -> (r: Self)
        ensures
            r@ == value@,
    {
        value.text
    }
}

impl vstd::std_specs::convert::FromSpecImpl<FailureMessage> for String {
    open spec fn obeys_from_spec() -> bool {
        true
    }

    closed spec fn from_spec(value: FailureMessage) -> String {
        value.text
    }
}

// ---------------------------------------------------------------------------
// Recovery
// ---------------------------------------------------------------------------

/// What kind of failure it is.
#[derive(Clone, Copy, Debug, PartialEq, Eq, Hash, Structural)]
pub enum FailureCategory {
    /// The request is not valid.
    InvalidInput,
    /// The caller is not known.
    Unauthenticated,
    /// The caller may not do this.
    PermissionDenied,
    /// A policy forbids this.
    PolicyDenied,
    /// There is no such thing.
    NotFound,
    /// The state of things stands against it.
    Conflict,
    /// This is not supported.
    Unsupported,
    /// There were too many requests.
    RateLimited,
    /// The deadline has passed.
    DeadlineExceeded,
    /// The work was cancelled.
    Cancelled,
    /// A dependency is not available.
    DependencyUnavailable,
    /// Data is not what was stored.
    DataCorruption,
    /// Whether an external effect took place is not known.
    AmbiguousExternalOutcome,
    /// An invariant was broken.
    Internal,
}

/// The name of a category.
pub open spec fn category_text(category: FailureCategory) -> Seq<char> {
    match category {
        FailureCategory::InvalidInput => "invalid_input"@,
        FailureCategory::Unauthenticated => "unauthenticated"@,
        FailureCategory::PermissionDenied => "permission_denied"@,
        FailureCategory::PolicyDenied => "policy_denied"@,
        FailureCategory::NotFound => "not_found"@,
        FailureCategory::Conflict => "conflict"@,
        FailureCategory::Unsupported => "unsupported"@,
        FailureCategory::RateLimited => "rate_limited"@,
        FailureCategory::DeadlineExceeded => "deadline_exceeded"@,
        FailureCategory::Cancelled => "cancelled"@,
        FailureCategory::DependencyUnavailable => "dependency_unavailable"@,
        FailureCategory::DataCorruption => "data_corruption"@,
        FailureCategory::AmbiguousExternalOutcome => "ambiguous_external_outcome"@,
        FailureCategory::Internal => "internal"@,
    }
}

impl FailureCategory {
    /// Returns the name of the category.
    pub fn as_str(&self) -> (r: &'static str)
        ensures
            r@ == category_text(*self),
    {
        match self {
            FailureCategory::InvalidInput => "invalid_input",
            FailureCategory::Unauthenticated => "unauthenticated",
            FailureCategory::PermissionDenied => "permission_denied",
            FailureCategory::PolicyDenied => "policy_denied",
            FailureCategory::NotFound => "not_found",
            FailureCategory::Conflict => "conflict",
            FailureCategory::Unsupported => "unsupported",
            FailureCategory::RateLimited => "rate_limited",
            FailureCategory::DeadlineExceeded => "deadline_exceeded",
            FailureCategory::Cancelled => "cancelled",
            FailureCategory::DependencyUnavailable => "dependency_unavailable",
            FailureCategory::DataCorruption => "data_corruption",
            FailureCategory::AmbiguousExternalOutcome => "ambiguous_external_outcome",
            FailureCategory::Internal => "internal",
        }
    }
}

/// Whether to try again.
#[derive(Clone, Copy, PartialEq, Eq, Hash, Structural)]
pub enum RetryAdvice {
    /// Do not try again.
    Never,
    /// Trying again after a delay is safe.
    SafeAfter {
        /// The delay.
        delay: DurationMillis,
    },
    /// Find out first what happened.
    ReconcileFirst,
}

/// The JSON form of an advice.
pub open spec fn advice_json(advice: RetryAdvice) -> Json {
    match advice {
        RetryAdvice::Never => Json::Object(
            seq![Member { name: "kind"@, value: Json::Text("never"@) }],
        ),
        RetryAdvice::SafeAfter { delay } => Json::Object(
            seq![
                Member { name: "kind"@, value: Json::Text("safe_after"@) },
                Member { name: "delay"@, value: Json::Text(decimal_text(delay@ as nat)) },
            ],
        ),
        RetryAdvice::ReconcileFirst => Json::Object(
            seq![Member { name: "kind"@, value: Json::Text("reconcile_first"@) }],
        ),
    }
}

/// The kinds of [`RetryAdvice`].
#[derive(Clone, Copy, Debug, PartialEq, Eq, Structural)]
pub enum RetryAdviceKind {
    /// See [`RetryAdvice::Never`].
    Never,
    /// See [`RetryAdvice::SafeAfter`].
    SafeAfter,
    /// See [`RetryAdvice::ReconcileFirst`].
    ReconcileFirst,
}

/// Rejected parts of an advice.
#[derive(Clone, Copy, Debug, PartialEq, Eq, Structural)]
pub enum RetryAdviceError {
    /// The kind needs a delay.
    MissingDelay,
    /// The kind takes no delay.
    UnexpectedDelay,
}

/// What a kind and a delay make.
pub open spec fn advice_of(kind: RetryAdviceKind, delay: Option<DurationMillis>) -> Result<
    RetryAdvice,
    RetryAdviceError,
> {
    match (kind, delay) {
        (RetryAdviceKind::Never, None) => Ok(RetryAdvice::Never),
        (RetryAdviceKind::ReconcileFirst, None) => Ok(RetryAdvice::ReconcileFirst),
        (RetryAdviceKind::SafeAfter, Some(delay)) => Ok(RetryAdvice::SafeAfter { delay }),
        (RetryAdviceKind::SafeAfter, None) => Err(RetryAdviceError::MissingDelay),
        (_, Some(_)) => Err(RetryAdviceError::UnexpectedDelay),
    }
}

impl RetryAdvice {
    /// Makes an advice of its kind and its delay.
    pub fn from_parts(kind: RetryAdviceKind, delay: Option<DurationMillis>) -> (r: Result<
        RetryAdvice,
        RetryAdviceError,
    >)
        ensures
            r == advice_of(kind, delay),
    {
        match (kind, delay) {
            (RetryAdviceKind::Never, None) => Ok(RetryAdvice::Never),
            (RetryAdviceKind::ReconcileFirst, None) => Ok(RetryAdvice::ReconcileFirst),
            (RetryAdviceKind::SafeAfter, Some(delay)) => Ok(RetryAdvice::SafeAfter { delay }),
            (RetryAdviceKind::SafeAfter, None) => Err(RetryAdviceError::MissingDelay),
            (RetryAdviceKind::Never, Some(_)) => Err(RetryAdviceError::UnexpectedDelay),
            (RetryAdviceKind::ReconcileFirst, Some(_)) => Err(RetryAdviceError::UnexpectedDelay),
        }
    }

    /// Returns the delay after which trying again is safe.
    pub fn safe_after_delay(self) -> (r: Option<DurationMillis>)
        ensures
            r == (match self {
                RetryAdvice::SafeAfter { delay } => Some(delay),
                _ => None,
            }),
    {
        match self {
            RetryAdvice::SafeAfter { delay } => Some(delay),
            _ => None,
        }
    }

    /// Tests whether to find out first what happened.
    pub fn requires_reconciliation(self) -> (r: bool)
        ensures
            r == (self == RetryAdvice::ReconcileFirst),
    {
        matches!(self, RetryAdvice::ReconcileFirst)
    }

    /// Writes the JSON form.
    pub fn to_json(&self) -> (r: JsonValue)
        ensures
            r@ == advice_json(*self),
    {
        let members = match self {
            RetryAdvice::Never => vec![JsonMember::new("kind", JsonValue::text("never"))],
            RetryAdvice::SafeAfter { delay } => vec![
                JsonMember::new("kind", JsonValue::text("safe_after")),
                JsonMember::new("delay", JsonValue::Text(delay.to_string())),
            ],
            RetryAdvice::ReconcileFirst => vec![
                JsonMember::new("kind", JsonValue::text("reconcile_first")),
            ],
        };
        let r = JsonValue::object(members);
        assert(r@->Object_0 =~= advice_json(*self)->Object_0);
        r
    }
}

/// Rejected failure.
#[derive(Clone, Copy, Debug, PartialEq, Eq, Structural)]
pub enum FailureBuildError {
    /// An ambiguous outcome comes without the advice to reconcile.
    AmbiguousOutcomeRequiresReconciliation,
    /// The advice to reconcile comes without an ambiguous outcome.
    ReconciliationRequiresAmbiguousOutcome,
}

/// What the rules say of a category and an advice together.
pub open spec fn recovery_check(category: FailureCategory, advice: RetryAdvice) -> Result<
    (),
    FailureBuildError,
> {
    let ambiguous = category == FailureCategory::AmbiguousExternalOutcome;
    let reconcile = advice == RetryAdvice::ReconcileFirst;
    if ambiguous && !reconcile {
        Err(FailureBuildError::AmbiguousOutcomeRequiresReconciliation)
    } else if reconcile && !ambiguous {
        Err(FailureBuildError::ReconciliationRequiresAmbiguousOutcome)
    } else {
        Ok(())
    }
}

fn validate_failure_recovery(category: FailureCategory, advice: RetryAdvice) -> (r: Result<
    (),
    FailureBuildError,
>)
    ensures
        r == recovery_check(category, advice),
{
    match (category, advice) {
        (FailureCategory::AmbiguousExternalOutcome, RetryAdvice::ReconcileFirst) => Ok(()),
        (FailureCategory::AmbiguousExternalOutcome, _) => Err(
            FailureBuildError::AmbiguousOutcomeRequiresReconciliation,
        ),
        (_, RetryAdvice::ReconcileFirst) => Err(
            FailureBuildError::ReconciliationRequiresAmbiguousOutcome,
        ),
        _ => Ok(()),
    }
}

// ---------------------------------------------------------------------------
// Details
// ---------------------------------------------------------------------------

/// Rejected details.
#[derive(Clone, Copy, Debug, PartialEq, Eq, Structural)]
#[allow(inconsistent_fields)]
pub enum FailureDetailsError {
    /// The limits themselves were rejected. This does not happen.
    LimitsConfiguration { source: JsonLimitsError },
    /// The value exceeds its bounds.
    Json { source: BoundedJsonError },
}

/// The bounds of details.
pub open spec fn details_limits() -> LimitsModel {
    LimitsModel {
        max_bytes: 16384,
        max_depth: 8,
        max_container_entries: 64,
        max_nodes: 512,
        max_string_bytes: 4096,
        max_object_key_bytes: 128,
    }
}

/// What more there is to say of a failure, under a schema.
pub struct FailureDetails {
    schema: SchemaReference,
    value: BoundedJson,
}

/// The values of [`FailureDetails`].
pub ghost struct DetailsModel {
    pub schema: SchemaModel,
    pub value: Json,
}

/// The JSON form of details.
pub open spec fn details_json(model: DetailsModel) -> Json {
    Json::Object(
        seq![
            Member { name: "schema"@, value: schema_json(model.schema) },
            Member { name: "value"@, value: model.value },
        ],
    )
}

impl View for FailureDetails {
    type V = DetailsModel;

    closed spec fn view(&self) -> DetailsModel {
        DetailsModel { schema: self.schema@, value: self.value@ }
    }
}

/// Returns the bounds of details.
pub fn failure_details_json_limits() -> (r: Result<JsonLimits, FailureDetailsError>)
    ensures
        r matches Ok(limits) && limits@ == details_limits(),
{
    match JsonLimits::try_new(16384, 8, 64, 512, 4096, 128) {
        Ok(limits) => Ok(limits),
        Err(source) => Err(FailureDetailsError::LimitsConfiguration { source }),
    }
}

impl FailureDetails {
    /// Maximum number of compact bytes.
    pub const MAX_JSON_BYTES: usize = 16384;

    /// Maximum nesting.
    pub const MAX_JSON_DEPTH: usize = 8;

    /// Maximum number of entries of a container.
    pub const MAX_JSON_CONTAINER_ENTRIES: usize = 64;

    /// Maximum number of values.
    pub const MAX_JSON_NODES: usize = 512;

    /// Maximum number of bytes of a string.
    pub const MAX_JSON_STRING_BYTES: usize = 4096;

    /// Maximum number of bytes of a member name.
    pub const MAX_JSON_OBJECT_KEY_BYTES: usize = 128;

    /// The value is within the bounds.
    #[verifier::type_invariant]
    pub open spec fn well_formed(&self) -> bool {
        tally_document(details_limits(), self@.value) is Ok
    }

    /// Takes a value within the bounds.
    pub fn try_new(schema: SchemaReference, value: BoundedJson) -> (r: Result<
        FailureDetails,
        FailureDetailsError,
    >)
        ensures
            match (r, tally_document(details_limits(), value@)) {
                (Ok(details), Ok(_)) => details@ == (DetailsModel {
                    schema: schema@,
                    value: value@,
                }),
                (Err(e), Err(source)) => e == (FailureDetailsError::Json { source }),
                _ => false,
            },
    {
        let ghost model = value@;
        let value = value.into_value();
        proof {
            in_order_is_normal(model);
        }
        FailureDetails::try_from_value(schema, value)
    }

    /// Takes a value within the bounds and puts its members in order.
    pub fn try_from_value(schema: SchemaReference, value: JsonValue) -> (r: Result<
        FailureDetails,
        FailureDetailsError,
    >)
        ensures
            match (r, tally_document(details_limits(), value@)) {
                (Ok(details), Ok(_)) => details@ == (DetailsModel {
                    schema: schema@,
                    value: normal(value@),
                }),
                (Err(e), Err(source)) => e == (FailureDetailsError::Json { source }),
                _ => false,
            },
    {
        let limits = failure_details_json_limits()?;
        let ghost model = value@;
        match BoundedJson::try_from_value_with_limits(value, limits) {
            Ok(value) => {
                proof {
                    crate::json_laws::rebuilding_is_idempotent(details_limits(), model);
                }
                Ok(FailureDetails { schema, value })
            },
            Err(source) => Err(FailureDetailsError::Json { source }),
        }
    }

    /// Returns the schema.
    pub fn schema(&self) -> (r: &SchemaReference)
        ensures
            r@ == self@.schema,
    {
        &self.schema
    }

    /// Returns the value.
    pub fn value(&self) -> (r: &BoundedJson)
        ensures
            r@ == self@.value,
            self.well_formed(),
    {
        proof {
            use_type_invariant(self);
        }
        &self.value
    }

    /// Takes the schema and the value apart.
    pub fn into_parts(self) -> (r: (SchemaReference, BoundedJson))
        ensures
            r.0@ == self@.schema,
            r.1@ == self@.value,
    {
        (self.schema, self.value)
    }

    /// Writes the JSON form.
    pub fn to_json(&self) -> (r: JsonValue)
        ensures
            r@ == details_json(self@),
    {
        let r = JsonValue::object(
            vec![
                JsonMember::new("schema", self.schema.to_json()),
                JsonMember::new("value", self.value.as_value().duplicate()),
            ],
        );
        assert(r@->Object_0 =~= details_json(self@)->Object_0);
        r
    }
}

impl Clone for FailureDetails {
    fn clone(&self) -> (r: Self)
        ensures
            r@ == self@,
    {
        proof {
            use_type_invariant(self);
        }
        FailureDetails { schema: self.schema.clone(), value: self.value.clone() }
    }
}

/// The details carry the same schema and equal JSON.
pub open spec fn details_equal(a: DetailsModel, b: DetailsModel) -> bool {
    a.schema == b.schema && json_equal(a.value, b.value)
}

impl PartialEq for FailureDetails {
    fn eq(&self, other: &Self) -> (r: bool) {
        self.schema == other.schema && self.value == other.value
    }
}

impl vstd::std_specs::cmp::PartialEqSpecImpl for FailureDetails {
    open spec fn obeys_eq_spec() -> bool {
        true
    }

    open spec fn eq_spec(&self, other: &Self) -> bool {
        details_equal(self@, other@)
    }
}

impl Eq for FailureDetails {

}

// ---------------------------------------------------------------------------
// Failures
// ---------------------------------------------------------------------------

/// A failure, as far as anyone may see it.
pub struct Failure {
    id: FailureId,
    category: FailureCategory,
    code: FailureCode,
    origin: FailureOrigin,
    message: FailureMessage,
    retry_advice: RetryAdvice,
    details: Option<FailureDetails>,
    caused_by_event_id: Option<EventId>,
}

/// The values of [`Failure`].
pub ghost struct FailureModel {
    pub id: FailureId,
    pub category: FailureCategory,
    pub code: Seq<char>,
    pub origin: Seq<char>,
    pub message: Seq<char>,
    pub retry_advice: RetryAdvice,
    pub details: Option<DetailsModel>,
    pub caused_by_event_id: Option<EventId>,
}

/// The JSON form of optional details.
pub open spec fn optional_details_json(details: Option<DetailsModel>) -> Option<Json> {
    match details {
        Some(details) => Some(details_json(details)),
        None => None,
    }
}

/// The JSON form of an optional event.
pub open spec fn optional_event_json(event_id: Option<EventId>) -> Option<Json> {
    match event_id {
        Some(event_id) => Some(Json::Text(uuid_text(event_id@))),
        None => None,
    }
}

/// The JSON form of a failure.
pub open spec fn failure_json(model: FailureModel) -> Json {
    Json::Object(
        seq![
            Member { name: "id"@, value: Json::Text(uuid_text(model.id@)) },
            Member { name: "category"@, value: Json::Text(category_text(model.category)) },
            Member { name: "code"@, value: Json::Text(model.code) },
            Member { name: "origin"@, value: Json::Text(model.origin) },
            Member { name: "message"@, value: Json::Text(model.message) },
            Member { name: "retry_advice"@, value: advice_json(model.retry_advice) },
        ] + optional_member("details"@, optional_details_json(model.details)) + optional_member(
            "caused_by_event_id"@,
            optional_event_json(model.caused_by_event_id),
        ),
    )
}

impl View for Failure {
    type V = FailureModel;

    closed spec fn view(&self) -> FailureModel {
        FailureModel {
            id: self.id,
            category: self.category,
            code: self.code@,
            origin: self.origin@,
            message: self.message@,
            retry_advice: self.retry_advice,
            details: option_view(self.details),
            caused_by_event_id: self.caused_by_event_id,
        }
    }
}

impl Failure {
    /// An outcome is ambiguous exactly where the advice is to reconcile first.
    #[verifier::type_invariant]
    pub open spec fn well_formed(&self) -> bool {
        recovery_check(self@.category, self@.retry_advice) is Ok
    }

    /// Makes a failure.
    pub fn new(
        id: FailureId,
        category: FailureCategory,
        code: FailureCode,
        origin: FailureOrigin,
        message: FailureMessage,
        retry_advice: RetryAdvice,
    ) -> (r: Result<Failure, FailureBuildError>)
        ensures
            match (r, recovery_check(category, retry_advice)) {
                (Ok(failure), Ok(())) => failure@ == (FailureModel {
                    id,
                    category,
                    code: code@,
                    origin: origin@,
                    message: message@,
                    retry_advice,
                    details: None,
                    caused_by_event_id: None,
                }),
                (Err(e), Err(expected)) => e == expected,
                _ => false,
            },
    {
        validate_failure_recovery(category, retry_advice)?;
        Ok(
            Failure {
                id,
                category,
                code,
                origin,
                message,
                retry_advice,
                details: None,
                caused_by_event_id: None,
            },
        )
    }

    /// Adds details.
    pub fn with_details(self, details: FailureDetails) -> (r: Failure)
        ensures
            r@ == (FailureModel { details: Some(details@), ..self@ }),
    {
        proof {
            use_type_invariant(&self);
        }
        Failure { details: Some(details), ..self }
    }

    /// Adds the event that caused the failure.
    pub fn with_caused_by_event(self, event_id: EventId) -> (r: Failure)
        ensures
            r@ == (FailureModel { caused_by_event_id: Some(event_id), ..self@ }),
    {
        proof {
            use_type_invariant(&self);
        }
        Failure { caused_by_event_id: Some(event_id), ..self }
    }

    /// Returns the identity.
    pub fn id(&self) -> (r: FailureId)
        ensures
            r == self@.id,
    {
        self.id
    }

    /// Returns the category.
    pub fn category(&self) -> (r: FailureCategory)
        ensures
            r == self@.category,
            self.well_formed(),
    {
        proof {
            use_type_invariant(self);
        }
        self.category
    }

    /// Returns the code.
    pub fn code(&self) -> (r: &FailureCode)
        ensures
            r@ == self@.code,
    {
        &self.code
    }

    /// Returns the origin.
    pub fn origin(&self) -> (r: &FailureOrigin)
        ensures
            r@ == self@.origin,
    {
        &self.origin
    }

    /// Returns the message.
    pub fn message(&self) -> (r: &FailureMessage)
        ensures
            r@ == self@.message,
    {
        &self.message
    }

    /// Returns the advice.
    pub fn retry_advice(&self) -> (r: RetryAdvice)
        ensures
            r == self@.retry_advice,
            self.well_formed(),
    {
        proof {
            use_type_invariant(self);
        }
        self.retry_advice
    }

    /// Returns the details.
    pub fn details(&self) -> (r: Option<&FailureDetails>)
        ensures
            option_ref_view(r) == self@.details,
    {
        self.details.as_ref()
    }

    /// Returns the event that caused the failure.
    pub fn caused_by_event_id(&self) -> (r: Option<EventId>)
        ensures
            r == self@.caused_by_event_id,
    {
        self.caused_by_event_id
    }

    /// Writes the message.
    pub fn to_string(&self) -> (r: String)
        ensures
            r@ == self@.message,
    {
        self.message.to_string()
    }

    /// Writes the JSON form.
    pub fn to_json(&self) -> (r: JsonValue)
        ensures
            r@ == failure_json(self@),
    {
        let mut members = vec![
            JsonMember::new("id", JsonValue::Text(self.id.to_string())),
            JsonMember::new("category", JsonValue::text(self.category.as_str())),
            JsonMember::new("code", JsonValue::text(self.code.as_str())),
            JsonMember::new("origin", JsonValue::text(self.origin.as_str())),
            JsonMember::new("message", JsonValue::text(self.message.as_str())),
            JsonMember::new("retry_advice", self.retry_advice.to_json()),
        ];
        if let Some(details) = &self.details {
            members.push(JsonMember::new("details", details.to_json()));
        }
        if let Some(event_id) = self.caused_by_event_id {
            members.push(
                JsonMember::new("caused_by_event_id", JsonValue::Text(event_id.to_string())),
            );
        }
        let r = JsonValue::object(members);
        assert(r@->Object_0 =~= failure_json(self@)->Object_0);
        r
    }
}

impl Clone for Failure {
    fn clone(&self) -> (r: Self)
        ensures
            r@ == self@,
    {
        proof {
            use_type_invariant(self);
        }
        let details = match &self.details {
            Some(details) => Some(details.clone()),
            None => None,
        };
        Failure {
            id: self.id,
            category: self.category,
            code: self.code.clone(),
            origin: self.origin.clone(),
            message: self.message.clone(),
            retry_advice: self.retry_advice,
            details,
            caused_by_event_id: self.caused_by_event_id,
        }
    }
}

/// A failure is one of an ambiguous external outcome exactly if its advice is to
/// reconcile first.
pub proof fn ambiguity_pairs_with_reconciliation(category: FailureCategory, advice: RetryAdvice)
    ensures
        recovery_check(category, advice) is Ok <==> (category
            == FailureCategory::AmbiguousExternalOutcome <==> advice
            == RetryAdvice::ReconcileFirst),
{
}

// ---------------------------------------------------------------------------
// Debug output
// ---------------------------------------------------------------------------

impl FailureCode {
    /// Returns what is shown of it for debugging.
    pub fn debug_text(&self, alternate: bool) -> (r: String)
        ensures
            r@ == name_text("FailureCode"@, self@, alternate),
    {
        name_string("FailureCode", self.text.as_str(), alternate)
    }
}

impl core::fmt::Debug for FailureCode {
    fn fmt(&self, formatter: &mut core::fmt::Formatter<'_>) -> core::fmt::Result {
        let alternate: bool = is_alternate(formatter);
        write_text(formatter, self.debug_text(alternate).as_str())
    }
}

impl FailureOrigin {
    /// Returns what is shown of it for debugging.
    pub fn debug_text(&self, alternate: bool) -> (r: String)
        ensures
            r@ == name_text("FailureOrigin"@, self@, alternate),
    {
        name_string("FailureOrigin", self.text.as_str(), alternate)
    }
}

impl core::fmt::Debug for FailureOrigin {
    fn fmt(&self, formatter: &mut core::fmt::Formatter<'_>) -> core::fmt::Result {
        let alternate: bool = is_alternate(formatter);
        write_text(formatter, self.debug_text(alternate).as_str())
    }
}

/// What is shown of a category.
pub open spec fn category_shown(value: FailureCategory) -> Seq<char> {
    match value {
        FailureCategory::InvalidInput => "InvalidInput"@,
        FailureCategory::Unauthenticated => "Unauthenticated"@,
        FailureCategory::PermissionDenied => "PermissionDenied"@,
        FailureCategory::PolicyDenied => "PolicyDenied"@,
        FailureCategory::NotFound => "NotFound"@,
        FailureCategory::Conflict => "Conflict"@,
        FailureCategory::Unsupported => "Unsupported"@,
        FailureCategory::RateLimited => "RateLimited"@,
        FailureCategory::DeadlineExceeded => "DeadlineExceeded"@,
        FailureCategory::Cancelled => "Cancelled"@,
        FailureCategory::DependencyUnavailable => "DependencyUnavailable"@,
        FailureCategory::DataCorruption => "DataCorruption"@,
        FailureCategory::AmbiguousExternalOutcome => "AmbiguousExternalOutcome"@,
        FailureCategory::Internal => "Internal"@,
    }
}

impl FailureCategory {
    /// Returns what is shown of it for debugging.
    pub fn debug_text(self) -> (r: String)
        ensures
            r@ == category_shown(self),
    {
        let name = match self {
            FailureCategory::InvalidInput => "InvalidInput",
            FailureCategory::Unauthenticated => "Unauthenticated",
            FailureCategory::PermissionDenied => "PermissionDenied",
            FailureCategory::PolicyDenied => "PolicyDenied",
            FailureCategory::NotFound => "NotFound",
            FailureCategory::Conflict => "Conflict",
            FailureCategory::Unsupported => "Unsupported",
            FailureCategory::RateLimited => "RateLimited",
            FailureCategory::DeadlineExceeded => "DeadlineExceeded",
            FailureCategory::Cancelled => "Cancelled",
            FailureCategory::DependencyUnavailable => "DependencyUnavailable",
            FailureCategory::DataCorruption => "DataCorruption",
            FailureCategory::AmbiguousExternalOutcome => "AmbiguousExternalOutcome",
            FailureCategory::Internal => "Internal",
        };
        name.to_owned()
    }
}

/// The fields that are shown of a public message.
pub open spec fn failure_message_fields(utf8_bytes: nat) -> Seq<Seq<char>> {
    seq![
        entry_text("utf8_bytes"@, decimal_text(utf8_bytes)),
    ]
}

/// What is shown of a public message: how long it is.
pub open spec fn failure_message_shown(utf8_bytes: nat, alternate: bool) -> Seq<char> {
    struct_text("FailureMessage"@, failure_message_fields(utf8_bytes), true, alternate)
}

impl FailureMessage {
    /// Returns what is shown of it for debugging.
    pub fn debug_text(&self, alternate: bool) -> (r: String)
        ensures
            r@ == failure_message_shown(encode_utf8(self@).len(), alternate),
    {
        let fields = vec![
            entry_string("utf8_bytes", number_string(self.len_bytes())),
        ];
        assert(texts(fields@) =~= failure_message_fields(encode_utf8(self@).len()));
        struct_string("FailureMessage", &fields, true, alternate)
    }
}

impl core::fmt::Debug for FailureMessage {
    fn fmt(&self, formatter: &mut core::fmt::Formatter<'_>) -> core::fmt::Result {
        let alternate: bool = is_alternate(formatter);
        write_text(formatter, self.debug_text(alternate).as_str())
    }
}

/// The fields that are shown of details.
pub open spec fn details_fields(model: DetailsModel, alternate: bool) -> Seq<Seq<char>> {
    seq![
        entry_text("schema"@, schema_shown(model.schema, alternate)),
        entry_text("value"@, bounded_json_shown(measure(model.value), alternate)),
    ]
}

/// What is shown of details: their schema and what was counted of them.
pub open spec fn details_shown(model: DetailsModel, alternate: bool) -> Seq<char> {
    struct_text("FailureDetails"@, details_fields(model, alternate), true, alternate)
}

impl FailureDetails {
    /// Returns what is shown of it for debugging.
    pub fn debug_text(&self, alternate: bool) -> (r: String)
        ensures
            r@ == details_shown(self@, alternate),
    {
        let fields = vec![
            entry_string("schema", self.schema.debug_text(alternate)),
            entry_string("value", self.value.debug_text(alternate)),
        ];
        assert(texts(fields@) =~= details_fields(self@, alternate));
        struct_string("FailureDetails", &fields, true, alternate)
    }
}

impl core::fmt::Debug for FailureDetails {
    fn fmt(&self, formatter: &mut core::fmt::Formatter<'_>) -> core::fmt::Result {
        let alternate: bool = is_alternate(formatter);
        write_text(formatter, self.debug_text(alternate).as_str())
    }
}

/// What is shown of an advice.
pub open spec fn advice_shown(advice: RetryAdvice, alternate: bool) -> Seq<char> {
    match advice {
        RetryAdvice::Never => "Never"@,
        RetryAdvice::SafeAfter { delay } => struct_text(
            "SafeAfter"@,
            seq![
                entry_text(
                    "delay"@,
                    tuple_text("DurationMillis"@, decimal_text(delay@ as nat), alternate),
                ),
            ],
            false,
            alternate,
        ),
        RetryAdvice::ReconcileFirst => "ReconcileFirst"@,
    }
}

impl RetryAdvice {
    /// Returns what is shown of it for debugging.
    pub fn debug_text(&self, alternate: bool) -> (r: String)
        ensures
            r@ == advice_shown(*self, alternate),
    {
        match self {
            RetryAdvice::Never => "Never".to_owned(),
            RetryAdvice::SafeAfter { delay } => {
                let fields = vec![entry_string("delay", delay.debug_text(alternate))];
                assert(texts(fields@) =~= seq![
                    entry_text(
                        "delay"@,
                        tuple_text("DurationMillis"@, decimal_text(delay@ as nat), alternate),
                    ),
                ]);
                struct_string("SafeAfter", &fields, false, alternate)
            },
            RetryAdvice::ReconcileFirst => "ReconcileFirst".to_owned(),
        }
    }
}

impl core::fmt::Debug for RetryAdvice {
    fn fmt(&self, formatter: &mut core::fmt::Formatter<'_>) -> core::fmt::Result {
        let alternate: bool = is_alternate(formatter);
        write_text(formatter, self.debug_text(alternate).as_str())
    }
}

/// What is shown of an optional event.
pub open spec fn option_event_shown(event_id: Option<EventId>, alternate: bool) -> Seq<char> {
    match event_id {
        Some(event_id) => tuple_text(
            "Some"@,
            generated_shown("EventId"@, event_id@, alternate),
            alternate,
        ),
        None => "None"@,
    }
}

/// The fields that are shown of a failure, and of whether a private error
/// stands behind it.
pub open spec fn failure_fields(
    model: FailureModel,
    has_private_source: bool,
    alternate: bool,
) -> Seq<Seq<char>> {
    seq![
        entry_text("id"@, generated_shown("FailureId"@, model.id@, alternate)),
        entry_text("category"@, category_shown(model.category)),
        entry_text("code"@, name_text("FailureCode"@, model.code, alternate)),
        entry_text("origin"@, name_text("FailureOrigin"@, model.origin, alternate)),
        entry_text("message_utf8_bytes"@, decimal_text(encode_utf8(model.message).len())),
        entry_text("retry_advice"@, advice_shown(model.retry_advice, alternate)),
        entry_text("has_details"@, bool_text(model.details is Some)),
        entry_text("caused_by_event_id"@, option_event_shown(model.caused_by_event_id, alternate)),
        entry_text("has_private_source"@, bool_text(has_private_source)),
    ]
}

/// What is shown of a failure, and of whether a private error stands behind it.
pub open spec fn failure_shown(
    model: FailureModel,
    has_private_source: bool,
    alternate: bool,
) -> Seq<char> {
    struct_text("Failure"@, failure_fields(model, has_private_source, alternate), true, alternate)
}

impl Failure {
    /// Returns what is shown of it for debugging.
    pub fn debug_text(&self, has_private_source: bool, alternate: bool) -> (r: String)
        ensures
            r@ == failure_shown(self@, has_private_source, alternate),
    {
        let event_id: Option<String> = match &self.caused_by_event_id {
            Some(event_id) => Some(event_id.debug_text(alternate)),
            None => None,
        };
        let fields = vec![
            entry_string("id", self.id.debug_text(alternate)),
            entry_string("category", self.category.debug_text()),
            entry_string("code", self.code.debug_text(alternate)),
            entry_string("origin", self.origin.debug_text(alternate)),
            entry_string("message_utf8_bytes", number_string(self.message.len_bytes())),
            entry_string("retry_advice", self.retry_advice.debug_text(alternate)),
            entry_string("has_details", bool_string(self.details.is_some())),
            entry_string("caused_by_event_id", option_string(event_id, alternate)),
            entry_string("has_private_source", bool_string(has_private_source)),
        ];
        assert(texts(fields@) =~= failure_fields(self@, has_private_source, alternate));
        struct_string("Failure", &fields, true, alternate)
    }
}

impl core::fmt::Debug for Failure {
    fn fmt(&self, formatter: &mut core::fmt::Formatter<'_>) -> core::fmt::Result {
        let alternate: bool = is_alternate(formatter);
        write_text(formatter, self.debug_text(false, alternate).as_str())
    }
}

} // verus!
