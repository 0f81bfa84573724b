//! Issuers, subjects and the principals that they make up.

use vstd::prelude::*;
use vstd::utf8::encode_utf8;

use crate::debug::{
    entry_string, entry_text, is_alternate, name_string, name_text, number_string, quoted_string,
    quoted_text, struct_string, struct_text, write_text,
};
use crate::decimal::{decimal_text, decimal_value};
use crate::json_value::{Json, JsonMember, JsonValue, Member};
use crate::text::{
    find_outside, first_outside, first_outside_is_first, lowered_bytes, lowers_to, texts, utf8_len,
    ByteClass,
};
use crate::uri::{parse_uri, parts_view, uri_parsed, UriModel, UriParts};

verus! {

/// Rejected issuer.
#[derive(Clone, Copy, Debug, PartialEq, Eq, Structural)]
pub enum IssuerIdError {
    /// The text has no bytes.
    Empty,
    /// The text is longer than the maximum.
    TooLong { max: usize, actual: usize },
    /// The text is no URI.
    InvalidUri,
    /// The scheme is not HTTPS.
    UnsupportedScheme,
    /// The URI has no host.
    MissingAuthority,
    /// The URI has user information.
    UserInfoNotAllowed,
    /// The port is empty or above 65535.
    InvalidPort,
    /// The URI has a query.
    QueryNotAllowed,
    /// The URI has a fragment.
    FragmentNotAllowed,
}

/// The bytes of `https`.
pub open spec fn https_name() -> Seq<u8> {
    seq![104u8, 116u8, 116u8, 112u8, 115u8]
}

/// The bytes are decimal digits of a 16-bit number, at least one.
pub open spec fn is_port_number(bytes: Seq<u8>) -> bool {
    &&& bytes.len() > 0
    &&& first_outside(bytes, 0, ByteClass::Decimal) == bytes.len()
    &&& decimal_value(bytes) <= 65535
}

/// What the rules say of an issuer whose URI reads as `parsed`.
pub open spec fn issuer_check(bytes: Seq<u8>, parsed: Option<UriModel>) -> Result<
    (),
    IssuerIdError,
> {
    if bytes.len() == 0 {
        Err(IssuerIdError::Empty)
    } else if bytes.len() > 512 {
        Err(IssuerIdError::TooLong { max: 512, actual: bytes.len() as usize })
    } else {
        match parsed {
            None => Err(IssuerIdError::InvalidUri),
            Some(uri) => if lowered_bytes(encode_utf8(uri.scheme)) != https_name() {
                Err(IssuerIdError::UnsupportedScheme)
            } else {
                match uri.authority {
                    None => Err(IssuerIdError::MissingAuthority),
                    Some(authority) => if authority.host.len() == 0 {
                        Err(IssuerIdError::MissingAuthority)
                    } else if authority.has_userinfo {
                        Err(IssuerIdError::UserInfoNotAllowed)
                    } else if authority.port matches Some(port) && !is_port_number(
                        encode_utf8(port),
                    ) {
                        Err(IssuerIdError::InvalidPort)
                    } else if uri.has_query {
                        Err(IssuerIdError::QueryNotAllowed)
                    } else if uri.has_fragment {
                        Err(IssuerIdError::FragmentNotAllowed)
                    } else {
                        Ok(())
                    },
                }
            },
        }
    }
}

proof fn decimal_value_grows(digits: Seq<u8>, i: int)
    requires
        0 <= i <= digits.len(),
        forall|j: int| 0 <= j < digits.len() ==> 48 <= #[trigger] digits[j] <= 57,
    ensures
        decimal_value(digits.take(i)) <= decimal_value(digits),
    decreases digits.len() - i,
{
    if i < digits.len() {
        assert(digits.take(i + 1).drop_last() =~= digits.take(i));
        decimal_value_grows(digits, i + 1);
    } else {
        assert(digits.take(i) =~= digits);
    }
}

/// Tests whether the text is a 16-bit number in decimal digits.
pub fn port_number(port: &str) -> (r: bool)
    ensures
        r == is_port_number(encode_utf8(port@)),
{
    let bytes = port.as_bytes();
    if bytes.len() == 0 {
        return false;
    }
    if find_outside(bytes, 0, ByteClass::Decimal) < bytes.len() {
        return false;
    }
    proof {
        first_outside_is_first(bytes@, 0, ByteClass::Decimal);
        assert(bytes@.take(0) =~= Seq::<u8>::empty());
    }
    let mut value: u32 = 0;
    let mut i: usize = 0;
    while i < bytes.len()
        invariant
            i <= bytes@.len(),
            bytes@ == encode_utf8(port@),
            forall|j: int| 0 <= j < bytes@.len() ==> 48 <= #[trigger] bytes@[j] <= 57,
            value == decimal_value(bytes@.take(i as int)),
            value <= 65535,
        decreases bytes@.len() - i,
    {
        assert(bytes@.take(i + 1).drop_last() =~= bytes@.take(i as int));
        value = value * 10 + (bytes[i] - 48) as u32;
        i = i + 1;
        if value > 65535 {
            proof {
                decimal_value_grows(bytes@, i as int);
            }
            return false;
        }
    }
    assert(bytes@.take(i as int) =~= bytes@);
    true
}

/// Tests whether the text is `https` in any case.
pub fn is_https(scheme: &str) -> (r: bool)
    ensures
        r == (lowered_bytes(encode_utf8(scheme@)) == https_name()),
{
    let expected: [u8; 5] = [104, 116, 116, 112, 115];
    assert(expected@ =~= https_name());
    lowers_to(scheme.as_bytes(), expected.as_slice())
}

/// Checks an issuer whose URI was read as `parsed`.
pub fn check_issuer(value: &str, parsed: &Option<UriParts>) -> (r: Result<(), IssuerIdError>)
    ensures
        r == issuer_check(encode_utf8(value@), parts_view(*parsed)),
{
    let length: usize = utf8_len(value);
    if length == 0 {
        return Err(IssuerIdError::Empty);
    }
    if length > 512 {
        return Err(IssuerIdError::TooLong { max: 512, actual: length });
    }
    let uri = match parsed {
        None => {
            return Err(IssuerIdError::InvalidUri);
        },
        Some(uri) => uri,
    };
    if !is_https(uri.scheme.as_str()) {
        return Err(IssuerIdError::UnsupportedScheme);
    }
    let authority = match &uri.authority {
        None => {
            return Err(IssuerIdError::MissingAuthority);
        },
        Some(authority) => authority,
    };
    if authority.host.as_str().is_empty() {
        return Err(IssuerIdError::MissingAuthority);
    }
    if authority.has_userinfo {
        return Err(IssuerIdError::UserInfoNotAllowed);
    }
    if let Some(port) = &authority.port {
        if !port_number(port.as_str()) {
            return Err(IssuerIdError::InvalidPort);
        }
    }
    if uri.has_query {
        return Err(IssuerIdError::QueryNotAllowed);
    }
    if uri.has_fragment {
        return Err(IssuerIdError::FragmentNotAllowed);
    }
    Ok(())
}

/// The exact, case-sensitive identifier of an OpenID Connect issuer.
#[derive(Eq, PartialOrd, Ord, Hash)]
pub struct IssuerId {
    text: String,
}

impl IssuerId {
    /// Maximum length in bytes.
    pub const MAX_LEN: usize = 512;

    /// The text satisfies the grammar.
    #[verifier::type_invariant]
    pub open spec fn well_formed(&self) -> bool {
        issuer_check(encode_utf8(self@), uri_parsed(self@)) is Ok
    }

    /// Validates the text.
    pub fn new(value: &str) -> (r: Result<IssuerId, IssuerIdError>)
        ensures
            match (r, issuer_check(encode_utf8(value@), uri_parsed(value@))) {
                (Ok(id), Ok(())) => id@ == value@,
                (Err(e), Err(expected)) => e == expected,
                _ => false,
            },
    {
        let length: usize = utf8_len(value);
        if length == 0 {
            return Err(IssuerIdError::Empty);
        }
        if length > 512 {
            return Err(IssuerIdError::TooLong { max: 512, actual: length });
        }
        let parsed = parse_uri(value);
        match check_issuer(value, &parsed) {
            Err(e) => {
                return Err(e);
            },
            Ok(()) => {},
        }
        Ok(IssuerId { text: value.to_owned() })
    }

    /// Returns the exact text.
    pub fn as_str(&self) -> (r: &str)
        ensures
            r@ == self@,
            self.well_formed(),
    {
        proof {
            use_type_invariant(self);
        }
        self.text.as_str()
    }

    /// Copies the exact text.
    pub fn to_string(&self) -> (r: String)
        ensures
            r@ == self@,
    {
        self.text.clone()
    }
}

impl View for IssuerId {
    type V = Seq<char>;

    /// The text.
    closed spec fn view(&self) -> Seq<char> {
        self.text@
    }
}

impl Clone for IssuerId {
    fn clone(&self) -> (r: Self)
        ensures
            r == *self,
    {
        proof {
            use_type_invariant(self);
        }
        IssuerId { text: self.text.clone() }
    }
}

impl PartialEq for IssuerId {
    fn eq(&self, other: &Self) -> (r: bool) {
        self.text.eq(&other.text)
    }
}

impl vstd::std_specs::cmp::PartialEqSpecImpl for IssuerId {
    open spec fn obeys_eq_spec() -> bool {
        true
    }

    open spec fn eq_spec(&self, other: &Self) -> bool {
        self@ == other@
    }
}

impl core::str::FromStr for IssuerId {
    type Err = IssuerIdError;

    fn from_str(value: &str) -> (r: Result<Self, Self::Err>)
        ensures
            match (r, issuer_check(encode_utf8(value@), uri_parsed(value@))) {
                (Ok(id), Ok(())) => id@ == value@,
                (Err(e), Err(expected)) => e == expected,
                _ => false,
            },
    {
        IssuerId::new(value)
    }
}

impl AsRef<str> for IssuerId {
    fn as_ref(&self) -> (r: &str)
        ensures
            r@ == self@,
    {
        self.as_str()
    }
}

impl core::borrow::Borrow<str> for IssuerId {
    fn borrow(&self) -> (r: &str)
        ensures
            str::view(r) == self@,
    {
        self.as_str()
    }
}

impl TryFrom<String> for IssuerId {
    type Error = IssuerIdError;

    fn try_from(value: String) -> (r: Result<Self, Self::Error>)
        ensures
            match (r, issuer_check(encode_utf8(value@), uri_parsed(value@))) {
                (Ok(id), Ok(())) => id@ == value@,
                (Err(e), Err(expected)) => e == expected,
                _ => false,
            },
    {
        IssuerId::new(value.as_str())
    }
}

// What comes out is stated on `try_from` itself, over views.
impl vstd::std_specs::convert::TryFromSpecImpl<String> for IssuerId {
    open spec fn obeys_try_from_spec() -> bool {
        false
    }

    open spec fn try_from_spec(value: String) -> Result<Self, IssuerIdError> {
        arbitrary()
    }
}

impl<'a> TryFrom<&'a str> for IssuerId {
    type Error = IssuerIdError;

    fn try_from(value: &'a str) -> (r: Result<Self, Self::Error>)
        ensures
            match (r, issuer_check(encode_utf8(value@), uri_parsed(value@))) {
                (Ok(id), Ok(())) => id@ == value@,
                (Err(e), Err(expected)) => e == expected,
                _ => false,
            },
    {
        IssuerId::new(value)
    }
}

// What comes out is stated on `try_from` itself, over views.
impl<'a> vstd::std_specs::convert::TryFromSpecImpl<&'a str> for IssuerId {
    open spec fn obeys_try_from_spec() -> bool {
        false
    }

    open spec fn try_from_spec(value: &'a str) -> Result<Self, IssuerIdError> {
        arbitrary()
    }
}

impl From<IssuerId> for String {
    fn from(value: IssuerId) -> (r: Self)
        ensures
            r@ == value@,
    {
        value.text
    }
}

impl vstd::std_specs::convert::FromSpecImpl<IssuerId> for String {
    open spec fn obeys_from_spec() -> bool {
        true
    }

    closed spec fn from_spec(value: IssuerId) -> String {
        value.text
    }
}

/// Rejected subject.
#[derive(Clone, Copy, Debug, PartialEq, Eq, Structural)]
pub enum SubjectIdError {
    /// The text has no bytes.
    Empty,
    /// The text is longer than the maximum.
    TooLong { max: usize, actual: usize },
    /// The byte at this offset is not printable ASCII.
    InvalidByte { index: usize },
}

/// What the grammar of subjects says of the bytes.
pub open spec fn subject_check(bytes: Seq<u8>) -> Result<(), SubjectIdError> {
    let outside = first_outside(bytes, 0, ByteClass::Printable);
    if bytes.len() == 0 {
        Err(SubjectIdError::Empty)
    } else if bytes.len() > 255 {
        Err(SubjectIdError::TooLong { max: 255, actual: bytes.len() as usize })
    } else if outside < bytes.len() {
        Err(SubjectIdError::InvalidByte { index: outside as usize })
    } else {
        Ok(())
    }
}

/// An opaque, case-sensitive subject of an issuer, not shown by `Debug`.
#[derive(Eq, PartialOrd, Ord, Hash)]
pub struct SubjectId {
    text: String,
}

impl SubjectId {
    /// Maximum length in bytes.
    pub const MAX_LEN: usize = 255;

    /// The text satisfies the grammar.
    #[verifier::type_invariant]
    pub open spec fn well_formed(&self) -> bool {
        subject_check(encode_utf8(self@)) is Ok
    }

    /// Validates the text.
    pub fn new(value: &str) -> (r: Result<SubjectId, SubjectIdError>)
        ensures
            match (r, subject_check(encode_utf8(value@))) {
                (Ok(id), Ok(())) => id@ == value@,
                (Err(e), Err(expected)) => e == expected,
                _ => false,
            },
    {
        let bytes = value.as_bytes();
        if bytes.len() == 0 {
            return Err(SubjectIdError::Empty);
        }
        if bytes.len() > 255 {
            return Err(SubjectIdError::TooLong { max: 255, actual: bytes.len() });
        }
        let outside: usize = find_outside(bytes, 0, ByteClass::Printable);
        if outside < bytes.len() {
            return Err(SubjectIdError::InvalidByte { index: outside });
        }
        Ok(SubjectId { text: value.to_owned() })
    }

    /// Returns the exact text.
    pub fn as_str(&self) -> (r: &str)
        ensures
            r@ == self@,
            self.well_formed(),
    {
        proof {
            use_type_invariant(self);
        }
        self.text.as_str()
    }

    /// Copies the exact text.
    pub fn to_string(&self) -> (r: String)
        ensures
            r@ == self@,
    {
        self.text.clone()
    }
}

impl View for SubjectId {
    type V = Seq<char>;

    /// The text.
    closed spec fn view(&self) -> Seq<char> {
        self.text@
    }
}

impl Clone for SubjectId {
    fn clone(&self) -> (r: Self)
        ensures
            r == *self,
    {
        proof {
            use_type_invariant(self);
        }
        SubjectId { text: self.text.clone() }
    }
}

impl PartialEq for SubjectId {
    fn eq(&self, other: &Self) -> (r: bool) {
        self.text.eq(&other.text)
    }
}

impl vstd::std_specs::cmp::PartialEqSpecImpl for SubjectId {
    open spec fn obeys_eq_spec() -> bool {
        true
    }

    open spec fn eq_spec(&self, other: &Self) -> bool {
        self@ == other@
    }
}

impl core::str::FromStr for SubjectId {
    type Err = SubjectIdError;

    fn from_str(value: &str) -> (r: Result<Self, Self::Err>)
        ensures
            match (r, subject_check(encode_utf8(value@))) {
                (Ok(id), Ok(())) => id@ == value@,
                (Err(e), Err(expected)) => e == expected,
                _ => false,
            },
    {
        SubjectId::new(value)
    }
}

impl AsRef<str> for SubjectId {
    fn as_ref(&self) -> (r: &str)
        ensures
            r@ == self@,
    {
        self.as_str()
    }
}

impl core::borrow::Borrow<str> for SubjectId {
    fn borrow(&self) -> (r: &str)
        ensures
            str::view(r) == self@,
    {
        self.as_str()
    }
}

impl TryFrom<String> for SubjectId {
    type Error = SubjectIdError;

    fn try_from(value: String) -> (r: Result<Self, Self::Error>)
        ensures
            match (r, subject_check(encode_utf8(value@))) {
                (Ok(id), Ok(())) => id@ == value@,
                (Err(e), Err(expected)) => e == expected,
                _ => false,
            },
    {
        SubjectId::new(value.as_str())
    }
}

// What comes out is stated on `try_from` itself, over views.
impl vstd::std_specs::convert::TryFromSpecImpl<String> for SubjectId {
    open spec fn obeys_try_from_spec() -> bool {
        false
    }

    open spec fn try_from_spec(value: String) -> Result<Self, SubjectIdError> {
        arbitrary()
    }
}

impl<'a> TryFrom<&'a str> for SubjectId {
    type Error = SubjectIdError;

    fn try_from(value: &'a str) -> (r: Result<Self, Self::Error>)
        ensures
            match (r, subject_check(encode_utf8(value@))) {
                (Ok(id), Ok(())) => id@ == value@,
                (Err(e), Err(expected)) => e == expected,
                _ => false,
            },
    {
        SubjectId::new(value)
    }
}

// What comes out is stated on `try_from` itself, over views.
impl<'a> vstd::std_specs::convert::TryFromSpecImpl<&'a str> for SubjectId {
    open spec fn obeys_try_from_spec() -> bool {
        false
    }

    open spec fn try_from_spec(value: &'a str) -> Result<Self, SubjectIdError> {
        arbitrary()
    }
}

impl From<SubjectId> for String {
    fn from(value: SubjectId) -> (r: Self)
        ensures
            r@ == value@,
    {
        value.text
    }
}

impl vstd::std_specs::convert::FromSpecImpl<SubjectId> for String {
    open spec fn obeys_from_spec() -> bool {
        true
    }

    closed spec fn from_spec(value: SubjectId) -> String {
        value.text
    }
}

/// An authenticated principal: a subject of an issuer.
#[derive(PartialOrd, Ord, Hash)]
pub struct PrincipalIdentity {
    issuer: IssuerId,
    subject: SubjectId,
}

/// The values of [`PrincipalIdentity`].
pub ghost struct PrincipalModel {
    pub issuer: Seq<char>,
    pub subject: Seq<char>,
}

impl View for PrincipalIdentity {
    type V = PrincipalModel;

    closed spec fn view(&self) -> PrincipalModel {
        PrincipalModel {
            issuer: self.issuer@,
            subject: self.subject@,
        }
    }
}

impl PrincipalIdentity {
    /// Names the subject of the issuer.
    pub fn new(issuer: IssuerId, subject: SubjectId) -> (r: PrincipalIdentity)
        ensures
            r@ == (PrincipalModel {
                issuer: issuer@,
                subject: subject@,
            }),
    {
        PrincipalIdentity { issuer, subject }
    }

    /// Returns the issuer.
    pub fn issuer(&self) -> (r: &IssuerId)
        ensures
            r@ == self@.issuer,
    {
        &self.issuer
    }

    /// Returns the subject.
    pub fn subject(&self) -> (r: &SubjectId)
        ensures
            r@ == self@.subject,
    {
        &self.subject
    }

    /// Writes the JSON form.
    pub fn to_json(&self) -> (r: JsonValue)
        ensures
            r@ == principal_json(self@),
    {
        let members = vec![
            JsonMember::new("issuer", JsonValue::text(self.issuer.as_str())),
            JsonMember::new("subject", JsonValue::text(self.subject.as_str())),
        ];
        let r = JsonValue::object(members);
        assert(r@->Object_0 =~= principal_json(self@)->Object_0);
        r
    }
}

/// The JSON form of [`PrincipalIdentity`].
pub open spec fn principal_json(model: PrincipalModel) -> Json {
    Json::Object(
        seq![
            Member { name: "issuer"@, value: Json::Text(model.issuer) },
            Member { name: "subject"@, value: Json::Text(model.subject) },
        ],
    )
}

impl Clone for PrincipalIdentity {
    fn clone(&self) -> (r: Self)
        ensures
            r@ == self@,
    {
        PrincipalIdentity {
            issuer: self.issuer.clone(),
            subject: self.subject.clone(),
        }
    }
}

impl PartialEq for PrincipalIdentity {
    fn eq(&self, other: &Self) -> (r: bool) {
        self.issuer == other.issuer
            && self.subject == other.subject
    }
}

impl vstd::std_specs::cmp::PartialEqSpecImpl for PrincipalIdentity {
    open spec fn obeys_eq_spec() -> bool {
        true
    }

    open spec fn eq_spec(&self, other: &Self) -> bool {
        self@ == other@
    }
}

impl Eq for PrincipalIdentity {

}

// ---------------------------------------------------------------------------
// Debug output
// ---------------------------------------------------------------------------

impl IssuerId {
    /// Returns what is shown of it for debugging.
    pub fn debug_text(&self, alternate: bool) -> (r: String)
        ensures
            r@ == name_text("IssuerId"@, self@, alternate),
    {
        name_string("IssuerId", self.text.as_str(), alternate)
    }
}

impl core::fmt::Debug for IssuerId {
    fn fmt(&self, formatter: &mut core::fmt::Formatter<'_>) -> core::fmt::Result {
        let alternate: bool = is_alternate(formatter);
        write_text(formatter, self.debug_text(alternate).as_str())
    }
}

/// The fields that are shown of a subject.
pub open spec fn subject_fields(byte_len: nat) -> Seq<Seq<char>> {
    seq![
        entry_text("byte_len"@, decimal_text(byte_len)),
        entry_text("value"@, quoted_text("<redacted>"@)),
    ]
}

/// What is shown of a subject: how long it is.
pub open spec fn subject_shown(byte_len: nat, alternate: bool) -> Seq<char> {
    struct_text("SubjectId"@, subject_fields(byte_len), false, alternate)
}

impl SubjectId {
    /// Returns what is shown of it for debugging.
    pub fn debug_text(&self, alternate: bool) -> (r: String)
        ensures
            r@ == subject_shown(encode_utf8(self@).len(), alternate),
    {
        let fields = vec![
            entry_string("byte_len", number_string(utf8_len(self.text.as_str()))),
            entry_string("value", quoted_string("<redacted>")),
        ];
        assert(texts(fields@) =~= subject_fields(encode_utf8(self@).len()));
        struct_string("SubjectId", &fields, false, alternate)
    }
}

impl core::fmt::Debug for SubjectId {
    fn fmt(&self, formatter: &mut core::fmt::Formatter<'_>) -> core::fmt::Result {
        let alternate: bool = is_alternate(formatter);
        write_text(formatter, self.debug_text(alternate).as_str())
    }
}

/// The fields that are shown of a principal.
pub open spec fn principal_fields(model: PrincipalModel, alternate: bool) -> Seq<Seq<char>> {
    seq![
        entry_text("issuer"@, name_text("IssuerId"@, model.issuer, alternate)),
        entry_text("subject"@, subject_shown(encode_utf8(model.subject).len(), alternate)),
    ]
}

/// What is shown of a principal.
pub open spec fn principal_shown(model: PrincipalModel, alternate: bool) -> Seq<char> {
    struct_text("PrincipalIdentity"@, principal_fields(model, alternate), false, alternate)
}

impl PrincipalIdentity {
    /// Returns what is shown of it for debugging.
    pub fn debug_text(&self, alternate: bool) -> (r: String)
        ensures
            r@ == principal_shown(self@, alternate),
    {
        let fields = vec![
            entry_string("issuer", self.issuer.debug_text(alternate)),
            entry_string("subject", self.subject.debug_text(alternate)),
        ];
        assert(texts(fields@) =~= principal_fields(self@, alternate));
        struct_string("PrincipalIdentity", &fields, false, alternate)
    }
}

impl core::fmt::Debug for PrincipalIdentity {
    fn fmt(&self, formatter: &mut core::fmt::Formatter<'_>) -> core::fmt::Result {
        let alternate: bool = is_alternate(formatter);
        write_text(formatter, self.debug_text(alternate).as_str())
    }
}

} // verus!
