//! Namespaced keys of extensions.

use vstd::prelude::*;
use vstd::utf8::encode_utf8;

use crate::debug::{
    entry_string, entry_text, is_alternate, quoted_string, quoted_text, struct_string, struct_text,
    write_text,
};
use crate::digest::{find_colon, first_colon};
use crate::identity::{https_name, is_https};
use crate::json_value::{escape_cost, escape_costs, string_size};
use crate::ordered::Keyed;
use crate::text::{
    admits, ascii_utf8, byte_is_alphanumeric, byte_is_lower, find_outside, first_outside,
    first_outside_is_first, is_alphanumeric, is_lower, lowered_bytes, lowers_to, same_text, texts,
    utf8_len, ByteClass,
};
use crate::uri::{
    normalize_uri, parse_uri, parts_view, plain_uri, uri_normalized, uri_parsed, UriModel, UriParts,
};

verus! {

/// The form of a key.
#[derive(Clone, Copy, Debug, PartialEq, Eq, PartialOrd, Ord, Hash, Structural)]
pub enum ExtensionKeyKind {
    /// A normalized HTTPS or URN identifier.
    Uri,
    /// A lowercase reverse-DNS name of three labels or more.
    ReverseDns,
}

/// Rejected key.
#[derive(Clone, Copy, Debug, PartialEq, Eq, Structural)]
pub enum ExtensionKeyError {
    /// The key has no bytes.
    Empty,
    /// The key is longer than the maximum.
    TooLong { max: usize, actual: usize },
    /// The key has a `:` and is no URI.
    InvalidUri,
    /// The scheme is neither HTTPS nor URN.
    UnsupportedUriScheme,
    /// The HTTPS identifier names no host.
    MissingAuthority,
    /// The URI has user information.
    UserInfoNotAllowed,
    /// The URI has a query.
    QueryNotAllowed,
    /// The URI has a fragment.
    FragmentNotAllowed,
    /// The URN has no lowercase namespace or no value.
    InvalidUrn,
    /// The URI is not spelled in its normal form.
    NonCanonicalUri,
    /// The name has fewer than three labels.
    TooFewReverseDnsLabels,
    /// This label is empty or too long.
    InvalidReverseDnsLabelLength { label_index: usize, actual: usize },
    /// This label does not start with a lowercase letter.
    InvalidReverseDnsLabelStart { label_index: usize },
    /// This label does not end with a letter or digit.
    InvalidReverseDnsLabelEnd { label_index: usize },
    /// The byte at this offset is outside the grammar.
    InvalidReverseDnsByte { index: usize },
}

// ---------------------------------------------------------------------------
// Grammar
// ---------------------------------------------------------------------------

/// How many bytes follow from a place on before a dot or the end.
pub open spec fn label_length(bytes: Seq<u8>, from: int) -> nat
    decreases bytes.len() - from,
{
    if from < 0 || from >= bytes.len() || bytes[from] == 46 {
        0
    } else {
        1 + label_length(bytes, from + 1)
    }
}

/// How many dots the bytes hold.
pub open spec fn dot_count(bytes: Seq<u8>) -> nat
    decreases bytes.len(),
{
    if bytes.len() == 0 {
        0
    } else if bytes.last() == 46 {
        dot_count(bytes.drop_last()) + 1
    } else {
        dot_count(bytes.drop_last())
    }
}

/// What the labels from a place on fail on.
pub open spec fn labels_failure(bytes: Seq<u8>, from: int, label_index: int) -> Option<
    ExtensionKeyError,
>
    decreases bytes.len() - from,
{
    let length = label_length(bytes, from);
    let end = from + length;
    let outside = first_outside(bytes, from, ByteClass::LowerKebab);
    if from < 0 || from > bytes.len() {
        None
    } else if length == 0 || length > 63 {
        Some(
            ExtensionKeyError::InvalidReverseDnsLabelLength {
                label_index: label_index as usize,
                actual: length as usize,
            },
        )
    } else if !is_lower(bytes[from]) {
        Some(
            ExtensionKeyError::InvalidReverseDnsLabelStart { label_index: label_index as usize },
        )
    } else if !is_alphanumeric(bytes[end - 1]) {
        Some(ExtensionKeyError::InvalidReverseDnsLabelEnd { label_index: label_index as usize })
    } else if outside < end {
        Some(ExtensionKeyError::InvalidReverseDnsByte { index: outside as usize })
    } else if end >= bytes.len() {
        None
    } else {
        labels_failure(bytes, end + 1, label_index + 1)
    }
}

/// What the grammar says of a reverse-DNS name.
pub open spec fn reverse_dns_check(bytes: Seq<u8>) -> Result<(), ExtensionKeyError> {
    if dot_count(bytes) < 2 {
        Err(ExtensionKeyError::TooFewReverseDnsLabels)
    } else {
        match labels_failure(bytes, 0, 0) {
            Some(e) => Err(e),
            None => Ok(()),
        }
    }
}

/// After the scheme come a lowercase namespace and a value.
pub open spec fn urn_valid(bytes: Seq<u8>) -> bool {
    let colon = first_colon(bytes, 4);
    &&& bytes.len() >= 4
    &&& colon + 1 < bytes.len()
    &&& 2 <= colon - 4 <= 32
    &&& is_lower(bytes[4])
    &&& is_alphanumeric(bytes[colon - 1])
    &&& first_outside(bytes, 4, ByteClass::LowerKebab) >= colon
}

/// The bytes of the name `urn`.
pub open spec fn urn_name() -> Seq<u8> {
    seq![117u8, 114u8, 110u8]
}

/// What the rules say of a URI key whose text was read as `parsed` and whose
/// normal form is `normal`.
pub open spec fn uri_key_check(
    text: Seq<char>,
    parsed: Option<UriModel>,
    normal: Option<Seq<char>>,
) -> Result<(), ExtensionKeyError> {
    match parsed {
        None => Err(ExtensionKeyError::InvalidUri),
        Some(uri) => {
            let scheme = lowered_bytes(encode_utf8(uri.scheme));
            let nowhere = match uri.authority {
                None => true,
                Some(authority) => authority.host.len() == 0,
            };
            if uri.has_query {
                Err(ExtensionKeyError::QueryNotAllowed)
            } else if uri.has_fragment {
                Err(ExtensionKeyError::FragmentNotAllowed)
            } else if scheme == https_name() && nowhere {
                Err(ExtensionKeyError::MissingAuthority)
            } else if scheme == https_name() && uri.authority->Some_0.has_userinfo {
                Err(ExtensionKeyError::UserInfoNotAllowed)
            } else if scheme == urn_name() && (uri.authority is Some || !urn_valid(
                encode_utf8(text),
            )) {
                Err(ExtensionKeyError::InvalidUrn)
            } else if scheme != https_name() && scheme != urn_name() {
                Err(ExtensionKeyError::UnsupportedUriScheme)
            } else if normal != Some(text) {
                Err(ExtensionKeyError::NonCanonicalUri)
            } else {
                Ok(())
            }
        },
    }
}

/// What the rules say of a key.
pub open spec fn extension_key_check(text: Seq<char>) -> Result<
    ExtensionKeyKind,
    ExtensionKeyError,
> {
    let bytes = encode_utf8(text);
    if bytes.len() == 0 {
        Err(ExtensionKeyError::Empty)
    } else if bytes.len() > 512 {
        Err(ExtensionKeyError::TooLong { max: 512, actual: bytes.len() as usize })
    } else if first_colon(bytes, 0) < bytes.len() {
        match uri_key_check(text, uri_parsed(text), uri_normalized(text)) {
            Ok(()) => Ok(ExtensionKeyKind::Uri),
            Err(e) => Err(e),
        }
    } else {
        match reverse_dns_check(bytes) {
            Ok(()) => Ok(ExtensionKeyKind::ReverseDns),
            Err(e) => Err(e),
        }
    }
}

// ---------------------------------------------------------------------------
// Checks
// ---------------------------------------------------------------------------

proof fn label_length_bound(bytes: Seq<u8>, from: int)
    requires
        0 <= from <= bytes.len(),
    ensures
        from + label_length(bytes, from) <= bytes.len(),
        from + label_length(bytes, from) < bytes.len() ==> bytes[from + label_length(bytes, from)]
            == 46,
    decreases bytes.len() - from,
{
    if from < bytes.len() && bytes[from] != 46 {
        label_length_bound(bytes, from + 1);
    }
}

fn find_label_end(bytes: &[u8], from: usize) -> (r: usize)
    requires
        from <= bytes@.len(),
    ensures
        r == from + label_length(bytes@, from as int),
        from <= r <= bytes@.len(),
{
    let mut i: usize = from;
    while i < bytes.len()
        invariant
            from <= i <= bytes@.len(),
            from + label_length(bytes@, from as int) == i + label_length(bytes@, i as int),
        decreases bytes@.len() - i,
    {
        if bytes[i] == 46 {
            return i;
        }
        i = i + 1;
    }
    i
}

fn count_dots(bytes: &[u8]) -> (r: usize)
    ensures
        r == dot_count(bytes@),
{
    let mut count: usize = 0;
    let mut i: usize = 0;
    assert(bytes@.take(0) =~= Seq::<u8>::empty());
    while i < bytes.len()
        invariant
            i <= bytes@.len(),
            count <= i,
            count == dot_count(bytes@.take(i as int)),
        decreases bytes@.len() - i,
    {
        proof {
            assert(bytes@.take(i + 1).drop_last() =~= bytes@.take(i as int));
            assert(bytes@.take(i + 1).last() == bytes@[i as int]);
        }
        if bytes[i] == 46 {
            count = count + 1;
        }
        i = i + 1;
    }
    assert(bytes@.take(bytes@.len() as int) =~= bytes@);
    count
}

fn validate_reverse_dns(value: &str) -> (r: Result<(), ExtensionKeyError>)
    requires
        encode_utf8(value@).len() <= 512,
    ensures
        r == reverse_dns_check(encode_utf8(value@)),
{
    let bytes = value.as_bytes();
    if count_dots(bytes) < 2 {
        return Err(ExtensionKeyError::TooFewReverseDnsLabels);
    }
    let mut from: usize = 0;
    let mut label_index: usize = 0;
    loop
        invariant
            from <= bytes@.len() <= 512,
            label_index <= from,
            bytes@ == encode_utf8(value@),
            dot_count(bytes@) >= 2,
            labels_failure(bytes@, 0, 0) == labels_failure(
                bytes@,
                from as int,
                label_index as int,
            ),
        decreases bytes@.len() - from,
    {
        let end: usize = find_label_end(bytes, from);
        proof {
            label_length_bound(bytes@, from as int);
        }
        let length: usize = end - from;
        if length == 0 || length > 63 {
            return Err(
                ExtensionKeyError::InvalidReverseDnsLabelLength { label_index, actual: length },
            );
        }
        if !byte_is_lower(bytes[from]) {
            return Err(ExtensionKeyError::InvalidReverseDnsLabelStart { label_index });
        }
        if !byte_is_alphanumeric(bytes[end - 1]) {
            return Err(ExtensionKeyError::InvalidReverseDnsLabelEnd { label_index });
        }
        let outside: usize = find_outside(bytes, from, ByteClass::LowerKebab);
        if outside < end {
            return Err(ExtensionKeyError::InvalidReverseDnsByte { index: outside });
        }
        if end == bytes.len() {
            return Ok(());
        }
        from = end + 1;
        label_index = label_index + 1;
    }
}

fn valid_urn_namespace_and_value(value: &str) -> (r: bool)
    ensures
        r == urn_valid(encode_utf8(value@)),
{
    let bytes = value.as_bytes();
    if bytes.len() < 4 {
        return false;
    }
    let colon: usize = find_colon(bytes, 4);
    if colon == bytes.len() || colon + 1 == bytes.len() {
        return false;
    }
    let length: usize = colon - 4;
    if length < 2 || length > 32 {
        return false;
    }
    byte_is_lower(bytes[4]) && byte_is_alphanumeric(bytes[colon - 1]) && find_outside(
        bytes,
        4,
        ByteClass::LowerKebab,
    ) >= colon
}

/// Tests whether the text is `urn` in any case.
fn is_urn(scheme: &str) -> (r: bool)
    ensures
        r == (lowered_bytes(encode_utf8(scheme@)) == urn_name()),
{
    let expected: [u8; 3] = [117, 114, 110];
    assert(expected@ =~= urn_name());
    lowers_to(scheme.as_bytes(), expected.as_slice())
}

/// The text of an optional string.
pub open spec fn optional_text(text: Option<String>) -> Option<Seq<char>> {
    match text {
        Some(text) => Some(text@),
        None => None,
    }
}

/// Checks a URI key whose text was read as `parsed` and whose normal form is
/// `normal`.
pub fn check_uri_key(value: &str, parsed: &Option<UriParts>, normal: &Option<String>) -> (r: Result<
    (),
    ExtensionKeyError,
>)
    ensures
        r == uri_key_check(value@, parts_view(*parsed), optional_text(*normal)),
{
    let uri = match parsed {
        None => {
            return Err(ExtensionKeyError::InvalidUri);
        },
        Some(uri) => uri,
    };
    if uri.has_query {
        return Err(ExtensionKeyError::QueryNotAllowed);
    }
    if uri.has_fragment {
        return Err(ExtensionKeyError::FragmentNotAllowed);
    }
    if is_https(uri.scheme.as_str()) {
        proof {
            assert(https_name().len() != urn_name().len());
        }
        let authority = match &uri.authority {
            None => {
                return Err(ExtensionKeyError::MissingAuthority);
            },
            Some(authority) => authority,
        };
        if authority.host.as_str().is_empty() {
            return Err(ExtensionKeyError::MissingAuthority);
        }
        if authority.has_userinfo {
            return Err(ExtensionKeyError::UserInfoNotAllowed);
        }
    } else if is_urn(uri.scheme.as_str()) {
        if uri.authority.is_some() || !valid_urn_namespace_and_value(value) {
            return Err(ExtensionKeyError::InvalidUrn);
        }
    } else {
        return Err(ExtensionKeyError::UnsupportedUriScheme);
    }
    match normal {
        Some(normal) => {
            if same_text(normal.as_str(), value) {
                Ok(())
            } else {
                Err(ExtensionKeyError::NonCanonicalUri)
            }
        },
        None => Err(ExtensionKeyError::NonCanonicalUri),
    }
}

// ---------------------------------------------------------------------------
// Keys
// ---------------------------------------------------------------------------

/// The stable namespace of an extension.
#[derive(PartialOrd, Ord, Hash)]
pub struct ExtensionKey {
    value: String,
    kind: ExtensionKeyKind,
}

/// What holds of the text of every key: nothing in it needs an escape.
pub open spec fn extension_key_sound(text: Seq<char>) -> bool {
    &&& extension_key_check(text) is Ok
    &&& 0 < encode_utf8(text).len() <= 512
    &&& string_size(text) == encode_utf8(text).len() + 2
}

impl View for ExtensionKey {
    type V = Seq<char>;

    /// The text.
    closed spec fn view(&self) -> Seq<char> {
        self.value@
    }
}

impl ExtensionKey {
    /// Maximum length in bytes.
    pub const MAX_LEN: usize = 512;

    /// The form, as it was recorded.
    pub closed spec fn form(&self) -> ExtensionKeyKind {
        self.kind
    }

    /// The text satisfies the rules, and its form is the recorded one.
    #[verifier::type_invariant]
    pub open spec fn well_formed(&self) -> bool {
        &&& extension_key_check(self@) == Ok::<ExtensionKeyKind, ExtensionKeyError>(self.form())
        &&& extension_key_sound(self@)
    }

    /// Validates a key.
    pub fn new(value: &str) -> (r: Result<ExtensionKey, ExtensionKeyError>)
        ensures
            match (r, extension_key_check(value@)) {
                (Ok(key), Ok(_)) => key@ == value@,
                (Err(e), Err(expected)) => e == expected,
                _ => false,
            },
    {
        let length: usize = utf8_len(value);
        if length == 0 {
            return Err(ExtensionKeyError::Empty);
        }
        if length > 512 {
            return Err(ExtensionKeyError::TooLong { max: 512, actual: length });
        }
        let bytes = value.as_bytes();
        if find_colon(bytes, 0) < bytes.len() {
            let parsed = parse_uri(value);
            let normal = normalize_uri(value);
            check_uri_key(value, &parsed, &normal)?;
            proof {
                plain_uri_needs_no_escape(value@);
            }
            Ok(ExtensionKey { value: value.to_owned(), kind: ExtensionKeyKind::Uri })
        } else {
            validate_reverse_dns(value)?;
            proof {
                labels_need_no_escape(bytes@, 0, 0);
                no_escapes(bytes@);
            }
            Ok(ExtensionKey { value: value.to_owned(), kind: ExtensionKeyKind::ReverseDns })
        }
    }

    /// Returns the exact text.
    pub fn as_str(&self) -> (r: &str)
        ensures
            r@ == self@,
            extension_key_sound(self@),
    {
        proof {
            use_type_invariant(self);
        }
        self.value.as_str()
    }

    /// Returns the form.
    pub fn kind(&self) -> (r: ExtensionKeyKind)
        ensures
            extension_key_check(self@) == Ok::<ExtensionKeyKind, ExtensionKeyError>(r),
    {
        proof {
            use_type_invariant(self);
        }
        self.kind
    }

    /// Copies the exact text.
    pub fn to_string(&self) -> (r: String)
        ensures
            r@ == self@,
    {
        self.value.clone()
    }
}

impl Keyed for ExtensionKey {
    open spec fn key_of(model: Seq<char>) -> Seq<char> {
        model
    }

    open spec fn sound(model: Seq<char>) -> bool {
        extension_key_sound(model)
    }

    fn key_text(&self) -> (r: &str) {
        self.as_str()
    }
}

impl Clone for ExtensionKey {
    fn clone(&self) -> (r: Self)
        ensures
            r@ == self@,
    {
        proof {
            use_type_invariant(self);
        }
        ExtensionKey { value: self.value.clone(), kind: self.kind }
    }
}

impl PartialEq for ExtensionKey {
    fn eq(&self, other: &Self) -> (r: bool) {
        same_text(self.value.as_str(), other.value.as_str())
    }
}

impl vstd::std_specs::cmp::PartialEqSpecImpl for ExtensionKey {
    open spec fn obeys_eq_spec() -> bool {
        true
    }

    open spec fn eq_spec(&self, other: &Self) -> bool {
        self@ == other@
    }
}

impl Eq for ExtensionKey {

}

impl core::str::FromStr for ExtensionKey {
    type Err = ExtensionKeyError;

    fn from_str(value: &str) -> (r: Result<Self, Self::Err>)
        ensures
            match (r, extension_key_check(value@)) {
                (Ok(key), Ok(_)) => key@ == value@,
                (Err(e), Err(expected)) => e == expected,
                _ => false,
            },
    {
        ExtensionKey::new(value)
    }
}

impl AsRef<str> for ExtensionKey {
    fn as_ref(&self) -> (r: &str)
        ensures
            r@ == self@,
    {
        self.as_str()
    }
}

impl core::borrow::Borrow<str> for ExtensionKey {
    fn borrow(&self) -> (r: &str)
        ensures
            str::view(r) == self@,
    {
        self.as_str()
    }
}

impl TryFrom<String> for ExtensionKey {
    type Error = ExtensionKeyError;

    fn try_from(value: String) -> (r: Result<Self, Self::Error>)
        ensures
            match (r, extension_key_check(value@)) {
                (Ok(key), Ok(_)) => key@ == value@,
                (Err(e), Err(expected)) => e == expected,
                _ => false,
            },
    {
        ExtensionKey::new(value.as_str())
    }
}

// What comes out is stated on `try_from` itself, over views.
impl vstd::std_specs::convert::TryFromSpecImpl<String> for ExtensionKey {
    open spec fn obeys_try_from_spec() -> bool {
        false
    }

    open spec fn try_from_spec(value: String) -> Result<Self, ExtensionKeyError> {
        arbitrary()
    }
}

impl<'a> TryFrom<&'a str> for ExtensionKey {
    type Error = ExtensionKeyError;

    fn try_from(value: &'a str) -> (r: Result<Self, Self::Error>)
        ensures
            match (r, extension_key_check(value@)) {
                (Ok(key), Ok(_)) => key@ == value@,
                (Err(e), Err(expected)) => e == expected,
                _ => false,
            },
    {
        ExtensionKey::new(value)
    }
}

// What comes out is stated on `try_from` itself, over views.
impl<'a> vstd::std_specs::convert::TryFromSpecImpl<&'a str> for ExtensionKey {
    open spec fn obeys_try_from_spec() -> bool {
        false
    }

    open spec fn try_from_spec(value: &'a str) -> Result<Self, ExtensionKeyError> {
        arbitrary()
    }
}

impl From<ExtensionKey> for String {
    fn from(value: ExtensionKey) -> (r: Self)
        ensures
            r@ == value@,
    {
        value.value
    }
}

impl vstd::std_specs::convert::FromSpecImpl<ExtensionKey> for String {
    open spec fn obeys_from_spec() -> bool {
        true
    }

    closed spec fn from_spec(value: ExtensionKey) -> String {
        value.value
    }
}

// ---------------------------------------------------------------------------
// Escapes
// ---------------------------------------------------------------------------

/// Bytes of which none needs an escape take no more inside quotes.
proof fn no_escapes(bytes: Seq<u8>)
    requires
        forall|i: int| 0 <= i < bytes.len() ==> escape_cost(#[trigger] bytes[i]) == 1,
    ensures
        escape_costs(bytes) == bytes.len(),
    decreases bytes.len(),
{
    if bytes.len() > 0 {
        assert(bytes.last() == bytes[bytes.len() - 1]);
        no_escapes(bytes.drop_last());
    }
}

proof fn plain_uri_needs_no_escape(text: Seq<char>)
    requires
        plain_uri(text),
    ensures
        string_size(text) == encode_utf8(text).len() + 2,
{
    ascii_utf8(text);
    let bytes = encode_utf8(text);
    assert forall|i: int| 0 <= i < bytes.len() implies escape_cost(#[trigger] bytes[i]) == 1 by {
        let c = text[i];
        assert(bytes[i] == c as u8);
    }
    no_escapes(bytes);
}

proof fn labels_need_no_escape(bytes: Seq<u8>, from: int, label_index: int)
    requires
        0 <= from <= bytes.len(),
        labels_failure(bytes, from, label_index) is None,
    ensures
        forall|i: int| from <= i < bytes.len() ==> escape_cost(#[trigger] bytes[i]) == 1,
    decreases bytes.len() - from,
{
    let end = from + label_length(bytes, from);
    label_length_bound(bytes, from);
    first_outside_is_first(bytes, from, ByteClass::LowerKebab);
    assert forall|i: int| from <= i < end implies escape_cost(#[trigger] bytes[i]) == 1 by {
        assert(admits(ByteClass::LowerKebab, bytes[i]));
    }
    if end < bytes.len() {
        labels_need_no_escape(bytes, end + 1, label_index + 1);
    }
}

// ---------------------------------------------------------------------------
// Debug output
// ---------------------------------------------------------------------------

/// What is shown of a kind of key.
pub open spec fn key_kind_shown(value: ExtensionKeyKind) -> Seq<char> {
    match value {
        ExtensionKeyKind::Uri => "Uri"@,
        ExtensionKeyKind::ReverseDns => "ReverseDns"@,
    }
}

impl ExtensionKeyKind {
    /// Returns what is shown of it for debugging.
    pub fn debug_text(self) -> (r: String)
        ensures
            r@ == key_kind_shown(self),
    {
        let name = match self {
            ExtensionKeyKind::Uri => "Uri",
            ExtensionKeyKind::ReverseDns => "ReverseDns",
        };
        name.to_owned()
    }
}

/// The fields that are shown of a key.
pub open spec fn extension_key_fields(text: Seq<char>, kind: ExtensionKeyKind) -> Seq<Seq<char>> {
    seq![
        entry_text("value"@, quoted_text(text)),
        entry_text("kind"@, key_kind_shown(kind)),
    ]
}

/// What is shown of a key.
pub open spec fn extension_key_shown(
    text: Seq<char>,
    kind: ExtensionKeyKind,
    alternate: bool,
) -> Seq<char> {
    struct_text("ExtensionKey"@, extension_key_fields(text, kind), false, alternate)
}

impl ExtensionKey {
    /// Returns what is shown of it for debugging.
    pub fn debug_text(&self, alternate: bool) -> (r: String)
        ensures
            r@ == extension_key_shown(self@, self.form(), alternate),
    {
        let fields = vec![
            entry_string("value", quoted_string(self.value.as_str())),
            entry_string("kind", self.kind.debug_text()),
        ];
        assert(texts(fields@) =~= extension_key_fields(self@, self.form()));
        struct_string("ExtensionKey", &fields, false, alternate)
    }
}

impl core::fmt::Debug for ExtensionKey {
    fn fmt(&self, formatter: &mut core::fmt::Formatter<'_>) -> core::fmt::Result {
        let alternate: bool = is_alternate(formatter);
        write_text(formatter, self.debug_text(alternate).as_str())
    }
}

} // verus!
