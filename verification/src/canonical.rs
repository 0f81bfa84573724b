//! Canonical JSON and the digests computed of it.

use vstd::prelude::*;
use vstd::utf8::encode_utf8;

use crate::debug::{
    entry_string, entry_text, is_alternate, number_string, struct_string, struct_text, write_text,
};
use crate::decimal::decimal_text;
use crate::digest::{sha256_hash, Digest};
use crate::json::BoundedJson;
use crate::json_value::{
    container_view, items_view, json_text, members_view, unsafe_integer, Json, JsonValue,
};
use crate::text::texts;

verus! {

/// What `serde_json_canonicalizer::pipe` makes of JSON text: its RFC 8785
/// form, where the text is JSON.
pub uninterp spec fn canonical_form(json: Seq<char>) -> Option<Seq<char>>;

/// Calls `serde_json_canonicalizer::pipe`. The result is the named function of
/// the text.
#[verifier::external_body]
fn canonicalize(json: &str) -> (r: Option<String>)
    ensures
        match (r, canonical_form(json@)) {
            (Some(canonical), Some(expected)) => canonical@ == expected,
            (None, None) => true,
            _ => false,
        },
{
    serde_json_canonicalizer::pipe(json).ok()
}

/// The canonical bytes of a JSON value.
pub open spec fn canonical_bytes(value: Json) -> Option<Seq<u8>> {
    match canonical_form(json_text(value)) {
        Some(text) => Some(encode_utf8(text)),
        None => None,
    }
}

/// The digest of a domain and the canonical bytes of a JSON value.
pub open spec fn domain_digest(domain: Seq<u8>, value: Json) -> Option<Seq<u8>> {
    match canonical_bytes(value) {
        Some(bytes) => Some(sha256_hash(domain + bytes)),
        None => None,
    }
}

/// Computes the canonical bytes of a JSON value.
pub fn to_canonical_bytes(value: &JsonValue) -> (r: Option<Vec<u8>>)
    ensures
        match (r, canonical_bytes(value@)) {
            (Some(bytes), Some(expected)) => bytes@ == expected,
            (None, None) => true,
            _ => false,
        },
{
    let text: String = value.to_string();
    match canonicalize(text.as_str()) {
        Some(canonical) => {
            let mut bytes: Vec<u8> = Vec::new();
            bytes.extend_from_slice(canonical.as_str().as_bytes());
            assert(bytes@ =~= encode_utf8(canonical@));
            Some(bytes)
        },
        None => None,
    }
}

/// Computes the digest of a domain and the canonical bytes of a JSON value.
pub fn domain_separated_digest(domain: &[u8], value: &JsonValue) -> (r: Option<Digest>)
    ensures
        match (r, domain_digest(domain@, value@)) {
            (Some(digest), Some(expected)) => digest@ == expected,
            (None, None) => true,
            _ => false,
        },
{
    match to_canonical_bytes(value) {
        Some(canonical) => {
            let mut preimage: Vec<u8> = Vec::new();
            preimage.extend_from_slice(domain);
            preimage.extend_from_slice(canonical.as_slice());
            assert(preimage@ =~= domain@ + canonical@);
            Some(Digest::sha256(preimage.as_slice()))
        },
        None => None,
    }
}

/// Rejected canonicalization.
#[derive(Clone, Copy, Debug, PartialEq, Eq, Structural)]
pub enum CanonicalJsonError {
    /// An integer is outside the range that every JSON reader keeps exactly.
    IntegerOutsideIJsonSafeRange,
    /// The canonical serializer failed.
    Serialization,
}

/// An integer inside the value is outside the safe range.
pub open spec fn has_unsafe_integer(value: Json) -> bool
    decreases value,
{
    match value {
        Json::Number(number) => unsafe_integer(number),
        Json::Array(items) => exists|i: int|
            0 <= i < items.len() && has_unsafe_integer(#[trigger] items[i]),
        Json::Object(members) => exists|i: int|
            0 <= i < members.len() && has_unsafe_integer((#[trigger] members[i]).value),
        _ => false,
    }
}

proof fn unsafe_item(items: Seq<Json>, i: int)
    requires
        0 <= i < items.len(),
        has_unsafe_integer(items[i]),
    ensures
        has_unsafe_integer(Json::Array(items)),
{
    let value = Json::Array(items);
    assert(value->Array_0[i] == items[i]);
}

fn contains_unsafe_integer(value: &JsonValue) -> (r: bool)
    ensures
        r == has_unsafe_integer(value@),
    decreases value,
{
    broadcast use container_view;

    match value {
        JsonValue::Number(number) => number.is_unsafe_integer(),
        JsonValue::Array(items) => {
            let ghost models = items_view(items@);
            let mut i: usize = 0;
            while i < items.len()
                invariant
                    i <= items@.len(),
                    models == items_view(items@),
                    value@ == Json::Array(models),
                    forall|j: int| 0 <= j < i ==> !has_unsafe_integer(#[trigger] models[j]),
                    decreases_to!(value => items),
                decreases items@.len() - i,
            {
                assert(models[i as int] == items@[i as int]@);
                if contains_unsafe_integer(&items[i]) {
                    proof {
                        unsafe_item(models, i as int);
                    }
                    return true;
                }
                i = i + 1;
            }
            false
        },
        JsonValue::Object(members) => {
            let ghost models = members_view(members@);
            let mut i: usize = 0;
            while i < members.len()
                invariant
                    i <= members@.len(),
                    models == members_view(members@),
                    value@ == Json::Object(models),
                    forall|j: int| 0 <= j < i ==> !has_unsafe_integer((#[trigger] models[j]).value),
                    decreases_to!(value => members),
                decreases members@.len() - i,
            {
                assert(models[i as int] == members@[i as int]@);
                if contains_unsafe_integer(&members[i].value) {
                    assert(has_unsafe_integer(models[i as int].value));
                    return true;
                }
                i = i + 1;
            }
            false
        },
        _ => false,
    }
}

/// The outcome of canonicalizing a value.
pub open spec fn canonical_check(value: Json) -> Result<Seq<u8>, CanonicalJsonError> {
    if has_unsafe_integer(value) {
        Err(CanonicalJsonError::IntegerOutsideIJsonSafeRange)
    } else {
        match canonical_bytes(value) {
            Some(bytes) => Ok(bytes),
            None => Err(CanonicalJsonError::Serialization),
        }
    }
}

/// The canonical bytes of a bounded JSON value and their digest.
#[derive(PartialEq, Eq)]
pub struct CanonicalJson {
    bytes: Vec<u8>,
    digest: Digest,
}

impl View for CanonicalJson {
    type V = Seq<u8>;

    /// The canonical bytes.
    closed spec fn view(&self) -> Seq<u8> {
        self.bytes@
    }
}

impl CanonicalJson {
    /// The digest is that of the bytes.
    #[verifier::type_invariant]
    pub closed spec fn well_formed(&self) -> bool {
        self.digest@ == sha256_hash(self.bytes@)
    }

    /// Canonicalizes a value whose integers are all in the safe range.
    pub fn new(value: &BoundedJson) -> (r: Result<CanonicalJson, CanonicalJsonError>)
        ensures
            match (r, canonical_check(value@)) {
                (Ok(canonical), Ok(bytes)) => canonical@ == bytes,
                (Err(e), Err(expected)) => e == expected,
                _ => false,
            },
    {
        if contains_unsafe_integer(value.as_value()) {
            return Err(CanonicalJsonError::IntegerOutsideIJsonSafeRange);
        }
        match to_canonical_bytes(value.as_value()) {
            Some(bytes) => {
                let digest = Digest::sha256(bytes.as_slice());
                Ok(CanonicalJson { bytes, digest })
            },
            None => Err(CanonicalJsonError::Serialization),
        }
    }

    /// Returns the canonical bytes.
    pub fn as_bytes(&self) -> (r: &[u8])
        ensures
            r@ == self@,
    {
        self.bytes.as_slice()
    }

    /// Returns the digest of the canonical bytes.
    pub fn digest(&self) -> (r: Digest)
        ensures
            r@ == sha256_hash(self@),
    {
        proof {
            use_type_invariant(self);
        }
        self.digest
    }
}

// ---------------------------------------------------------------------------
// Debug output
// ---------------------------------------------------------------------------

/// The fields that are shown of a canonical form.
pub open spec fn canonical_fields(bytes: nat) -> Seq<Seq<char>> {
    seq![
        entry_text("bytes"@, decimal_text(bytes)),
    ]
}

/// What is shown of a canonical form: how long it is.
pub open spec fn canonical_shown(bytes: nat, alternate: bool) -> Seq<char> {
    struct_text("CanonicalJson"@, canonical_fields(bytes), true, alternate)
}

impl CanonicalJson {
    /// Returns what is shown of it for debugging.
    pub fn debug_text(&self, alternate: bool) -> (r: String)
        ensures
            r@ == canonical_shown(self@.len(), alternate),
    {
        let fields = vec![
            entry_string("bytes", number_string(self.bytes.len())),
        ];
        assert(texts(fields@) =~= canonical_fields(self@.len()));
        struct_string("CanonicalJson", &fields, true, alternate)
    }
}

impl core::fmt::Debug for CanonicalJson {
    fn fmt(&self, formatter: &mut core::fmt::Formatter<'_>) -> core::fmt::Result {
        let alternate: bool = is_alternate(formatter);
        write_text(formatter, self.debug_text(alternate).as_str())
    }
}

} // verus!
