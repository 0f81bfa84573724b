//! Tenant and scheduler scopes, submission keys and generated identifiers.

use vstd::prelude::*;
use vstd::utf8::encode_utf8;

use crate::debug::{
    entry_string, entry_text, is_alternate, name_string, name_text, number_string, struct_string,
    struct_text, tuple_string, tuple_text, write_text,
};
use crate::decimal::decimal_text;
use crate::digest::{hex_digit, sha256_hash, Digest};
use crate::text::{
    admits, ascii_utf8, find_outside, first_outside, first_outside_is_first, same_text, texts,
    utf8_len, ByteClass,
};

verus! {

/// The bytes of `.` or `..`.
pub open spec fn is_path_like(bytes: Seq<u8>) -> bool {
    bytes == seq![46u8] || bytes == seq![46u8, 46u8]
}

fn path_like(bytes: &[u8]) -> (r: bool)
    ensures
        r == is_path_like(bytes@),
{
    proof {
        if bytes@.len() == 1 && bytes@[0] == 46 {
            assert(bytes@ =~= seq![46u8]);
        }
        if bytes@.len() == 2 && bytes@[0] == 46 && bytes@[1] == 46 {
            assert(bytes@ =~= seq![46u8, 46u8]);
        }
    }
    (bytes.len() == 1 && bytes[0] == 46) || (bytes.len() == 2 && bytes[0] == 46 && bytes[1] == 46)
}

/// Rejected tenant identifier.
#[derive(Clone, Copy, Debug, PartialEq, Eq, Structural)]
pub enum TenantIdError {
    /// The text has no bytes.
    Empty,
    /// The text is longer than the maximum.
    TooLong { max: usize, actual: usize },
    /// The text is `.` or `..`.
    PathLike,
    /// The byte at this offset is outside the grammar.
    InvalidByte { index: usize },
}

/// What the grammar of tenant identifiers says of the bytes.
pub open spec fn tenant_id_check(bytes: Seq<u8>) -> Result<(), TenantIdError> {
    let outside = first_outside(bytes, 0, ByteClass::Scope);
    if bytes.len() == 0 {
        Err(TenantIdError::Empty)
    } else if bytes.len() > 128 {
        Err(TenantIdError::TooLong { max: 128, actual: bytes.len() as usize })
    } else if is_path_like(bytes) {
        Err(TenantIdError::PathLike)
    } else if outside < bytes.len() {
        Err(TenantIdError::InvalidByte { index: outside as usize })
    } else {
        Ok(())
    }
}

/// A stable, case-sensitive tenant boundary.
#[derive(Eq, PartialOrd, Ord, Hash)]
pub struct TenantId {
    text: String,
}

impl TenantId {
    /// Maximum length in bytes.
    pub const MAX_LEN: usize = 128;

    /// The text satisfies the grammar.
    #[verifier::type_invariant]
    pub open spec fn well_formed(&self) -> bool {
        tenant_id_check(encode_utf8(self@)) is Ok
    }

    /// Validates the text.
    pub fn new(value: &str) -> (r: Result<TenantId, TenantIdError>)
        ensures
            match (r, tenant_id_check(encode_utf8(value@))) {
                (Ok(id), Ok(())) => id@ == value@,
                (Err(e), Err(expected)) => e == expected,
                _ => false,
            },
    {
        let bytes = value.as_bytes();
        if bytes.len() == 0 {
            return Err(TenantIdError::Empty);
        }
        if bytes.len() > 128 {
            return Err(TenantIdError::TooLong { max: 128, actual: bytes.len() });
        }
        if path_like(bytes) {
            return Err(TenantIdError::PathLike);
        }
        let outside: usize = find_outside(bytes, 0, ByteClass::Scope);
        if outside < bytes.len() {
            return Err(TenantIdError::InvalidByte { index: outside });
        }
        Ok(TenantId { text: value.to_owned() })
    }

    /// Returns the exact text.
    pub fn as_str(&self) -> (r: &str)
        ensures
            r@ == self@,
            self.well_formed(),
    {
        proof {
            use_type_invariant(self);
        }
        self.text.as_str()
    }

    /// Copies the exact text.
    pub fn to_string(&self) -> (r: String)
        ensures
            r@ == self@,
    {
        self.text.clone()
    }
}

impl View for TenantId {
    type V = Seq<char>;

    /// The text.
    closed spec fn view(&self) -> Seq<char> {
        self.text@
    }
}

impl Clone for TenantId {
    fn clone(&self) -> (r: Self)
        ensures
            r == *self,
    {
        proof {
            use_type_invariant(self);
        }
        TenantId { text: self.text.clone() }
    }
}

impl PartialEq for TenantId {
    fn eq(&self, other: &Self) -> (r: bool) {
        self.text.eq(&other.text)
    }
}

impl vstd::std_specs::cmp::PartialEqSpecImpl for TenantId {
    open spec fn obeys_eq_spec() -> bool {
        true
    }

    open spec fn eq_spec(&self, other: &Self) -> bool {
        self@ == other@
    }
}

impl core::str::FromStr for TenantId {
    type Err = TenantIdError;

    fn from_str(value: &str) -> (r: Result<Self, Self::Err>)
        ensures
            match (r, tenant_id_check(encode_utf8(value@))) {
                (Ok(id), Ok(())) => id@ == value@,
                (Err(e), Err(expected)) => e == expected,
                _ => false,
            },
    {
        TenantId::new(value)
    }
}

impl AsRef<str> for TenantId {
    fn as_ref(&self) -> (r: &str)
        ensures
            r@ == self@,
    {
        self.as_str()
    }
}

impl core::borrow::Borrow<str> for TenantId {
    fn borrow(&self) -> (r: &str)
        ensures
            str::view(r) == self@,
    {
        self.as_str()
    }
}

impl TryFrom<String> for TenantId {
    type Error = TenantIdError;

    fn try_from(value: String) -> (r: Result<Self, Self::Error>)
        ensures
            match (r, tenant_id_check(encode_utf8(value@))) {
                (Ok(id), Ok(())) => id@ == value@,
                (Err(e), Err(expected)) => e == expected,
                _ => false,
            },
    {
        TenantId::new(value.as_str())
    }
}

// What comes out is stated on `try_from` itself, over views.
impl vstd::std_specs::convert::TryFromSpecImpl<String> for TenantId {
    open spec fn obeys_try_from_spec() -> bool {
        false
    }

    open spec fn try_from_spec(value: String) -> Result<Self, TenantIdError> {
        arbitrary()
    }
}

impl<'a> TryFrom<&'a str> for TenantId {
    type Error = TenantIdError;

    fn try_from(value: &'a str) -> (r: Result<Self, Self::Error>)
        ensures
            match (r, tenant_id_check(encode_utf8(value@))) {
                (Ok(id), Ok(())) => id@ == value@,
                (Err(e), Err(expected)) => e == expected,
                _ => false,
            },
    {
        TenantId::new(value)
    }
}

// What comes out is stated on `try_from` itself, over views.
impl<'a> vstd::std_specs::convert::TryFromSpecImpl<&'a str> for TenantId {
    open spec fn obeys_try_from_spec() -> bool {
        false
    }

    open spec fn try_from_spec(value: &'a str) -> Result<Self, TenantIdError> {
        arbitrary()
    }
}

impl From<TenantId> for String {
    fn from(value: TenantId) -> (r: Self)
        ensures
            r@ == value@,
    {
        value.text
    }
}

impl vstd::std_specs::convert::FromSpecImpl<TenantId> for String {
    open spec fn obeys_from_spec() -> bool {
        true
    }

    closed spec fn from_spec(value: TenantId) -> String {
        value.text
    }
}

/// Rejected scheduler shard identifier.
#[derive(Clone, Copy, Debug, PartialEq, Eq, Structural)]
pub enum SchedulerShardIdError {
    /// The text has no bytes.
    Empty,
    /// The text is longer than the maximum.
    TooLong { max: usize, actual: usize },
    /// The text is `.` or `..`.
    PathLike,
    /// The byte at this offset is outside the grammar.
    InvalidByte { index: usize },
}

/// What the grammar of scheduler shard identifiers says of the bytes.
pub open spec fn scheduler_shard_id_check(bytes: Seq<u8>) -> Result<(), SchedulerShardIdError> {
    let outside = first_outside(bytes, 0, ByteClass::Scope);
    if bytes.len() == 0 {
        Err(SchedulerShardIdError::Empty)
    } else if bytes.len() > 128 {
        Err(SchedulerShardIdError::TooLong { max: 128, actual: bytes.len() as usize })
    } else if is_path_like(bytes) {
        Err(SchedulerShardIdError::PathLike)
    } else if outside < bytes.len() {
        Err(SchedulerShardIdError::InvalidByte { index: outside as usize })
    } else {
        Ok(())
    }
}

/// A stable control-plane shard of the scheduler.
#[derive(Eq, PartialOrd, Ord, Hash)]
pub struct SchedulerShardId {
    text: String,
}

impl SchedulerShardId {
    /// Maximum length in bytes.
    pub const MAX_LEN: usize = 128;

    /// The text satisfies the grammar.
    #[verifier::type_invariant]
    pub open spec fn well_formed(&self) -> bool {
        scheduler_shard_id_check(encode_utf8(self@)) is Ok
    }

    /// Validates the text.
    pub fn new(value: &str) -> (r: Result<SchedulerShardId, SchedulerShardIdError>)
        ensures
            match (r, scheduler_shard_id_check(encode_utf8(value@))) {
                (Ok(id), Ok(())) => id@ == value@,
                (Err(e), Err(expected)) => e == expected,
                _ => false,
            },
    {
        let bytes = value.as_bytes();
        if bytes.len() == 0 {
            return Err(SchedulerShardIdError::Empty);
        }
        if bytes.len() > 128 {
            return Err(SchedulerShardIdError::TooLong { max: 128, actual: bytes.len() });
        }
        if path_like(bytes) {
            return Err(SchedulerShardIdError::PathLike);
        }
        let outside: usize = find_outside(bytes, 0, ByteClass::Scope);
        if outside < bytes.len() {
            return Err(SchedulerShardIdError::InvalidByte { index: outside });
        }
        Ok(SchedulerShardId { text: value.to_owned() })
    }

    /// Returns the exact text.
    pub fn as_str(&self) -> (r: &str)
        ensures
            r@ == self@,
            self.well_formed(),
    {
        proof {
            use_type_invariant(self);
        }
        self.text.as_str()
    }

    /// Copies the exact text.
    pub fn to_string(&self) -> (r: String)
        ensures
            r@ == self@,
    {
        self.text.clone()
    }
}

impl View for SchedulerShardId {
    type V = Seq<char>;

    /// The text.
    closed spec fn view(&self) -> Seq<char> {
        self.text@
    }
}

impl Clone for SchedulerShardId {
    fn clone(&self) -> (r: Self)
        ensures
            r == *self,
    {
        proof {
            use_type_invariant(self);
        }
        SchedulerShardId { text: self.text.clone() }
    }
}

impl PartialEq for SchedulerShardId {
    fn eq(&self, other: &Self) -> (r: bool) {
        self.text.eq(&other.text)
    }
}

impl vstd::std_specs::cmp::PartialEqSpecImpl for SchedulerShardId {
    open spec fn obeys_eq_spec() -> bool {
        true
    }

    open spec fn eq_spec(&self, other: &Self) -> bool {
        self@ == other@
    }
}

impl core::str::FromStr for SchedulerShardId {
    type Err = SchedulerShardIdError;

    fn from_str(value: &str) -> (r: Result<Self, Self::Err>)
        ensures
            match (r, scheduler_shard_id_check(encode_utf8(value@))) {
                (Ok(id), Ok(())) => id@ == value@,
                (Err(e), Err(expected)) => e == expected,
                _ => false,
            },
    {
        SchedulerShardId::new(value)
    }
}

impl AsRef<str> for SchedulerShardId {
    fn as_ref(&self) -> (r: &str)
        ensures
            r@ == self@,
    {
        self.as_str()
    }
}

impl core::borrow::Borrow<str> for SchedulerShardId {
    fn borrow(&self) -> (r: &str)
        ensures
            str::view(r) == self@,
    {
        self.as_str()
    }
}

impl TryFrom<String> for SchedulerShardId {
    type Error = SchedulerShardIdError;

    fn try_from(value: String) -> (r: Result<Self, Self::Error>)
        ensures
            match (r, scheduler_shard_id_check(encode_utf8(value@))) {
                (Ok(id), Ok(())) => id@ == value@,
                (Err(e), Err(expected)) => e == expected,
                _ => false,
            },
    {
        SchedulerShardId::new(value.as_str())
    }
}

// What comes out is stated on `try_from` itself, over views.
impl vstd::std_specs::convert::TryFromSpecImpl<String> for SchedulerShardId {
    open spec fn obeys_try_from_spec() -> bool {
        false
    }

    open spec fn try_from_spec(value: String) -> Result<Self, SchedulerShardIdError> {
        arbitrary()
    }
}

impl<'a> TryFrom<&'a str> for SchedulerShardId {
    type Error = SchedulerShardIdError;

    fn try_from(value: &'a str) -> (r: Result<Self, Self::Error>)
        ensures
            match (r, scheduler_shard_id_check(encode_utf8(value@))) {
                (Ok(id), Ok(())) => id@ == value@,
                (Err(e), Err(expected)) => e == expected,
                _ => false,
            },
    {
        SchedulerShardId::new(value)
    }
}

// What comes out is stated on `try_from` itself, over views.
impl<'a> vstd::std_specs::convert::TryFromSpecImpl<&'a str> for SchedulerShardId {
    open spec fn obeys_try_from_spec() -> bool {
        false
    }

    open spec fn try_from_spec(value: &'a str) -> Result<Self, SchedulerShardIdError> {
        arbitrary()
    }
}

impl From<SchedulerShardId> for String {
    fn from(value: SchedulerShardId) -> (r: Self)
        ensures
            r@ == value@,
    {
        value.text
    }
}

impl vstd::std_specs::convert::FromSpecImpl<SchedulerShardId> for String {
    open spec fn obeys_from_spec() -> bool {
        true
    }

    closed spec fn from_spec(value: SchedulerShardId) -> String {
        value.text
    }
}

/// Rejected submission key.
#[derive(Clone, Copy, Debug, PartialEq, Eq, Structural)]
pub enum AgentSubmissionKeyError {
    /// The key is shorter than the minimum.
    TooShort { minimum: usize, actual: usize },
    /// The key is longer than the maximum.
    TooLong { maximum: usize, actual: usize },
    /// The byte at this offset is outside the grammar.
    InvalidByte { index: usize },
}

/// What the grammar of submission keys says of the bytes.
pub open spec fn submission_key_check(bytes: Seq<u8>) -> Result<(), AgentSubmissionKeyError> {
    let outside = first_outside(bytes, 0, ByteClass::Unreserved);
    if bytes.len() < 16 {
        Err(AgentSubmissionKeyError::TooShort { minimum: 16, actual: bytes.len() as usize })
    } else if bytes.len() > 128 {
        Err(AgentSubmissionKeyError::TooLong { maximum: 128, actual: bytes.len() as usize })
    } else if outside < bytes.len() {
        Err(AgentSubmissionKeyError::InvalidByte { index: outside as usize })
    } else {
        Ok(())
    }
}

/// What a tenant-scoped submission digest is computed of: the domain, the
/// tenant, a zero byte and the key.
pub open spec fn submission_preimage(tenant: Seq<char>, key: Seq<char>) -> Seq<u8> {
    submission_domain() + encode_utf8(tenant) + seq![0u8] + encode_utf8(key)
}

/// The bytes of `stateknot.agent-submission-key.v1` and a zero byte.
pub open spec fn submission_domain() -> Seq<u8> {
    encode_utf8("stateknot.agent-submission-key.v1"@).push(0u8)
}

/// A caller-chosen idempotency key of a submission, not shown by `Debug`.
#[derive(Eq, PartialOrd, Ord, Hash)]
pub struct AgentSubmissionKey {
    text: String,
}

impl AgentSubmissionKey {
    /// Maximum length in bytes.
    pub const MAX_LEN: usize = 128;

    /// Minimum length in bytes.
    pub const MIN_LEN: usize = 16;

    /// The text satisfies the grammar.
    #[verifier::type_invariant]
    pub open spec fn well_formed(&self) -> bool {
        submission_key_check(encode_utf8(self@)) is Ok
    }

    /// Validates the text.
    pub fn new(value: &str) -> (r: Result<AgentSubmissionKey, AgentSubmissionKeyError>)
        ensures
            match (r, submission_key_check(encode_utf8(value@))) {
                (Ok(id), Ok(())) => id@ == value@,
                (Err(e), Err(expected)) => e == expected,
                _ => false,
            },
    {
        let bytes = value.as_bytes();
        if bytes.len() < 16 {
            return Err(AgentSubmissionKeyError::TooShort { minimum: 16, actual: bytes.len() });
        }
        if bytes.len() > 128 {
            return Err(AgentSubmissionKeyError::TooLong { maximum: 128, actual: bytes.len() });
        }
        let outside: usize = find_outside(bytes, 0, ByteClass::Unreserved);
        if outside < bytes.len() {
            return Err(AgentSubmissionKeyError::InvalidByte { index: outside });
        }
        Ok(AgentSubmissionKey { text: value.to_owned() })
    }

    /// Returns the exact text.
    pub fn as_str(&self) -> (r: &str)
        ensures
            r@ == self@,
            self.well_formed(),
    {
        proof {
            use_type_invariant(self);
        }
        self.text.as_str()
    }

    /// Copies the exact text.
    pub fn to_string(&self) -> (r: String)
        ensures
            r@ == self@,
    {
        self.text.clone()
    }
}

impl View for AgentSubmissionKey {
    type V = Seq<char>;

    /// The text.
    closed spec fn view(&self) -> Seq<char> {
        self.text@
    }
}

impl Clone for AgentSubmissionKey {
    fn clone(&self) -> (r: Self)
        ensures
            r == *self,
    {
        proof {
            use_type_invariant(self);
        }
        AgentSubmissionKey { text: self.text.clone() }
    }
}

impl PartialEq for AgentSubmissionKey {
    fn eq(&self, other: &Self) -> (r: bool) {
        self.text.eq(&other.text)
    }
}

impl vstd::std_specs::cmp::PartialEqSpecImpl for AgentSubmissionKey {
    open spec fn obeys_eq_spec() -> bool {
        true
    }

    open spec fn eq_spec(&self, other: &Self) -> bool {
        self@ == other@
    }
}

impl core::str::FromStr for AgentSubmissionKey {
    type Err = AgentSubmissionKeyError;

    fn from_str(value: &str) -> (r: Result<Self, Self::Err>)
        ensures
            match (r, submission_key_check(encode_utf8(value@))) {
                (Ok(id), Ok(())) => id@ == value@,
                (Err(e), Err(expected)) => e == expected,
                _ => false,
            },
    {
        AgentSubmissionKey::new(value)
    }
}

impl TryFrom<String> for AgentSubmissionKey {
    type Error = AgentSubmissionKeyError;

    fn try_from(value: String) -> (r: Result<Self, Self::Error>)
        ensures
            match (r, submission_key_check(encode_utf8(value@))) {
                (Ok(id), Ok(())) => id@ == value@,
                (Err(e), Err(expected)) => e == expected,
                _ => false,
            },
    {
        AgentSubmissionKey::new(value.as_str())
    }
}

// What comes out is stated on `try_from` itself, over views.
impl vstd::std_specs::convert::TryFromSpecImpl<String> for AgentSubmissionKey {
    open spec fn obeys_try_from_spec() -> bool {
        false
    }

    open spec fn try_from_spec(value: String) -> Result<Self, AgentSubmissionKeyError> {
        arbitrary()
    }
}

impl<'a> TryFrom<&'a str> for AgentSubmissionKey {
    type Error = AgentSubmissionKeyError;

    fn try_from(value: &'a str) -> (r: Result<Self, Self::Error>)
        ensures
            match (r, submission_key_check(encode_utf8(value@))) {
                (Ok(id), Ok(())) => id@ == value@,
                (Err(e), Err(expected)) => e == expected,
                _ => false,
            },
    {
        AgentSubmissionKey::new(value)
    }
}

// What comes out is stated on `try_from` itself, over views.
impl<'a> vstd::std_specs::convert::TryFromSpecImpl<&'a str> for AgentSubmissionKey {
    open spec fn obeys_try_from_spec() -> bool {
        false
    }

    open spec fn try_from_spec(value: &'a str) -> Result<Self, AgentSubmissionKeyError> {
        arbitrary()
    }
}

impl AgentSubmissionKey {
    /// Makes a key of two fresh time-ordered identifiers, joined by `.`.
    pub fn generate() -> (r: AgentSubmissionKey)
        ensures
            exists|a: u128, b: u128|
                #![trigger uuid_text(a), uuid_text(b)]
                generated_bits(a) is Ok && generated_bits(b) is Ok && r@ == uuid_text(a).push('.')
                    + uuid_text(b),
    {
        let a: u128 = fresh_uuid_v7();
        let b: u128 = fresh_uuid_v7();
        let mut text: String = uuid_string(a);
        text.push('.');
        let tail: String = uuid_string(b);
        text.append(tail.as_str());
        proof {
            let t = uuid_text(a).push('.') + uuid_text(b);
            assert(text@ == t);
            uuid_text_is_ascii(a);
            uuid_text_is_ascii(b);
            assert forall|i: int| 0 <= i < t.len() implies '\0' <= #[trigger] t[i] <= '\u{7f}' && admits(
                ByteClass::Unreserved,
                t[i] as u8,
            ) by {
                if i < 36 {
                    assert(t[i] == uuid_text(a)[i]);
                } else if i > 36 {
                    assert(t[i] == uuid_text(b)[i - 37]);
                }
            }
            ascii_utf8(t);
            first_outside_is_first(encode_utf8(t), 0, ByteClass::Unreserved);
            let o = first_outside(encode_utf8(t), 0, ByteClass::Unreserved);
            if o < encode_utf8(t).len() {
                assert(encode_utf8(t)[o] == t[o] as u8);
            }
        }
        AgentSubmissionKey { text }
    }

    /// Computes the digest under which the tenant's submission is stored.
    pub fn digest_for(&self, tenant_id: &TenantId) -> (r: Digest)
        ensures
            r@ == sha256_hash(submission_preimage(tenant_id@, self@)),
    {
        let mut preimage: Vec<u8> = Vec::new();
        preimage.extend_from_slice("stateknot.agent-submission-key.v1".as_bytes());
        preimage.push(0);
        preimage.extend_from_slice(tenant_id.as_str().as_bytes());
        preimage.push(0);
        preimage.extend_from_slice(self.text.as_str().as_bytes());
        assert(preimage@ =~= submission_preimage(tenant_id@, self@));
        Digest::sha256(preimage.as_slice())
    }
}

/// The digests of two pairs of tenant and key are computed of the same bytes
/// only if the pairs are the same.
pub proof fn submission_preimages_are_distinct(
    tenant: Seq<char>,
    key: Seq<char>,
    other_tenant: Seq<char>,
    other_key: Seq<char>,
)
    requires
        tenant_id_check(encode_utf8(tenant)) is Ok,
        tenant_id_check(encode_utf8(other_tenant)) is Ok,
        submission_preimage(tenant, key) == submission_preimage(other_tenant, other_key),
    ensures
        tenant == other_tenant,
        key == other_key,
{
    let domain = submission_domain();
    let n = domain.len() as int;
    let (t, u) = (encode_utf8(tenant), encode_utf8(other_tenant));
    let (k, l) = (encode_utf8(key), encode_utf8(other_key));
    let (a, b) = (submission_preimage(tenant, key), submission_preimage(other_tenant, other_key));
    first_outside_is_first(t, 0, ByteClass::Scope);
    first_outside_is_first(u, 0, ByteClass::Scope);
    assert forall|i: int| 0 <= i < t.len() implies a[n + i] == #[trigger] t[i] by {}
    assert forall|i: int| 0 <= i < u.len() implies b[n + i] == #[trigger] u[i] by {}
    assert(a[n + t.len()] == 0 && b[n + u.len()] == 0);
    if t.len() < u.len() {
        assert(crate::text::admits(ByteClass::Scope, u[t.len() as int]));
    }
    if u.len() < t.len() {
        assert(crate::text::admits(ByteClass::Scope, t[u.len() as int]));
    }
    assert(t =~= u) by {
        assert forall|i: int| 0 <= i < t.len() implies t[i] == u[i] by {
            assert(a[n + i] == t[i]);
            assert(b[n + i] == u[i]);
        }
    }
    assert(a.len() == b.len());
    assert(k =~= l) by {
        assert forall|i: int| 0 <= i < k.len() implies k[i] == l[i] by {
            assert(a[n + t.len() + 1 + i] == k[i]);
            assert(b[n + t.len() + 1 + i] == l[i]);
        }
    }
    crate::text::utf8_injective(tenant, other_tenant);
    crate::text::utf8_injective(key, other_key);
}

/// Rejected generated identifier.
#[derive(Clone, Copy, Debug, PartialEq, Eq, Structural)]
pub enum GeneratedIdError {
    /// The text is no UUID in any form.
    InvalidUuid,
    /// The text is a UUID in another form than lowercase with hyphens.
    NonCanonical,
    /// The UUID is not of version 7.
    WrongVersion,
    /// The UUID is not of the RFC 9562 variant.
    WrongVariant,
}

/// The hexadecimal digit of the number at a place, counted from the last.
pub open spec fn nibble(bits: u128, place: nat) -> int
    decreases place,
{
    if place == 0 {
        bits as int % 16
    } else {
        nibble((bits / 16) as u128, (place - 1) as nat)
    }
}

/// The place of the hexadecimal digit at a position of hyphenated text.
pub open spec fn digit_place(position: int) -> nat {
    if position < 8 {
        (31 - position) as nat
    } else if position < 13 {
        (32 - position) as nat
    } else if position < 18 {
        (33 - position) as nat
    } else if position < 23 {
        (34 - position) as nat
    } else {
        (35 - position) as nat
    }
}

/// The lowercase text of a UUID, hyphens after 8, 4, 4 and 4 digits.
pub open spec fn uuid_text(bits: u128) -> Seq<char> {
    Seq::new(
        36,
        |i: int|
            if i == 8 || i == 13 || i == 18 || i == 23 {
                '-'
            } else {
                hex_digit(nibble(bits, digit_place(i)))
            },
    )
}

/// What the version and variant fields say: version 7 of the RFC variant.
pub open spec fn generated_bits(bits: u128) -> Result<u128, GeneratedIdError> {
    if bits as int / 0x4000_0000_0000_0000 % 4 != 2 {
        Err(GeneratedIdError::WrongVariant)
    } else if bits as int / 0x1000_0000_0000_0000_0000 % 16 != 7 {
        Err(GeneratedIdError::WrongVersion)
    } else {
        Ok(bits)
    }
}

/// What a text says that the `uuid` crate read as `parsed`.
pub open spec fn generated_id(parsed: Option<u128>, text: Seq<char>) -> Result<
    u128,
    GeneratedIdError,
> {
    match parsed {
        None => Err(GeneratedIdError::InvalidUuid),
        Some(bits) => if uuid_text(bits) != text {
            Err(GeneratedIdError::NonCanonical)
        } else {
            generated_bits(bits)
        },
    }
}

/// What `uuid::Uuid::parse_str` reads from the text, as a number.
pub uninterp spec fn uuid_parsed(text: Seq<char>) -> Option<u128>;

/// Calls `uuid::Uuid::parse_str`. Its result is the named function of the
/// text; the lowercase hyphenated text of a UUID reads as that UUID.
#[verifier::external_body]
fn parse_uuid(text: &str) -> (r: Option<u128>)
    ensures
        r == uuid_parsed(text@),
        forall|bits: u128| text@ == #[trigger] uuid_text(bits) ==> r == Some(bits),
{
    match uuid::Uuid::parse_str(text) {
        Ok(value) => Some(value.as_u128()),
        Err(_) => None,
    }
}

/// Calls `uuid::Uuid::now_v7`. The result rests on the clock and on chance; it
/// is of version 7 and of the RFC variant.
#[verifier::external_body]
fn fresh_uuid_v7() -> (r: u128)
    ensures
        generated_bits(r) is Ok,
{
    uuid::Uuid::now_v7().as_u128()
}

proof fn nibble_bound(bits: u128, place: nat)
    ensures
        0 <= nibble(bits, place) < 16,
    decreases place,
{
    if place > 0 {
        nibble_bound((bits / 16) as u128, (place - 1) as nat);
    }
}

proof fn uuid_text_is_ascii(bits: u128)
    ensures
        vstd::utf8::is_ascii_chars(uuid_text(bits)),
        forall|i: int|
            0 <= i < 36 ==> admits(ByteClass::Unreserved, #[trigger] uuid_text(bits)[i] as u8),
{
    assert forall|i: int| 0 <= i < 36 implies '\0' <= #[trigger] uuid_text(bits)[i] <= '\u{7f}'
        && admits(ByteClass::Unreserved, uuid_text(bits)[i] as u8) by {
        nibble_bound(bits, digit_place(i));
    }
}

fn nibbles(bits: u128) -> (r: [u8; 32])
    ensures
        forall|k: int| 0 <= k < 32 ==> #[trigger] r@[k] == nibble(bits, k as nat),
{
    let mut out: [u8; 32] = [0u8; 32];
    let mut rest: u128 = bits;
    let mut k: usize = 0;
    while k < 32
        invariant
            k <= 32,
            forall|j: int| 0 <= j < k ==> #[trigger] out@[j] == nibble(bits, j as nat),
            forall|j: nat| #[trigger] nibble(rest, j) == nibble(bits, j + k as nat),
        decreases 32 - k,
    {
        assert(nibble(rest, 0) == nibble(bits, k as nat));
        let digit: u8 = (rest % 16) as u8;
        out[k] = digit;
        let ghost before = rest;
        rest = rest / 16;
        proof {
            assert forall|j: nat| #[trigger] nibble(rest, j) == nibble(bits, j + (k + 1) as nat) by {
                assert(nibble(before, j + 1) == nibble(rest, j));
                assert(nibble(before, j + 1) == nibble(bits, j + 1 + k as nat));
            }
        }
        k = k + 1;
    }
    out
}

/// Writes the lowercase hyphenated text of a UUID.
pub fn uuid_string(bits: u128) -> (r: String)
    ensures
        r@ == uuid_text(bits),
{
    let digits = nibbles(bits);
    let mut text: String = String::new();
    let mut i: usize = 0;
    while i < 36
        invariant
            i <= 36,
            forall|k: int| 0 <= k < 32 ==> #[trigger] digits@[k] == nibble(bits, k as nat),
            text@ =~= uuid_text(bits).take(i as int),
        decreases 36 - i,
    {
        let ghost whole = uuid_text(bits);
        if i == 8 || i == 13 || i == 18 || i == 23 {
            text.push('-');
        } else {
            let place: usize = if i < 8 {
                31 - i
            } else if i < 13 {
                32 - i
            } else if i < 18 {
                33 - i
            } else if i < 23 {
                34 - i
            } else {
                35 - i
            };
            proof {
                assert(digits@[place as int] == nibble(bits, place as nat));
                nibble_bound(bits, place as nat);
            }
            let digit: u8 = digits[place];
            text.push(if digit < 10 { (48 + digit) as char } else { (87 + digit) as char });
        }
        assert(whole.take(i + 1) =~= whole.take(i as int).push(whole[i as int]));
        i = i + 1;
    }
    assert(uuid_text(bits).take(36) =~= uuid_text(bits));
    text
}

/// Checks the version and variant fields of a UUID.
pub fn check_generated_bits(bits: u128) -> (r: Result<u128, GeneratedIdError>)
    ensures
        r == generated_bits(bits),
{
    if bits / 0x4000_0000_0000_0000 % 4 != 2 {
        return Err(GeneratedIdError::WrongVariant);
    }
    if bits / 0x1000_0000_0000_0000_0000 % 16 != 7 {
        return Err(GeneratedIdError::WrongVersion);
    }
    Ok(bits)
}

/// Checks what was read from the text of a generated identifier.
pub fn check_generated_id(parsed: Option<u128>, text: &str) -> (r: Result<u128, GeneratedIdError>)
    ensures
        r == generated_id(parsed, text@),
{
    match parsed {
        None => Err(GeneratedIdError::InvalidUuid),
        Some(bits) => {
            let canonical: String = uuid_string(bits);
            if !same_text(canonical.as_str(), text) {
                return Err(GeneratedIdError::NonCanonical);
            }
            check_generated_bits(bits)
        },
    }
}

/// Parses the canonical text of a generated identifier.
fn parse_generated_id(text: &str) -> (r: Result<u128, GeneratedIdError>)
    ensures
        r == generated_id(uuid_parsed(text@), text@),
        forall|bits: u128|
            text@ == #[trigger] uuid_text(bits) ==> r == generated_bits(bits),
{
    check_generated_id(parse_uuid(text), text)
}

/// Two UUIDs with the same text are the same.
pub proof fn uuid_text_injective(a: u128, b: u128)
    requires
        uuid_text(a) == uuid_text(b),
    ensures
        a == b,
{
    assert forall|k: nat| k < 32 implies nibble(a, k) == #[trigger] nibble(b, k) by {
        let i: int = if k >= 24 {
            31 - k
        } else if k >= 20 {
            32 - k
        } else if k >= 16 {
            33 - k
        } else if k >= 12 {
            34 - k
        } else {
            35 - k
        };
        assert(digit_place(i) == k);
        nibble_bound(a, k);
        nibble_bound(b, k);
        assert(uuid_text(a)[i] == hex_digit(nibble(a, k)));
        assert(uuid_text(b)[i] == hex_digit(nibble(b, k)));
    }
    nibbles_determine(a, b, 32);
}

proof fn nibbles_determine(a: u128, b: u128, places: nat)
    requires
        forall|k: nat| k < places ==> nibble(a, k) == #[trigger] nibble(b, k),
    ensures
        places >= 32 ==> a == b,
        places < 32 ==> a as int % hex_power(places) == b as int % hex_power(places),
    decreases places,
{
    if places > 0 {
        assert(nibble(a, 0) == nibble(b, 0));
        let (x, y) = ((a / 16) as u128, (b / 16) as u128);
        nibbles_remainder(a, places);
        nibbles_remainder(b, places);
        nibble_sums_agree(a, b, places);
        if places >= 32 {
            nibbles_remainder(a, 32);
            nibbles_remainder(b, 32);
            nibble_sums_agree(a, b, 32);
            hex_power_32();
            assert(a as int % hex_power(32) == a as int);
            assert(b as int % hex_power(32) == b as int);
        }
    }
}

spec fn hex_power(n: nat) -> int
    decreases n,
{
    if n == 0 {
        1
    } else {
        16 * hex_power((n - 1) as nat)
    }
}

spec fn nibble_sum(bits: u128, places: nat) -> int
    decreases places,
{
    if places == 0 {
        0
    } else {
        nibble(bits, 0) + 16 * nibble_sum((bits / 16) as u128, (places - 1) as nat)
    }
}

proof fn nibble_sums_agree(a: u128, b: u128, places: nat)
    requires
        forall|k: nat| k < places ==> nibble(a, k) == #[trigger] nibble(b, k),
    ensures
        nibble_sum(a, places) == nibble_sum(b, places),
    decreases places,
{
    if places > 0 {
        let (x, y) = ((a / 16) as u128, (b / 16) as u128);
        assert(nibble(a, 0) == nibble(b, 0));
        assert forall|k: nat| k < places - 1 implies nibble(x, k) == #[trigger] nibble(y, k) by {
            assert(nibble(a, k + 1) == nibble(x, k));
            assert(nibble(b, k + 1) == nibble(y, k));
        }
        nibble_sums_agree(x, y, (places - 1) as nat);
    }
}

proof fn nibbles_remainder(bits: u128, places: nat)
    ensures
        hex_power(places) >= 1,
        nibble_sum(bits, places) == bits as int % hex_power(places),
    decreases places,
{
    if places > 0 {
        let rest = (bits / 16) as u128;
        nibbles_remainder(rest, (places - 1) as nat);
        let p = hex_power((places - 1) as nat);
        let (n, q) = (bits as int, rest as int);
        assert(n == 16 * q + n % 16);
        assert(n % (16 * p) == n % 16 + 16 * (q % p)) by (nonlinear_arith)
            requires
                n >= 0,
                p >= 1,
                q == n / 16,
        {
            let k = q / p;
            assert(q == k * p + q % p);
            assert(n == 16 * q + n % 16);
            assert(n == k * (16 * p) + (16 * (q % p) + n % 16));
            assert(0 <= 16 * (q % p) + n % 16 < 16 * p);
            vstd::arithmetic::div_mod::lemma_fundamental_div_mod_converse(
                n,
                16 * p,
                k,
                16 * (q % p) + n % 16,
            );
        }
    }
}

proof fn hex_power_32()
    ensures
        hex_power(32) == 0x1_0000_0000_0000_0000_0000_0000_0000_0000,
{
    reveal_with_fuel(hex_power, 33);
}

/// The generated identifier of a durable run.
#[derive(Clone, Copy, PartialEq, Eq, PartialOrd, Ord, Hash, Structural)]
pub struct RunId {
    bits: u128,
}

impl RunId {
    /// The UUID as a number.
    pub closed spec fn view(&self) -> u128 {
        self.bits
    }

    /// The UUID is of version 7 and of the RFC variant.
    #[verifier::type_invariant]
    pub open spec fn well_formed(&self) -> bool {
        generated_bits(self@) is Ok
    }

    /// An identifier is its number.
    pub broadcast proof fn view_determines(a: RunId, b: RunId)
        ensures
            #![trigger a.view(), b.view()]
            a.view() == b.view() ==> a == b,
    {
    }

    /// Makes a fresh time-ordered identifier.
    pub fn generate() -> (r: RunId)
        ensures
            r.well_formed(),
    {
        RunId { bits: fresh_uuid_v7() }
    }

    /// Validates a UUID, given as a number.
    pub fn from_uuid(bits: u128) -> (r: Result<RunId, GeneratedIdError>)
        ensures
            match (r, generated_bits(bits)) {
                (Ok(id), Ok(_)) => id@ == bits,
                (Err(e), Err(expected)) => e == expected,
                _ => false,
            },
    {
        match check_generated_bits(bits) {
            Ok(bits) => Ok(RunId { bits }),
            Err(e) => Err(e),
        }
    }

    /// Returns the UUID as a number.
    pub fn as_uuid(&self) -> (r: u128)
        ensures
            r == self@,
            self.well_formed(),
    {
        proof {
            use_type_invariant(self);
        }
        self.bits
    }

    /// Returns the UUID as a number.
    pub fn into_uuid(self) -> (r: u128)
        ensures
            r == self@,
            self.well_formed(),
    {
        proof {
            use_type_invariant(&self);
        }
        self.bits
    }

    /// Parses the canonical text. The text that `to_string` writes of an
    /// identifier reads as that identifier.
    pub fn parse(value: &str) -> (r: Result<RunId, GeneratedIdError>)
        ensures
            match (r, generated_id(uuid_parsed(value@), value@)) {
                (Ok(id), Ok(bits)) => id@ == bits && value@ == uuid_text(bits),
                (Err(e), Err(expected)) => e == expected,
                _ => false,
            },
            forall|id: RunId|
                value@ == uuid_text(#[trigger] id.view()) && id.well_formed() ==> r == Ok::<
                    RunId,
                    GeneratedIdError,
                >(id),
    {
        match parse_generated_id(value) {
            Ok(bits) => Ok(RunId { bits }),
            Err(e) => Err(e),
        }
    }

    /// Writes the canonical text.
    pub fn to_string(&self) -> (r: String)
        ensures
            r@ == uuid_text(self@),
            self.well_formed(),
    {
        proof {
            use_type_invariant(self);
        }
        uuid_string(self.bits)
    }
}

impl core::str::FromStr for RunId {
    type Err = GeneratedIdError;

    fn from_str(value: &str) -> (r: Result<Self, Self::Err>)
        ensures
            match (r, generated_id(uuid_parsed(value@), value@)) {
                (Ok(id), Ok(bits)) => id@ == bits && value@ == uuid_text(bits),
                (Err(e), Err(expected)) => e == expected,
                _ => false,
            },
            forall|id: RunId|
                value@ == uuid_text(#[trigger] id.view()) && id.well_formed() ==> r == Ok::<
                    RunId,
                    GeneratedIdError,
                >(id),
    {
        RunId::parse(value)
    }
}

/// The generated identifier of a conversation thread.
#[derive(Clone, Copy, PartialEq, Eq, PartialOrd, Ord, Hash, Structural)]
pub struct ThreadId {
    bits: u128,
}

impl ThreadId {
    /// The UUID as a number.
    pub closed spec fn view(&self) -> u128 {
        self.bits
    }

    /// The UUID is of version 7 and of the RFC variant.
    #[verifier::type_invariant]
    pub open spec fn well_formed(&self) -> bool {
        generated_bits(self@) is Ok
    }

    /// An identifier is its number.
    pub broadcast proof fn view_determines(a: ThreadId, b: ThreadId)
        ensures
            #![trigger a.view(), b.view()]
            a.view() == b.view() ==> a == b,
    {
    }

    /// Makes a fresh time-ordered identifier.
    pub fn generate() -> (r: ThreadId)
        ensures
            r.well_formed(),
    {
        ThreadId { bits: fresh_uuid_v7() }
    }

    /// Validates a UUID, given as a number.
    pub fn from_uuid(bits: u128) -> (r: Result<ThreadId, GeneratedIdError>)
        ensures
            match (r, generated_bits(bits)) {
                (Ok(id), Ok(_)) => id@ == bits,
                (Err(e), Err(expected)) => e == expected,
                _ => false,
            },
    {
        match check_generated_bits(bits) {
            Ok(bits) => Ok(ThreadId { bits }),
            Err(e) => Err(e),
        }
    }

    /// Returns the UUID as a number.
    pub fn as_uuid(&self) -> (r: u128)
        ensures
            r == self@,
            self.well_formed(),
    {
        proof {
            use_type_invariant(self);
        }
        self.bits
    }

    /// Returns the UUID as a number.
    pub fn into_uuid(self) -> (r: u128)
        ensures
            r == self@,
            self.well_formed(),
    {
        proof {
            use_type_invariant(&self);
        }
        self.bits
    }

    /// Parses the canonical text. The text that `to_string` writes of an
    /// identifier reads as that identifier.
    pub fn parse(value: &str) -> (r: Result<ThreadId, GeneratedIdError>)
        ensures
            match (r, generated_id(uuid_parsed(value@), value@)) {
                (Ok(id), Ok(bits)) => id@ == bits && value@ == uuid_text(bits),
                (Err(e), Err(expected)) => e == expected,
                _ => false,
            },
            forall|id: ThreadId|
                value@ == uuid_text(#[trigger] id.view()) && id.well_formed() ==> r == Ok::<
                    ThreadId,
                    GeneratedIdError,
                >(id),
    {
        match parse_generated_id(value) {
            Ok(bits) => Ok(ThreadId { bits }),
            Err(e) => Err(e),
        }
    }

    /// Writes the canonical text.
    pub fn to_string(&self) -> (r: String)
        ensures
            r@ == uuid_text(self@),
            self.well_formed(),
    {
        proof {
            use_type_invariant(self);
        }
        uuid_string(self.bits)
    }
}

impl core::str::FromStr for ThreadId {
    type Err = GeneratedIdError;

    fn from_str(value: &str) -> (r: Result<Self, Self::Err>)
        ensures
            match (r, generated_id(uuid_parsed(value@), value@)) {
                (Ok(id), Ok(bits)) => id@ == bits && value@ == uuid_text(bits),
                (Err(e), Err(expected)) => e == expected,
                _ => false,
            },
            forall|id: ThreadId|
                value@ == uuid_text(#[trigger] id.view()) && id.well_formed() ==> r == Ok::<
                    ThreadId,
                    GeneratedIdError,
                >(id),
    {
        ThreadId::parse(value)
    }
}

/// The generated identifier of a durable event.
#[derive(Clone, Copy, PartialEq, Eq, PartialOrd, Ord, Hash, Structural)]
pub struct EventId {
    bits: u128,
}

impl EventId {
    /// The UUID as a number.
    pub closed spec fn view(&self) -> u128 {
        self.bits
    }

    /// The UUID is of version 7 and of the RFC variant.
    #[verifier::type_invariant]
    pub open spec fn well_formed(&self) -> bool {
        generated_bits(self@) is Ok
    }

    /// An identifier is its number.
    pub broadcast proof fn view_determines(a: EventId, b: EventId)
        ensures
            #![trigger a.view(), b.view()]
            a.view() == b.view() ==> a == b,
    {
    }

    /// Makes a fresh time-ordered identifier.
    pub fn generate() -> (r: EventId)
        ensures
            r.well_formed(),
    {
        EventId { bits: fresh_uuid_v7() }
    }

    /// Validates a UUID, given as a number.
    pub fn from_uuid(bits: u128) -> (r: Result<EventId, GeneratedIdError>)
        ensures
            match (r, generated_bits(bits)) {
                (Ok(id), Ok(_)) => id@ == bits,
                (Err(e), Err(expected)) => e == expected,
                _ => false,
            },
    {
        match check_generated_bits(bits) {
            Ok(bits) => Ok(EventId { bits }),
            Err(e) => Err(e),
        }
    }

    /// Returns the UUID as a number.
    pub fn as_uuid(&self) -> (r: u128)
        ensures
            r == self@,
            self.well_formed(),
    {
        proof {
            use_type_invariant(self);
        }
        self.bits
    }

    /// Returns the UUID as a number.
    pub fn into_uuid(self) -> (r: u128)
        ensures
            r == self@,
            self.well_formed(),
    {
        proof {
            use_type_invariant(&self);
        }
        self.bits
    }

    /// Parses the canonical text. The text that `to_string` writes of an
    /// identifier reads as that identifier.
    pub fn parse(value: &str) -> (r: Result<EventId, GeneratedIdError>)
        ensures
            match (r, generated_id(uuid_parsed(value@), value@)) {
                (Ok(id), Ok(bits)) => id@ == bits && value@ == uuid_text(bits),
                (Err(e), Err(expected)) => e == expected,
                _ => false,
            },
            forall|id: EventId|
                value@ == uuid_text(#[trigger] id.view()) && id.well_formed() ==> r == Ok::<
                    EventId,
                    GeneratedIdError,
                >(id),
    {
        match parse_generated_id(value) {
            Ok(bits) => Ok(EventId { bits }),
            Err(e) => Err(e),
        }
    }

    /// Writes the canonical text.
    pub fn to_string(&self) -> (r: String)
        ensures
            r@ == uuid_text(self@),
            self.well_formed(),
    {
        proof {
            use_type_invariant(self);
        }
        uuid_string(self.bits)
    }
}

impl core::str::FromStr for EventId {
    type Err = GeneratedIdError;

    fn from_str(value: &str) -> (r: Result<Self, Self::Err>)
        ensures
            match (r, generated_id(uuid_parsed(value@), value@)) {
                (Ok(id), Ok(bits)) => id@ == bits && value@ == uuid_text(bits),
                (Err(e), Err(expected)) => e == expected,
                _ => false,
            },
            forall|id: EventId|
                value@ == uuid_text(#[trigger] id.view()) && id.well_formed() ==> r == Ok::<
                    EventId,
                    GeneratedIdError,
                >(id),
    {
        EventId::parse(value)
    }
}

/// The generated identifier of a failure occurrence.
#[derive(Clone, Copy, PartialEq, Eq, PartialOrd, Ord, Hash, Structural)]
pub struct FailureId {
    bits: u128,
}

impl FailureId {
    /// The UUID as a number.
    pub closed spec fn view(&self) -> u128 {
        self.bits
    }

    /// The UUID is of version 7 and of the RFC variant.
    #[verifier::type_invariant]
    pub open spec fn well_formed(&self) -> bool {
        generated_bits(self@) is Ok
    }

    /// An identifier is its number.
    pub broadcast proof fn view_determines(a: FailureId, b: FailureId)
        ensures
            #![trigger a.view(), b.view()]
            a.view() == b.view() ==> a == b,
    {
    }

    /// Makes a fresh time-ordered identifier.
    pub fn generate() -> (r: FailureId)
        ensures
            r.well_formed(),
    {
        FailureId { bits: fresh_uuid_v7() }
    }

    /// Validates a UUID, given as a number.
    pub fn from_uuid(bits: u128) -> (r: Result<FailureId, GeneratedIdError>)
        ensures
            match (r, generated_bits(bits)) {
                (Ok(id), Ok(_)) => id@ == bits,
                (Err(e), Err(expected)) => e == expected,
                _ => false,
            },
    {
        match check_generated_bits(bits) {
            Ok(bits) => Ok(FailureId { bits }),
            Err(e) => Err(e),
        }
    }

    /// Returns the UUID as a number.
    pub fn as_uuid(&self) -> (r: u128)
        ensures
            r == self@,
            self.well_formed(),
    {
        proof {
            use_type_invariant(self);
        }
        self.bits
    }

    /// Returns the UUID as a number.
    pub fn into_uuid(self) -> (r: u128)
        ensures
            r == self@,
            self.well_formed(),
    {
        proof {
            use_type_invariant(&self);
        }
        self.bits
    }

    /// Parses the canonical text. The text that `to_string` writes of an
    /// identifier reads as that identifier.
    pub fn parse(value: &str) -> (r: Result<FailureId, GeneratedIdError>)
        ensures
            match (r, generated_id(uuid_parsed(value@), value@)) {
                (Ok(id), Ok(bits)) => id@ == bits && value@ == uuid_text(bits),
                (Err(e), Err(expected)) => e == expected,
                _ => false,
            },
            forall|id: FailureId|
                value@ == uuid_text(#[trigger] id.view()) && id.well_formed() ==> r == Ok::<
                    FailureId,
                    GeneratedIdError,
                >(id),
    {
        match parse_generated_id(value) {
            Ok(bits) => Ok(FailureId { bits }),
            Err(e) => Err(e),
        }
    }

    /// Writes the canonical text.
    pub fn to_string(&self) -> (r: String)
        ensures
            r@ == uuid_text(self@),
            self.well_formed(),
    {
        proof {
            use_type_invariant(self);
        }
        uuid_string(self.bits)
    }
}

impl core::str::FromStr for FailureId {
    type Err = GeneratedIdError;

    fn from_str(value: &str) -> (r: Result<Self, Self::Err>)
        ensures
            match (r, generated_id(uuid_parsed(value@), value@)) {
                (Ok(id), Ok(bits)) => id@ == bits && value@ == uuid_text(bits),
                (Err(e), Err(expected)) => e == expected,
                _ => false,
            },
            forall|id: FailureId|
                value@ == uuid_text(#[trigger] id.view()) && id.well_formed() ==> r == Ok::<
                    FailureId,
                    GeneratedIdError,
                >(id),
    {
        FailureId::parse(value)
    }
}

/// The generated identifier of a durable message.
#[derive(Clone, Copy, PartialEq, Eq, PartialOrd, Ord, Hash, Structural)]
pub struct MessageId {
    bits: u128,
}

impl MessageId {
    /// The UUID as a number.
    pub closed spec fn view(&self) -> u128 {
        self.bits
    }

    /// The UUID is of version 7 and of the RFC variant.
    #[verifier::type_invariant]
    pub open spec fn well_formed(&self) -> bool {
        generated_bits(self@) is Ok
    }

    /// An identifier is its number.
    pub broadcast proof fn view_determines(a: MessageId, b: MessageId)
        ensures
            #![trigger a.view(), b.view()]
            a.view() == b.view() ==> a == b,
    {
    }

    /// Makes a fresh time-ordered identifier.
    pub fn generate() -> (r: MessageId)
        ensures
            r.well_formed(),
    {
        MessageId { bits: fresh_uuid_v7() }
    }

    /// Validates a UUID, given as a number.
    pub fn from_uuid(bits: u128) -> (r: Result<MessageId, GeneratedIdError>)
        ensures
            match (r, generated_bits(bits)) {
                (Ok(id), Ok(_)) => id@ == bits,
                (Err(e), Err(expected)) => e == expected,
                _ => false,
            },
    {
        match check_generated_bits(bits) {
            Ok(bits) => Ok(MessageId { bits }),
            Err(e) => Err(e),
        }
    }

    /// Returns the UUID as a number.
    pub fn as_uuid(&self) -> (r: u128)
        ensures
            r == self@,
            self.well_formed(),
    {
        proof {
            use_type_invariant(self);
        }
        self.bits
    }

    /// Returns the UUID as a number.
    pub fn into_uuid(self) -> (r: u128)
        ensures
            r == self@,
            self.well_formed(),
    {
        proof {
            use_type_invariant(&self);
        }
        self.bits
    }

    /// Parses the canonical text. The text that `to_string` writes of an
    /// identifier reads as that identifier.
    pub fn parse(value: &str) -> (r: Result<MessageId, GeneratedIdError>)
        ensures
            match (r, generated_id(uuid_parsed(value@), value@)) {
                (Ok(id), Ok(bits)) => id@ == bits && value@ == uuid_text(bits),
                (Err(e), Err(expected)) => e == expected,
                _ => false,
            },
            forall|id: MessageId|
                value@ == uuid_text(#[trigger] id.view()) && id.well_formed() ==> r == Ok::<
                    MessageId,
                    GeneratedIdError,
                >(id),
    {
        match parse_generated_id(value) {
            Ok(bits) => Ok(MessageId { bits }),
            Err(e) => Err(e),
        }
    }

    /// Writes the canonical text.
    pub fn to_string(&self) -> (r: String)
        ensures
            r@ == uuid_text(self@),
            self.well_formed(),
    {
        proof {
            use_type_invariant(self);
        }
        uuid_string(self.bits)
    }
}

impl core::str::FromStr for MessageId {
    type Err = GeneratedIdError;

    fn from_str(value: &str) -> (r: Result<Self, Self::Err>)
        ensures
            match (r, generated_id(uuid_parsed(value@), value@)) {
                (Ok(id), Ok(bits)) => id@ == bits && value@ == uuid_text(bits),
                (Err(e), Err(expected)) => e == expected,
                _ => false,
            },
            forall|id: MessageId|
                value@ == uuid_text(#[trigger] id.view()) && id.well_formed() ==> r == Ok::<
                    MessageId,
                    GeneratedIdError,
                >(id),
    {
        MessageId::parse(value)
    }
}

/// The generated identifier of a artifact.
#[derive(Clone, Copy, PartialEq, Eq, PartialOrd, Ord, Hash, Structural)]
pub struct ArtifactId {
    bits: u128,
}

impl ArtifactId {
    /// The UUID as a number.
    pub closed spec fn view(&self) -> u128 {
        self.bits
    }

    /// The UUID is of version 7 and of the RFC variant.
    #[verifier::type_invariant]
    pub open spec fn well_formed(&self) -> bool {
        generated_bits(self@) is Ok
    }

    /// An identifier is its number.
    pub broadcast proof fn view_determines(a: ArtifactId, b: ArtifactId)
        ensures
            #![trigger a.view(), b.view()]
            a.view() == b.view() ==> a == b,
    {
    }

    /// Makes a fresh time-ordered identifier.
    pub fn generate() -> (r: ArtifactId)
        ensures
            r.well_formed(),
    {
        ArtifactId { bits: fresh_uuid_v7() }
    }

    /// Validates a UUID, given as a number.
    pub fn from_uuid(bits: u128) -> (r: Result<ArtifactId, GeneratedIdError>)
        ensures
            match (r, generated_bits(bits)) {
                (Ok(id), Ok(_)) => id@ == bits,
                (Err(e), Err(expected)) => e == expected,
                _ => false,
            },
    {
        match check_generated_bits(bits) {
            Ok(bits) => Ok(ArtifactId { bits }),
            Err(e) => Err(e),
        }
    }

    /// Returns the UUID as a number.
    pub fn as_uuid(&self) -> (r: u128)
        ensures
            r == self@,
            self.well_formed(),
    {
        proof {
            use_type_invariant(self);
        }
        self.bits
    }

    /// Returns the UUID as a number.
    pub fn into_uuid(self) -> (r: u128)
        ensures
            r == self@,
            self.well_formed(),
    {
        proof {
            use_type_invariant(&self);
        }
        self.bits
    }

    /// Parses the canonical text. The text that `to_string` writes of an
    /// identifier reads as that identifier.
    pub fn parse(value: &str) -> (r: Result<ArtifactId, GeneratedIdError>)
        ensures
            match (r, generated_id(uuid_parsed(value@), value@)) {
                (Ok(id), Ok(bits)) => id@ == bits && value@ == uuid_text(bits),
                (Err(e), Err(expected)) => e == expected,
                _ => false,
            },
            forall|id: ArtifactId|
                value@ == uuid_text(#[trigger] id.view()) && id.well_formed() ==> r == Ok::<
                    ArtifactId,
                    GeneratedIdError,
                >(id),
    {
        match parse_generated_id(value) {
            Ok(bits) => Ok(ArtifactId { bits }),
            Err(e) => Err(e),
        }
    }

    /// Writes the canonical text.
    pub fn to_string(&self) -> (r: String)
        ensures
            r@ == uuid_text(self@),
            self.well_formed(),
    {
        proof {
            use_type_invariant(self);
        }
        uuid_string(self.bits)
    }
}

impl core::str::FromStr for ArtifactId {
    type Err = GeneratedIdError;

    fn from_str(value: &str) -> (r: Result<Self, Self::Err>)
        ensures
            match (r, generated_id(uuid_parsed(value@), value@)) {
                (Ok(id), Ok(bits)) => id@ == bits && value@ == uuid_text(bits),
                (Err(e), Err(expected)) => e == expected,
                _ => false,
            },
            forall|id: ArtifactId|
                value@ == uuid_text(#[trigger] id.view()) && id.well_formed() ==> r == Ok::<
                    ArtifactId,
                    GeneratedIdError,
                >(id),
    {
        ArtifactId::parse(value)
    }
}

/// The generated identifier of a external invocation.
#[derive(Clone, Copy, PartialEq, Eq, PartialOrd, Ord, Hash, Structural)]
pub struct InvocationId {
    bits: u128,
}

impl InvocationId {
    /// The UUID as a number.
    pub closed spec fn view(&self) -> u128 {
        self.bits
    }

    /// The UUID is of version 7 and of the RFC variant.
    #[verifier::type_invariant]
    pub open spec fn well_formed(&self) -> bool {
        generated_bits(self@) is Ok
    }

    /// An identifier is its number.
    pub broadcast proof fn view_determines(a: InvocationId, b: InvocationId)
        ensures
            #![trigger a.view(), b.view()]
            a.view() == b.view() ==> a == b,
    {
    }

    /// Makes a fresh time-ordered identifier.
    pub fn generate() -> (r: InvocationId)
        ensures
            r.well_formed(),
    {
        InvocationId { bits: fresh_uuid_v7() }
    }

    /// Validates a UUID, given as a number.
    pub fn from_uuid(bits: u128) -> (r: Result<InvocationId, GeneratedIdError>)
        ensures
            match (r, generated_bits(bits)) {
                (Ok(id), Ok(_)) => id@ == bits,
                (Err(e), Err(expected)) => e == expected,
                _ => false,
            },
    {
        match check_generated_bits(bits) {
            Ok(bits) => Ok(InvocationId { bits }),
            Err(e) => Err(e),
        }
    }

    /// Returns the UUID as a number.
    pub fn as_uuid(&self) -> (r: u128)
        ensures
            r == self@,
            self.well_formed(),
    {
        proof {
            use_type_invariant(self);
        }
        self.bits
    }

    /// Returns the UUID as a number.
    pub fn into_uuid(self) -> (r: u128)
        ensures
            r == self@,
            self.well_formed(),
    {
        proof {
            use_type_invariant(&self);
        }
        self.bits
    }

    /// Parses the canonical text. The text that `to_string` writes of an
    /// identifier reads as that identifier.
    pub fn parse(value: &str) -> (r: Result<InvocationId, GeneratedIdError>)
        ensures
            match (r, generated_id(uuid_parsed(value@), value@)) {
                (Ok(id), Ok(bits)) => id@ == bits && value@ == uuid_text(bits),
                (Err(e), Err(expected)) => e == expected,
                _ => false,
            },
            forall|id: InvocationId|
                value@ == uuid_text(#[trigger] id.view()) && id.well_formed() ==> r == Ok::<
                    InvocationId,
                    GeneratedIdError,
                >(id),
    {
        match parse_generated_id(value) {
            Ok(bits) => Ok(InvocationId { bits }),
            Err(e) => Err(e),
        }
    }

    /// Writes the canonical text.
    pub fn to_string(&self) -> (r: String)
        ensures
            r@ == uuid_text(self@),
            self.well_formed(),
    {
        proof {
            use_type_invariant(self);
        }
        uuid_string(self.bits)
    }
}

impl core::str::FromStr for InvocationId {
    type Err = GeneratedIdError;

    fn from_str(value: &str) -> (r: Result<Self, Self::Err>)
        ensures
            match (r, generated_id(uuid_parsed(value@), value@)) {
                (Ok(id), Ok(bits)) => id@ == bits && value@ == uuid_text(bits),
                (Err(e), Err(expected)) => e == expected,
                _ => false,
            },
            forall|id: InvocationId|
                value@ == uuid_text(#[trigger] id.view()) && id.well_formed() ==> r == Ok::<
                    InvocationId,
                    GeneratedIdError,
                >(id),
    {
        InvocationId::parse(value)
    }
}

/// The generated identifier of a interrupt.
#[derive(Clone, Copy, PartialEq, Eq, PartialOrd, Ord, Hash, Structural)]
pub struct InterruptId {
    bits: u128,
}

impl InterruptId {
    /// The UUID as a number.
    pub closed spec fn view(&self) -> u128 {
        self.bits
    }

    /// The UUID is of version 7 and of the RFC variant.
    #[verifier::type_invariant]
    pub open spec fn well_formed(&self) -> bool {
        generated_bits(self@) is Ok
    }

    /// An identifier is its number.
    pub broadcast proof fn view_determines(a: InterruptId, b: InterruptId)
        ensures
            #![trigger a.view(), b.view()]
            a.view() == b.view() ==> a == b,
    {
    }

    /// Makes a fresh time-ordered identifier.
    pub fn generate() -> (r: InterruptId)
        ensures
            r.well_formed(),
    {
        InterruptId { bits: fresh_uuid_v7() }
    }

    /// Validates a UUID, given as a number.
    pub fn from_uuid(bits: u128) -> (r: Result<InterruptId, GeneratedIdError>)
        ensures
            match (r, generated_bits(bits)) {
                (Ok(id), Ok(_)) => id@ == bits,
                (Err(e), Err(expected)) => e == expected,
                _ => false,
            },
    {
        match check_generated_bits(bits) {
            Ok(bits) => Ok(InterruptId { bits }),
            Err(e) => Err(e),
        }
    }

    /// Returns the UUID as a number.
    pub fn as_uuid(&self) -> (r: u128)
        ensures
            r == self@,
            self.well_formed(),
    {
        proof {
            use_type_invariant(self);
        }
        self.bits
    }

    /// Returns the UUID as a number.
    pub fn into_uuid(self) -> (r: u128)
        ensures
            r == self@,
            self.well_formed(),
    {
        proof {
            use_type_invariant(&self);
        }
        self.bits
    }

    /// Parses the canonical text. The text that `to_string` writes of an
    /// identifier reads as that identifier.
    pub fn parse(value: &str) -> (r: Result<InterruptId, GeneratedIdError>)
        ensures
            match (r, generated_id(uuid_parsed(value@), value@)) {
                (Ok(id), Ok(bits)) => id@ == bits && value@ == uuid_text(bits),
                (Err(e), Err(expected)) => e == expected,
                _ => false,
            },
            forall|id: InterruptId|
                value@ == uuid_text(#[trigger] id.view()) && id.well_formed() ==> r == Ok::<
                    InterruptId,
                    GeneratedIdError,
                >(id),
    {
        match parse_generated_id(value) {
            Ok(bits) => Ok(InterruptId { bits }),
            Err(e) => Err(e),
        }
    }

    /// Writes the canonical text.
    pub fn to_string(&self) -> (r: String)
        ensures
            r@ == uuid_text(self@),
            self.well_formed(),
    {
        proof {
            use_type_invariant(self);
        }
        uuid_string(self.bits)
    }
}

impl core::str::FromStr for InterruptId {
    type Err = GeneratedIdError;

    fn from_str(value: &str) -> (r: Result<Self, Self::Err>)
        ensures
            match (r, generated_id(uuid_parsed(value@), value@)) {
                (Ok(id), Ok(bits)) => id@ == bits && value@ == uuid_text(bits),
                (Err(e), Err(expected)) => e == expected,
                _ => false,
            },
            forall|id: InterruptId|
                value@ == uuid_text(#[trigger] id.view()) && id.well_formed() ==> r == Ok::<
                    InterruptId,
                    GeneratedIdError,
                >(id),
    {
        InterruptId::parse(value)
    }
}

/// The generated identifier of a durable timer.
#[derive(Clone, Copy, PartialEq, Eq, PartialOrd, Ord, Hash, Structural)]
pub struct TimerId {
    bits: u128,
}

impl TimerId {
    /// The UUID as a number.
    pub closed spec fn view(&self) -> u128 {
        self.bits
    }

    /// The UUID is of version 7 and of the RFC variant.
    #[verifier::type_invariant]
    pub open spec fn well_formed(&self) -> bool {
        generated_bits(self@) is Ok
    }

    /// An identifier is its number.
    pub broadcast proof fn view_determines(a: TimerId, b: TimerId)
        ensures
            #![trigger a.view(), b.view()]
            a.view() == b.view() ==> a == b,
    {
    }

    /// Makes a fresh time-ordered identifier.
    pub fn generate() -> (r: TimerId)
        ensures
            r.well_formed(),
    {
        TimerId { bits: fresh_uuid_v7() }
    }

    /// Validates a UUID, given as a number.
    pub fn from_uuid(bits: u128) -> (r: Result<TimerId, GeneratedIdError>)
        ensures
            match (r, generated_bits(bits)) {
                (Ok(id), Ok(_)) => id@ == bits,
                (Err(e), Err(expected)) => e == expected,
                _ => false,
            },
    {
        match check_generated_bits(bits) {
            Ok(bits) => Ok(TimerId { bits }),
            Err(e) => Err(e),
        }
    }

    /// Returns the UUID as a number.
    pub fn as_uuid(&self) -> (r: u128)
        ensures
            r == self@,
            self.well_formed(),
    {
        proof {
            use_type_invariant(self);
        }
        self.bits
    }

    /// Returns the UUID as a number.
    pub fn into_uuid(self) -> (r: u128)
        ensures
            r == self@,
            self.well_formed(),
    {
        proof {
            use_type_invariant(&self);
        }
        self.bits
    }

    /// Parses the canonical text. The text that `to_string` writes of an
    /// identifier reads as that identifier.
    pub fn parse(value: &str) -> (r: Result<TimerId, GeneratedIdError>)
        ensures
            match (r, generated_id(uuid_parsed(value@), value@)) {
                (Ok(id), Ok(bits)) => id@ == bits && value@ == uuid_text(bits),
                (Err(e), Err(expected)) => e == expected,
                _ => false,
            },
            forall|id: TimerId|
                value@ == uuid_text(#[trigger] id.view()) && id.well_formed() ==> r == Ok::<
                    TimerId,
                    GeneratedIdError,
                >(id),
    {
        match parse_generated_id(value) {
            Ok(bits) => Ok(TimerId { bits }),
            Err(e) => Err(e),
        }
    }

    /// Writes the canonical text.
    pub fn to_string(&self) -> (r: String)
        ensures
            r@ == uuid_text(self@),
            self.well_formed(),
    {
        proof {
            use_type_invariant(self);
        }
        uuid_string(self.bits)
    }
}

impl core::str::FromStr for TimerId {
    type Err = GeneratedIdError;

    fn from_str(value: &str) -> (r: Result<Self, Self::Err>)
        ensures
            match (r, generated_id(uuid_parsed(value@), value@)) {
                (Ok(id), Ok(bits)) => id@ == bits && value@ == uuid_text(bits),
                (Err(e), Err(expected)) => e == expected,
                _ => false,
            },
            forall|id: TimerId|
                value@ == uuid_text(#[trigger] id.view()) && id.well_formed() ==> r == Ok::<
                    TimerId,
                    GeneratedIdError,
                >(id),
    {
        TimerId::parse(value)
    }
}

/// The generated identifier of a durable outbox delivery.
#[derive(Clone, Copy, PartialEq, Eq, PartialOrd, Ord, Hash, Structural)]
pub struct DeliveryId {
    bits: u128,
}

impl DeliveryId {
    /// The UUID as a number.
    pub closed spec fn view(&self) -> u128 {
        self.bits
    }

    /// The UUID is of version 7 and of the RFC variant.
    #[verifier::type_invariant]
    pub open spec fn well_formed(&self) -> bool {
        generated_bits(self@) is Ok
    }

    /// An identifier is its number.
    pub broadcast proof fn view_determines(a: DeliveryId, b: DeliveryId)
        ensures
            #![trigger a.view(), b.view()]
            a.view() == b.view() ==> a == b,
    {
    }

    /// Makes a fresh time-ordered identifier.
    pub fn generate() -> (r: DeliveryId)
        ensures
            r.well_formed(),
    {
        DeliveryId { bits: fresh_uuid_v7() }
    }

    /// Validates a UUID, given as a number.
    pub fn from_uuid(bits: u128) -> (r: Result<DeliveryId, GeneratedIdError>)
        ensures
            match (r, generated_bits(bits)) {
                (Ok(id), Ok(_)) => id@ == bits,
                (Err(e), Err(expected)) => e == expected,
                _ => false,
            },
    {
        match check_generated_bits(bits) {
            Ok(bits) => Ok(DeliveryId { bits }),
            Err(e) => Err(e),
        }
    }

    /// Returns the UUID as a number.
    pub fn as_uuid(&self) -> (r: u128)
        ensures
            r == self@,
            self.well_formed(),
    {
        proof {
            use_type_invariant(self);
        }
        self.bits
    }

    /// Returns the UUID as a number.
    pub fn into_uuid(self) -> (r: u128)
        ensures
            r == self@,
            self.well_formed(),
    {
        proof {
            use_type_invariant(&self);
        }
        self.bits
    }

    /// Parses the canonical text. The text that `to_string` writes of an
    /// identifier reads as that identifier.
    pub fn parse(value: &str) -> (r: Result<DeliveryId, GeneratedIdError>)
        ensures
            match (r, generated_id(uuid_parsed(value@), value@)) {
                (Ok(id), Ok(bits)) => id@ == bits && value@ == uuid_text(bits),
                (Err(e), Err(expected)) => e == expected,
                _ => false,
            },
            forall|id: DeliveryId|
                value@ == uuid_text(#[trigger] id.view()) && id.well_formed() ==> r == Ok::<
                    DeliveryId,
                    GeneratedIdError,
                >(id),
    {
        match parse_generated_id(value) {
            Ok(bits) => Ok(DeliveryId { bits }),
            Err(e) => Err(e),
        }
    }

    /// Writes the canonical text.
    pub fn to_string(&self) -> (r: String)
        ensures
            r@ == uuid_text(self@),
            self.well_formed(),
    {
        proof {
            use_type_invariant(self);
        }
        uuid_string(self.bits)
    }
}

impl core::str::FromStr for DeliveryId {
    type Err = GeneratedIdError;

    fn from_str(value: &str) -> (r: Result<Self, Self::Err>)
        ensures
            match (r, generated_id(uuid_parsed(value@), value@)) {
                (Ok(id), Ok(bits)) => id@ == bits && value@ == uuid_text(bits),
                (Err(e), Err(expected)) => e == expected,
                _ => false,
            },
            forall|id: DeliveryId|
                value@ == uuid_text(#[trigger] id.view()) && id.well_formed() ==> r == Ok::<
                    DeliveryId,
                    GeneratedIdError,
                >(id),
    {
        DeliveryId::parse(value)
    }
}

/// The generated identifier of a durable outbox destination.
#[derive(Clone, Copy, PartialEq, Eq, PartialOrd, Ord, Hash, Structural)]
pub struct DestinationId {
    bits: u128,
}

impl DestinationId {
    /// The UUID as a number.
    pub closed spec fn view(&self) -> u128 {
        self.bits
    }

    /// The UUID is of version 7 and of the RFC variant.
    #[verifier::type_invariant]
    pub open spec fn well_formed(&self) -> bool {
        generated_bits(self@) is Ok
    }

    /// An identifier is its number.
    pub broadcast proof fn view_determines(a: DestinationId, b: DestinationId)
        ensures
            #![trigger a.view(), b.view()]
            a.view() == b.view() ==> a == b,
    {
    }

    /// Makes a fresh time-ordered identifier.
    pub fn generate() -> (r: DestinationId)
        ensures
            r.well_formed(),
    {
        DestinationId { bits: fresh_uuid_v7() }
    }

    /// Validates a UUID, given as a number.
    pub fn from_uuid(bits: u128) -> (r: Result<DestinationId, GeneratedIdError>)
        ensures
            match (r, generated_bits(bits)) {
                (Ok(id), Ok(_)) => id@ == bits,
                (Err(e), Err(expected)) => e == expected,
                _ => false,
            },
    {
        match check_generated_bits(bits) {
            Ok(bits) => Ok(DestinationId { bits }),
            Err(e) => Err(e),
        }
    }

    /// Returns the UUID as a number.
    pub fn as_uuid(&self) -> (r: u128)
        ensures
            r == self@,
            self.well_formed(),
    {
        proof {
            use_type_invariant(self);
        }
        self.bits
    }

    /// Returns the UUID as a number.
    pub fn into_uuid(self) -> (r: u128)
        ensures
            r == self@,
            self.well_formed(),
    {
        proof {
            use_type_invariant(&self);
        }
        self.bits
    }

    /// Parses the canonical text. The text that `to_string` writes of an
    /// identifier reads as that identifier.
    pub fn parse(value: &str) -> (r: Result<DestinationId, GeneratedIdError>)
        ensures
            match (r, generated_id(uuid_parsed(value@), value@)) {
                (Ok(id), Ok(bits)) => id@ == bits && value@ == uuid_text(bits),
                (Err(e), Err(expected)) => e == expected,
                _ => false,
            },
            forall|id: DestinationId|
                value@ == uuid_text(#[trigger] id.view()) && id.well_formed() ==> r == Ok::<
                    DestinationId,
                    GeneratedIdError,
                >(id),
    {
        match parse_generated_id(value) {
            Ok(bits) => Ok(DestinationId { bits }),
            Err(e) => Err(e),
        }
    }

    /// Writes the canonical text.
    pub fn to_string(&self) -> (r: String)
        ensures
            r@ == uuid_text(self@),
            self.well_formed(),
    {
        proof {
            use_type_invariant(self);
        }
        uuid_string(self.bits)
    }
}

impl core::str::FromStr for DestinationId {
    type Err = GeneratedIdError;

    fn from_str(value: &str) -> (r: Result<Self, Self::Err>)
        ensures
            match (r, generated_id(uuid_parsed(value@), value@)) {
                (Ok(id), Ok(bits)) => id@ == bits && value@ == uuid_text(bits),
                (Err(e), Err(expected)) => e == expected,
                _ => false,
            },
            forall|id: DestinationId|
                value@ == uuid_text(#[trigger] id.view()) && id.well_formed() ==> r == Ok::<
                    DestinationId,
                    GeneratedIdError,
                >(id),
    {
        DestinationId::parse(value)
    }
}

/// The generated identifier of a immutable checkpoint.
#[derive(Clone, Copy, PartialEq, Eq, PartialOrd, Ord, Hash, Structural)]
pub struct CheckpointId {
    bits: u128,
}

impl CheckpointId {
    /// The UUID as a number.
    pub closed spec fn view(&self) -> u128 {
        self.bits
    }

    /// The UUID is of version 7 and of the RFC variant.
    #[verifier::type_invariant]
    pub open spec fn well_formed(&self) -> bool {
        generated_bits(self@) is Ok
    }

    /// An identifier is its number.
    pub broadcast proof fn view_determines(a: CheckpointId, b: CheckpointId)
        ensures
            #![trigger a.view(), b.view()]
            a.view() == b.view() ==> a == b,
    {
    }

    /// Makes a fresh time-ordered identifier.
    pub fn generate() -> (r: CheckpointId)
        ensures
            r.well_formed(),
    {
        CheckpointId { bits: fresh_uuid_v7() }
    }

    /// Validates a UUID, given as a number.
    pub fn from_uuid(bits: u128) -> (r: Result<CheckpointId, GeneratedIdError>)
        ensures
            match (r, generated_bits(bits)) {
                (Ok(id), Ok(_)) => id@ == bits,
                (Err(e), Err(expected)) => e == expected,
                _ => false,
            },
    {
        match check_generated_bits(bits) {
            Ok(bits) => Ok(CheckpointId { bits }),
            Err(e) => Err(e),
        }
    }

    /// Returns the UUID as a number.
    pub fn as_uuid(&self) -> (r: u128)
        ensures
            r == self@,
            self.well_formed(),
    {
        proof {
            use_type_invariant(self);
        }
        self.bits
    }

    /// Returns the UUID as a number.
    pub fn into_uuid(self) -> (r: u128)
        ensures
            r == self@,
            self.well_formed(),
    {
        proof {
            use_type_invariant(&self);
        }
        self.bits
    }

    /// Parses the canonical text. The text that `to_string` writes of an
    /// identifier reads as that identifier.
    pub fn parse(value: &str) -> (r: Result<CheckpointId, GeneratedIdError>)
        ensures
            match (r, generated_id(uuid_parsed(value@), value@)) {
                (Ok(id), Ok(bits)) => id@ == bits && value@ == uuid_text(bits),
                (Err(e), Err(expected)) => e == expected,
                _ => false,
            },
            forall|id: CheckpointId|
                value@ == uuid_text(#[trigger] id.view()) && id.well_formed() ==> r == Ok::<
                    CheckpointId,
                    GeneratedIdError,
                >(id),
    {
        match parse_generated_id(value) {
            Ok(bits) => Ok(CheckpointId { bits }),
            Err(e) => Err(e),
        }
    }

    /// Writes the canonical text.
    pub fn to_string(&self) -> (r: String)
        ensures
            r@ == uuid_text(self@),
            self.well_formed(),
    {
        proof {
            use_type_invariant(self);
        }
        uuid_string(self.bits)
    }
}

impl core::str::FromStr for CheckpointId {
    type Err = GeneratedIdError;

    fn from_str(value: &str) -> (r: Result<Self, Self::Err>)
        ensures
            match (r, generated_id(uuid_parsed(value@), value@)) {
                (Ok(id), Ok(bits)) => id@ == bits && value@ == uuid_text(bits),
                (Err(e), Err(expected)) => e == expected,
                _ => false,
            },
            forall|id: CheckpointId|
                value@ == uuid_text(#[trigger] id.view()) && id.well_formed() ==> r == Ok::<
                    CheckpointId,
                    GeneratedIdError,
                >(id),
    {
        CheckpointId::parse(value)
    }
}

/// The generated identifier of a run-quarantine observation.
#[derive(Clone, Copy, PartialEq, Eq, PartialOrd, Ord, Hash, Structural)]
pub struct QuarantineId {
    bits: u128,
}

impl QuarantineId {
    /// The UUID as a number.
    pub closed spec fn view(&self) -> u128 {
        self.bits
    }

    /// The UUID is of version 7 and of the RFC variant.
    #[verifier::type_invariant]
    pub open spec fn well_formed(&self) -> bool {
        generated_bits(self@) is Ok
    }

    /// An identifier is its number.
    pub broadcast proof fn view_determines(a: QuarantineId, b: QuarantineId)
        ensures
            #![trigger a.view(), b.view()]
            a.view() == b.view() ==> a == b,
    {
    }

    /// Makes a fresh time-ordered identifier.
    pub fn generate() -> (r: QuarantineId)
        ensures
            r.well_formed(),
    {
        QuarantineId { bits: fresh_uuid_v7() }
    }

    /// Validates a UUID, given as a number.
    pub fn from_uuid(bits: u128) -> (r: Result<QuarantineId, GeneratedIdError>)
        ensures
            match (r, generated_bits(bits)) {
                (Ok(id), Ok(_)) => id@ == bits,
                (Err(e), Err(expected)) => e == expected,
                _ => false,
            },
    {
        match check_generated_bits(bits) {
            Ok(bits) => Ok(QuarantineId { bits }),
            Err(e) => Err(e),
        }
    }

    /// Returns the UUID as a number.
    pub fn as_uuid(&self) -> (r: u128)
        ensures
            r == self@,
            self.well_formed(),
    {
        proof {
            use_type_invariant(self);
        }
        self.bits
    }

    /// Returns the UUID as a number.
    pub fn into_uuid(self) -> (r: u128)
        ensures
            r == self@,
            self.well_formed(),
    {
        proof {
            use_type_invariant(&self);
        }
        self.bits
    }

    /// Parses the canonical text. The text that `to_string` writes of an
    /// identifier reads as that identifier.
    pub fn parse(value: &str) -> (r: Result<QuarantineId, GeneratedIdError>)
        ensures
            match (r, generated_id(uuid_parsed(value@), value@)) {
                (Ok(id), Ok(bits)) => id@ == bits && value@ == uuid_text(bits),
                (Err(e), Err(expected)) => e == expected,
                _ => false,
            },
            forall|id: QuarantineId|
                value@ == uuid_text(#[trigger] id.view()) && id.well_formed() ==> r == Ok::<
                    QuarantineId,
                    GeneratedIdError,
                >(id),
    {
        match parse_generated_id(value) {
            Ok(bits) => Ok(QuarantineId { bits }),
            Err(e) => Err(e),
        }
    }

    /// Writes the canonical text.
    pub fn to_string(&self) -> (r: String)
        ensures
            r@ == uuid_text(self@),
            self.well_formed(),
    {
        proof {
            use_type_invariant(self);
        }
        uuid_string(self.bits)
    }
}

impl core::str::FromStr for QuarantineId {
    type Err = GeneratedIdError;

    fn from_str(value: &str) -> (r: Result<Self, Self::Err>)
        ensures
            match (r, generated_id(uuid_parsed(value@), value@)) {
                (Ok(id), Ok(bits)) => id@ == bits && value@ == uuid_text(bits),
                (Err(e), Err(expected)) => e == expected,
                _ => false,
            },
            forall|id: QuarantineId|
                value@ == uuid_text(#[trigger] id.view()) && id.well_formed() ==> r == Ok::<
                    QuarantineId,
                    GeneratedIdError,
                >(id),
    {
        QuarantineId::parse(value)
    }
}

/// The generated identifier of a node or dependency attempt.
#[derive(Clone, Copy, PartialEq, Eq, PartialOrd, Ord, Hash, Structural)]
pub struct AttemptId {
    bits: u128,
}

impl AttemptId {
    /// The UUID as a number.
    pub closed spec fn view(&self) -> u128 {
        self.bits
    }

    /// The UUID is of version 7 and of the RFC variant.
    #[verifier::type_invariant]
    pub open spec fn well_formed(&self) -> bool {
        generated_bits(self@) is Ok
    }

    /// An identifier is its number.
    pub broadcast proof fn view_determines(a: AttemptId, b: AttemptId)
        ensures
            #![trigger a.view(), b.view()]
            a.view() == b.view() ==> a == b,
    {
    }

    /// Makes a fresh time-ordered identifier.
    pub fn generate() -> (r: AttemptId)
        ensures
            r.well_formed(),
    {
        AttemptId { bits: fresh_uuid_v7() }
    }

    /// Validates a UUID, given as a number.
    pub fn from_uuid(bits: u128) -> (r: Result<AttemptId, GeneratedIdError>)
        ensures
            match (r, generated_bits(bits)) {
                (Ok(id), Ok(_)) => id@ == bits,
                (Err(e), Err(expected)) => e == expected,
                _ => false,
            },
    {
        match check_generated_bits(bits) {
            Ok(bits) => Ok(AttemptId { bits }),
            Err(e) => Err(e),
        }
    }

    /// Returns the UUID as a number.
    pub fn as_uuid(&self) -> (r: u128)
        ensures
            r == self@,
            self.well_formed(),
    {
        proof {
            use_type_invariant(self);
        }
        self.bits
    }

    /// Returns the UUID as a number.
    pub fn into_uuid(self) -> (r: u128)
        ensures
            r == self@,
            self.well_formed(),
    {
        proof {
            use_type_invariant(&self);
        }
        self.bits
    }

    /// Parses the canonical text. The text that `to_string` writes of an
    /// identifier reads as that identifier.
    pub fn parse(value: &str) -> (r: Result<AttemptId, GeneratedIdError>)
        ensures
            match (r, generated_id(uuid_parsed(value@), value@)) {
                (Ok(id), Ok(bits)) => id@ == bits && value@ == uuid_text(bits),
                (Err(e), Err(expected)) => e == expected,
                _ => false,
            },
            forall|id: AttemptId|
                value@ == uuid_text(#[trigger] id.view()) && id.well_formed() ==> r == Ok::<
                    AttemptId,
                    GeneratedIdError,
                >(id),
    {
        match parse_generated_id(value) {
            Ok(bits) => Ok(AttemptId { bits }),
            Err(e) => Err(e),
        }
    }

    /// Writes the canonical text.
    pub fn to_string(&self) -> (r: String)
        ensures
            r@ == uuid_text(self@),
            self.well_formed(),
    {
        proof {
            use_type_invariant(self);
        }
        uuid_string(self.bits)
    }
}

impl core::str::FromStr for AttemptId {
    type Err = GeneratedIdError;

    fn from_str(value: &str) -> (r: Result<Self, Self::Err>)
        ensures
            match (r, generated_id(uuid_parsed(value@), value@)) {
                (Ok(id), Ok(bits)) => id@ == bits && value@ == uuid_text(bits),
                (Err(e), Err(expected)) => e == expected,
                _ => false,
            },
            forall|id: AttemptId|
                value@ == uuid_text(#[trigger] id.view()) && id.well_formed() ==> r == Ok::<
                    AttemptId,
                    GeneratedIdError,
                >(id),
    {
        AttemptId::parse(value)
    }
}

/// The generated identifier of a scheduler slot reservation.
#[derive(Clone, Copy, PartialEq, Eq, PartialOrd, Ord, Hash, Structural)]
pub struct SchedulerReservationId {
    bits: u128,
}

impl SchedulerReservationId {
    /// The UUID as a number.
    pub closed spec fn view(&self) -> u128 {
        self.bits
    }

    /// The UUID is of version 7 and of the RFC variant.
    #[verifier::type_invariant]
    pub open spec fn well_formed(&self) -> bool {
        generated_bits(self@) is Ok
    }

    /// An identifier is its number.
    pub broadcast proof fn view_determines(a: SchedulerReservationId, b: SchedulerReservationId)
        ensures
            #![trigger a.view(), b.view()]
            a.view() == b.view() ==> a == b,
    {
    }

    /// Makes a fresh time-ordered identifier.
    pub fn generate() -> (r: SchedulerReservationId)
        ensures
            r.well_formed(),
    {
        SchedulerReservationId { bits: fresh_uuid_v7() }
    }

    /// Validates a UUID, given as a number.
    pub fn from_uuid(bits: u128) -> (r: Result<SchedulerReservationId, GeneratedIdError>)
        ensures
            match (r, generated_bits(bits)) {
                (Ok(id), Ok(_)) => id@ == bits,
                (Err(e), Err(expected)) => e == expected,
                _ => false,
            },
    {
        match check_generated_bits(bits) {
            Ok(bits) => Ok(SchedulerReservationId { bits }),
            Err(e) => Err(e),
        }
    }

    /// Returns the UUID as a number.
    pub fn as_uuid(&self) -> (r: u128)
        ensures
            r == self@,
            self.well_formed(),
    {
        proof {
            use_type_invariant(self);
        }
        self.bits
    }

    /// Returns the UUID as a number.
    pub fn into_uuid(self) -> (r: u128)
        ensures
            r == self@,
            self.well_formed(),
    {
        proof {
            use_type_invariant(&self);
        }
        self.bits
    }

    /// Parses the canonical text. The text that `to_string` writes of an
    /// identifier reads as that identifier.
    pub fn parse(value: &str) -> (r: Result<SchedulerReservationId, GeneratedIdError>)
        ensures
            match (r, generated_id(uuid_parsed(value@), value@)) {
                (Ok(id), Ok(bits)) => id@ == bits && value@ == uuid_text(bits),
                (Err(e), Err(expected)) => e == expected,
                _ => false,
            },
            forall|id: SchedulerReservationId|
                value@ == uuid_text(#[trigger] id.view()) && id.well_formed() ==> r == Ok::<
                    SchedulerReservationId,
                    GeneratedIdError,
                >(id),
    {
        match parse_generated_id(value) {
            Ok(bits) => Ok(SchedulerReservationId { bits }),
            Err(e) => Err(e),
        }
    }

    /// Writes the canonical text.
    pub fn to_string(&self) -> (r: String)
        ensures
            r@ == uuid_text(self@),
            self.well_formed(),
    {
        proof {
            use_type_invariant(self);
        }
        uuid_string(self.bits)
    }
}

impl core::str::FromStr for SchedulerReservationId {
    type Err = GeneratedIdError;

    fn from_str(value: &str) -> (r: Result<Self, Self::Err>)
        ensures
            match (r, generated_id(uuid_parsed(value@), value@)) {
                (Ok(id), Ok(bits)) => id@ == bits && value@ == uuid_text(bits),
                (Err(e), Err(expected)) => e == expected,
                _ => false,
            },
            forall|id: SchedulerReservationId|
                value@ == uuid_text(#[trigger] id.view()) && id.well_formed() ==> r == Ok::<
                    SchedulerReservationId,
                    GeneratedIdError,
                >(id),
    {
        SchedulerReservationId::parse(value)
    }
}

// ---------------------------------------------------------------------------
// Debug output
// ---------------------------------------------------------------------------

impl TenantId {
    /// Returns what is shown of it for debugging.
    pub fn debug_text(&self, alternate: bool) -> (r: String)
        ensures
            r@ == name_text("TenantId"@, self@, alternate),
    {
        name_string("TenantId", self.text.as_str(), alternate)
    }
}

impl core::fmt::Debug for TenantId {
    fn fmt(&self, formatter: &mut core::fmt::Formatter<'_>) -> core::fmt::Result {
        let alternate: bool = is_alternate(formatter);
        write_text(formatter, self.debug_text(alternate).as_str())
    }
}

impl SchedulerShardId {
    /// Returns what is shown of it for debugging.
    pub fn debug_text(&self, alternate: bool) -> (r: String)
        ensures
            r@ == name_text("SchedulerShardId"@, self@, alternate),
    {
        name_string("SchedulerShardId", self.text.as_str(), alternate)
    }
}

impl core::fmt::Debug for SchedulerShardId {
    fn fmt(&self, formatter: &mut core::fmt::Formatter<'_>) -> core::fmt::Result {
        let alternate: bool = is_alternate(formatter);
        write_text(formatter, self.debug_text(alternate).as_str())
    }
}

/// What is shown of a generated identifier.
pub open spec fn generated_shown(name: Seq<char>, bits: u128, alternate: bool) -> Seq<char> {
    tuple_text(name, tuple_text("Hyphenated"@, uuid_text(bits), alternate), alternate)
}

fn show_generated(name: &str, bits: u128, alternate: bool) -> (r: String)
    ensures
        r@ == generated_shown(name@, bits, alternate),
{
    tuple_string(name, tuple_string("Hyphenated", uuid_string(bits), alternate), alternate)
}

impl RunId {
    /// Returns what is shown of it for debugging.
    pub fn debug_text(&self, alternate: bool) -> (r: String)
        ensures
            r@ == generated_shown("RunId"@, self@, alternate),
    {
        show_generated("RunId", self.bits, alternate)
    }
}

impl core::fmt::Debug for RunId {
    fn fmt(&self, formatter: &mut core::fmt::Formatter<'_>) -> core::fmt::Result {
        let alternate: bool = is_alternate(formatter);
        write_text(formatter, self.debug_text(alternate).as_str())
    }
}

impl ThreadId {
    /// Returns what is shown of it for debugging.
    pub fn debug_text(&self, alternate: bool) -> (r: String)
        ensures
            r@ == generated_shown("ThreadId"@, self@, alternate),
    {
        show_generated("ThreadId", self.bits, alternate)
    }
}

impl core::fmt::Debug for ThreadId {
    fn fmt(&self, formatter: &mut core::fmt::Formatter<'_>) -> core::fmt::Result {
        let alternate: bool = is_alternate(formatter);
        write_text(formatter, self.debug_text(alternate).as_str())
    }
}

impl EventId {
    /// Returns what is shown of it for debugging.
    pub fn debug_text(&self, alternate: bool) -> (r: String)
        ensures
            r@ == generated_shown("EventId"@, self@, alternate),
    {
        show_generated("EventId", self.bits, alternate)
    }
}

impl core::fmt::Debug for EventId {
    fn fmt(&self, formatter: &mut core::fmt::Formatter<'_>) -> core::fmt::Result {
        let alternate: bool = is_alternate(formatter);
        write_text(formatter, self.debug_text(alternate).as_str())
    }
}

impl FailureId {
    /// Returns what is shown of it for debugging.
    pub fn debug_text(&self, alternate: bool) -> (r: String)
        ensures
            r@ == generated_shown("FailureId"@, self@, alternate),
    {
        show_generated("FailureId", self.bits, alternate)
    }
}

impl core::fmt::Debug for FailureId {
    fn fmt(&self, formatter: &mut core::fmt::Formatter<'_>) -> core::fmt::Result {
        let alternate: bool = is_alternate(formatter);
        write_text(formatter, self.debug_text(alternate).as_str())
    }
}

impl MessageId {
    /// Returns what is shown of it for debugging.
    pub fn debug_text(&self, alternate: bool) -> (r: String)
        ensures
            r@ == generated_shown("MessageId"@, self@, alternate),
    {
        show_generated("MessageId", self.bits, alternate)
    }
}

impl core::fmt::Debug for MessageId {
    fn fmt(&self, formatter: &mut core::fmt::Formatter<'_>) -> core::fmt::Result {
        let alternate: bool = is_alternate(formatter);
        write_text(formatter, self.debug_text(alternate).as_str())
    }
}

impl ArtifactId {
    /// Returns what is shown of it for debugging.
    pub fn debug_text(&self, alternate: bool) -> (r: String)
        ensures
            r@ == generated_shown("ArtifactId"@, self@, alternate),
    {
        show_generated("ArtifactId", self.bits, alternate)
    }
}

impl core::fmt::Debug for ArtifactId {
    fn fmt(&self, formatter: &mut core::fmt::Formatter<'_>) -> core::fmt::Result {
        let alternate: bool = is_alternate(formatter);
        write_text(formatter, self.debug_text(alternate).as_str())
    }
}

impl InvocationId {
    /// Returns what is shown of it for debugging.
    pub fn debug_text(&self, alternate: bool) -> (r: String)
        ensures
            r@ == generated_shown("InvocationId"@, self@, alternate),
    {
        show_generated("InvocationId", self.bits, alternate)
    }
}

impl core::fmt::Debug for InvocationId {
    fn fmt(&self, formatter: &mut core::fmt::Formatter<'_>) -> core::fmt::Result {
        let alternate: bool = is_alternate(formatter);
        write_text(formatter, self.debug_text(alternate).as_str())
    }
}

impl InterruptId {
    /// Returns what is shown of it for debugging.
    pub fn debug_text(&self, alternate: bool) -> (r: String)
        ensures
            r@ == generated_shown("InterruptId"@, self@, alternate),
    {
        show_generated("InterruptId", self.bits, alternate)
    }
}

impl core::fmt::Debug for InterruptId {
    fn fmt(&self, formatter: &mut core::fmt::Formatter<'_>) -> core::fmt::Result {
        let alternate: bool = is_alternate(formatter);
        write_text(formatter, self.debug_text(alternate).as_str())
    }
}

impl TimerId {
    /// Returns what is shown of it for debugging.
    pub fn debug_text(&self, alternate: bool) -> (r: String)
        ensures
            r@ == generated_shown("TimerId"@, self@, alternate),
    {
        show_generated("TimerId", self.bits, alternate)
    }
}

impl core::fmt::Debug for TimerId {
    fn fmt(&self, formatter: &mut core::fmt::Formatter<'_>) -> core::fmt::Result {
        let alternate: bool = is_alternate(formatter);
        write_text(formatter, self.debug_text(alternate).as_str())
    }
}

impl DeliveryId {
    /// Returns what is shown of it for debugging.
    pub fn debug_text(&self, alternate: bool) -> (r: String)
        ensures
            r@ == generated_shown("DeliveryId"@, self@, alternate),
    {
        show_generated("DeliveryId", self.bits, alternate)
    }
}

impl core::fmt::Debug for DeliveryId {
    fn fmt(&self, formatter: &mut core::fmt::Formatter<'_>) -> core::fmt::Result {
        let alternate: bool = is_alternate(formatter);
        write_text(formatter, self.debug_text(alternate).as_str())
    }
}

impl DestinationId {
    /// Returns what is shown of it for debugging.
    pub fn debug_text(&self, alternate: bool) -> (r: String)
        ensures
            r@ == generated_shown("DestinationId"@, self@, alternate),
    {
        show_generated("DestinationId", self.bits, alternate)
    }
}

impl core::fmt::Debug for DestinationId {
    fn fmt(&self, formatter: &mut core::fmt::Formatter<'_>) -> core::fmt::Result {
        let alternate: bool = is_alternate(formatter);
        write_text(formatter, self.debug_text(alternate).as_str())
    }
}

impl CheckpointId {
    /// Returns what is shown of it for debugging.
    pub fn debug_text(&self, alternate: bool) -> (r: String)
        ensures
            r@ == generated_shown("CheckpointId"@, self@, alternate),
    {
        show_generated("CheckpointId", self.bits, alternate)
    }
}

impl core::fmt::Debug for CheckpointId {
    fn fmt(&self, formatter: &mut core::fmt::Formatter<'_>) -> core::fmt::Result {
        let alternate: bool = is_alternate(formatter);
        write_text(formatter, self.debug_text(alternate).as_str())
    }
}

impl QuarantineId {
    /// Returns what is shown of it for debugging.
    pub fn debug_text(&self, alternate: bool) -> (r: String)
        ensures
            r@ == generated_shown("QuarantineId"@, self@, alternate),
    {
        show_generated("QuarantineId", self.bits, alternate)
    }
}

impl core::fmt::Debug for QuarantineId {
    fn fmt(&self, formatter: &mut core::fmt::Formatter<'_>) -> core::fmt::Result {
        let alternate: bool = is_alternate(formatter);
        write_text(formatter, self.debug_text(alternate).as_str())
    }
}

impl AttemptId {
    /// Returns what is shown of it for debugging.
    pub fn debug_text(&self, alternate: bool) -> (r: String)
        ensures
            r@ == generated_shown("AttemptId"@, self@, alternate),
    {
        show_generated("AttemptId", self.bits, alternate)
    }
}

impl core::fmt::Debug for AttemptId {
    fn fmt(&self, formatter: &mut core::fmt::Formatter<'_>) -> core::fmt::Result {
        let alternate: bool = is_alternate(formatter);
        write_text(formatter, self.debug_text(alternate).as_str())
    }
}

impl SchedulerReservationId {
    /// Returns what is shown of it for debugging.
    pub fn debug_text(&self, alternate: bool) -> (r: String)
        ensures
            r@ == generated_shown("SchedulerReservationId"@, self@, alternate),
    {
        show_generated("SchedulerReservationId", self.bits, alternate)
    }
}

impl core::fmt::Debug for SchedulerReservationId {
    fn fmt(&self, formatter: &mut core::fmt::Formatter<'_>) -> core::fmt::Result {
        let alternate: bool = is_alternate(formatter);
        write_text(formatter, self.debug_text(alternate).as_str())
    }
}

/// The fields that are shown of a submission key.
pub open spec fn submission_key_fields(byte_length: nat) -> Seq<Seq<char>> {
    seq![
        entry_text("byte_length"@, decimal_text(byte_length)),
    ]
}

/// What is shown of a submission key: how long it is.
pub open spec fn submission_key_shown(byte_length: nat, alternate: bool) -> Seq<char> {
    struct_text(
        "AgentSubmissionKey"@,
        submission_key_fields(byte_length),
        true,
        alternate,
    )
}

impl AgentSubmissionKey {
    /// Returns what is shown of it for debugging.
    pub fn debug_text(&self, alternate: bool) -> (r: String)
        ensures
            r@ == submission_key_shown(encode_utf8(self@).len(), alternate),
    {
        let fields = vec![
            entry_string("byte_length", number_string(utf8_len(self.text.as_str()))),
        ];
        assert(texts(fields@) =~= submission_key_fields(encode_utf8(self@).len()));
        struct_string("AgentSubmissionKey", &fields, true, alternate)
    }
}

impl core::fmt::Debug for AgentSubmissionKey {
    fn fmt(&self, formatter: &mut core::fmt::Formatter<'_>) -> core::fmt::Result {
        let alternate: bool = is_alternate(formatter);
        write_text(formatter, self.debug_text(alternate).as_str())
    }
}

} // verus!
