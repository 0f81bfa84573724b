//! Execution leases and the fencing tokens of their writers.

use vstd::prelude::*;
use vstd::utf8::encode_utf8;

use crate::debug::{
    entry_string, entry_text, is_alternate, name_text, struct_string, struct_text, tuple_string,
    tuple_text, write_text,
};
use crate::decimal::{
    decimal_string, decimal_text, parse_bounded_u64, parsed_decimal, UnsignedDecimalError,
};
use crate::ids::{generated_shown, uuid_text, AttemptId, RunId, TenantId};
use crate::json_value::{Json, JsonMember, JsonValue, Member};
use crate::text::texts;
use crate::time::{timestamp_text, Timestamp};

verus! {

/// How often the right to write a run has changed hands, counted from one.
#[derive(Clone, Copy, PartialEq, Eq, PartialOrd, Ord, Hash, Structural)]
pub struct FencingEpoch {
    value: u64,
}

/// Rejected fencing epoch.
#[derive(Clone, Copy, Debug, PartialEq, Eq, Structural)]
pub enum FencingEpochError {
    /// The number is zero.
    Zero,
    /// The number exceeds a signed 64-bit column.
    AboveMaximum,
    /// The text is empty or not all digits.
    InvalidFormat,
    /// The text has a leading zero.
    NonCanonical,
}

/// What the rules say of the number of a fencing epoch.
pub open spec fn epoch_check(value: u64) -> Result<u64, FencingEpochError> {
    if value == 0 {
        Err(FencingEpochError::Zero)
    } else if value > 9223372036854775807 {
        Err(FencingEpochError::AboveMaximum)
    } else {
        Ok(value)
    }
}

/// What the bytes of the text of a fencing epoch say.
pub open spec fn parsed_epoch(bytes: Seq<u8>) -> Result<u64, FencingEpochError> {
    match parsed_decimal(bytes, 9223372036854775807) {
        Ok(value) => epoch_check(value),
        Err(UnsignedDecimalError::Empty) => Err(FencingEpochError::InvalidFormat),
        Err(UnsignedDecimalError::InvalidCharacter { .. }) => Err(FencingEpochError::InvalidFormat),
        Err(UnsignedDecimalError::LeadingZero) => Err(FencingEpochError::NonCanonical),
        Err(UnsignedDecimalError::TooLong { .. }) => Err(FencingEpochError::AboveMaximum),
        Err(UnsignedDecimalError::Overflow) => Err(FencingEpochError::AboveMaximum),
    }
}

impl View for FencingEpoch {
    type V = u64;

    closed spec fn view(&self) -> u64 {
        self.value
    }
}

impl FencingEpoch {
    /// The number is positive and fits a signed 64-bit column.
    #[verifier::type_invariant]
    pub open spec fn well_formed(&self) -> bool {
        1 <= self@ <= 9223372036854775807
    }

    /// A fencing epoch is its number.
    pub broadcast proof fn view_determines(a: FencingEpoch, b: FencingEpoch)
        ensures
            #![trigger a.view(), b.view()]
            a.view() == b.view() ==> a == b,
    {
    }

    /// Returns the first fencing epoch.
    pub fn first() -> (r: FencingEpoch)
        ensures
            r@ == 1,
    {
        FencingEpoch { value: 1 }
    }

    /// Returns the last fencing epoch.
    pub fn max() -> (r: FencingEpoch)
        ensures
            r@ == 9223372036854775807,
    {
        FencingEpoch { value: 9223372036854775807 }
    }

    /// Validates a number.
    pub fn new(value: u64) -> (r: Result<FencingEpoch, FencingEpochError>)
        ensures
            match (r, epoch_check(value)) {
                (Ok(made), Ok(_)) => made@ == value,
                (Err(e), Err(expected)) => e == expected,
                _ => false,
            },
    {
        if value == 0 {
            return Err(FencingEpochError::Zero);
        }
        if value > 9223372036854775807 {
            return Err(FencingEpochError::AboveMaximum);
        }
        Ok(FencingEpoch { value })
    }

    /// Returns the number.
    pub fn get(self) -> (r: u64)
        ensures
            r == self@,
            self.well_formed(),
    {
        proof {
            use_type_invariant(&self);
        }
        self.value
    }

    /// Returns the next fencing epoch, or `None` after the last.
    pub fn checked_next(self) -> (r: Option<FencingEpoch>)
        ensures
            r is Some <==> self@ < 9223372036854775807,
            r matches Some(next) ==> next@ == self@ + 1,
    {
        proof {
            use_type_invariant(&self);
        }
        if self.value == 9223372036854775807 {
            None
        } else {
            Some(FencingEpoch { value: self.value + 1 })
        }
    }

    /// Parses canonical decimal text.
    pub fn parse(value: &str) -> (r: Result<FencingEpoch, FencingEpochError>)
        ensures
            match (r, parsed_epoch(encode_utf8(value@))) {
                (Ok(made), Ok(number)) => made@ == number,
                (Err(e), Err(expected)) => e == expected,
                _ => false,
            },
    {
        match parse_bounded_u64(value, 9223372036854775807) {
            Ok(number) => FencingEpoch::new(number),
            Err(UnsignedDecimalError::Empty) => Err(FencingEpochError::InvalidFormat),
            Err(UnsignedDecimalError::InvalidCharacter { index: _ }) => Err(FencingEpochError::InvalidFormat),
            Err(UnsignedDecimalError::LeadingZero) => Err(FencingEpochError::NonCanonical),
            Err(UnsignedDecimalError::TooLong { max: _, actual: _ }) => Err(FencingEpochError::AboveMaximum),
            Err(UnsignedDecimalError::Overflow) => Err(FencingEpochError::AboveMaximum),
        }
    }

    /// Writes canonical decimal text.
    pub fn to_string(&self) -> (r: String)
        ensures
            r@ == decimal_text(self@ as nat),
    {
        decimal_string(self.value)
    }

    /// The text that `to_string` writes reads back as the same number.
    pub proof fn written_reads_back(self)
        requires
            self.well_formed(),
        ensures
            parsed_epoch(encode_utf8(decimal_text(self@ as nat))) == Ok::<u64, FencingEpochError>(self@),
    {
        crate::decimal::written_decimal_reads_back(self@, 9223372036854775807);
    }
}

impl core::str::FromStr for FencingEpoch {
    type Err = FencingEpochError;

    fn from_str(value: &str) -> (r: Result<Self, Self::Err>)
        ensures
            match (r, parsed_epoch(encode_utf8(value@))) {
                (Ok(made), Ok(number)) => made@ == number,
                (Err(e), Err(expected)) => e == expected,
                _ => false,
            },
    {
        FencingEpoch::parse(value)
    }
}

/// The exact token that a worker writes under.
pub struct RunFence {
    tenant_id: TenantId,
    run_id: RunId,
    attempt_id: AttemptId,
    epoch: FencingEpoch,
}

/// The values of [`RunFence`].
pub ghost struct FenceModel {
    pub tenant_id: Seq<char>,
    pub run_id: RunId,
    pub attempt_id: AttemptId,
    pub epoch: FencingEpoch,
}

impl View for RunFence {
    type V = FenceModel;

    closed spec fn view(&self) -> FenceModel {
        FenceModel {
            tenant_id: self.tenant_id@,
            run_id: self.run_id,
            attempt_id: self.attempt_id,
            epoch: self.epoch,
        }
    }
}

impl RunFence {
    /// Names a token.
    pub fn new(
        tenant_id: TenantId,
        run_id: RunId,
        attempt_id: AttemptId,
        epoch: FencingEpoch,
    ) -> (r: RunFence)
        ensures
            r@ == (FenceModel {
                tenant_id: tenant_id@,
                run_id: run_id,
                attempt_id: attempt_id,
                epoch: epoch,
            }),
    {
        RunFence { tenant_id, run_id, attempt_id, epoch }
    }

    /// Returns the tenant.
    pub fn tenant_id(&self) -> (r: &TenantId)
        ensures
            r@ == self@.tenant_id,
    {
        &self.tenant_id
    }

    /// Returns the run.
    pub fn run_id(&self) -> (r: RunId)
        ensures
            r == self@.run_id,
    {
        self.run_id
    }

    /// Returns the attempt.
    pub fn attempt_id(&self) -> (r: AttemptId)
        ensures
            r == self@.attempt_id,
    {
        self.attempt_id
    }

    /// Returns the epoch.
    pub fn epoch(&self) -> (r: FencingEpoch)
        ensures
            r == self@.epoch,
    {
        self.epoch
    }

    /// Writes the JSON form.
    pub fn to_json(&self) -> (r: JsonValue)
        ensures
            r@ == fence_json(self@),
    {
        let members = vec![
            JsonMember::new("tenant_id", JsonValue::text(self.tenant_id.as_str())),
            JsonMember::new("run_id", JsonValue::Text(self.run_id.to_string())),
            JsonMember::new("attempt_id", JsonValue::Text(self.attempt_id.to_string())),
            JsonMember::new("epoch", JsonValue::Text(self.epoch.to_string())),
        ];
        let r = JsonValue::object(members);
        assert(r@->Object_0 =~= fence_json(self@)->Object_0);
        r
    }
}

/// The JSON form of [`RunFence`].
pub open spec fn fence_json(model: FenceModel) -> Json {
    Json::Object(
        seq![
            Member { name: "tenant_id"@, value: Json::Text(model.tenant_id) },
            Member { name: "run_id"@, value: Json::Text(uuid_text(model.run_id@)) },
            Member { name: "attempt_id"@, value: Json::Text(uuid_text(model.attempt_id@)) },
            Member { name: "epoch"@, value: Json::Text(decimal_text(model.epoch@ as nat)) },
        ],
    )
}

impl Clone for RunFence {
    fn clone(&self) -> (r: Self)
        ensures
            r@ == self@,
    {
        RunFence {
            tenant_id: self.tenant_id.clone(),
            run_id: self.run_id,
            attempt_id: self.attempt_id,
            epoch: self.epoch,
        }
    }
}

impl PartialEq for RunFence {
    fn eq(&self, other: &Self) -> (r: bool) {
        self.tenant_id == other.tenant_id
            && self.run_id == other.run_id
            && self.attempt_id == other.attempt_id
            && self.epoch == other.epoch
    }
}

impl vstd::std_specs::cmp::PartialEqSpecImpl for RunFence {
    open spec fn obeys_eq_spec() -> bool {
        true
    }

    open spec fn eq_spec(&self, other: &Self) -> bool {
        self@ == other@
    }
}

impl Eq for RunFence {

}

/// The right of one attempt to write a run, for a while.
pub struct RunLease {
    fence: RunFence,
    acquired_at: Timestamp,
    renewed_at: Timestamp,
    expires_at: Timestamp,
}

/// The values of [`RunLease`].
pub ghost struct LeaseModel {
    pub fence: FenceModel,
    pub acquired_at: Timestamp,
    pub renewed_at: Timestamp,
    pub expires_at: Timestamp,
}

/// Rejected lease.
#[derive(Clone, Copy, Debug, PartialEq, Eq, Structural)]
pub enum RunLeaseError {
    /// The renewal precedes the acquisition.
    RenewalBeforeAcquisition { acquired_at: Timestamp, renewed_at: Timestamp },
    /// The expiry is not after the observation.
    ExpiryNotAfterObservation { observed_at: Timestamp, expires_at: Timestamp },
    /// The renewal is made under another token.
    Fence { source: RunLeaseValidationError },
    /// The renewal precedes the one before.
    RenewalClockRegression { previous: Timestamp, actual: Timestamp },
    /// The renewal comes at or after the expiry.
    RenewalTooLate { expires_at: Timestamp, renewed_at: Timestamp },
    /// The expiry is not extended.
    ExpiryNotExtended { previous: Timestamp, actual: Timestamp },
    /// The successor is the same attempt.
    AttemptReused { attempt_id: AttemptId },
    /// The supersession precedes the last renewal.
    SupersessionClockRegression { previous: Timestamp, actual: Timestamp },
    /// There is no next epoch.
    EpochOverflow,
}

/// Rejected write.
#[derive(Clone, Copy, Debug, PartialEq, Eq, Structural)]
#[allow(inconsistent_fields)]
pub enum RunLeaseValidationError {
    /// The token names another tenant.
    TenantMismatch,
    /// The token names another run.
    RunMismatch,
    /// The token names another attempt.
    AttemptMismatch { expected: AttemptId, actual: AttemptId },
    /// The token names another epoch.
    EpochMismatch { expected: FencingEpoch, actual: FencingEpoch },
    /// The write is observed before the acquisition.
    ObservationBeforeAcquisition { acquired_at: Timestamp, observed_at: Timestamp },
    /// The lease had expired.
    Expired { expires_at: Timestamp, observed_at: Timestamp },
}

/// What a token fails on that is not that of the lease.
pub open spec fn fence_check(current: FenceModel, fence: FenceModel) -> Result<
    (),
    RunLeaseValidationError,
> {
    if fence.tenant_id != current.tenant_id {
        Err(RunLeaseValidationError::TenantMismatch)
    } else if fence.run_id != current.run_id {
        Err(RunLeaseValidationError::RunMismatch)
    } else if fence.attempt_id != current.attempt_id {
        Err(
            RunLeaseValidationError::AttemptMismatch {
                expected: current.attempt_id,
                actual: fence.attempt_id,
            },
        )
    } else if fence.epoch != current.epoch {
        Err(
            RunLeaseValidationError::EpochMismatch {
                expected: current.epoch,
                actual: fence.epoch,
            },
        )
    } else {
        Ok(())
    }
}

/// What a write under a token fails on: the token first, then the time.
pub open spec fn write_check(lease: LeaseModel, fence: FenceModel, observed_at: Timestamp) -> Result<
    (),
    RunLeaseValidationError,
> {
    match fence_check(lease.fence, fence) {
        Err(e) => Err(e),
        Ok(()) => if observed_at@ < lease.acquired_at@ {
            Err(
                RunLeaseValidationError::ObservationBeforeAcquisition {
                    acquired_at: lease.acquired_at,
                    observed_at,
                },
            )
        } else if observed_at@ >= lease.expires_at@ {
            Err(RunLeaseValidationError::Expired { expires_at: lease.expires_at, observed_at })
        } else {
            Ok(())
        },
    }
}

/// What the times of a lease say.
pub open spec fn lease_of(
    fence: FenceModel,
    acquired_at: Timestamp,
    renewed_at: Timestamp,
    expires_at: Timestamp,
) -> Result<LeaseModel, RunLeaseError> {
    if renewed_at@ < acquired_at@ {
        Err(RunLeaseError::RenewalBeforeAcquisition { acquired_at, renewed_at })
    } else if expires_at@ <= renewed_at@ {
        Err(RunLeaseError::ExpiryNotAfterObservation { observed_at: renewed_at, expires_at })
    } else {
        Ok(LeaseModel { fence, acquired_at, renewed_at, expires_at })
    }
}

/// What renewing a lease comes to.
pub open spec fn renewal(
    lease: LeaseModel,
    fence: FenceModel,
    renewed_at: Timestamp,
    expires_at: Timestamp,
) -> Result<LeaseModel, RunLeaseError> {
    match fence_check(lease.fence, fence) {
        Err(source) => Err(RunLeaseError::Fence { source }),
        Ok(()) => if renewed_at@ < lease.renewed_at@ {
            Err(
                RunLeaseError::RenewalClockRegression {
                    previous: lease.renewed_at,
                    actual: renewed_at,
                },
            )
        } else if renewed_at@ >= lease.expires_at@ {
            Err(RunLeaseError::RenewalTooLate { expires_at: lease.expires_at, renewed_at })
        } else if expires_at@ <= lease.expires_at@ {
            Err(
                RunLeaseError::ExpiryNotExtended {
                    previous: lease.expires_at,
                    actual: expires_at,
                },
            )
        } else {
            lease_of(lease.fence, lease.acquired_at, renewed_at, expires_at)
        },
    }
}

/// What handing a run to another attempt comes to.
pub open spec fn supersession(
    lease: LeaseModel,
    attempt_id: AttemptId,
    acquired_at: Timestamp,
    expires_at: Timestamp,
    next: FencingEpoch,
) -> Result<LeaseModel, RunLeaseError> {
    if attempt_id == lease.fence.attempt_id {
        Err(RunLeaseError::AttemptReused { attempt_id })
    } else if acquired_at@ < lease.renewed_at@ {
        Err(
            RunLeaseError::SupersessionClockRegression {
                previous: lease.renewed_at,
                actual: acquired_at,
            },
        )
    } else if lease.fence.epoch@ == 9223372036854775807 {
        Err(RunLeaseError::EpochOverflow)
    } else {
        lease_of(
            FenceModel { attempt_id, epoch: next, ..lease.fence },
            acquired_at,
            acquired_at,
            expires_at,
        )
    }
}

/// The outcome is the expected one.
pub open spec fn lease_outcome(
    r: Result<RunLease, RunLeaseError>,
    expected: Result<LeaseModel, RunLeaseError>,
) -> bool {
    match (r, expected) {
        (Ok(lease), Ok(model)) => lease@ == model,
        (Err(e), Err(failure)) => e == failure,
        _ => false,
    }
}

/// What holds of every lease.
pub open spec fn lease_sound(lease: LeaseModel) -> bool {
    lease.acquired_at@ <= lease.renewed_at@ < lease.expires_at@
}

impl View for RunLease {
    type V = LeaseModel;

    closed spec fn view(&self) -> LeaseModel {
        LeaseModel {
            fence: self.fence@,
            acquired_at: self.acquired_at,
            renewed_at: self.renewed_at,
            expires_at: self.expires_at,
        }
    }
}

impl RunLease {
    /// The times are in order.
    #[verifier::type_invariant]
    pub open spec fn well_formed(&self) -> bool {
        lease_sound(self@)
    }

    /// Grants a lease.
    pub fn new(fence: RunFence, acquired_at: Timestamp, expires_at: Timestamp) -> (r: Result<
        RunLease,
        RunLeaseError,
    >)
        ensures
            lease_outcome(r, lease_of(fence@, acquired_at, acquired_at, expires_at)),
    {
        RunLease::from_observations(fence, acquired_at, acquired_at, expires_at)
    }

    /// Grants the first lease of a run.
    pub fn first(
        tenant_id: TenantId,
        run_id: RunId,
        attempt_id: AttemptId,
        acquired_at: Timestamp,
        expires_at: Timestamp,
    ) -> (r: Result<RunLease, RunLeaseError>)
        ensures
            exists|epoch: FencingEpoch| #[trigger]
                epoch.view() == 1 && lease_outcome(
                    r,
                    lease_of(
                        FenceModel { tenant_id: tenant_id@, run_id, attempt_id, epoch },
                        acquired_at,
                        acquired_at,
                        expires_at,
                    ),
                ),
    {
        let epoch = FencingEpoch::first();
        assert(epoch.view() == 1);
        RunLease::new(RunFence::new(tenant_id, run_id, attempt_id, epoch), acquired_at, expires_at)
    }

    /// Restores a lease from its recorded times.
    pub fn from_observations(
        fence: RunFence,
        acquired_at: Timestamp,
        renewed_at: Timestamp,
        expires_at: Timestamp,
    ) -> (r: Result<RunLease, RunLeaseError>)
        ensures
            lease_outcome(r, lease_of(fence@, acquired_at, renewed_at, expires_at)),
    {
        if renewed_at.unix_micros() < acquired_at.unix_micros() {
            return Err(RunLeaseError::RenewalBeforeAcquisition { acquired_at, renewed_at });
        }
        if expires_at.unix_micros() <= renewed_at.unix_micros() {
            return Err(
                RunLeaseError::ExpiryNotAfterObservation { observed_at: renewed_at, expires_at },
            );
        }
        Ok(RunLease { fence, acquired_at, renewed_at, expires_at })
    }

    /// Returns the token.
    pub fn fence(&self) -> (r: &RunFence)
        ensures
            r@ == self@.fence,
    {
        &self.fence
    }

    /// Returns when the lease was acquired.
    pub fn acquired_at(&self) -> (r: Timestamp)
        ensures
            r == self@.acquired_at,
    {
        self.acquired_at
    }

    /// Returns when the lease was last renewed.
    pub fn renewed_at(&self) -> (r: Timestamp)
        ensures
            r == self@.renewed_at,
    {
        self.renewed_at
    }

    /// Returns when the lease expires.
    pub fn expires_at(&self) -> (r: Timestamp)
        ensures
            r == self@.expires_at,
    {
        self.expires_at
    }

    /// Checks a write under a token. The expiry itself is too late.
    pub fn validate_write(&self, fence: &RunFence, observed_at: Timestamp) -> (r: Result<
        (),
        RunLeaseValidationError,
    >)
        ensures
            r == write_check(self@, fence@, observed_at),
    {
        self.validate_fence(fence)?;
        if observed_at.unix_micros() < self.acquired_at.unix_micros() {
            return Err(
                RunLeaseValidationError::ObservationBeforeAcquisition {
                    acquired_at: self.acquired_at,
                    observed_at,
                },
            );
        }
        if observed_at.unix_micros() >= self.expires_at.unix_micros() {
            return Err(
                RunLeaseValidationError::Expired { expires_at: self.expires_at, observed_at },
            );
        }
        Ok(())
    }

    /// Renews the lease under its token.
    pub fn renewed(&self, fence: &RunFence, renewed_at: Timestamp, expires_at: Timestamp) -> (r:
        Result<RunLease, RunLeaseError>)
        ensures
            lease_outcome(r, renewal(self@, fence@, renewed_at, expires_at)),
    {
        match self.validate_fence(fence) {
            Ok(()) => {},
            Err(source) => {
                return Err(RunLeaseError::Fence { source });
            },
        }
        if renewed_at.unix_micros() < self.renewed_at.unix_micros() {
            return Err(
                RunLeaseError::RenewalClockRegression {
                    previous: self.renewed_at,
                    actual: renewed_at,
                },
            );
        }
        if renewed_at.unix_micros() >= self.expires_at.unix_micros() {
            return Err(RunLeaseError::RenewalTooLate { expires_at: self.expires_at, renewed_at });
        }
        if expires_at.unix_micros() <= self.expires_at.unix_micros() {
            return Err(
                RunLeaseError::ExpiryNotExtended { previous: self.expires_at, actual: expires_at },
            );
        }
        RunLease::from_observations(self.fence.clone(), self.acquired_at, renewed_at, expires_at)
    }

    /// Hands the run to another attempt under the next epoch.
    pub fn superseded(
        &self,
        attempt_id: AttemptId,
        acquired_at: Timestamp,
        expires_at: Timestamp,
    ) -> (r: Result<RunLease, RunLeaseError>)
        ensures
            exists|next: FencingEpoch|
                (#[trigger] next.view() == self@.fence.epoch@ + 1 || self@.fence.epoch@
                    == 9223372036854775807) && lease_outcome(
                    r,
                    supersession(self@, attempt_id, acquired_at, expires_at, next),
                ),
    {
        proof {
            use_type_invariant(&self.fence.epoch);
        }
        let next_epoch = self.fence.epoch().checked_next();
        let ghost next = match next_epoch {
            Some(epoch) => epoch,
            None => self.fence.epoch,
        };
        assert(next.view() == self@.fence.epoch@ + 1 || self@.fence.epoch@ == 9223372036854775807);
        if attempt_id == self.fence.attempt_id() {
            return Err(RunLeaseError::AttemptReused { attempt_id });
        }
        if acquired_at.unix_micros() < self.renewed_at.unix_micros() {
            return Err(
                RunLeaseError::SupersessionClockRegression {
                    previous: self.renewed_at,
                    actual: acquired_at,
                },
            );
        }
        let epoch = match next_epoch {
            Some(epoch) => epoch,
            None => {
                return Err(RunLeaseError::EpochOverflow);
            },
        };
        let fence = RunFence::new(
            self.fence.tenant_id().clone(),
            self.fence.run_id(),
            attempt_id,
            epoch,
        );
        RunLease::new(fence, acquired_at, expires_at)
    }

    /// Checks a token against that of the lease.
    fn validate_fence(&self, fence: &RunFence) -> (r: Result<(), RunLeaseValidationError>)
        ensures
            r == fence_check(self@.fence, fence@),
    {
        if *fence.tenant_id() != *self.fence.tenant_id() {
            return Err(RunLeaseValidationError::TenantMismatch);
        }
        if fence.run_id() != self.fence.run_id() {
            return Err(RunLeaseValidationError::RunMismatch);
        }
        if fence.attempt_id() != self.fence.attempt_id() {
            return Err(
                RunLeaseValidationError::AttemptMismatch {
                    expected: self.fence.attempt_id(),
                    actual: fence.attempt_id(),
                },
            );
        }
        if fence.epoch() != self.fence.epoch() {
            return Err(
                RunLeaseValidationError::EpochMismatch {
                    expected: self.fence.epoch(),
                    actual: fence.epoch(),
                },
            );
        }
        Ok(())
    }
}

impl Clone for RunLease {
    fn clone(&self) -> (r: Self)
        ensures
            r@ == self@,
    {
        proof {
            use_type_invariant(self);
        }
        RunLease {
            fence: self.fence.clone(),
            acquired_at: self.acquired_at,
            renewed_at: self.renewed_at,
            expires_at: self.expires_at,
        }
    }
}

impl PartialEq for RunLease {
    fn eq(&self, other: &Self) -> (r: bool) {
        self.fence == other.fence && self.acquired_at == other.acquired_at && self.renewed_at
            == other.renewed_at && self.expires_at == other.expires_at
    }
}

impl vstd::std_specs::cmp::PartialEqSpecImpl for RunLease {
    open spec fn obeys_eq_spec() -> bool {
        true
    }

    open spec fn eq_spec(&self, other: &Self) -> bool {
        self@ == other@
    }
}

impl Eq for RunLease {

}

// ---------------------------------------------------------------------------
// Laws
// ---------------------------------------------------------------------------

/// A write is accepted exactly under the token of the lease, from the
/// acquisition on and before the expiry.
pub proof fn write_accepted_exactly(lease: LeaseModel, fence: FenceModel, observed_at: Timestamp)
    ensures
        write_check(lease, fence, observed_at) is Ok <==> fence == lease.fence
            && lease.acquired_at@ <= observed_at@ < lease.expires_at@,
{
}

/// A renewal keeps the token and the acquisition and strictly extends the
/// expiry, so every write that was accepted still is.
pub proof fn renewal_extends(
    lease: LeaseModel,
    fence: FenceModel,
    renewed_at: Timestamp,
    expires_at: Timestamp,
    writer: FenceModel,
    observed_at: Timestamp,
)
    requires
        renewal(lease, fence, renewed_at, expires_at) is Ok,
    ensures
        ({
            let renewed = renewal(lease, fence, renewed_at, expires_at)->Ok_0;
            &&& renewed.fence == lease.fence
            &&& renewed.acquired_at == lease.acquired_at
            &&& lease.renewed_at@ <= renewed.renewed_at@
            &&& lease.expires_at@ < renewed.expires_at@
            &&& lease_sound(renewed) <== lease_sound(lease)
            &&& write_check(lease, writer, observed_at) is Ok ==> write_check(
                renewed,
                writer,
                observed_at,
            ) is Ok
        }),
{
}

/// Once a run is handed on, the old token is refused whenever it is used, and
/// the new one is never the old one.
pub proof fn supersession_fences_the_old_token(
    lease: LeaseModel,
    attempt_id: AttemptId,
    acquired_at: Timestamp,
    expires_at: Timestamp,
    next: FencingEpoch,
    observed_at: Timestamp,
)
    requires
        next@ == lease.fence.epoch@ + 1,
        supersession(lease, attempt_id, acquired_at, expires_at, next) is Ok,
    ensures
        ({
            let successor = supersession(lease, attempt_id, acquired_at, expires_at, next)->Ok_0;
            &&& successor.fence.tenant_id == lease.fence.tenant_id
            &&& successor.fence.run_id == lease.fence.run_id
            &&& successor.fence.epoch@ == lease.fence.epoch@ + 1
            &&& successor.fence != lease.fence
            &&& write_check(successor, lease.fence, observed_at) == Err::<
                (),
                RunLeaseValidationError,
            >(
                RunLeaseValidationError::AttemptMismatch {
                    expected: attempt_id,
                    actual: lease.fence.attempt_id,
                },
            )
            &&& write_check(successor, successor.fence, observed_at) is Ok <==> acquired_at@
                <= observed_at@ < expires_at@
        }),
{
}

// ---------------------------------------------------------------------------
// Debug output
// ---------------------------------------------------------------------------

impl FencingEpoch {
    /// Returns what is shown of it for debugging.
    pub fn debug_text(&self, alternate: bool) -> (r: String)
        ensures
            r@ == tuple_text("FencingEpoch"@, decimal_text(self@ as nat), alternate),
    {
        tuple_string("FencingEpoch", decimal_string(self.value), alternate)
    }
}

impl core::fmt::Debug for FencingEpoch {
    fn fmt(&self, formatter: &mut core::fmt::Formatter<'_>) -> core::fmt::Result {
        let alternate: bool = is_alternate(formatter);
        write_text(formatter, self.debug_text(alternate).as_str())
    }
}

/// The fields that are shown of a fence.
pub open spec fn fence_fields(model: FenceModel, alternate: bool) -> Seq<Seq<char>> {
    seq![
        entry_text("tenant_id"@, name_text("TenantId"@, model.tenant_id, alternate)),
        entry_text("run_id"@, generated_shown("RunId"@, model.run_id@, alternate)),
        entry_text("attempt_id"@, generated_shown("AttemptId"@, model.attempt_id@, alternate)),
        entry_text(
            "epoch"@,
            tuple_text("FencingEpoch"@, decimal_text(model.epoch@ as nat), alternate),
        ),
    ]
}

/// What is shown of a fence.
pub open spec fn fence_shown(model: FenceModel, alternate: bool) -> Seq<char> {
    struct_text("RunFence"@, fence_fields(model, alternate), false, alternate)
}

impl RunFence {
    /// Returns what is shown of it for debugging.
    pub fn debug_text(&self, alternate: bool) -> (r: String)
        ensures
            r@ == fence_shown(self@, alternate),
    {
        let fields = vec![
            entry_string("tenant_id", self.tenant_id.debug_text(alternate)),
            entry_string("run_id", self.run_id.debug_text(alternate)),
            entry_string("attempt_id", self.attempt_id.debug_text(alternate)),
            entry_string("epoch", self.epoch.debug_text(alternate)),
        ];
        assert(texts(fields@) =~= fence_fields(self@, alternate));
        struct_string("RunFence", &fields, false, alternate)
    }
}

impl core::fmt::Debug for RunFence {
    fn fmt(&self, formatter: &mut core::fmt::Formatter<'_>) -> core::fmt::Result {
        let alternate: bool = is_alternate(formatter);
        write_text(formatter, self.debug_text(alternate).as_str())
    }
}

/// The fields that are shown of a lease.
pub open spec fn lease_fields(model: LeaseModel, alternate: bool) -> Seq<Seq<char>> {
    seq![
        entry_text("fence"@, fence_shown(model.fence, alternate)),
        entry_text(
            "acquired_at"@,
            tuple_text("Timestamp"@, timestamp_text(model.acquired_at@), alternate),
        ),
        entry_text(
            "renewed_at"@,
            tuple_text("Timestamp"@, timestamp_text(model.renewed_at@), alternate),
        ),
        entry_text(
            "expires_at"@,
            tuple_text("Timestamp"@, timestamp_text(model.expires_at@), alternate),
        ),
    ]
}

/// What is shown of a lease.
pub open spec fn lease_shown(model: LeaseModel, alternate: bool) -> Seq<char> {
    struct_text("RunLease"@, lease_fields(model, alternate), true, alternate)
}

impl RunLease {
    /// Returns what is shown of it for debugging.
    pub fn debug_text(&self, alternate: bool) -> (r: String)
        ensures
            r@ == lease_shown(self@, alternate),
    {
        let fields = vec![
            entry_string("fence", self.fence.debug_text(alternate)),
            entry_string("acquired_at", self.acquired_at.debug_text(alternate)),
            entry_string("renewed_at", self.renewed_at.debug_text(alternate)),
            entry_string("expires_at", self.expires_at.debug_text(alternate)),
        ];
        assert(texts(fields@) =~= lease_fields(self@, alternate));
        struct_string("RunLease", &fields, true, alternate)
    }
}

impl core::fmt::Debug for RunLease {
    fn fmt(&self, formatter: &mut core::fmt::Formatter<'_>) -> core::fmt::Result {
        let alternate: bool = is_alternate(formatter);
        write_text(formatter, self.debug_text(alternate).as_str())
    }
}

} // verus!
