//! What holds of every lease, whatever is asked of it.

use vstd::prelude::*;

use crate::ids::AttemptId;
use crate::lease::{
    fence_check, lease_of, renewal, supersession, write_check, FenceModel, FencingEpoch,
    LeaseModel, RunLeaseError, RunLeaseValidationError,
};
use crate::time::Timestamp;

verus! {

/// A lease begins no later than it is renewed, and ends later than that. It
/// has exactly the times and the token that it was made with.
pub proof fn leases_accepted_exactly(
    fence: FenceModel,
    acquired_at: Timestamp,
    renewed_at: Timestamp,
    expires_at: Timestamp,
)
    ensures
        lease_of(fence, acquired_at, renewed_at, expires_at) is Ok <==> acquired_at@ <= renewed_at@
            && renewed_at@ < expires_at@,
        lease_of(fence, acquired_at, renewed_at, expires_at) matches Ok(lease) ==> {
            &&& lease.fence == fence
            &&& lease.acquired_at == acquired_at
            &&& lease.renewed_at == renewed_at
            &&& lease.expires_at == expires_at
        },
        lease_of(fence, acquired_at, renewed_at, expires_at) matches Err(e) ==> {
            ||| renewed_at@ < acquired_at@ && e == (RunLeaseError::RenewalBeforeAcquisition {
                acquired_at,
                renewed_at,
            })
            ||| acquired_at@ <= renewed_at@ && expires_at@ <= renewed_at@ && e == (
            RunLeaseError::ExpiryNotAfterObservation { observed_at: renewed_at, expires_at })
        },
{
}

/// A renewal is accepted exactly if it is made under the token of the lease, no
/// earlier than the last renewal, before the lease ends, and for longer than
/// that. The renewed lease has the token and the acquisition of the old one
/// and the times that were asked for.
pub proof fn renewal_accepted_exactly(
    lease: LeaseModel,
    fence: FenceModel,
    renewed_at: Timestamp,
    expires_at: Timestamp,
)
    requires
        lease.acquired_at@ <= lease.renewed_at@ < lease.expires_at@,
    ensures
        renewal(lease, fence, renewed_at, expires_at) is Ok <==> {
            &&& fence.tenant_id == lease.fence.tenant_id
            &&& fence.run_id == lease.fence.run_id
            &&& fence.attempt_id == lease.fence.attempt_id
            &&& fence.epoch == lease.fence.epoch
            &&& lease.renewed_at@ <= renewed_at@
            &&& renewed_at@ < lease.expires_at@
            &&& lease.expires_at@ < expires_at@
        },
        renewal(lease, fence, renewed_at, expires_at) matches Ok(renewed) ==> {
            &&& renewed.fence == lease.fence
            &&& renewed.acquired_at == lease.acquired_at
            &&& renewed.renewed_at == renewed_at
            &&& renewed.expires_at == expires_at
        },
{
}

/// A renewal that is refused is refused for what it says: another token, a
/// clock that went back, a lease that had ended, or an end that is not later.
/// They are named in that order.
pub proof fn refused_renewal_says_why(
    lease: LeaseModel,
    fence: FenceModel,
    renewed_at: Timestamp,
    expires_at: Timestamp,
)
    requires
        lease.acquired_at@ <= lease.renewed_at@ < lease.expires_at@,
    ensures
        fence != lease.fence <==> (renewal(lease, fence, renewed_at, expires_at) matches Err(e)
            && e is Fence),
        fence == lease.fence && renewed_at@ < lease.renewed_at@ <==> renewal(
            lease,
            fence,
            renewed_at,
            expires_at,
        ) == Err::<LeaseModel, RunLeaseError>(
            RunLeaseError::RenewalClockRegression {
                previous: lease.renewed_at,
                actual: renewed_at,
            },
        ),
        fence == lease.fence && lease.expires_at@ <= renewed_at@ <==> renewal(
            lease,
            fence,
            renewed_at,
            expires_at,
        ) == Err::<LeaseModel, RunLeaseError>(
            RunLeaseError::RenewalTooLate { expires_at: lease.expires_at, renewed_at },
        ),
        fence == lease.fence && lease.renewed_at@ <= renewed_at@ && renewed_at@
            < lease.expires_at@ && expires_at@ <= lease.expires_at@ <==> renewal(
            lease,
            fence,
            renewed_at,
            expires_at,
        ) == Err::<LeaseModel, RunLeaseError>(
            RunLeaseError::ExpiryNotExtended { previous: lease.expires_at, actual: expires_at },
        ),
{
}

/// From the moment a lease ends on, it lets no write and no renewal pass, under
/// whatever token and for however long.
pub proof fn ended_lease_stays_ended(
    lease: LeaseModel,
    fence: FenceModel,
    at: Timestamp,
    expires_at: Timestamp,
)
    requires
        lease.expires_at@ <= at@,
    ensures
        write_check(lease, fence, at) is Err,
        renewal(lease, fence, at, expires_at) is Err,
{
}

/// Whoever may renew a lease may write at that moment.
pub proof fn renewing_needs_the_right_to_write(
    lease: LeaseModel,
    fence: FenceModel,
    at: Timestamp,
    expires_at: Timestamp,
)
    requires
        lease.acquired_at@ <= lease.renewed_at@ < lease.expires_at@,
        renewal(lease, fence, at, expires_at) is Ok,
    ensures
        write_check(lease, fence, at) is Ok,
        write_check(renewal(lease, fence, at, expires_at)->Ok_0, fence, lease.expires_at) is Ok,
{
}

/// A token passes exactly if it is that of the lease, field by field, and one
/// that does not is told the first field that differs.
pub proof fn tokens_pass_exactly(current: FenceModel, fence: FenceModel)
    ensures
        fence_check(current, fence) is Ok <==> {
            &&& fence.tenant_id == current.tenant_id
            &&& fence.run_id == current.run_id
            &&& fence.attempt_id == current.attempt_id
            &&& fence.epoch == current.epoch
        },
        fence.tenant_id != current.tenant_id <==> fence_check(current, fence) == Err::<
            (),
            RunLeaseValidationError,
        >(RunLeaseValidationError::TenantMismatch),
        fence.tenant_id == current.tenant_id && fence.run_id != current.run_id <==> fence_check(
            current,
            fence,
        ) == Err::<(), RunLeaseValidationError>(RunLeaseValidationError::RunMismatch),
        fence.tenant_id == current.tenant_id && fence.run_id == current.run_id && fence.attempt_id
            != current.attempt_id <==> fence_check(current, fence) == Err::<
            (),
            RunLeaseValidationError,
        >(
            RunLeaseValidationError::AttemptMismatch {
                expected: current.attempt_id,
                actual: fence.attempt_id,
            },
        ),
        fence.tenant_id == current.tenant_id && fence.run_id == current.run_id && fence.attempt_id
            == current.attempt_id && fence.epoch != current.epoch <==> fence_check(current, fence)
            == Err::<(), RunLeaseValidationError>(
            RunLeaseValidationError::EpochMismatch {
                expected: current.epoch,
                actual: fence.epoch,
            },
        ),
{
}

/// A write that is refused under the right token is refused for its time.
pub proof fn refused_write_says_why(lease: LeaseModel, at: Timestamp)
    requires
        lease.acquired_at@ < lease.expires_at@,
    ensures
        at@ < lease.acquired_at@ <==> write_check(lease, lease.fence, at) == Err::<
            (),
            RunLeaseValidationError,
        >(
            RunLeaseValidationError::ObservationBeforeAcquisition {
                acquired_at: lease.acquired_at,
                observed_at: at,
            },
        ),
        lease.expires_at@ <= at@ <==> write_check(lease, lease.fence, at) == Err::<
            (),
            RunLeaseValidationError,
        >(RunLeaseValidationError::Expired { expires_at: lease.expires_at, observed_at: at }),
{
}

/// A run is handed on exactly if it goes to another attempt, no earlier than
/// the last renewal, with an epoch left and for some time. The new lease is of
/// the same run, begins when it was taken and ends as was asked for.
pub proof fn supersession_accepted_exactly(
    lease: LeaseModel,
    attempt_id: AttemptId,
    acquired_at: Timestamp,
    expires_at: Timestamp,
    next: FencingEpoch,
)
    ensures
        supersession(lease, attempt_id, acquired_at, expires_at, next) is Ok <==> {
            &&& attempt_id != lease.fence.attempt_id
            &&& lease.renewed_at@ <= acquired_at@
            &&& lease.fence.epoch@ != 9223372036854775807
            &&& acquired_at@ < expires_at@
        },
        supersession(lease, attempt_id, acquired_at, expires_at, next) matches Ok(successor) ==> {
            &&& successor.fence.tenant_id == lease.fence.tenant_id
            &&& successor.fence.run_id == lease.fence.run_id
            &&& successor.fence.attempt_id == attempt_id
            &&& successor.fence.epoch == next
            &&& successor.acquired_at == acquired_at
            &&& successor.renewed_at == acquired_at
            &&& successor.expires_at == expires_at
        },
        attempt_id == lease.fence.attempt_id <==> supersession(
            lease,
            attempt_id,
            acquired_at,
            expires_at,
            next,
        ) == Err::<LeaseModel, RunLeaseError>(RunLeaseError::AttemptReused { attempt_id }),
        attempt_id != lease.fence.attempt_id && acquired_at@ < lease.renewed_at@ <==> supersession(
            lease,
            attempt_id,
            acquired_at,
            expires_at,
            next,
        ) == Err::<LeaseModel, RunLeaseError>(
            RunLeaseError::SupersessionClockRegression {
                previous: lease.renewed_at,
                actual: acquired_at,
            },
        ),
        attempt_id != lease.fence.attempt_id && lease.renewed_at@ <= acquired_at@
            && lease.fence.epoch@ == 9223372036854775807 <==> supersession(
            lease,
            attempt_id,
            acquired_at,
            expires_at,
            next,
        ) == Err::<LeaseModel, RunLeaseError>(RunLeaseError::EpochOverflow),
{
}

/// However often a run is handed on, a token of an earlier lease never passes
/// under a later one: epochs only grow.
pub proof fn epochs_only_grow(
    lease: LeaseModel,
    attempt_id: AttemptId,
    acquired_at: Timestamp,
    expires_at: Timestamp,
    next: FencingEpoch,
    stale: FenceModel,
    at: Timestamp,
)
    requires
        next@ == lease.fence.epoch@ + 1,
        supersession(lease, attempt_id, acquired_at, expires_at, next) is Ok,
        stale.epoch@ <= lease.fence.epoch@,
    ensures
        write_check(
            supersession(lease, attempt_id, acquired_at, expires_at, next)->Ok_0,
            stale,
            at,
        ) is Err,
{
}

} // verus!
