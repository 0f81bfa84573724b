use stateknot_core::ids::{AttemptId, RunId, TenantId};
use stateknot_core::lease::{
    FencingEpoch, FencingEpochError, RunFence, RunLease, RunLeaseError, RunLeaseValidationError,
};
use stateknot_core::time::Timestamp;

fn at(offset_micros: i64) -> Timestamp {
    let base = "2030-01-01T00:00:00.000000Z".parse::<Timestamp>().unwrap();
    Timestamp::from_unix_micros(base.unix_micros() + offset_micros).unwrap()
}

fn tenant() -> TenantId {
    TenantId::new("tenant-a").unwrap()
}

fn run() -> RunId {
    "01912345-6789-7abc-8def-0123456789ab".parse().unwrap()
}

fn attempt(suffix: &str) -> AttemptId {
    format!("01912345-6789-7abc-8def-0123456789{suffix}")
        .parse()
        .unwrap()
}

fn lease() -> RunLease {
    RunLease::first(tenant(), run(), attempt("ac"), at(10), at(20)).unwrap()
}

#[test]
fn fencing_epochs_are_positive_canonical_database_ordinals() {
    assert_eq!(FencingEpoch::new(1), Ok(FencingEpoch::first()));
    assert_eq!(FencingEpoch::new(0), Err(FencingEpochError::Zero));
    assert_eq!(
        FencingEpoch::new(9_223_372_036_854_775_808),
        Err(FencingEpochError::AboveMaximum)
    );
    assert_eq!(FencingEpoch::max().checked_next(), None);
    assert_eq!(FencingEpoch::first().checked_next().unwrap().get(), 2);

    assert_eq!(FencingEpoch::max().to_string(), i64::MAX.to_string());
    assert_eq!("1".parse::<FencingEpoch>().unwrap(), FencingEpoch::first());
    for invalid in ["0", "01", "x"] {
        assert!(invalid.parse::<FencingEpoch>().is_err());
    }
}

#[test]
fn timestamps_write_canonical_text() {
    for (micros, text) in [
        (1_893_456_000_000_000, "2030-01-01T00:00:00.000000Z"),
        (0, "1970-01-01T00:00:00.000000Z"),
        (-1, "1969-12-31T23:59:59.999999Z"),
        (951_782_400_123_456, "2000-02-29T00:00:00.123456Z"),
        (4_107_542_399_999_999, "2100-02-28T23:59:59.999999Z"),
    ] {
        let timestamp = Timestamp::from_unix_micros(micros).unwrap();
        assert_eq!(timestamp.to_string(), text);
        assert_eq!(text.parse::<Timestamp>(), Ok(timestamp));
    }
    for invalid in [
        "",
        "2030-01-01T00:00:00Z",
        "2030-02-30T00:00:00.000000Z",
        "2030-01-01T24:00:00.000000Z",
        "2030-13-01T00:00:00.000000Z",
        "2030-01-01t00:00:00.000000Z",
        "2030-01-01T00:00:00.000000z",
        "0000-01-01T00:00:00.000000Z",
        "2030-01-01T00:00:00.00000éZ",
    ] {
        assert!(invalid.parse::<Timestamp>().is_err(), "{invalid}");
    }
}

#[test]
fn lease_expiry_is_exclusive() {
    let lease = lease();
    assert_eq!(lease.fence().epoch(), FencingEpoch::first());
    assert_eq!(lease.acquired_at(), at(10));
    assert_eq!(lease.renewed_at(), at(10));
    assert_eq!(lease.expires_at(), at(20));
    assert_eq!(lease.validate_write(lease.fence(), at(10)), Ok(()));
    assert_eq!(lease.validate_write(lease.fence(), at(19)), Ok(()));
    assert_eq!(
        lease.validate_write(lease.fence(), at(20)),
        Err(RunLeaseValidationError::Expired {
            expires_at: at(20),
            observed_at: at(20),
        })
    );
    assert!(matches!(
        lease.validate_write(lease.fence(), at(9)),
        Err(RunLeaseValidationError::ObservationBeforeAcquisition { .. })
    ));
}

#[test]
fn renewal_keeps_the_fence_and_strictly_extends_expiry() {
    let lease = lease();
    let renewed = lease.renewed(lease.fence(), at(19), at(30)).unwrap();
    assert_eq!(renewed.fence(), lease.fence());
    assert_eq!(renewed.acquired_at(), at(10));
    assert_eq!(renewed.renewed_at(), at(19));
    assert_eq!(renewed.expires_at(), at(30));

    assert!(matches!(
        lease.renewed(lease.fence(), at(20), at(30)),
        Err(RunLeaseError::RenewalTooLate { .. })
    ));
    assert!(matches!(
        lease.renewed(lease.fence(), at(19), at(20)),
        Err(RunLeaseError::ExpiryNotExtended { .. })
    ));
    let twice = renewed.renewed(renewed.fence(), at(18), at(40));
    assert!(matches!(
        twice,
        Err(RunLeaseError::RenewalClockRegression { .. })
    ));
}

#[test]
fn supersession_fences_the_old_attempt_even_before_expiry() {
    let old = lease();
    let new = old.superseded(attempt("ad"), at(15), at(25)).unwrap();
    assert_eq!(new.fence().epoch().get(), 2);
    assert_eq!(new.fence().attempt_id(), attempt("ad"));
    assert_eq!(
        new.validate_write(old.fence(), at(16)),
        Err(RunLeaseValidationError::AttemptMismatch {
            expected: attempt("ad"),
            actual: attempt("ac"),
        })
    );
    assert_eq!(new.validate_write(new.fence(), at(16)), Ok(()));
    assert!(matches!(
        old.superseded(attempt("ac"), at(15), at(25)),
        Err(RunLeaseError::AttemptReused { .. })
    ));
    assert!(matches!(
        old.superseded(attempt("ad"), at(9), at(25)),
        Err(RunLeaseError::SupersessionClockRegression { .. })
    ));
}

#[test]
fn every_token_component_is_bound() {
    let lease = lease();
    let other_tenant = RunFence::new(
        TenantId::new("tenant-b").unwrap(),
        run(),
        attempt("ac"),
        FencingEpoch::first(),
    );
    assert_eq!(
        lease.validate_write(&other_tenant, at(15)),
        Err(RunLeaseValidationError::TenantMismatch)
    );

    let other_run = RunFence::new(
        tenant(),
        "01912345-6789-7abc-8def-0123456789bb".parse().unwrap(),
        attempt("ac"),
        FencingEpoch::first(),
    );
    assert_eq!(
        lease.validate_write(&other_run, at(15)),
        Err(RunLeaseValidationError::RunMismatch)
    );

    let other_epoch = RunFence::new(
        tenant(),
        run(),
        attempt("ac"),
        FencingEpoch::new(2).unwrap(),
    );
    assert!(matches!(
        lease.validate_write(&other_epoch, at(15)),
        Err(RunLeaseValidationError::EpochMismatch { .. })
    ));
}

#[test]
fn successor_rejects_epoch_exhaustion() {
    let fence = RunFence::new(tenant(), run(), attempt("ac"), FencingEpoch::max());
    let lease = RunLease::new(fence, at(10), at(20)).unwrap();
    assert_eq!(
        lease.superseded(attempt("ad"), at(20), at(30)),
        Err(RunLeaseError::EpochOverflow)
    );
}

#[test]
fn snapshot_deserialization_revalidates_timing_and_shape() {
    let snapshot = lease();
    assert_eq!(
        RunLease::from_observations(snapshot.fence().clone(), at(10), at(10), at(20)),
        Ok(lease())
    );
    assert!(RunLease::from_observations(snapshot.fence().clone(), at(10), at(10), at(10)).is_err());
    assert!(RunLease::from_observations(snapshot.fence().clone(), at(10), at(9), at(20)).is_err());
}

#[test]
fn renewals_keep_the_token_and_extend() {
    let mut lease = RunLease::first(tenant(), run(), attempt("ac"), at(0), at(10_000)).unwrap();
    let fence = lease.fence().clone();
    let mut observed = 0_i64;
    for offset in [1_i64, 5, 9_000, 77, 10_000, 3] {
        observed = (observed + offset).min(9_999);
        let expiry = lease.expires_at().unix_micros() + 10_000;
        let renewed = lease
            .renewed(&fence, at(observed), Timestamp::from_unix_micros(expiry).unwrap())
            .unwrap();
        assert_eq!(renewed.fence(), &fence);
        assert!(renewed.expires_at().unix_micros() > lease.expires_at().unix_micros());
        lease = renewed;
    }
}

struct Shown<F>(F);

impl<F: Fn(&mut std::fmt::Formatter<'_>) -> std::fmt::Result> std::fmt::Debug for Shown<F> {
    fn fmt(&self, formatter: &mut std::fmt::Formatter<'_>) -> std::fmt::Result {
        (self.0)(formatter)
    }
}

fn assert_shown<F>(value: &dyn std::fmt::Debug, mirror: F)
where
    F: Fn(&mut std::fmt::Formatter<'_>) -> std::fmt::Result,
{
    let shown = Shown(mirror);
    assert_eq!(format!("{value:?}"), format!("{shown:?}"));
    assert_eq!(format!("{value:#?}"), format!("{shown:#?}"));
}

#[test]
fn lease_debug_follows_the_standard_builders() {
    let lease = lease();
    assert_shown(&lease, |f| {
        f.debug_struct("RunLease")
            .field("fence", &lease.fence())
            .field("acquired_at", &lease.acquired_at())
            .field("renewed_at", &lease.renewed_at())
            .field("expires_at", &lease.expires_at())
            .finish_non_exhaustive()
    });
    let fence = lease.fence();
    assert_shown(&fence, |f| {
        f.debug_struct("RunFence")
            .field("tenant_id", &fence.tenant_id())
            .field("run_id", &fence.run_id())
            .field("attempt_id", &fence.attempt_id())
            .field("epoch", &fence.epoch())
            .finish()
    });
    assert_eq!(format!("{:?}", FencingEpoch::first()), "FencingEpoch(1)");
}
