//! Validity windows: not-before/not-after timestamps computed from the
//! issuance time, a configured lifetime in days and a configured
//! clock-skew backdating tolerance.

use vstd::prelude::*;
use crate::errors::CaError;

verus! {

/// Seconds in one day of certificate lifetime.
pub const SECONDS_PER_DAY: u64 = 86400;

/// A not-before/not-after window of seconds-since-epoch timestamps; the
/// window is never empty.
#[derive(Clone, Copy, PartialEq, Eq, Structural, Debug)]
pub struct ValidityPeriod {
    pub not_before: u64,
    pub not_after: u64,
}

impl ValidityPeriod {
    /// The window covers a strictly positive span.
    pub open spec fn wf(&self) -> bool {
        self.not_before < self.not_after
    }
}

/// Computes validity windows; the one piece of configuration is how many
/// seconds a window is backdated to tolerate verifier clock drift.
#[derive(Clone, Copy, PartialEq, Eq, Structural, Debug)]
pub struct ValidityPolicy {
    pub skew_seconds: u64,
}

/// The window a policy assigns to an issuance time and a lifetime:
/// backdated by the skew tolerance, ending a whole number of days after
/// the issuance time.
pub open spec fn spec_compute_validity(
    policy: ValidityPolicy,
    issued_at: u64,
    lifetime_days: u32,
) -> ValidityPeriod {
    ValidityPeriod {
        not_before: (issued_at - policy.skew_seconds) as u64,
        not_after: (issued_at + lifetime_days * SECONDS_PER_DAY) as u64,
    }
}

impl ValidityPolicy {
    /// A policy that backdates every window by `skew_seconds`.
    pub fn new(skew_seconds: u64) -> (r: ValidityPolicy)
        ensures
            r.skew_seconds == skew_seconds,
    {
        ValidityPolicy { skew_seconds }
    }

    /// The window for a certificate issued at `issued_at` that is to live
    /// `lifetime_days` days; fails with `InvalidLifetime` exactly when the
    /// lifetime is zero.
    pub fn compute(&self, issued_at: u64, lifetime_days: u32) -> (r: Result<
        ValidityPeriod,
        CaError,
    >)
        requires
            self.skew_seconds <= issued_at,
            issued_at + lifetime_days * SECONDS_PER_DAY <= u64::MAX,
        ensures
            r is Ok <==> lifetime_days > 0,
            r is Ok ==> r->Ok_0 == spec_compute_validity(*self, issued_at, lifetime_days)
                && (r->Ok_0).wf(),
            r is Err ==> r == Err::<ValidityPeriod, CaError>(CaError::InvalidLifetime),
    {
        if lifetime_days == 0 {
            return Err(CaError::InvalidLifetime);
        }
        let span = (lifetime_days as u64) * SECONDS_PER_DAY;
        Ok(
            ValidityPeriod {
                not_before: issued_at - self.skew_seconds,
                not_after: issued_at + span,
            },
        )
    }
}

/// For every positive lifetime, the computed window spans exactly the
/// requested number of days of seconds, plus the configured skew
/// tolerance by which the start is backdated.
pub proof fn lemma_validity_span(policy: ValidityPolicy, issued_at: u64, lifetime_days: u32)
    requires
        policy.skew_seconds <= issued_at,
        issued_at + lifetime_days * SECONDS_PER_DAY <= u64::MAX,
        lifetime_days > 0,
    ensures
        ({
            let v = spec_compute_validity(policy, issued_at, lifetime_days);
            v.not_after - v.not_before == lifetime_days * SECONDS_PER_DAY
                + policy.skew_seconds
        }),
{
}

} // verus!
