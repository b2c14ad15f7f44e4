//! Fail when a lease boundary is crossed.
//!
//! The coordinate side of the governed crossing: every cross-lease join and
//! every touch of a prohibited-plane field fails closed. There is no allowed
//! branch; the types are meant to make these unrepresentable, and these guards
//! fail closed wherever one is ever attempted.
use vstd::prelude::*;

verus! {

/// A class of cross-lease / cross-plane access attempt.
#[derive(Debug, Clone, Copy, PartialEq, Eq, Structural)]
pub enum JoinClass {
    /// join across leases keyed by seat / principal / principal name / model identity.
    IdentityJoin,
    /// durable-history reconstruction across leases (timeline / profile / biography).
    HistoryJoin,
    /// reverse lookup from a plane record to capsule memory / learned state / identity infra.
    ReverseLookup,
    /// raw / row-level record moved into analytics / training / profiling / seat attribution.
    RawEgress,
    /// a global trace / span id used as a cross-lease correlation key.
    GlobalTraceCorrelation,
    /// a policy decision using inferred identity / resemblance / behavior in place of an authed grant.
    InferredIdentityPolicy,
}

/// The coordinate-side fail-closed boundary error.
#[derive(Debug)]
pub enum PlaneGuardError {
    /// forbidden cross-lease join
    ForbiddenCrossLease(JoinClass),
    /// prohibited-plane field touched
    ProhibitedPlaneField(String),
}

impl PartialEq for PlaneGuardError {
    fn eq(&self, other: &Self) -> (r: bool) {
        match self {
            PlaneGuardError::ForbiddenCrossLease(a) => match other {
                PlaneGuardError::ForbiddenCrossLease(b) => *a == *b,
                _ => false,
            },
            PlaneGuardError::ProhibitedPlaneField(a) => match other {
                PlaneGuardError::ProhibitedPlaneField(b) => *a == *b,
                _ => false,
            },
        }
    }
}

impl vstd::std_specs::cmp::PartialEqSpecImpl for PlaneGuardError {
    open spec fn obeys_eq_spec() -> bool {
        true
    }

    open spec fn eq_spec(&self, other: &Self) -> bool {
        match (self, other) {
            (PlaneGuardError::ForbiddenCrossLease(a), PlaneGuardError::ForbiddenCrossLease(b)) => a
                == b,
            (PlaneGuardError::ProhibitedPlaneField(a), PlaneGuardError::ProhibitedPlaneField(b)) => a@
                == b@,
            _ => false,
        }
    }
}

impl Eq for PlaneGuardError {

}

/// A cross-lease join is barred and fails closed. Always — no allowed branch.
pub fn join_across_leases(kind: JoinClass) -> (r: Result<(), PlaneGuardError>)
    ensures
        r == Err::<(), PlaneGuardError>(PlaneGuardError::ForbiddenCrossLease(kind)),
{
    Err(PlaneGuardError::ForbiddenCrossLease(kind))
}

/// A prohibited-plane field may not enter plane storage / logs / index / cache /
/// analytics types. Fails closed, always, naming the field.
pub fn touch_prohibited_field(name: &str) -> (r: Result<(), PlaneGuardError>)
    ensures
        r matches Err(PlaneGuardError::ProhibitedPlaneField(f)) && f@ == name@,
{
    Err(PlaneGuardError::ProhibitedPlaneField(String::from_str(name)))
}

} // verus!
