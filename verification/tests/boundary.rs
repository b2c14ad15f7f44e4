use gradient_codec::boundary::{join_across_leases, touch_prohibited_field, JoinClass, PlaneGuardError};

#[test]
fn every_cross_lease_join_fails_closed() {
    for k in [
        JoinClass::IdentityJoin,
        JoinClass::HistoryJoin,
        JoinClass::ReverseLookup,
        JoinClass::RawEgress,
        JoinClass::GlobalTraceCorrelation,
        JoinClass::InferredIdentityPolicy,
    ] {
        let r = join_across_leases(k);
        assert!(r.is_err(), "cross-lease join {:?} must fail closed", k);
        assert_eq!(r, Err(PlaneGuardError::ForbiddenCrossLease(k)));
    }
}

#[test]
fn prohibited_plane_field_fails_closed() {
    for f in [
        "trace_id",
        "prompt_hash",
        "original_trace_id",
        "request_prompt_hash",
    ] {
        assert!(
            touch_prohibited_field(f).is_err(),
            "field {} must fail closed",
            f
        );
    }
}

#[test]
fn guard_is_faithful_to_precedent() {
    assert!(join_across_leases(JoinClass::IdentityJoin).is_err());
    assert!(touch_prohibited_field("seat").is_err());
}

#[test]
fn prohibited_field_error_names_the_field() {
    assert_eq!(
        touch_prohibited_field("prompt_hash"),
        Err(PlaneGuardError::ProhibitedPlaneField("prompt_hash".to_string()))
    );
}
