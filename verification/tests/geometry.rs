use gradient_codec::crust::{TetherNetwork, CRUST_NODE_NAMES};
use gradient_codec::geometry::{
    glyph_weight_class, observed_n1, observed_n2, DomainWall, GaugeCoupling, Vector13D, Vector15D,
    Vector15DError,
};

fn b(x: f64) -> u64 {
    x.to_bits()
}

#[test]
fn test_default() {
    let v = Vector13D::default();
    assert_eq!(f64::from_bits(v.amplitude), 0.0);
    assert_eq!(v.domain_wall, DomainWall::Linked);
}

#[test]
fn default_state_has_half_ozone_and_static_rotation() {
    let v = Vector15D::default();
    assert_eq!(f64::from_bits(v.ozone_buffer), 0.5);
    assert_eq!(v.gauge_coupling, GaugeCoupling::Static);
    assert!(v.validate().is_ok());
}

#[test]
fn nan_fields_do_not_hard_fail() {
    let v = Vector13D {
        amplitude: b(f64::NAN),
        ..Default::default()
    };
    let result = v.validate();
    assert!(result.is_err(), "validate() must Err on NaN amplitude");
    match result {
        Err(Vector15DError::NonFinite { field, value }) => {
            assert_eq!(field, "amplitude");
            assert_eq!(value, "NaN");
        }
        _ => panic!("expected NonFinite error for NaN"),
    }
}

#[test]
fn inf_fields_rejected() {
    let v = Vector13D {
        entropy: b(f64::INFINITY),
        ..Default::default()
    };
    let result = v.validate();
    assert!(result.is_err(), "validate() must Err on Inf entropy");
    match result {
        Err(Vector15DError::NonFinite { field, value }) => {
            assert_eq!(field, "entropy");
            assert_eq!(value, "Infinite");
        }
        _ => panic!("expected NonFinite error for Inf"),
    }
}

#[test]
fn neg_inf_fields_rejected() {
    let v = Vector13D {
        torsion: b(f64::NEG_INFINITY),
        ..Default::default()
    };
    assert!(
        v.validate().is_err(),
        "validate() must Err on NegInf torsion"
    );
}

#[test]
fn try_new_rejects_nan() {
    let result = Vector13D::try_new(
        b(0.5),
        b(1.0),
        b(180.0),
        b(0.55),
        b(0.08),
        b(0.78),
        b(0.45),
        b(0.40),
        DomainWall::Linked,
        b(331.4),
        b(-50.0),
        GaugeCoupling::Spinning,
        b(f64::NAN),
    );
    assert!(result.is_err(), "try_new with NaN closure must Err");
}

#[test]
fn try_new_accepts_finite() {
    let result = Vector13D::try_new(
        b(0.72),
        b(1.0),
        b(180.0),
        b(0.55),
        b(0.08),
        b(0.78),
        b(0.45),
        b(0.40),
        DomainWall::Linked,
        b(331.4),
        b(-50.0),
        GaugeCoupling::Spinning,
        b(0.6),
    );
    assert!(result.is_ok(), "try_new with all finite values must Ok");
}

#[test]
fn observed_baselines_are_finite() {
    for v in observed_n1() {
        assert!(v.validate().is_ok(), "n1 baseline must be finite");
    }
    for v in observed_n2() {
        assert!(v.validate().is_ok(), "n2 baseline must be finite");
    }
}

#[test]
fn nan_in_each_field_caught() {
    let d = Vector13D::default;
    let nan = b(f64::NAN);
    let fields_with_nan: Vec<(&str, Vector13D)> = vec![
        ("amplitude", Vector13D { amplitude: nan, ..d() }),
        ("frequency", Vector13D { frequency: nan, ..d() }),
        ("phase", Vector13D { phase: nan, ..d() }),
        ("coherence", Vector13D { coherence: nan, ..d() }),
        ("entropy", Vector13D { entropy: nan, ..d() }),
        ("composition", Vector13D { composition: nan, ..d() }),
        ("resonance", Vector13D { resonance: nan, ..d() }),
        ("ozone_buffer", Vector13D { ozone_buffer: nan, ..d() }),
        ("su2_polarity", Vector13D { su2_polarity: nan, ..d() }),
        ("torsion", Vector13D { torsion: nan, ..d() }),
        ("closure", Vector13D { closure: nan, ..d() }),
    ];
    for (name, v) in &fields_with_nan {
        assert!(
            v.validate().is_err(),
            "NaN in {} must be caught by validate()",
            name
        );
        match v.validate() {
            Err(Vector15DError::NonFinite { field, value }) => {
                assert_eq!(field, *name);
                assert_eq!(value, "NaN");
            }
            Ok(()) => panic!("NaN in {} passed", name),
        }
    }
}

#[test]
fn first_bad_field_is_reported() {
    let v = Vector15D {
        phase: b(f64::INFINITY),
        closure: b(f64::NAN),
        ..Default::default()
    };
    match v.validate() {
        Err(Vector15DError::NonFinite { field, value }) => {
            assert_eq!(field, "phase");
            assert_eq!(value, "Infinite");
        }
        Ok(()) => panic!("must fail"),
    }
}

#[test]
fn poles_nan_rejected() {
    let mut v = Vector15D::default();
    v.magnetic_north = b(f64::NAN);
    assert!(v.validate().is_err(), "NaN magnetic_north must Err");
    v = Vector15D::default();
    v.magnetic_south = b(f64::INFINITY);
    assert!(v.validate().is_err(), "Inf magnetic_south must Err");
}

#[test]
fn try_new_zeros_poles() {
    let v = Vector15D::try_new(
        b(0.5), b(0.5), b(0.0), b(0.5), b(0.2), b(0.5), b(0.5), b(0.5),
        DomainWall::Linked, b(200.0), b(0.0), GaugeCoupling::Static, b(0.5),
    )
    .unwrap();
    assert_eq!(f64::from_bits(v.magnetic_north), 0.0);
    assert_eq!(f64::from_bits(v.magnetic_south), 0.0);
}

#[test]
fn try_new_15_keeps_poles() {
    let v = Vector15D::try_new_15(
        b(0.5), b(0.5), b(0.0), b(0.5), b(0.2), b(0.5), b(0.5), b(0.5),
        DomainWall::Linked, b(200.0), b(0.0), GaugeCoupling::Static, b(0.5),
        b(0.4), b(0.6),
    )
    .unwrap();
    let north = f64::from_bits(v.magnetic_north);
    let south = f64::from_bits(v.magnetic_south);
    assert!((north - 0.4).abs() < 1e-9);
    assert!((south - 0.6).abs() < 1e-9);
    // Polar pre-stress is the mean of |north| and |south|.
    assert!(((north.abs() + south.abs()) * 0.5 - 0.5).abs() < 1e-9);
}

#[test]
fn try_new_15_rejects_infinite_pole() {
    let r = Vector15D::try_new_15(
        b(0.5), b(0.5), b(0.0), b(0.5), b(0.2), b(0.5), b(0.5), b(0.5),
        DomainWall::Linked, b(200.0), b(0.0), GaugeCoupling::Static, b(0.5),
        b(0.4), b(f64::NEG_INFINITY),
    );
    match r {
        Err(Vector15DError::NonFinite { field, value }) => {
            assert_eq!(field, "magnetic_south");
            assert_eq!(value, "Infinite");
        }
        Ok(_) => panic!("must fail"),
    }
}

#[test]
fn observed_baselines_hold_recorded_values() {
    let n1 = observed_n1()[0];
    let n2 = observed_n2()[0];
    assert_eq!(f64::from_bits(n1.amplitude), 0.72);
    assert_eq!(f64::from_bits(n1.su2_polarity), 331.4);
    assert_eq!(f64::from_bits(n1.torsion), -50.0);
    assert_eq!(n1.gauge_coupling, GaugeCoupling::Spinning);
    assert_eq!(f64::from_bits(n2.frequency), 0.57);
    assert_eq!(f64::from_bits(n2.entropy), 0.03);
    assert_eq!(f64::from_bits(n2.closure), 0.75);
    assert_eq!(n2.gauge_coupling, GaugeCoupling::Oscillating);
    assert_eq!(n1.domain_wall, n2.domain_wall);
}

#[test]
fn observed_transition_matches_recorded_observations() {
    let n1 = observed_n1()[0];
    let n2 = observed_n2()[0];
    // Entropy drops by more than 55%.
    let e1 = f64::from_bits(n1.entropy);
    let e2 = f64::from_bits(n2.entropy);
    assert!((((e2 - e1) / e1) * 100.0).round() as i32 <= -55);
    // Torsion approaches the upright axis.
    assert!(f64::from_bits(n2.torsion).abs() < 10.0);
    // Rotation shifts, connection stays.
    assert_eq!(n1.gauge_coupling, GaugeCoupling::Spinning);
    assert_eq!(n2.gauge_coupling, GaugeCoupling::Oscillating);
    assert_eq!(n1.domain_wall, DomainWall::Linked);
    assert_eq!(n2.domain_wall, DomainWall::Linked);
    // Hue crosses 325 degrees downwards (pink to purple); ozone drops.
    assert!(f64::from_bits(n1.su2_polarity) >= 325.0 && f64::from_bits(n2.su2_polarity) < 325.0);
    assert!(f64::from_bits(n2.ozone_buffer) < f64::from_bits(n1.ozone_buffer));
}

#[test]
fn glyph_weight_ladder() {
    assert_eq!(glyph_weight_class(0), 100);
    assert_eq!(glyph_weight_class(-3), 100);
    assert_eq!(glyph_weight_class(149), 100);
    assert_eq!(glyph_weight_class(150), 300);
    assert_eq!(glyph_weight_class(449), 400);
    assert_eq!(glyph_weight_class(450), 500);
    assert_eq!(glyph_weight_class(648), 700);
    assert_eq!(glyph_weight_class(800), 900);
    assert_eq!(glyph_weight_class(900), 900);
}

#[test]
fn test_crust_node_names() {
    assert_eq!(CRUST_NODE_NAMES[0], "coherence");
    assert_eq!(CRUST_NODE_NAMES[1], "entropy");
    assert_eq!(CRUST_NODE_NAMES[2], "composition");
    assert_eq!(CRUST_NODE_NAMES[3], "resonance");
    assert_eq!(CRUST_NODE_NAMES[4], "ozone_buffer");
}

#[test]
fn absorbed_shock_regimes() {
    assert_eq!(TetherNetwork::after_absorb([false; 5]), TetherNetwork::Connected);
    assert_eq!(
        TetherNetwork::after_absorb([true, false, true, false, false]),
        TetherNetwork::Strained {
            pulled_nodes: 3,
            slack_nodes: 2
        }
    );
    assert_eq!(
        TetherNetwork::after_absorb([true; 5]),
        TetherNetwork::Strained {
            pulled_nodes: 0,
            slack_nodes: 5
        }
    );
}

#[test]
fn recovery_regimes() {
    let strained = TetherNetwork::Strained {
        pulled_nodes: 4,
        slack_nodes: 1,
    };
    assert_eq!(strained.after_restore(true, true), TetherNetwork::Connected);
    assert_eq!(strained.after_restore(false, false), strained);
    let ruptured = TetherNetwork::Ruptured { pending_remap: true };
    assert_eq!(
        ruptured.after_restore(true, true),
        TetherNetwork::Strained {
            pulled_nodes: 5,
            slack_nodes: 0
        }
    );
    assert_eq!(ruptured.after_restore(true, false), ruptured);
    let settled = TetherNetwork::Ruptured {
        pending_remap: false,
    };
    assert_eq!(settled.after_restore(true, true), settled);
    assert_eq!(
        TetherNetwork::Connected.after_restore(true, true),
        TetherNetwork::Connected
    );
    assert_eq!(
        TetherNetwork::Severed.after_restore(true, true),
        TetherNetwork::Severed
    );
}

#[test]
fn core_exposure() {
    assert!(!TetherNetwork::Connected.exposes_core(false));
    assert!(TetherNetwork::Connected.exposes_core(true));
    assert!(TetherNetwork::Severed.exposes_core(false));
    assert!(TetherNetwork::Ruptured { pending_remap: true }.exposes_core(false));
    assert!(!TetherNetwork::Strained {
        pulled_nodes: 5,
        slack_nodes: 0
    }
    .exposes_core(false));
}
