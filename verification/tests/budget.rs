use gradient_codec::budget::{BudgetConfig, BudgetError, BudgetState};

/// USD as pico-dollars.
fn usd(x: f64) -> u128 {
    (x * 1e12).round() as u128
}

/// A safety margin as fixed point over 10_000.
fn margin(m: f64) -> u64 {
    (m * 1e4).round() as u64
}

fn dollars(pico: u128) -> f64 {
    pico as f64 / 1e12
}

#[test]
fn test_budget_reserve_and_reconcile() {
    let config = BudgetConfig {
        total_usd: usd(1.0),
        per_request_cap_usd: usd(0.50),
        safety_margin: margin(1.2),
    };
    let mut budget = BudgetState::new(config);

    assert!(budget.can_afford(usd(0.01)));
    assert!(!budget.can_afford(usd(0.60)));
    assert!(!budget.can_afford(usd(0.90)));

    budget.reserve(usd(0.01)).unwrap();
    budget.reconcile(usd(0.01), usd(0.008)).unwrap();

    assert!((dollars(budget.spent_usd()) - 0.008).abs() < 0.0001);
    assert!((dollars(budget.remaining_usd()) - 0.992).abs() < 0.0001);
}

#[test]
fn test_budget_exhaustion() {
    let config = BudgetConfig {
        total_usd: usd(0.10),
        per_request_cap_usd: usd(0.05),
        safety_margin: margin(1.0),
    };
    let mut budget = BudgetState::new(config);

    assert!(budget.can_afford(usd(0.05)));
    budget.reserve(usd(0.05)).unwrap();
    budget.reconcile(usd(0.05), usd(0.05)).unwrap();

    assert!(!budget.can_afford(usd(0.05)));
    assert!(budget.can_afford(usd(0.04)));
}

#[test]
fn test_reserve_release_on_failure() {
    let config = BudgetConfig {
        total_usd: usd(0.10),
        per_request_cap_usd: usd(0.10),
        safety_margin: margin(1.0),
    };
    let mut budget = BudgetState::new(config);

    budget.reserve(usd(0.05)).unwrap();
    assert!((dollars(budget.spent_usd()) - 0.05).abs() < 0.0001);

    budget.reconcile(usd(0.05), 0).unwrap();
    assert!((dollars(budget.spent_usd()) - 0.0).abs() < 0.0001);
    assert!((dollars(budget.remaining_usd()) - 0.10).abs() < 0.0001);
}

#[test]
fn reserve_refuses_over_cap_and_leaves_ledger() {
    let mut budget = BudgetState::new(BudgetConfig {
        total_usd: usd(1.0),
        per_request_cap_usd: usd(0.10),
        safety_margin: margin(1.2),
    });
    assert_eq!(
        budget.reserve(usd(0.2)),
        Err(BudgetError::PerRequestCapExceeded {
            cap: usd(0.10),
            estimated: usd(0.2)
        })
    );
    assert_eq!(budget.spent_usd(), 0);
}

#[test]
fn reserve_refuses_below_margin_threshold() {
    // 0.05 remaining; 0.045 needs 0.054 with a 1.2 margin.
    let mut budget = BudgetState::new(BudgetConfig {
        total_usd: usd(0.05),
        per_request_cap_usd: usd(1.0),
        safety_margin: margin(1.2),
    });
    assert!(!budget.can_afford(usd(0.045)));
    assert_eq!(
        budget.reserve(usd(0.045)),
        Err(BudgetError::Insufficient {
            remaining: usd(0.05),
            estimated: usd(0.045),
            threshold: usd(0.054)
        })
    );
    assert_eq!(budget.spent_usd(), 0);
    assert!(budget.reserve(usd(0.04)).is_ok());
}

#[test]
fn ledger_rounds_to_hundredths_of_a_cent() {
    let mut budget = BudgetState::new(BudgetConfig::default());
    assert_eq!(budget.remaining_usd(), usd(10.0));
    budget.reserve(usd(0.000_06)).unwrap();
    // 0.6 ledger units round to 1 unit (0.0001 USD).
    assert_eq!(budget.spent_usd(), usd(0.0001));
    let s = budget.snapshot();
    assert_eq!(s.total_usd, usd(10.0));
    assert_eq!(s.spent_usd + s.remaining_usd, usd(10.0));
}

#[test]
fn default_config_values() {
    let c = BudgetConfig::default();
    assert_eq!(c.total_usd, usd(10.0));
    assert_eq!(c.per_request_cap_usd, usd(1.0));
    assert_eq!(c.safety_margin, 12_000);
}

#[test]
fn sequential_reserves_cannot_exceed_ceiling() {
    // Two holds of 0.06 against a 0.10 budget: the second is refused.
    let mut budget = BudgetState::new(BudgetConfig {
        total_usd: usd(0.10),
        per_request_cap_usd: usd(0.10),
        safety_margin: margin(1.0),
    });
    let r1 = budget.reserve(usd(0.06));
    let r2 = budget.reserve(usd(0.06));
    assert!(r1.is_ok() != r2.is_ok(), "one reserve must fail: r1={:?} r2={:?}", r1, r2);
    assert!((dollars(budget.spent_usd()) - 0.06).abs() < 0.0001);
}

#[test]
fn release_after_hold_restores_the_ledger() {
    let mut budget = BudgetState::new(BudgetConfig::default());
    budget.reserve(usd(0.3)).unwrap();
    budget.reconcile(usd(0.2), usd(0.1)).unwrap();
    let before = budget.spent_usd();
    budget.reserve(usd(0.25)).unwrap();
    budget.reconcile(usd(0.25), 0).unwrap();
    assert_eq!(budget.spent_usd(), before);
}

#[test]
fn refusal_reports_exact_margin_threshold() {
    let mut budget = BudgetState::new(BudgetConfig {
        total_usd: usd(0.05),
        per_request_cap_usd: usd(1.0),
        safety_margin: margin(1.2),
    });
    match budget.reserve(usd(0.04999)) {
        Err(BudgetError::Insufficient { remaining, estimated, threshold }) => {
            assert_eq!(remaining, usd(0.05));
            assert_eq!(estimated, usd(0.04999));
            assert_eq!(threshold, 59_988_000_000);
        }
        other => panic!("expected Insufficient, got {other:?}"),
    }
}
