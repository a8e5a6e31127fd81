use umst_core::complexity::{
    all_levels, gate_checks, tally_verdicts, GateCheck, top_violation, violation_code, GateVerdict, PhysicsKernelAgent,
    SimulatedPPOAgent, SymbolicAgent, TaskLevel,
};

#[test]
fn labels_and_constraint_counts() {
    let levels = all_levels();
    let labels: Vec<&str> = levels.iter().map(|l| l.label()).collect();
    assert_eq!(
        labels,
        vec![
            "T1: Forward Prediction",
            "T2: Inverse Mix Design",
            "T3: Multi-Constraint Opt",
            "T4: Time-Series Hydration",
            "T5: Multi-Step Iterative",
            "T6: Pareto Front",
        ]
    );
    let counts: Vec<usize> = levels.iter().map(|l| l.n_constraints()).collect();
    assert_eq!(counts, vec![1, 2, 3, 4, 5, 8]);
}

#[test]
fn constraint_load_grows_along_the_levels() {
    let levels = all_levels();
    for w in levels.windows(2) {
        assert!(w[0].n_constraints() < w[1].n_constraints());
    }
}

#[test]
fn model_scopes() {
    let m1 = PhysicsKernelAgent;
    let m2 = SymbolicAgent;
    let m3 = SimulatedPPOAgent::new(false);
    let m3g = SimulatedPPOAgent::new(true);
    let expect_m1 = [true, true, true, true, false, false];
    let expect_m2 = [true, true, true, false, false, false];
    let expect_m3 = [true, true, true, true, true, false];
    for (i, level) in all_levels().into_iter().enumerate() {
        assert_eq!(m1.can_attempt(level), expect_m1[i]);
        assert_eq!(m2.can_attempt(level), expect_m2[i]);
        assert_eq!(m3.can_attempt(level), expect_m3[i]);
        assert_eq!(m3g.can_attempt(level), expect_m3[i]);
        // nested scopes
        assert!(!m2.can_attempt(level) || m1.can_attempt(level));
        assert!(!m1.can_attempt(level) || m3.can_attempt(level));
    }
    assert_eq!(m3.name(), "M3_LiquidPPO_Ungated");
    assert_eq!(m3g.name(), "M3g_LiquidPPO_Gated");
    assert!(m3g.gated && !m3.gated);
    assert_eq!(m1.name(), "M1_Physics_Kernel");
    assert_eq!(m2.name(), "M2_Symbolic_PySR");
    assert_eq!(m3.model_params(), "~10M params (GNN + PPO policy, trained on UCI-D1)");
}

#[test]
fn verdict_from_no_violation_is_admissible() {
    let g = GateVerdict::from_violations(vec![]);
    assert!(g.admissible);
    assert!(g.violations.is_empty());
    assert_eq!(g.correction_hint, "Admissible. No correction needed.");
}

#[test]
fn verdict_quotes_first_violation() {
    let g = GateVerdict::from_violations(vec![
        "C2 Mass Balance: off".to_string(),
        "C3 Printability: too wet".to_string(),
    ]);
    assert!(!g.admissible);
    assert_eq!(g.violations.len(), 2);
    assert_eq!(
        g.correction_hint,
        "Rejected: C2 Mass Balance: off. Correction: reduce strength claim or adjust mix to satisfy constraints."
    );
}

#[test]
fn violation_codes() {
    assert_eq!(violation_code("C1 Clausius-Duhem: predicted 90MPa"), "C1 Clausius-Duhem");
    assert_eq!(violation_code("  C4b Consistency  : x"), "C4b Consistency");
    assert_eq!(violation_code("T6: no Pareto set provided"), "T6");
    assert_eq!(violation_code("Pareto front has 2 dominated solutions out of 6"),
        "Pareto front has 2 dominated solutions out of 6");
    assert_eq!(violation_code(":leading"), "");
}

#[test]
fn tally_counts_admissible_and_codes() {
    let verdicts = vec![
        GateVerdict::from_violations(vec![]),
        GateVerdict::from_violations(vec!["C1 A: x".to_string(), "C2 B: y".to_string()]),
        GateVerdict::from_violations(vec!["C2 B: z".to_string()]),
        GateVerdict::from_violations(vec![]),
    ];
    let t = tally_verdicts(&verdicts);
    assert_eq!(t.admissible, 2);
    assert_eq!(t.rejected, 2);
    assert_eq!(t.codes, vec![("C1 A".to_string(), 1), ("C2 B".to_string(), 2)]);
    assert_eq!(top_violation(&t.codes), Some("C2 B".to_string()));
}

#[test]
fn tally_ignores_violations_of_admissible_verdicts() {
    let verdicts = vec![GateVerdict {
        admissible: true,
        violations: vec!["C9 X: y".to_string()],
        correction_hint: String::new(),
    }];
    let t = tally_verdicts(&verdicts);
    assert_eq!(t.admissible, 1);
    assert_eq!(t.rejected, 0);
    assert!(t.codes.is_empty());
    assert_eq!(top_violation(&t.codes), None);
}

#[test]
fn top_violation_prefers_first_among_equals() {
    let codes = vec![("C3".to_string(), 2), ("C1".to_string(), 2), ("C2".to_string(), 1)];
    assert_eq!(top_violation(&codes), Some("C3".to_string()));
}

#[test]
fn task_level_equality() {
    assert_eq!(TaskLevel::T3MultiConstraint, TaskLevel::T3MultiConstraint);
    assert_ne!(TaskLevel::T3MultiConstraint, TaskLevel::T4TimeSeriesHydration);
}

#[test]
fn each_level_runs_its_checks_in_order() {
    assert_eq!(gate_checks(TaskLevel::T1ForwardPrediction), vec![GateCheck::ClausiusDuhem]);
    assert_eq!(gate_checks(TaskLevel::T2InverseMixDesign), vec![GateCheck::ClausiusDuhem, GateCheck::MassBalance]);
    assert_eq!(gate_checks(TaskLevel::T3MultiConstraint), vec![GateCheck::ClausiusDuhem, GateCheck::MassBalance, GateCheck::Printability]);
    assert_eq!(gate_checks(TaskLevel::T4TimeSeriesHydration), vec![GateCheck::ClausiusDuhem, GateCheck::TimeSeries]);
    assert_eq!(gate_checks(TaskLevel::T5MultiStepIterative), vec![GateCheck::ClausiusDuhem, GateCheck::MassBalance, GateCheck::StructuralCapacity]);
    assert_eq!(gate_checks(TaskLevel::T6ParetoFront), vec![GateCheck::ClausiusDuhem, GateCheck::ParetoFront]);
}
