use umst_core::constitution::{
    execute_constitutional_functor, AxiologicalFloor, ConstitutionalViolation, PhysicalSubstrate,
    ThermodynamicallyAdmissible,
};

#[derive(Debug, PartialEq)]
struct Probe {
    flow_ok: bool,
    torque_ok: bool,
    safe: bool,
}

impl ThermodynamicallyAdmissible for Probe {
    fn clausius_duhem_verdict(&self) -> Result<(), ConstitutionalViolation> {
        self.check_clausius_duhem()
    }

    fn check_clausius_duhem(&self) -> Result<(), ConstitutionalViolation> {
        if self.flow_ok {
            Ok(())
        } else {
            Err(ConstitutionalViolation::ThermodynamicAdmissibility { detail: "negative flow".to_string() })
        }
    }
}

impl PhysicalSubstrate for Probe {
    fn substrate_verdict(&self) -> Result<(), ConstitutionalViolation> {
        self.check_substrate_envelope()
    }

    fn check_substrate_envelope(&self) -> Result<(), ConstitutionalViolation> {
        if self.torque_ok {
            Ok(())
        } else {
            Err(ConstitutionalViolation::PhysicalSubstrate { detail: "torque limit".to_string() })
        }
    }
}

impl AxiologicalFloor for Probe {
    fn axiological_verdict(&self) -> Result<(), ConstitutionalViolation> {
        self.check_axiological_veto()
    }

    fn check_axiological_veto(&self) -> Result<(), ConstitutionalViolation> {
        if self.safe {
            Ok(())
        } else {
            Err(ConstitutionalViolation::AxiologicalFloor { detail: "VETO at step 3".to_string() })
        }
    }
}

#[test]
fn admissible_transition_keeps_payload() {
    let p = Probe { flow_ok: true, torque_ok: true, safe: true };
    let a = execute_constitutional_functor(p).ok().unwrap();
    assert_eq!(a.payload, Probe { flow_ok: true, torque_ok: true, safe: true });
}

#[test]
fn lowest_failing_layer_is_reported() {
    let all_bad = Probe { flow_ok: false, torque_ok: false, safe: false };
    match execute_constitutional_functor(all_bad) {
        Err(v) => assert_eq!(v.message(), "L0 Thermodynamic Violation: negative flow"),
        Ok(_) => panic!("expected a violation"),
    }
    let l2_bad = Probe { flow_ok: true, torque_ok: false, safe: false };
    match execute_constitutional_functor(l2_bad) {
        Err(v) => assert_eq!(v.message(), "L2 Substrate Violation: torque limit"),
        Ok(_) => panic!("expected a violation"),
    }
    let veto = Probe { flow_ok: true, torque_ok: true, safe: false };
    match execute_constitutional_functor(veto) {
        Err(v) => assert_eq!(v.message(), "L4.5 Axiological Veto: VETO at step 3"),
        Ok(_) => panic!("expected a violation"),
    }
}

#[test]
fn violation_messages() {
    let v = ConstitutionalViolation::PhysicalSubstrate { detail: String::new() };
    assert_eq!(v.message(), "L2 Substrate Violation: ");
}
