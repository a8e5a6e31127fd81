//! The layered constitution: every state transition must pass the
//! thermodynamic layer (L0), the physical-substrate layer (L2) and the
//! axiological veto (L4.5), in that order, before it is admitted.

use vstd::prelude::*;
use crate::text::{starts_with_text, text_starts_with};

verus! {

/// A strict violation of one constitutional layer.
#[derive(Debug, Clone)]
pub enum ConstitutionalViolation {
    /// Layer 0: violation of Clausius-Duhem / entropy production.
    ThermodynamicAdmissibility { detail: String },
    /// Layer 2: violation of the physical substrate (actuator limits).
    PhysicalSubstrate { detail: String },
    /// Layer 4.5: the axiological veto fired.
    AxiologicalFloor { detail: String },
}

/// The text a violation is reported with: the layer's prefix followed by the detail.
pub open spec fn violation_text(v: ConstitutionalViolation) -> Seq<char> {
    match v {
        ConstitutionalViolation::ThermodynamicAdmissibility { detail } =>
            "L0 Thermodynamic Violation: "@ + detail@,
        ConstitutionalViolation::PhysicalSubstrate { detail } =>
            "L2 Substrate Violation: "@ + detail@,
        ConstitutionalViolation::AxiologicalFloor { detail } =>
            "L4.5 Axiological Veto: "@ + detail@,
    }
}

impl ConstitutionalViolation {
    /// Human-readable report of the violation (layer prefix and detail).
    pub fn message(&self) -> (s: String)
        ensures
            s@ == violation_text(*self),
    {
        match self {
            ConstitutionalViolation::ThermodynamicAdmissibility { detail } => {
                let mut s = String::from_str("L0 Thermodynamic Violation: ");
                s.append(detail.as_str());
                s
            },
            ConstitutionalViolation::PhysicalSubstrate { detail } => {
                let mut s = String::from_str("L2 Substrate Violation: ");
                s.append(detail.as_str());
                s
            },
            ConstitutionalViolation::AxiologicalFloor { detail } => {
                let mut s = String::from_str("L4.5 Axiological Veto: ");
                s.append(detail.as_str());
                s
            },
        }
    }
}

/// A transition that has survived every constitutional layer.
pub struct AdmissibleTransition<T> {
    pub payload: T,
}

/// Layer 0: every physically embodied transition obeys the second law.
pub trait ThermodynamicallyAdmissible {
    /// The verdict of the Clausius-Duhem check on this state.
    spec fn clausius_duhem_verdict(&self) -> Result<(), ConstitutionalViolation>;

    /// Checks that internal dissipation is non-negative.
    fn check_clausius_duhem(&self) -> (r: Result<(), ConstitutionalViolation>)
        ensures
            r == self.clausius_duhem_verdict(),
    ;
}

/// Layer 2: actuation commands stay within hardware tolerances.
pub trait PhysicalSubstrate: ThermodynamicallyAdmissible {
    /// The verdict of the substrate-envelope check on this state.
    spec fn substrate_verdict(&self) -> Result<(), ConstitutionalViolation>;

    /// Checks that actuation is within the hardware envelope.
    fn check_substrate_envelope(&self) -> (r: Result<(), ConstitutionalViolation>)
        ensures
            r == self.substrate_verdict(),
    ;
}

/// Layer 4.5: the axiological veto on catastrophic policies.
pub trait AxiologicalFloor: PhysicalSubstrate {
    /// The verdict of the axiological veto on this state.
    spec fn axiological_verdict(&self) -> Result<(), ConstitutionalViolation>;

    /// Checks upper-level safety bounds; an error halts execution.
    fn check_axiological_veto(&self) -> (r: Result<(), ConstitutionalViolation>)
        ensures
            r == self.axiological_verdict(),
    ;
}

/// The verdict of the whole hierarchy: the first failing layer, checked from
/// L0 upward, or success when every layer passes.
pub open spec fn constitutional_verdict<T: AxiologicalFloor>(t: T) -> Result<(), ConstitutionalViolation> {
    match t.clausius_duhem_verdict() {
        Err(v) => Err(v),
        Ok(_) => match t.substrate_verdict() {
            Err(v) => Err(v),
            Ok(_) => t.axiological_verdict(),
        },
    }
}

/// Runs a transition through all constitutional layers in order. It is admitted,
/// unchanged, exactly when every layer passes; otherwise the violation of the
/// lowest failing layer is returned.
pub fn execute_constitutional_functor<T: AxiologicalFloor>(transition: T) -> (r: Result<
    AdmissibleTransition<T>,
    ConstitutionalViolation,
>)
    ensures
        r is Ok <==> constitutional_verdict(transition) is Ok,
        r is Ok <==> (transition.clausius_duhem_verdict() is Ok
            && transition.substrate_verdict() is Ok && transition.axiological_verdict() is Ok),
        r matches Ok(a) ==> a.payload == transition,
        r matches Err(v) ==> constitutional_verdict(transition) == Err::<(), ConstitutionalViolation>(v),
{
    match transition.check_clausius_duhem() {
        Err(v) => { return Err(v); },
        Ok(_) => {},
    }
    match transition.check_substrate_envelope() {
        Err(v) => { return Err(v); },
        Ok(_) => {},
    }
    match transition.check_axiological_veto() {
        Err(v) => { return Err(v); },
        Ok(_) => {},
    }
    Ok(AdmissibleTransition { payload: transition })
}

// ── The hard L0 condition of the graded score ─────────────────────────────────

/// A layer's name and whether its score reached the layer's threshold.
pub struct LayerPass {
    pub layer: String,
    pub pass: bool,
}

/// The position of the first layer whose name starts with "L0", if any.
pub open spec fn first_l0(layers: Seq<LayerPass>) -> Option<int>
    decreases layers.len(),
{
    if layers.len() == 0 {
        None
    } else if starts_with_text(layers[0].layer@, "L0"@) {
        Some(0)
    } else {
        match first_l0(layers.drop_first()) {
            Some(i) => Some(i + 1),
            None => None,
        }
    }
}

/// The graded score is valid only when the first L0 layer passed; with no L0
/// layer it is not.
pub open spec fn l0_holds(layers: Seq<LayerPass>) -> bool {
    match first_l0(layers) {
        Some(i) => layers[i].pass,
        None => false,
    }
}

proof fn lemma_first_l0(layers: Seq<LayerPass>, k: int)
    requires
        0 <= k <= layers.len(),
        forall|i: int| 0 <= i < k ==> !starts_with_text(#[trigger] layers[i].layer@, "L0"@),
        k == layers.len() || starts_with_text(layers[k].layer@, "L0"@),
    ensures
        first_l0(layers) == (if k < layers.len() { Some(k) } else { None::<int> }),
    decreases k,
{
    if k > 0 {
        assert forall|i: int| 0 <= i < k - 1 implies !starts_with_text(#[trigger] layers.drop_first()[i].layer@, "L0"@) by {
            assert(layers.drop_first()[i] == layers[i + 1]);
        }
        lemma_first_l0(layers.drop_first(), k - 1);
    }
}

proof fn lemma_first_l0_in_range(layers: Seq<LayerPass>)
    ensures
        first_l0(layers) matches Some(i) ==> 0 <= i < layers.len(),
    decreases layers.len(),
{
    if layers.len() > 0 {
        lemma_first_l0_in_range(layers.drop_first());
    }
}

/// A layer that does not belong to L0 in front of the list does not change
/// the L0 verdict.
proof fn lemma_l0_holds_skips_non_l0(layers: Seq<LayerPass>)
    requires
        layers.len() > 0,
        !starts_with_text(layers[0].layer@, "L0"@),
    ensures
        l0_holds(layers) == l0_holds(layers.drop_first()),
{
    lemma_first_l0_in_range(layers.drop_first());
    match first_l0(layers.drop_first()) {
        Some(i) => {
            assert(layers.drop_first()[i] == layers[i + 1]);
        },
        None => {},
    }
}

/// The L0 verdict does not depend on where the L0 layer sits: putting layers
/// that are not L0 layers in front of a list leaves it unchanged.
pub proof fn l0_verdict_ignores_other_layers_before_it(prefix: Seq<LayerPass>, layers: Seq<LayerPass>)
    requires
        forall|i: int| 0 <= i < prefix.len() ==> !starts_with_text(#[trigger] prefix[i].layer@, "L0"@),
    ensures
        l0_holds(prefix + layers) == l0_holds(layers),
    decreases prefix.len(),
{
    if prefix.len() > 0 {
        let whole = prefix + layers;
        assert(whole[0] == prefix[0]);
        lemma_l0_holds_skips_non_l0(whole);
        assert(whole.drop_first() =~= prefix.drop_first() + layers);
        assert forall|i: int| 0 <= i < prefix.drop_first().len()
            implies !starts_with_text(#[trigger] prefix.drop_first()[i].layer@, "L0"@) by {
            assert(prefix.drop_first()[i] == prefix[i + 1]);
        }
        l0_verdict_ignores_other_layers_before_it(prefix.drop_first(), layers);
    } else {
        assert(prefix + layers =~= layers);
    }
}

/// An L0 layer at the head of the list decides the verdict by its own pass
/// flag, and a list without layers gives no L0 pass.
pub proof fn l0_verdict_is_the_first_l0_layers_flag(layers: Seq<LayerPass>)
    ensures
        layers.len() == 0 ==> !l0_holds(layers),
        layers.len() > 0 && starts_with_text(layers[0].layer@, "L0"@) ==> l0_holds(layers) == layers[0].pass,
        (forall|i: int| 0 <= i < layers.len() ==> !starts_with_text(#[trigger] layers[i].layer@, "L0"@))
            ==> !l0_holds(layers),
{
    if forall|i: int| 0 <= i < layers.len() ==> !starts_with_text(#[trigger] layers[i].layer@, "L0"@) {
        lemma_first_l0(layers, layers.len() as int);
    }
}

/// Whether the thermodynamic layer lets the graded score count: the first
/// layer named "L0…" must have passed.
pub fn l0_passes(layers: &Vec<LayerPass>) -> (b: bool)
    ensures
        b == l0_holds(layers@),
{
    let mut k: usize = 0;
    while k < layers.len() && !text_starts_with(layers[k].layer.as_str(), "L0")
        invariant
            k <= layers@.len(),
            forall|i: int| 0 <= i < k ==> !starts_with_text(#[trigger] layers@[i].layer@, "L0"@),
        decreases layers@.len() - k,
    {
        k = k + 1;
    }
    proof {
        lemma_first_l0(layers@, k as int);
    }
    if k < layers.len() {
        layers[k].pass
    } else {
        false
    }
}

/// The veto layer scores fully when the veto fired no later than the
/// destructive failure and that failure came within the first 30 steps.
pub open spec fn veto_in_time(veto_step: usize, destroy_step: usize) -> bool {
    veto_step <= destroy_step && destroy_step < 30
}

/// Whether the veto counted: it fired no later than the destructive failure,
/// which came within the first 30 steps.
pub fn veto_precedes_destruction(veto_step: usize, destroy_step: usize) -> (b: bool)
    ensures
        b == veto_in_time(veto_step, destroy_step),
{
    veto_step <= destroy_step && destroy_step < 30
}

} // verus!
