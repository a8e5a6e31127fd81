//! The complexity-scale admissibility matrix: task levels T1-T6, the scope of
//! each proposing model, the verdict the filter assembles from the violated
//! constraints, and the tally of verdicts per matrix cell.

use vstd::prelude::*;
use crate::text::{trim, trimmed};

verus! {

/// Task complexity levels, from single-step prediction to Pareto fronts.
#[derive(Debug, Clone, Copy, PartialEq, Eq, Structural)]
pub enum TaskLevel {
    T1ForwardPrediction,
    T2InverseMixDesign,
    T3MultiConstraint,
    T4TimeSeriesHydration,
    T5MultiStepIterative,
    T6ParetoFront,
}

/// Position of a level in the complexity order (T1 is 1, T6 is 6).
pub open spec fn complexity_rank(t: TaskLevel) -> nat {
    match t {
        TaskLevel::T1ForwardPrediction => 1,
        TaskLevel::T2InverseMixDesign => 2,
        TaskLevel::T3MultiConstraint => 3,
        TaskLevel::T4TimeSeriesHydration => 4,
        TaskLevel::T5MultiStepIterative => 5,
        TaskLevel::T6ParetoFront => 6,
    }
}

/// The display label of a level.
pub open spec fn level_label(t: TaskLevel) -> Seq<char> {
    match t {
        TaskLevel::T1ForwardPrediction => "T1: Forward Prediction"@,
        TaskLevel::T2InverseMixDesign => "T2: Inverse Mix Design"@,
        TaskLevel::T3MultiConstraint => "T3: Multi-Constraint Opt"@,
        TaskLevel::T4TimeSeriesHydration => "T4: Time-Series Hydration"@,
        TaskLevel::T5MultiStepIterative => "T5: Multi-Step Iterative"@,
        TaskLevel::T6ParetoFront => "T6: Pareto Front"@,
    }
}

/// The number of physical constraints a level is checked against.
pub open spec fn level_constraints(t: TaskLevel) -> nat {
    match t {
        TaskLevel::T1ForwardPrediction => 1,
        TaskLevel::T2InverseMixDesign => 2,
        TaskLevel::T3MultiConstraint => 3,
        TaskLevel::T4TimeSeriesHydration => 4,
        TaskLevel::T5MultiStepIterative => 5,
        TaskLevel::T6ParetoFront => 8,
    }
}

impl TaskLevel {
    /// The display label, e.g. "T3: Multi-Constraint Opt".
    pub fn label(&self) -> (s: &'static str)
        ensures
            s@ == level_label(*self),
    {
        match self {
            TaskLevel::T1ForwardPrediction => "T1: Forward Prediction",
            TaskLevel::T2InverseMixDesign => "T2: Inverse Mix Design",
            TaskLevel::T3MultiConstraint => "T3: Multi-Constraint Opt",
            TaskLevel::T4TimeSeriesHydration => "T4: Time-Series Hydration",
            TaskLevel::T5MultiStepIterative => "T5: Multi-Step Iterative",
            TaskLevel::T6ParetoFront => "T6: Pareto Front",
        }
    }

    /// The number of constraints checked at this level.
    pub fn n_constraints(&self) -> (n: usize)
        ensures
            n == level_constraints(*self),
    {
        match self {
            TaskLevel::T1ForwardPrediction => 1,
            TaskLevel::T2InverseMixDesign => 2,
            TaskLevel::T3MultiConstraint => 3,
            TaskLevel::T4TimeSeriesHydration => 4,
            TaskLevel::T5MultiStepIterative => 5,
            TaskLevel::T6ParetoFront => 8,
        }
    }
}

/// The levels in increasing complexity.
pub fn all_levels() -> (v: Vec<TaskLevel>)
    ensures
        v.len() == 6,
        forall|i: int| 0 <= i < 6 ==> complexity_rank(#[trigger] v@[i]) == i + 1,
{
    vec![
        TaskLevel::T1ForwardPrediction,
        TaskLevel::T2InverseMixDesign,
        TaskLevel::T3MultiConstraint,
        TaskLevel::T4TimeSeriesHydration,
        TaskLevel::T5MultiStepIterative,
        TaskLevel::T6ParetoFront,
    ]
}

/// The constraint load grows strictly with task complexity.
pub proof fn constraints_grow_with_complexity(a: TaskLevel, b: TaskLevel)
    requires
        complexity_rank(a) < complexity_rank(b),
    ensures
        level_constraints(a) < level_constraints(b),
{
}

// ── Model scopes ──────────────────────────────────────────────────────────────

/// Levels the rule-based physics kernel can attempt: T1-T4.
pub open spec fn physics_kernel_scope(t: TaskLevel) -> bool {
    complexity_rank(t) <= 4
}

/// Levels the fitted symbolic expression can attempt: T1-T3.
pub open spec fn symbolic_scope(t: TaskLevel) -> bool {
    complexity_rank(t) <= 3
}

/// Levels the PPO policy can attempt: every level but the Pareto front.
pub open spec fn ppo_scope(t: TaskLevel) -> bool {
    t != TaskLevel::T6ParetoFront
}

/// M1: the rule-based physics kernel.
pub struct PhysicsKernelAgent;

impl PhysicsKernelAgent {
    pub fn name(&self) -> (s: &'static str)
        ensures
            s@ == "M1_Physics_Kernel"@,
    {
        "M1_Physics_Kernel"
    }

    pub fn model_params(&self) -> (s: &'static str)
        ensures
            s@ == "~0 params (rule-based + Powers model calibrated on UCI)"@,
    {
        "~0 params (rule-based + Powers model calibrated on UCI)"
    }

    pub fn can_attempt(&self, task: TaskLevel) -> (b: bool)
        ensures
            b == physics_kernel_scope(task),
    {
        match task {
            TaskLevel::T1ForwardPrediction | TaskLevel::T2InverseMixDesign
            | TaskLevel::T3MultiConstraint | TaskLevel::T4TimeSeriesHydration => true,
            _ => false,
        }
    }
}

/// M2: the symbolic-regression expression fitted in distribution.
pub struct SymbolicAgent;

impl SymbolicAgent {
    pub fn name(&self) -> (s: &'static str)
        ensures
            s@ == "M2_Symbolic_PySR"@,
    {
        "M2_Symbolic_PySR"
    }

    pub fn model_params(&self) -> (s: &'static str)
        ensures
            s@ == "~50 params (PySR expression: fitted on UCI-D1, in-distribution only)"@,
    {
        "~50 params (PySR expression: fitted on UCI-D1, in-distribution only)"
    }

    pub fn can_attempt(&self, task: TaskLevel) -> (b: bool)
        ensures
            b == symbolic_scope(task),
    {
        match task {
            TaskLevel::T1ForwardPrediction | TaskLevel::T2InverseMixDesign
            | TaskLevel::T3MultiConstraint => true,
            _ => false,
        }
    }
}

/// M3 / M3g: the simulated PPO policy, with or without the filter.
pub struct SimulatedPPOAgent {
    pub name: String,
    pub gated: bool,
}

/// The name of the PPO policy for a gating choice.
pub open spec fn ppo_name(gated: bool) -> Seq<char> {
    if gated { "M3g_LiquidPPO_Gated"@ } else { "M3_LiquidPPO_Ungated"@ }
}

impl SimulatedPPOAgent {
    pub fn new(gated: bool) -> (a: Self)
        ensures
            a.gated == gated,
            a.name@ == ppo_name(gated),
    {
        SimulatedPPOAgent {
            name: if gated {
                String::from_str("M3g_LiquidPPO_Gated")
            } else {
                String::from_str("M3_LiquidPPO_Ungated")
            },
            gated,
        }
    }

    pub fn name(&self) -> (s: &str)
        ensures
            s@ == self.name@,
    {
        self.name.as_str()
    }

    pub fn model_params(&self) -> (s: &'static str)
        ensures
            s@ == "~10M params (GNN + PPO policy, trained on UCI-D1)"@,
    {
        "~10M params (GNN + PPO policy, trained on UCI-D1)"
    }

    pub fn can_attempt(&self, task: TaskLevel) -> (b: bool)
        ensures
            b == ppo_scope(task),
    {
        match task {
            TaskLevel::T6ParetoFront => false,
            _ => true,
        }
    }
}

/// The model scopes are nested: whatever the symbolic expression attempts the
/// physics kernel attempts, and whatever the kernel attempts the PPO policy attempts.
pub proof fn model_scopes_are_nested(t: TaskLevel)
    ensures
        symbolic_scope(t) ==> physics_kernel_scope(t),
        physics_kernel_scope(t) ==> ppo_scope(t),
{
}

// ── The checks of each level ──────────────────────────────────────────────────

/// A physical check the filter can run on a proposal.
#[derive(Debug, Clone, Copy, PartialEq, Eq, Structural)]
pub enum GateCheck {
    /// C1: Clausius-Duhem (the claimed strength is thermodynamically reachable).
    ClausiusDuhem,
    /// C2: the mix fractions balance.
    MassBalance,
    /// C3: the mix can be printed.
    Printability,
    /// C4: the strength curve is present, monotone and consistent with the claim.
    TimeSeries,
    /// C5: the design strength meets the required strength.
    StructuralCapacity,
    /// C6: the Pareto set is present, non-dominated, and each member passes C1.
    ParetoFront,
}

/// The checks a level runs, in the order their violations are reported:
/// C1 always comes first.
pub open spec fn level_checks(t: TaskLevel) -> Seq<GateCheck> {
    match t {
        TaskLevel::T1ForwardPrediction => seq![GateCheck::ClausiusDuhem],
        TaskLevel::T2InverseMixDesign => seq![GateCheck::ClausiusDuhem, GateCheck::MassBalance],
        TaskLevel::T3MultiConstraint =>
            seq![GateCheck::ClausiusDuhem, GateCheck::MassBalance, GateCheck::Printability],
        TaskLevel::T4TimeSeriesHydration => seq![GateCheck::ClausiusDuhem, GateCheck::TimeSeries],
        TaskLevel::T5MultiStepIterative =>
            seq![GateCheck::ClausiusDuhem, GateCheck::MassBalance, GateCheck::StructuralCapacity],
        TaskLevel::T6ParetoFront => seq![GateCheck::ClausiusDuhem, GateCheck::ParetoFront],
    }
}

/// The checks the filter runs on a proposal for `task`, in reporting order.
pub fn gate_checks(task: TaskLevel) -> (v: Vec<GateCheck>)
    ensures
        v@ == level_checks(task),
{
    let v = match task {
        TaskLevel::T1ForwardPrediction => vec![GateCheck::ClausiusDuhem],
        TaskLevel::T2InverseMixDesign => vec![GateCheck::ClausiusDuhem, GateCheck::MassBalance],
        TaskLevel::T3MultiConstraint =>
            vec![GateCheck::ClausiusDuhem, GateCheck::MassBalance, GateCheck::Printability],
        TaskLevel::T4TimeSeriesHydration => vec![GateCheck::ClausiusDuhem, GateCheck::TimeSeries],
        TaskLevel::T5MultiStepIterative =>
            vec![GateCheck::ClausiusDuhem, GateCheck::MassBalance, GateCheck::StructuralCapacity],
        TaskLevel::T6ParetoFront => vec![GateCheck::ClausiusDuhem, GateCheck::ParetoFront],
    };
    proof {
        assert(v@ =~= level_checks(task));
    }
    v
}

/// Every level checks Clausius-Duhem first, and no level runs a check twice.
pub proof fn clausius_duhem_checked_first(t: TaskLevel)
    ensures
        level_checks(t).len() >= 1,
        level_checks(t)[0] == GateCheck::ClausiusDuhem,
        forall|i: int, j: int| 0 <= i < j < level_checks(t).len() ==> level_checks(t)[i] != level_checks(t)[j],
{
}

// ── Gate verdicts ─────────────────────────────────────────────────────────────

/// The filter's verdict on one proposal.
#[derive(Debug)]
pub struct GateVerdict {
    pub admissible: bool,
    pub violations: Vec<String>,
    pub correction_hint: String,
}

/// The hint attached to a verdict with the given violations.
pub open spec fn correction_hint_text(violations: Seq<String>) -> Seq<char> {
    if violations.len() == 0 {
        "Admissible. No correction needed."@
    } else {
        "Rejected: "@ + violations[0]@
            + ". Correction: reduce strength claim or adjust mix to satisfy constraints."@
    }
}

impl GateVerdict {
    /// Assembles the verdict from the violated constraints: admissible exactly
    /// when nothing was violated; otherwise the hint quotes the first violation.
    pub fn from_violations(violations: Vec<String>) -> (g: GateVerdict)
        ensures
            g.admissible == (violations@.len() == 0),
            g.violations@ == violations@,
            g.correction_hint@ == correction_hint_text(violations@),
    {
        let admissible = violations.len() == 0;
        let correction_hint = if admissible {
            String::from_str("Admissible. No correction needed.")
        } else {
            let mut h = String::from_str("Rejected: ");
            h.append(violations[0].as_str());
            h.append(". Correction: reduce strength claim or adjust mix to satisfy constraints.");
            h
        };
        GateVerdict { admissible, violations, correction_hint }
    }
}

// ── Violation codes and the per-cell tally ────────────────────────────────────

/// The part of `s` before its first ':' (all of `s` when there is none).
pub open spec fn before_colon(s: Seq<char>) -> Seq<char>
    decreases s.len(),
{
    if s.len() == 0 {
        s
    } else if s[0] == ':' {
        Seq::empty()
    } else {
        seq![s[0]] + before_colon(s.drop_first())
    }
}

/// The constraint code a violation message is filed under, e.g. "C1".
pub open spec fn violation_code_text(s: Seq<char>) -> Seq<char> {
    trim(before_colon(s))
}

proof fn lemma_before_colon(s: Seq<char>, k: int)
    requires
        0 <= k <= s.len(),
        forall|i: int| 0 <= i < k ==> s[i] != ':',
        k == s.len() || s[k] == ':',
    ensures
        before_colon(s) == s.subrange(0, k),
    decreases k,
{
    if k > 0 {
        lemma_before_colon(s.drop_first(), k - 1);
        assert(seq![s[0]] + s.drop_first().subrange(0, k - 1) =~= s.subrange(0, k));
    } else {
        assert(s.subrange(0, 0) =~= Seq::<char>::empty());
    }
}

/// The constraint code of a violation message: the text before the first ':',
/// without surrounding white space.
pub fn violation_code(v: &str) -> (c: String)
    ensures
        c@ == violation_code_text(v@),
{
    let n = v.unicode_len();
    let mut k: usize = 0;
    while k < n && v.get_char(k) != ':'
        invariant
            n == v@.len(),
            k <= n,
            forall|i: int| 0 <= i < k ==> v@[i] != ':',
        decreases n - k,
    {
        k = k + 1;
    }
    proof {
        lemma_before_colon(v@, k as int);
    }
    let head = v.substring_char(0, k);
    String::from_str(trimmed(head))
}

/// A violation message written as its code, a ':' and a detail is filed under
/// that code, whatever the detail says.
pub proof fn message_filed_under_its_code(code: Seq<char>, detail: Seq<char>)
    requires
        forall|i: int| 0 <= i < code.len() ==> code[i] != ':',
        trim(code) == code,
    ensures
        violation_code_text(code + ":"@ + detail) == code,
{
    reveal_strlit(":");
    let m = code + ":"@ + detail;
    assert forall|i: int| 0 <= i < code.len() implies m[i] != ':' by {
        assert(m[i] == code[i]);
    }
    assert(m[code.len() as int] == ':');
    lemma_before_colon(m, code.len() as int);
    assert(m.subrange(0, code.len() as int) =~= code);
}

/// How many times `c` occurs in `s`.
pub open spec fn occurrences(s: Seq<Seq<char>>, c: Seq<char>) -> nat
    decreases s.len(),
{
    if s.len() == 0 {
        0
    } else {
        occurrences(s.drop_last(), c) + if s.last() == c { 1nat } else { 0nat }
    }
}

/// The codes of the violations of one verdict, in order (none when admissible).
pub open spec fn verdict_codes(g: GateVerdict) -> Seq<Seq<char>> {
    if g.admissible {
        Seq::empty()
    } else {
        g.violations@.map_values(|v: String| violation_code_text(v@))
    }
}

/// The codes of all violations of rejected verdicts, in order.
pub open spec fn all_codes(gs: Seq<GateVerdict>) -> Seq<Seq<char>>
    decreases gs.len(),
{
    if gs.len() == 0 {
        Seq::empty()
    } else {
        all_codes(gs.drop_last()) + verdict_codes(gs.last())
    }
}

/// The number of admissible verdicts.
pub open spec fn admissible_count(gs: Seq<GateVerdict>) -> nat
    decreases gs.len(),
{
    if gs.len() == 0 {
        0
    } else {
        admissible_count(gs.drop_last()) + if gs.last().admissible { 1nat } else { 0nat }
    }
}

proof fn lemma_admissible_count_bound(gs: Seq<GateVerdict>)
    ensures
        admissible_count(gs) <= gs.len(),
    decreases gs.len(),
{
    if gs.len() > 0 {
        lemma_admissible_count_bound(gs.drop_last());
    }
}

proof fn lemma_occurrences_bound(s: Seq<Seq<char>>, c: Seq<char>)
    ensures
        occurrences(s, c) <= s.len(),
    decreases s.len(),
{
    if s.len() > 0 {
        lemma_occurrences_bound(s.drop_last(), c);
    }
}

proof fn lemma_occurrences_push(s: Seq<Seq<char>>, x: Seq<char>, c: Seq<char>)
    ensures
        occurrences(s.push(x), c) == occurrences(s, c) + if x == c { 1nat } else { 0nat },
{
    assert(s.push(x).drop_last() =~= s);
}

proof fn lemma_occurrences_absent(s: Seq<Seq<char>>, c: Seq<char>)
    requires
        !s.contains(c),
    ensures
        occurrences(s, c) == 0,
    decreases s.len(),
{
    if s.len() > 0 {
        assert(!s.drop_last().contains(c)) by {
            if s.drop_last().contains(c) {
                let i = choose|i: int| 0 <= i < s.drop_last().len() && s.drop_last()[i] == c;
                assert(s[i] == c);
            }
        }
        lemma_occurrences_absent(s.drop_last(), c);
        assert(s.last() != c) by {
            assert(s[s.len() - 1] == s.last());
        }
    }
}

/// Counts of the verdicts of one matrix cell.
pub struct CellTally {
    pub admissible: usize,
    pub rejected: usize,
    /// Each violated constraint code with its number of occurrences, in the
    /// order in which the codes first occur.
    pub codes: Vec<(String, usize)>,
}

/// The position of the first occurrence of `c` in `s` (meaningful when `s` contains it).
pub open spec fn first_position(s: Seq<Seq<char>>, c: Seq<char>) -> int
    decreases s.len(),
{
    if s.len() == 0 {
        0
    } else if s.drop_last().contains(c) {
        first_position(s.drop_last(), c)
    } else {
        s.len() - 1
    }
}

proof fn lemma_first_position_bound(s: Seq<Seq<char>>, c: Seq<char>)
    requires
        s.contains(c),
    ensures
        0 <= first_position(s, c) < s.len(),
    decreases s.len(),
{
    if s.drop_last().contains(c) {
        lemma_first_position_bound(s.drop_last(), c);
    }
}

/// The codes of a tally are distinct, each counted exactly as often as it occurs
/// in `all`, every code of `all` is listed, and they are listed in the order in
/// which they first occur.
pub open spec fn tally_codes_exact(codes: Seq<(String, usize)>, all: Seq<Seq<char>>) -> bool {
    &&& forall|i: int, j: int| 0 <= i < j < codes.len() ==> codes[i].0@ != codes[j].0@
    &&& forall|i: int, j: int| 0 <= i < j < codes.len()
        ==> first_position(all, #[trigger] codes[i].0@) < first_position(all, #[trigger] codes[j].0@)
    &&& forall|i: int| 0 <= i < codes.len() ==> #[trigger] codes[i].1 == occurrences(all, codes[i].0@)
    &&& forall|i: int| 0 <= i < codes.len() ==> all.contains(#[trigger] codes[i].0@)
    &&& forall|c: Seq<char>| all.contains(c) ==> exists|i: int| 0 <= i < codes.len() && #[trigger] codes[i].0@ == c
}

fn find_code(codes: &Vec<(String, usize)>, key: &String) -> (r: Option<usize>)
    ensures
        r matches Some(i) ==> i < codes.len() && codes@[i as int].0@ == key@,
        r is None ==> forall|i: int| 0 <= i < codes.len() ==> codes@[i].0@ != key@,
{
    let mut i: usize = 0;
    while i < codes.len()
        invariant
            i <= codes.len(),
            forall|j: int| 0 <= j < i ==> codes@[j].0@ != key@,
        decreases codes.len() - i,
    {
        if codes[i].0 == *key {
            return Some(i);
        }
        i = i + 1;
    }
    None
}

fn record_code(codes: &mut Vec<(String, usize)>, key: String, Ghost(seen): Ghost<Seq<Seq<char>>>)
    requires
        tally_codes_exact(old(codes)@, seen),
        seen.len() < usize::MAX,
    ensures
        tally_codes_exact(final(codes)@, seen.push(key@)),
{
    let ghost all = seen.push(key@);
    proof {
        assert forall|c: Seq<char>| #[trigger] occurrences(all, c) == occurrences(seen, c) + if key@ == c { 1nat } else { 0nat } by {
            lemma_occurrences_push(seen, key@, c);
        }
        assert forall|c: Seq<char>| #[trigger] all.contains(c) <==> (seen.contains(c) || c == key@) by {
            if all.contains(c) {
                let i = choose|i: int| 0 <= i < all.len() && all[i] == c;
                if i < seen.len() {
                    assert(seen[i] == c);
                }
            }
            if seen.contains(c) {
                let i = choose|i: int| 0 <= i < seen.len() && seen[i] == c;
                assert(all[i] == c);
            }
            if c == key@ {
                assert(all[seen.len() as int] == c);
            }
        }
        assert(all.drop_last() =~= seen);
        assert forall|c: Seq<char>| seen.contains(c) implies #[trigger] first_position(all, c) == first_position(seen, c)
            && first_position(seen, c) < seen.len() by {
            lemma_first_position_bound(seen, c);
        }
    }
    match find_code(codes, &key) {
        Some(i) => {
            let count = codes[i].1;
            proof {
                lemma_occurrences_bound(seen, key@);
            }
            let name = codes[i].0.clone();
            codes.set(i, (name, count + 1));
        },
        None => {
            proof {
                if seen.contains(key@) {
                    let j = choose|j: int| 0 <= j < old(codes)@.len() && #[trigger] old(codes)@[j].0@ == key@;
                    assert(false);
                }
                lemma_occurrences_absent(seen, key@);
            }
            codes.push((key, 1));
        },
    }
    proof {
        let cs = codes@;
        let old_cs = old(codes)@;
        assert forall|i: int| 0 <= i < old_cs.len() implies seen.contains(#[trigger] old_cs[i].0@) by {}
        assert forall|i: int, j: int| 0 <= i < j < cs.len()
            implies first_position(all, #[trigger] cs[i].0@) < first_position(all, #[trigger] cs[j].0@) by {
            assert(cs[i].0@ == old_cs[i].0@);
            assert(seen.contains(old_cs[i].0@));
            if j < old_cs.len() {
                assert(cs[j].0@ == old_cs[j].0@);
                assert(seen.contains(old_cs[j].0@));
            } else {
                assert(cs[j].0@ == key@);
                assert(!seen.contains(key@));
                assert(!all.drop_last().contains(key@));
                assert(first_position(all, key@) == seen.len());
            }
        }
        assert forall|c: Seq<char>| all.contains(c) implies exists|i: int| 0 <= i < cs.len() && #[trigger] cs[i].0@ == c by {
            if seen.contains(c) {
                let i = choose|i: int| 0 <= i < old(codes)@.len() && #[trigger] old(codes)@[i].0@ == c;
                assert(cs[i].0@ == c);
            } else {
                assert(c == key@);
                if old(codes)@.len() < cs.len() {
                    assert(cs[cs.len() - 1].0@ == c);
                } else {
                    let i = choose|i: int| 0 <= i < cs.len() && cs[i].0@ == key@ && cs[i].1 == old(codes)@[i].1 + 1;
                    assert(cs[i].0@ == c);
                }
            }
        }
    }
}

/// The number of violation messages over all rejected verdicts.
pub open spec fn violation_total(gs: Seq<GateVerdict>) -> nat {
    all_codes(gs).len()
}

/// Tallies the verdicts of one matrix cell: how many were admissible, how many
/// rejected, and how often each constraint code was violated by rejected ones.
pub fn tally_verdicts(verdicts: &Vec<GateVerdict>) -> (t: CellTally)
    requires
        violation_total(verdicts@) < usize::MAX,
    ensures
        t.admissible == admissible_count(verdicts@),
        t.admissible + t.rejected == verdicts@.len(),
        tally_codes_exact(t.codes@, all_codes(verdicts@)),
{
    let mut admissible: usize = 0;
    let mut rejected: usize = 0;
    let mut codes: Vec<(String, usize)> = Vec::new();
    let mut i: usize = 0;
    proof {
        assert(verdicts@.subrange(0, 0) =~= Seq::<GateVerdict>::empty());
    }
    while i < verdicts.len()
        invariant
            i <= verdicts@.len(),
            admissible == admissible_count(verdicts@.subrange(0, i as int)),
            admissible + rejected == i,
            tally_codes_exact(codes@, all_codes(verdicts@.subrange(0, i as int))),
            violation_total(verdicts@) < usize::MAX,
        decreases verdicts@.len() - i,
    {
        let ghost pre = verdicts@.subrange(0, i as int);
        let ghost next = verdicts@.subrange(0, i + 1);
        proof {
            assert(next.drop_last() =~= pre);
            assert(next.last() == verdicts@[i as int]);
            lemma_all_codes_prefix(verdicts@, i + 1);
            lemma_admissible_count_bound(pre);
        }
        let g = &verdicts[i];
        if g.admissible {
            admissible = admissible + 1;
            proof {
                assert(verdict_codes(*g) =~= Seq::<Seq<char>>::empty());
                assert(all_codes(next) =~= all_codes(pre));
            }
        } else {
            rejected = rejected + 1;
            let mut k: usize = 0;
            let ghost base = all_codes(pre);
            let ghost vc = verdict_codes(*g);
            while k < g.violations.len()
                invariant
                    !g.admissible,
                    k <= g.violations@.len(),
                    vc == verdict_codes(*g),
                    vc.len() == g.violations@.len(),
                    base.len() + vc.len() <= all_codes(next).len(),
                    all_codes(next).len() <= violation_total(verdicts@),
                    violation_total(verdicts@) < usize::MAX,
                    tally_codes_exact(codes@, base + vc.subrange(0, k as int)),
                decreases g.violations@.len() - k,
            {
                let key = violation_code(g.violations[k].as_str());
                proof {
                    assert(vc[k as int] == violation_code_text(g.violations@[k as int]@));
                    assert(key@ == vc[k as int]);
                    assert(base + vc.subrange(0, k + 1) =~= (base + vc.subrange(0, k as int)).push(key@));
                }
                record_code(&mut codes, key, Ghost(base + vc.subrange(0, k as int)));
                k = k + 1;
            }
            proof {
                assert(vc.subrange(0, vc.len() as int) =~= vc);
                assert(all_codes(next) =~= base + vc);
            }
        }
        i = i + 1;
    }
    proof {
        assert(verdicts@.subrange(0, i as int) =~= verdicts@);
    }
    CellTally { admissible, rejected, codes }
}

proof fn lemma_all_codes_prefix(gs: Seq<GateVerdict>, k: int)
    requires
        0 <= k <= gs.len(),
    ensures
        all_codes(gs.subrange(0, k)).len() <= all_codes(gs).len(),
    decreases gs.len() - k,
{
    if k < gs.len() {
        lemma_all_codes_prefix(gs.drop_last(), k);
        assert(gs.drop_last().subrange(0, k) =~= gs.subrange(0, k));
    } else {
        assert(gs.subrange(0, k) =~= gs);
    }
}

/// The most frequently violated code of a tally; among equally frequent codes
/// the one listed first, which in a tally is the one that occurred first.
/// `None` when nothing was violated.
pub fn top_violation(codes: &Vec<(String, usize)>) -> (r: Option<String>)
    ensures
        r is None <==> codes@.len() == 0,
        r matches Some(c) ==> exists|i: int|
            0 <= i < codes@.len() && #[trigger] codes@[i].0@ == c@
                && (forall|j: int| 0 <= j < codes@.len() ==> codes@[j].1 <= codes@[i].1)
                && (forall|j: int| 0 <= j < i ==> codes@[j].1 < codes@[i].1),
{
    if codes.len() == 0 {
        return None;
    }
    let mut best: usize = 0;
    let mut i: usize = 1;
    while i < codes.len()
        invariant
            1 <= i <= codes@.len(),
            best < i,
            forall|j: int| 0 <= j < i ==> codes@[j].1 <= codes@[best as int].1,
            forall|j: int| 0 <= j < best ==> codes@[j].1 < codes@[best as int].1,
        decreases codes@.len() - i,
    {
        if codes[i].1 > codes[best].1 {
            best = i;
        }
        i = i + 1;
    }
    let c = codes[best].0.clone();
    proof {
        assert(codes@[best as int].0@ == c@);
    }
    Some(c)
}

} // verus!
