use umst_core::multishot::{
    blind_feedback, correction_summary, feedback_for, gated_feedback, json_span, system_prompt,
    MultiShotSession,
};

#[test]
fn system_prompt_text() {
    let s = system_prompt();
    assert!(s.starts_with("You are an expert concrete materials scientist"));
    assert!(s.ends_with("no explanatory text outside the JSON."));
    assert!(s.contains("never hallucinate numerical values"));
}

#[test]
fn blind_and_gated_feedback() {
    assert_eq!(
        blind_feedback(3),
        "Your Round 3 prediction did not satisfy all requirements. Please revise your answer and try again."
    );
    assert_eq!(
        gated_feedback("C4 Monotonicity: decreased", 12),
        "Round 12 gate decision: C4 Monotonicity: decreased\nPlease revise your answer to address this specific physical constraint."
    );
}

#[test]
fn feedback_follows_condition() {
    let v = vec!["C1 Clausius-Duhem: too high".to_string()];
    assert_eq!(feedback_for("GATED", true, &v, 0), "ADMISSIBLE");
    assert_eq!(feedback_for("GATED", false, &v, 1), gated_feedback(&v[0], 1));
    assert_eq!(feedback_for("BLIND", false, &v, 1), blind_feedback(1));
    assert_eq!(feedback_for("OTHER", false, &v, 2), blind_feedback(2));
}

#[test]
fn correction_summaries() {
    let (ok, s) = correction_summary(&vec![]);
    assert!(ok);
    assert_eq!(s, "ADMISSIBLE: All thermodynamic and structural constraints satisfied.");
    let (ok, s) = correction_summary(&vec!["C5 Structural: low".to_string()]);
    assert!(!ok);
    assert_eq!(s, "REJECTED (1 violation): C5 Structural: low");
    let (ok, s) = correction_summary(&vec!["C4 a".to_string(), "C4b b".to_string(), "C4c c".to_string()]);
    assert!(!ok);
    assert_eq!(s, "REJECTED (3 violations): C4 a");
}

#[test]
fn json_span_of_replies() {
    assert_eq!(json_span("Sure! {\"a\": {\"b\": 1}} hope this helps"), "{\"a\": {\"b\": 1}}");
    assert_eq!(json_span("no json at all"), "no json at all");
    assert_eq!(json_span("prefix {\"x\":1"), "{\"x\":1");
    assert_eq!(json_span("\"x\":1} tail"), "\"x\":1}");
    assert_eq!(json_span("héllo {é} ü"), "{é}");
}

#[test]
fn session_stops_at_first_admissible_round() {
    let mut s = MultiShotSession::new("GATED", "brief text", 5);
    assert_eq!(s.messages.len(), 2);
    assert_eq!(s.messages[0].role, "system");
    assert_eq!(s.messages[1].content, "brief text");
    assert_eq!(s.prompt_shown("brief text"), "brief text");
    let v = vec!["C1 Clausius-Duhem: high".to_string()];
    let f = s.record_round("{\"predicted_strength\": 200}".to_string(), false, &v);
    assert_eq!(f, gated_feedback("C1 Clausius-Duhem: high", 0));
    assert_eq!(s.round, 1);
    assert!(!s.finished);
    assert_eq!(s.messages.len(), 4);
    assert_eq!(s.messages[2].role, "assistant");
    assert_eq!(s.prompt_shown("brief text"), f);
    let f2 = s.record_round("{\"predicted_strength\": 40}".to_string(), true, &vec![]);
    assert_eq!(f2, "ADMISSIBLE");
    assert!(s.finished);
    assert_eq!(s.first_admissible_round, Some(1));
    assert_eq!(s.messages.len(), 4);
}

#[test]
fn session_ends_when_budget_spent() {
    let mut s = MultiShotSession::new("BLIND", "b", 2);
    let v = vec!["C3 Strength: low".to_string()];
    s.record_round("r0".to_string(), false, &v);
    assert!(!s.finished);
    let f = s.record_round("r1".to_string(), false, &v);
    assert_eq!(f, blind_feedback(1));
    assert!(s.finished);
    assert_eq!(s.first_admissible_round, None);
    assert_eq!(s.round, 2);
    let empty = MultiShotSession::new("BLIND", "b", 0);
    assert!(empty.finished);
}

#[test]
fn session_abort_keeps_transcript() {
    let mut s = MultiShotSession::new("GATED", "b", 3);
    s.abort();
    assert!(s.finished);
    assert_eq!(s.messages.len(), 2);
    assert_eq!(s.first_admissible_round, None);
}

#[test]
fn blind_feedback_needs_no_violation_message() {
    let none: Vec<String> = vec![];
    assert_eq!(feedback_for("BLIND", false, &none, 3), blind_feedback(3));
}
