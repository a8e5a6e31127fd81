use umst_core::constitution::{l0_passes, veto_precedes_destruction, LayerPass};
use umst_core::datasets::{parse_csv, calibration_profile, default_dataset, scm_counts_fully, CalibrationProfile};
use umst_core::multishot::{prompt_sheet, TaskBrief};

fn layer(name: &str, pass: bool) -> LayerPass {
    LayerPass { layer: name.to_string(), pass }
}

#[test]
fn default_dataset_is_d1() {
    assert_eq!(default_dataset(), "D1");
    assert_eq!(calibration_profile(&default_dataset()), CalibrationProfile::Uci);
    assert!(scm_counts_fully(&default_dataset()));
}

#[test]
fn dataset_profiles() {
    assert_eq!(calibration_profile("D2"), CalibrationProfile::D2);
    assert_eq!(calibration_profile("D3"), CalibrationProfile::D3);
    assert_eq!(calibration_profile("D4"), CalibrationProfile::D4);
    assert_eq!(calibration_profile("D5"), CalibrationProfile::Uci);
    assert_eq!(calibration_profile("d2"), CalibrationProfile::Uci);
    assert!(!scm_counts_fully("D2"));
}

#[test]
fn l0_is_a_hard_condition() {
    let layers = vec![
        layer("L1_MaterialTensor", true),
        layer("L0_Thermodynamics", false),
        layer("L0_Second", true),
    ];
    assert!(!l0_passes(&layers));
    let layers = vec![layer("L0_Thermodynamics", true), layer("L2_EpistemicGate", false)];
    assert!(l0_passes(&layers));
    assert!(!l0_passes(&vec![layer("L1", true)]));
    assert!(!l0_passes(&vec![]));
}

#[test]
fn veto_timing() {
    assert!(veto_precedes_destruction(15, 15));
    assert!(veto_precedes_destruction(3, 29));
    assert!(!veto_precedes_destruction(16, 15));
    assert!(!veto_precedes_destruction(3, 30));
}

#[test]
fn prompt_sheet_lists_tasks_in_order() {
    let tasks = vec![
        TaskBrief { id: "T3-A".into(), level: "T3".into(), description: "d1".into(), brief: "b1".into() },
        TaskBrief { id: "T4-A".into(), level: "T4".into(), description: "d2".into(), brief: "b2".into() },
    ];
    let s = prompt_sheet(&tasks);
    let header = "# PATH B MULTI-SHOT — INTERACTIVE (CURSOR) TEST AGENT\n# Instructions: For each task below, provide your JSON response.\n# This file will be evaluated by path_b_multi_shot --mode evaluate-cursor\n\n";
    let sec = |id: &str, level: &str, d: &str, b: &str| {
        format!(
            "## TASK {} ({})\n### Description: {}\n\n### Round 0 — BLIND Condition (no gate feedback)\n{}\n\n### [Agent responds here — paste JSON below]\n\n```json\n{{}}\n```\n\n---\n\n",
            id, level, d, b
        )
    };
    assert_eq!(s, format!("{}{}{}", header, sec("T3-A", "T3", "d1", "b1"), sec("T4-A", "T4", "d2", "b2")));
    assert_eq!(prompt_sheet(&vec![]), header);
}

#[test]
fn prediction_file_rows() {
    let text = "3,41.2,40.0,300,0,0,180,28,39.5\r\nx,1,2,3,4,5,6,7,8\nshort,line\n7,1,2,3,4,5,6,7,8,extra\n5,a,b,c,d,e,f,g,h";
    let rows = parse_csv(text);
    assert_eq!(rows.len(), 4);
    assert_eq!(rows[0].index, 3);
    assert_eq!(rows[0].fields, vec!["41.2", "40.0", "300", "0", "0", "180", "28", "39.5"]);
    assert_eq!(rows[1].index, 1);
    assert_eq!(rows[1].fields[0], "1");
    assert_eq!(rows[2].index, 7);
    assert_eq!(rows[2].fields[7], "8");
    assert_eq!(rows[3].index, 5);
    assert_eq!(rows[3].fields[7], "h");
    assert!(parse_csv("").is_empty());
    assert!(parse_csv("1,2,3\n").is_empty());
}
