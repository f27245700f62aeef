use ue_sim::handover::{
    cu_ho_events, cu_launch_outcome, cu_log_candidates, cu_log_path, cu_reconfig_after,
    discover_rnti, du2_log_candidates, du2_log_path, du_ho_events, extract_rnti, handover_crossfade,
    handover_crossfade_ue, handover_switch_on_reconfig, ho_outcome, launch_cu_fifo, ocudu_tree,
    send_ho, set_cell_gain, set_ue_cell_gain, SwitchStep,
};
use ue_sim::slice::LogFile;

#[test]
fn rnti_parse() {
    assert_eq!(extract_rnti("... ue=0 c-rnti=0x4601 cell=0 ..."), Some("0x4601".to_string()));
    assert_eq!(extract_rnti("rnti=0x4602 something"), Some("0x4602".to_string()));
    assert_eq!(extract_rnti("tc-rnti=0x4603"), Some("0x4603".to_string()));
    assert_eq!(extract_rnti("no rnti here"), None);
    assert_eq!(extract_rnti("rnti=0x0"), None);
}

#[test]
fn the_assigned_identifier_comes_before_the_temporary_one() {
    assert_eq!(
        extract_rnti("tc-rnti=0x4601 ue=0 c-rnti=0x4602"),
        Some("0x4602".to_string())
    );
    assert_eq!(extract_rnti("crnti=0X46AB, rnti=0x11"), Some("0x46ab".to_string()));
    assert_eq!(extract_rnti("rnti=4601"), None);
    assert_eq!(extract_rnti("rnti=0xf"), None);
    assert_eq!(extract_rnti("rnti=0x10"), Some("0x10".to_string()));
}

#[test]
fn the_most_recent_identifier_is_discovered() {
    let cu = "rnti=0x4601\nrnti=0x4602\nnothing\n".to_string();
    let du = "rnti=0x4700\n".to_string();
    assert_eq!(discover_rnti(&vec![cu.clone(), du.clone()]), Some("0x4602".to_string()));
    assert_eq!(discover_rnti(&vec![String::new(), du]), Some("0x4700".to_string()));
    assert_eq!(discover_rnti(&vec![]), None);
}

#[test]
fn the_command_names_both_cells() {
    let r = send_ho(1, "0x4601", 2);
    assert_eq!(r.command, "ho 1 0x4601 2");
    assert_eq!(r.line, "ho 1 0x4601 2\n");
    assert_eq!(r.status, "sending: ho 1 0x4601 2 …");
    assert_eq!(ho_outcome(&r.command, None), "sent: ho 1 0x4601 2  — watch the events pane");
    assert_eq!(
        ho_outcome(&r.command, Some("no reader")),
        "FIFO write failed (no reader). Is the CU running with  < /tmp/ocu_console.fifo ?"
    );
}

#[test]
fn the_cu_is_launched_from_the_tree() {
    let l = launch_cu_fifo("/t", None, None);
    assert_eq!(
        l.script,
        "pkill -9 -x ocu 2>/dev/null; sleep 1; rm -f /tmp/ocu_console.fifo; \
mkfifo /tmp/ocu_console.fifo; exec 9<>/tmp/ocu_console.fifo; cd /t/build/apps || exit 1; \
exec env MKL_THREADING_LAYER=GNU taskset -c 1-2 ./cu/ocu -c /t/configs/cu_g1_g8.yaml \
< /tmp/ocu_console.fifo"
    );
    assert_eq!(
        l.status,
        "launching CU: taskset -c 1-2 ./cu/ocu -c cu_g1_g8.yaml  (FIFO /tmp/ocu_console.fifo) …"
    );
    let l = launch_cu_fifo("/t", Some("my.yaml"), Some("3"));
    assert!(l.script.contains("taskset -c 3 ./cu/ocu -c my.yaml <"));
    assert_eq!(
        cu_launch_outcome(None),
        "CU starting (reading /tmp/ocu_console.fifo); ~10s to reach AMF, then R/h work"
    );
    assert_eq!(cu_launch_outcome(Some("gone")), "CU launch failed: gone");
    assert_eq!(ocudu_tree(None), "");
    assert_eq!(ocudu_tree(Some("/t")), "/t");
}

#[test]
fn logs_are_looked_for_in_order() {
    assert_eq!(
        cu_log_candidates(None, Some("/t")),
        vec!["/t/build/apps/cu.log", "/t/build/apps/cu/cu.log", "/t/cu.log", "cu.log"]
    );
    assert_eq!(
        du2_log_candidates(Some("/d"), Some("/t")),
        vec![
            "/d",
            "/t/build/apps/du/du2.log",
            "/t/build/apps/du2.log",
            "/t/du2.log",
            "du2.log"
        ]
    );
    let file = |p: &str, len: u64, t: i128| LogFile {
        path: p.to_string(),
        is_file: true,
        len,
        modified: Some(t),
    };
    assert_eq!(
        cu_log_path(&vec![file("a", 1, 1), file("b", 1, 2)]),
        Some("b".to_string())
    );
    assert_eq!(
        du2_log_path(&vec![file("du2", 1, 1)], &vec![file("du", 1, 9)]),
        Some("du2".to_string())
    );
    assert_eq!(
        du2_log_path(&vec![file("du2", 0, 1)], &vec![file("du", 1, 9)]),
        Some("du".to_string())
    );
}

#[test]
fn cu_events_come_most_recent_last() {
    let log = "[t] [CU] first Handover start\nunrelated\n[t] RRC Sync done\n\
[t] [X] G8 forced-handover suppressed\n";
    assert_eq!(
        cu_ho_events(log, 2),
        vec!["RRC Sync done", "G8 forced-handover suppressed"]
    );
    assert_eq!(cu_ho_events(log, 9).len(), 3);
    assert!(cu_ho_events(log, 0).is_empty());
}

#[test]
fn du_events_leave_the_noise_out() {
    let log = "[a] prach detected\n  \"prach-RootSequenceIndex\": {\nSlot decisions RAR( msg3\n\
[b] metrics prach\n[c] UE creation c-rnti=0x4601\nprach-config x\nhello\n";
    assert_eq!(du_ho_events(log, 10), vec!["prach detected", "UE creation c-rnti=0x4601"]);
}

#[test]
fn only_what_was_appended_counts() {
    let old = "reconfigurationWithSync sent — é\n";
    let new = "nothing\n";
    let both = format!("{old}{new}");
    assert!(cu_reconfig_after(&both, 0));
    assert!(!cu_reconfig_after(&both, old.len() as u64));
    let more = format!("{both}Intra CU Handover done\n");
    assert!(cu_reconfig_after(&more, old.len() as u64));
    assert!(cu_reconfig_after(&both, 10_000));
}

#[test]
fn gains_are_written_to_their_files() {
    let w = set_ue_cell_gain(3, 1, "0.500");
    assert_eq!((w.path.as_str(), w.gain.as_str()), ("/tmp/proxy_ue_gain_3_1", "0.500"));
    let w = set_cell_gain(2, "1.000");
    assert_eq!((w.path.as_str(), w.gain.as_str()), ("/tmp/proxy_cell_gain_2", "1.000"));
    let c = handover_crossfade_ue(3, 0, 1, 150);
    assert_eq!(c.now.path, "/tmp/proxy_ue_gain_3_1");
    assert_eq!(c.now.gain, "1.000");
    assert_eq!(c.delay_ms, 150);
    assert_eq!(c.later.path, "/tmp/proxy_ue_gain_3_0");
    assert_eq!(c.later.gain, "0.000");
    let c = handover_crossfade(0, 1, 7);
    assert_eq!(c.now.path, "/tmp/proxy_cell_gain_1");
    assert_eq!(c.later.path, "/tmp/proxy_cell_gain_0");
}

#[test]
fn the_ue_is_moved_only_after_the_reconfiguration() {
    assert!(matches!(
        handover_switch_on_reconfig(1, 0, 1, 0, false),
        SwitchStep::Poll { wait_ms: 50 }
    ));
    match handover_switch_on_reconfig(1, 0, 1, 4999, true) {
        SwitchStep::Switch { wait_ms, target, source } => {
            assert_eq!(wait_ms, 200);
            assert_eq!(target.path, "/tmp/proxy_ue_gain_1_1");
            assert_eq!(target.gain, "1.000");
            assert_eq!(source.path, "/tmp/proxy_ue_gain_1_0");
            assert_eq!(source.gain, "0.000");
        }
        _ => panic!("no switch"),
    }
    assert!(matches!(handover_switch_on_reconfig(1, 0, 1, 5000, true), SwitchStep::Abandon));
    assert!(matches!(handover_switch_on_reconfig(1, 0, 1, 5000, false), SwitchStep::Abandon));
}

#[test]
fn gain_files_are_not_shared() {
    assert_eq!(set_ue_cell_gain(1, 11, "1.000").path, "/tmp/proxy_ue_gain_1_11");
    assert_ne!(
        set_ue_cell_gain(1, 11, "1.000").path,
        set_ue_cell_gain(11, 1, "1.000").path
    );
    assert_ne!(set_cell_gain(1, "1.000").path, set_cell_gain(11, "1.000").path);
}

#[test]
fn placeholders_are_no_identifiers() {
    assert_eq!(extract_rnti("c-rnti=0x0000"), None);
    assert_eq!(extract_rnti("c-rnti=0xf"), None);
    assert_eq!(extract_rnti("c-rnti=0x10"), Some("0x10".to_string()));
}
