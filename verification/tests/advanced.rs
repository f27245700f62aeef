use std::collections::HashMap;

use ue_sim::advanced::{compact_path, event_color, Action, AdvancedState, LogPane};
use ue_sim::handover::EventLog;
use ue_sim::keys::Key;
use ue_sim::slice::{PageCtx, SliceMapEntry, UeHealth};
use ue_sim::ui::{Color, Span};

fn health(id: usize) -> UeHealth {
    UeHealth {
        id,
        stage: "DATA".to_string(),
        ip: "10.0.0.1".to_string(),
        has_tun: true,
        last_rtt: None,
        dl_mbps: "0.00".to_string(),
        ul_mbps: "0.00".to_string(),
    }
}

fn on_cell(cell: &str) -> SliceMapEntry {
    SliceMapEntry {
        sst: 1,
        sd: Some("2".to_string()),
        dnn: None,
        cell: Some(cell.to_string()),
        imsi: None,
    }
}

fn joined(line: &[Span]) -> String {
    line.iter().map(|s| s.text.as_str()).collect::<Vec<_>>().concat()
}

#[test]
fn long_paths_are_cut_down() {
    assert_eq!(
        compact_path("/home/x/ocudu/build/apps/du/du2.log"),
        "…/build/apps/du/du2.log"
    );
    assert_eq!(compact_path("/a/b/c/d"), "/a/b/c/d");
    assert_eq!(compact_path("//a//b//c//d//e"), "…/b/c/d/e");
    assert_eq!(compact_path("cu.log"), "cu.log");
}

#[test]
fn a_handover_is_refused_without_a_ue() {
    let map = HashMap::new();
    let srv = None;
    let c = PageCtx {
        ue_health: &[],
        slice_map: &map,
        slice_metrics: &[],
        srv: &srv,
        gnb_up: true,
        scripts_dir: "/s",
    };
    let mut s = AdvancedState::new();
    assert!(!s.needs_rnti(Key::Char('h'), &c));
    let r = s.handle_key(Key::Char('h'), &c, None);
    assert!(r.handled && r.action.is_none());
    assert_eq!(s.status, "no UE selected");
}

#[test]
fn a_handover_is_refused_without_an_identifier_or_to_the_same_cell() {
    let mut map = HashMap::new();
    map.insert(3, on_cell("B"));
    let srv = None;
    let ues = vec![health(3)];
    let c = PageCtx {
        ue_health: &ues,
        slice_map: &map,
        slice_metrics: &[],
        srv: &srv,
        gnb_up: true,
        scripts_dir: "/s",
    };
    let mut s = AdvancedState::new();
    assert!(s.needs_rnti(Key::Enter, &c));
    let r = s.handle_key(Key::Enter, &c, None);
    assert!(r.action.is_none());
    assert_eq!(s.ho_status, "no RNTI — press R / attach the UE first");
    let r = s.handle_key(Key::Enter, &c, Some("0x4601"));
    assert!(r.action.is_none());
    assert_eq!(s.status, "UE3 already on cell B — pick a different target (</>)");
    assert_eq!(s.rnti, "0x4601");
    assert!(!s.needs_rnti(Key::Enter, &c));
    s.handle_key(Key::Char('>'), &c, None);
    let r = s.handle_key(Key::Char('h'), &c, None);
    match r.action {
        Some(Action::Handover(o)) => {
            assert_eq!((o.ue, o.source, o.target), (3, 1, 2));
            assert_eq!(o.request.line, "ho 2 0x4601 3\n");
        }
        _ => panic!("no order"),
    }
    assert_eq!(s.status, "UE3: cell B → C   ho 2 0x4601 3");
    assert_eq!(s.ho_status, "sending: ho 2 0x4601 3 …");
}

#[test]
fn keys_move_within_bounds() {
    let map = HashMap::new();
    let srv = None;
    let ues = vec![health(1), health(2)];
    let c = PageCtx {
        ue_health: &ues,
        slice_map: &map,
        slice_metrics: &[],
        srv: &srv,
        gnb_up: true,
        scripts_dir: "/s",
    };
    let mut s = AdvancedState::new();
    for _ in 0..9 {
        s.handle_key(Key::Char('.'), &c, None);
        s.handle_key(Key::Down, &c, None);
    }
    assert_eq!((s.target_cell, s.sel_ue_idx), (7, 1));
    for _ in 0..9 {
        s.handle_key(Key::Char(','), &c, None);
        s.handle_key(Key::Up, &c, None);
    }
    assert_eq!((s.target_cell, s.sel_ue_idx), (0, 0));
    assert!(s.needs_rnti(Key::Char('R'), &c));
    s.handle_key(Key::Char('R'), &c, Some("0x4602"));
    assert_eq!(s.ho_status, "detected rnti=0x4602");
    s.handle_key(Key::Char('r'), &c, None);
    assert_eq!(s.ho_status, "no RNTI found — is a UE attached? (check Monitor)");
    assert_eq!(s.rnti, "");
    assert!(matches!(s.handle_key(Key::Char('c'), &c, None).action, Some(Action::LaunchCu)));
    assert!(!s.handle_key(Key::Tab, &c, None).handled);
    s.set_ho_status("done".to_string());
    assert_eq!(s.ho_status, "done");
}

#[test]
fn the_page_shows_ues_order_and_logs() {
    let mut map = HashMap::new();
    map.insert(3, on_cell("B"));
    let srv = None;
    let ues = vec![health(3), health(5)];
    let c = PageCtx {
        ue_health: &ues,
        slice_map: &map,
        slice_metrics: &[],
        srv: &srv,
        gnb_up: true,
        scripts_dir: "/s",
    };
    let mut s = AdvancedState::new();
    s.sel_ue_idx = 9;
    let cu = LogPane { path: None, content: "handover one\nhandover two\n", height: 3 };
    let du = LogPane { path: Some("/a/b/c/d/e.log"), content: "", height: 9 };
    let v = s.render(&c, &cu, &du);
    assert_eq!(s.sel_ue_idx, 1);
    assert_eq!(
        v.picker.iter().map(|l| joined(l)).collect::<Vec<_>>(),
        vec!["   UE3 S1/sd2 on cell B", " ► UE5 S0 on cell A"]
    );
    assert_eq!(
        v.order.iter().map(|l| joined(l)).collect::<Vec<_>>(),
        vec![
            "  move    : UE5   from cell A",
            "  to cell : B  (pci 2)   </> to change",
            "  rnti    : — (R to detect)",
            "  command : ho 1 <rnti> 2",
            "",
            " c  start CU    h  handover    R  detect rnti    </>  target   ",
            "  idle — pick a UE and a target cell, then h"
        ]
    );
    assert_eq!(v.cu_panel.title.text, " CU handover  ·  cu.log ");
    assert_eq!(joined(&v.cu_log[0]), "handover two");
    assert_eq!(v.cu_log.len(), 1);
    assert_eq!(v.du_panel.title.text, " DU radio  ·  …/b/c/d/e.log ");
    assert_eq!(joined(&v.du_log[0]), " (no radio handover lines yet)");
    assert_eq!(
        v.status.text,
        " c start CU   ↑↓ pick UE   </> target cell   R detect rnti   h handover"
    );
}

#[test]
fn events_are_coloured() {
    assert_eq!(event_color(EventLog::Cu, "G8 SUPPRESSED"), Color::Bad);
    assert_eq!(event_color(EventLog::Cu, "handover complete"), Color::Good);
    assert_eq!(event_color(EventLog::Cu, "handover"), Color::Subtle);
    assert_eq!(event_color(EventLog::Du, "PRACH fail"), Color::Accent);
    assert_eq!(event_color(EventLog::Du, "c-rnti=0x1 fail"), Color::Good);
    assert_eq!(event_color(EventLog::Du, "crc nok"), Color::Bad);
    assert_eq!(event_color(EventLog::Du, "ue creation"), Color::Subtle);
}
