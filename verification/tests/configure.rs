use std::collections::HashMap;

use ue_sim::configure::{
    detect_ue_snssai, slice_color, ConfigureState, Field, PlanRow,
};
use ue_sim::keys::Key;
use ue_sim::slice::{PageCtx, SliceId, SliceMapEntry, UeHealth};
use ue_sim::ui::{Color, Span};

fn ctx<'a>(
    ues: &'a [UeHealth],
    map: &'a HashMap<usize, SliceMapEntry>,
    srv: &'a Option<String>,
    gnb_up: bool,
) -> PageCtx<'a> {
    PageCtx { ue_health: ues, slice_map: map, slice_metrics: &[], srv, gnb_up, scripts_dir: "/s" }
}

fn health(id: usize) -> UeHealth {
    UeHealth {
        id,
        stage: "DATA".to_string(),
        ip: "10.0.0.1".to_string(),
        has_tun: true,
        last_rtt: Some("12".to_string()),
        dl_mbps: "1.50".to_string(),
        ul_mbps: "0.25".to_string(),
    }
}

fn joined(line: &[Span]) -> String {
    line.iter().map(|s| s.text.as_str()).collect::<Vec<_>>().concat()
}

#[test]
fn fields_form_a_ring() {
    assert_eq!(Field::Sst.next(), Field::Sd);
    assert_eq!(Field::Cell.next(), Field::Sst);
    assert_eq!(Field::Sst.prev(), Field::Cell);
    for f in [Field::Sst, Field::Sd, Field::Dnn, Field::Cell] {
        assert_eq!(f.next().prev(), f);
    }
}

#[test]
fn the_data_network_follows_the_slice() {
    assert_eq!(PlanRow::suggested_dnn(None), "oai");
    assert_eq!(PlanRow::suggested_dnn(Some(1)), "oai");
    assert_eq!(PlanRow::suggested_dnn(Some(3)), "oai3");
}

#[test]
fn without_a_map_two_ues_are_planned_and_launched() {
    let map = HashMap::new();
    let srv = None;
    let c = ctx(&[], &map, &srv, true);
    let mut s = ConfigureState::new();
    assert_eq!(s.status, "compose each UE's slice + cell, then  r  to launch them");
    let screen = s.render(&c, &HashMap::new());
    assert_eq!(screen.plan.len(), 2);
    assert_eq!(screen.plan_panel.title.text, " Plan  ·  ↑↓ row   ←→ field   0-9 / +- set   a add   d del ");
    let r = s.handle_key(Key::Char('r'), &c);
    assert!(r.handled);
    assert_eq!(
        r.spawn.unwrap(),
        "SST_LIST=1,1 SD_LIST=1,2 DNN_LIST=oai,oai2 UE_CELL=0,1 N_RB=106 \
HO_CELL2=\"tcp://127.0.0.1:4558,tcp://127.0.0.1:4559\" bash /s/run_nue.sh 2"
    );
    assert_eq!(
        s.status,
        "launching 2 UE(s)  SD_LIST=1,2  UE_CELL=0,1  (watch Monitor page)"
    );
}

#[test]
fn extra_cells_are_bridged_once_and_in_order() {
    let map = HashMap::new();
    let srv = None;
    let c = ctx(&[], &map, &srv, true);
    let mut s = ConfigureState::new();
    s.render(&c, &HashMap::new());
    s.handle_key(Key::Char('a'), &c);
    s.handle_key(Key::Left, &c);
    s.handle_key(Key::Left, &c);
    assert_eq!(s.field, Field::Cell);
    assert!(s.handle_key(Key::Char('7'), &c).handled);
    assert_eq!(s.status, "UE3 cell=H");
    s.handle_key(Key::Up, &c);
    s.handle_key(Key::Up, &c);
    assert!(s.handle_key(Key::Char('7'), &c).handled);
    let cmd = s.handle_key(Key::Enter, &c).spawn.unwrap();
    assert_eq!(
        cmd,
        "SST_LIST=1,1,1 SD_LIST=1,2,1 DNN_LIST=oai,oai2,oai UE_CELL=7,1,7 N_RB=106 \
HO_CELL2=\"tcp://127.0.0.1:4558,tcp://127.0.0.1:4559\" \
HO_CELL8=\"tcp://127.0.0.1:4570,tcp://127.0.0.1:4571\" bash /s/run_nue.sh 3"
    );
}

#[test]
fn nothing_is_launched_without_a_gnb() {
    let map = HashMap::new();
    let srv = None;
    let c = ctx(&[], &map, &srv, false);
    let mut s = ConfigureState::new();
    s.render(&c, &HashMap::new());
    let r = s.handle_key(Key::Char('r'), &c);
    assert!(r.handled && r.spawn.is_none());
    assert_eq!(s.status, "gNB is DOWN — start the CU + DU(s) first, then press r");
    let r = s.handle_key(Key::Char('k'), &c);
    assert_eq!(r.spawn.unwrap(), "bash /s/dash_ctl.sh stop");
    assert_eq!(s.status, "stopping all UEs + proxy…");
}

#[test]
fn digits_set_the_focused_field() {
    let map = HashMap::new();
    let srv = None;
    let c = ctx(&[], &map, &srv, true);
    let mut s = ConfigureState::new();
    assert!(!s.handle_key(Key::Char('1'), &c).handled);
    s.render(&c, &HashMap::new());
    assert!(s.handle_key(Key::Char('0'), &c).handled);
    assert_eq!(s.status, "UE1 SD=none");
    assert_eq!((s.rows[0].sd, s.rows[0].dnn.as_str()), (None, "oai"));
    s.handle_key(Key::Char('5'), &c);
    assert_eq!(s.status, "UE1 SD=sd5");
    assert_eq!((s.rows[0].sd, s.rows[0].dnn.as_str()), (Some(5), "oai5"));
    s.handle_key(Key::Left, &c);
    assert!(!s.handle_key(Key::Char('5'), &c).handled);
    assert!(s.handle_key(Key::Char('4'), &c).handled);
    assert_eq!((s.status.as_str(), s.rows[0].sst), ("UE1 SST=4", 4));
    s.field = Field::Dnn;
    assert!(!s.handle_key(Key::Char('2'), &c).handled);
    s.field = Field::Cell;
    assert!(!s.handle_key(Key::Char('8'), &c).handled);
}

#[test]
fn steps_stay_in_range_or_go_round() {
    let map = HashMap::new();
    let srv = None;
    let c = ctx(&[], &map, &srv, true);
    let mut s = ConfigureState::new();
    s.render(&c, &HashMap::new());
    s.field = Field::Sst;
    s.handle_key(Key::Char('-'), &c);
    assert_eq!(s.rows[0].sst, 1);
    for _ in 0..5 {
        s.handle_key(Key::Char('+'), &c);
    }
    assert_eq!(s.rows[0].sst, 4);
    s.field = Field::Sd;
    s.handle_key(Key::Char('_'), &c);
    assert_eq!(s.rows[0].sd, None);
    for _ in 0..9 {
        s.handle_key(Key::Char('='), &c);
    }
    assert_eq!((s.rows[0].sd, s.rows[0].dnn.as_str()), (Some(8), "oai8"));
    s.field = Field::Dnn;
    s.handle_key(Key::Char('+'), &c);
    assert_eq!(s.rows[0].dnn, "oai");
    s.handle_key(Key::Char('-'), &c);
    assert_eq!(s.rows[0].dnn, "oai4");
    s.handle_key(Key::Char('+'), &c);
    assert_eq!(s.rows[0].dnn, "oai");
    s.field = Field::Cell;
    s.handle_key(Key::Char('-'), &c);
    assert_eq!(s.rows[0].cell, 3);
    s.handle_key(Key::Char('+'), &c);
    assert_eq!(s.rows[0].cell, 0);
}

#[test]
fn steps_beyond_the_numbers_are_not_accepted() {
    let mut s = ConfigureState::new();
    s.rows.push(PlanRow { ue_id: usize::MAX, sst: 1, sd: Some(0x7fff_ffff), dnn: "oai".to_string(), cell: 0 });
    assert!(!s.accepts(Key::Char('+')));
    assert!(s.accepts(Key::Char('-')));
    assert!(!s.accepts(Key::Char('a')));
    s.rows[0].dnn = "oai2147483648".to_string();
    s.field = Field::Dnn;
    assert!(!s.accepts(Key::Char('-')));
    assert!(s.accepts(Key::Up));
}

#[test]
fn ues_are_added_and_removed() {
    let map = HashMap::new();
    let srv = None;
    let c = ctx(&[], &map, &srv, true);
    let mut s = ConfigureState::new();
    s.handle_key(Key::Char('a'), &c);
    assert_eq!((s.status.as_str(), s.rows[0].ue_id, s.sel), ("added UE1", 1, 0));
    s.handle_key(Key::Char('d'), &c);
    assert_eq!(s.rows.len(), 1);
    s.handle_key(Key::Char('a'), &c);
    s.handle_key(Key::Char('a'), &c);
    assert_eq!((s.rows.len(), s.sel), (3, 2));
    s.handle_key(Key::Char('d'), &c);
    assert_eq!((s.status.as_str(), s.rows.len(), s.sel), ("removed UE3", 2, 1));
    assert!(!s.handle_key(Key::Char('z'), &c).handled);
    assert!(!s.handle_key(Key::Esc, &c).handled);
}

#[test]
fn the_map_gives_the_plan() {
    let mut map = HashMap::new();
    map.insert(
        7,
        SliceMapEntry {
            sst: 2,
            sd: Some("0x3".to_string()),
            dnn: None,
            cell: Some("B".to_string()),
            imsi: Some("001".to_string()),
        },
    );
    map.insert(
        2,
        SliceMapEntry {
            sst: 1,
            sd: None,
            dnn: Some("lab".to_string()),
            cell: Some("20".to_string()),
            imsi: None,
        },
    );
    let srv = None;
    let c = ctx(&[], &map, &srv, true);
    let mut s = ConfigureState::new();
    let screen = s.render(&c, &HashMap::new());
    let rows: Vec<(usize, u8, Option<u32>, &str, usize)> =
        s.rows.iter().map(|r| (r.ue_id, r.sst, r.sd, r.dnn.as_str(), r.cell)).collect();
    assert_eq!(rows, vec![(2, 1, None, "lab", 7), (7, 2, Some(3), "oai3", 1)]);
    assert_eq!(
        screen.health.iter().map(|l| joined(l)).collect::<Vec<_>>(),
        vec![
            " UE 2",
            "  slice : S1 (eMBB)",
            "  cell  : H  (pci 8)",
            "  dnn   : lab",
            "",
            "  (planned — not running yet)"
        ]
    );
}

#[test]
fn running_ues_are_reflected_until_they_stop() {
    let map = HashMap::new();
    let srv = None;
    let ues = vec![health(4), health(3)];
    let c = ctx(&ues, &map, &srv, true);
    let mut detected = HashMap::new();
    detected.insert(4usize, (2u8, Some(9u32)));
    let mut s = ConfigureState::new();
    s.sel = 5;
    assert!(s.running_changed(&c));
    let screen = s.render(&c, &detected);
    assert!(!s.running_changed(&c));
    assert!(s.reflecting);
    assert_eq!(s.sel, 1);
    assert_eq!(
        screen.plan_panel.title.text,
        " Running UEs  ·  ↑↓ select  (SST/SD detected from each UE log) "
    );
    let texts: Vec<Vec<String>> = screen
        .plan
        .iter()
        .map(|r| r.cells.iter().map(|c| c.text.clone()).collect())
        .collect();
    assert_eq!(
        texts,
        vec![
            vec!["UE3", "1", "—", "oai", "A", "S1 eMBB"],
            vec!["UE4", "2", "sd9", "oai9", "A", "S2/sd9 URLLC"]
        ]
    );
    assert_eq!(screen.plan[1].style.bg, Some(Color::SelBg));
    assert_eq!(screen.plan[1].cells[2].style.bg, Some(Color::FocusBg));
    let lines: Vec<String> = screen.health.iter().map(|l| joined(l)).collect();
    assert_eq!(lines[7], "  rtt   : 12 ms");
    assert_eq!(lines[8], "  dl/ul : 1.50 / 0.25 Mbps");
    let none: Vec<UeHealth> = vec![];
    let c = ctx(&none, &map, &srv, false);
    let screen = s.render(&c, &detected);
    assert!(!s.reflecting);
    assert_eq!(s.rows[1].dnn, "oai2");
    assert_eq!(
        screen.launch.iter().map(|l| joined(l)).collect::<Vec<_>>(),
        vec![
            " ○ gNB down   plan: 2 UE   SD=[1,2]   cells=[A,B]",
            " r  launch UEs    k  stop    3  handover →   ",
            "  start the CU + DU(s) first"
        ]
    );
    assert_eq!(
        screen.status.text,
        " compose each UE's slice + cell, then  r  to launch them"
    );
}

#[test]
fn slices_have_stable_colours() {
    assert_eq!(slice_color(SliceId::new(1, None)), Color::Rgb(224, 175, 104));
    assert_eq!(slice_color(SliceId::new(1, Some(5))), Color::Rgb(125, 207, 255));
    assert_eq!(slice_color(SliceId::new(255, Some(u32::MAX))), Color::Rgb(125, 207, 255));
    assert_eq!(slice_color(SliceId::new(5, None)), Color::Rgb(247, 118, 142));
}

#[test]
fn the_slice_is_detected_from_the_command_line() {
    let log = "CMDLINE: \"--uicc0.nssai_sst\" \"2\" \"--uicc0.nssai_sd\" \"5\"";
    assert_eq!(detect_ue_snssai(Some(log)), Some((2, Some(5))));
    assert_eq!(detect_ue_snssai(Some("nssai_sst 3")), Some((3, None)));
    assert_eq!(detect_ue_snssai(Some("nssai_sd 3")), Some((1, Some(3))));
    assert_eq!(detect_ue_snssai(Some("nssai_sst 258")), Some((2, None)));
    assert_eq!(detect_ue_snssai(Some("nothing")), None);
    assert_eq!(detect_ue_snssai(None), None);
}

#[test]
fn rows_stay_while_the_same_ues_run() {
    let map = HashMap::new();
    let srv = None;
    let ues = vec![health(4), health(3)];
    let swapped = vec![health(3), health(4)];
    let mut found = HashMap::new();
    found.insert(3usize, (4u8, None));
    let mut s = ConfigureState::new();
    s.render(&ctx(&ues, &map, &srv, true), &HashMap::new());
    s.handle_key(Key::Down, &ctx(&ues, &map, &srv, true));
    s.render(&ctx(&swapped, &map, &srv, true), &found);
    assert_eq!((s.sel, s.rows[0].ue_id, s.rows[0].sst), (1, 3, 1));
    let three = vec![health(9), health(3), health(4)];
    s.render(&ctx(&three, &map, &srv, true), &found);
    assert_eq!(s.rows.iter().map(|r| (r.ue_id, r.sst)).collect::<Vec<_>>(), vec![(3, 4), (4, 1), (9, 1)]);
}

#[test]
fn any_number_may_be_set() {
    let mut s = ConfigureState::new();
    assert!(!s.set_digit(12));
    s.rows.push(PlanRow { ue_id: 1, sst: 1, sd: None, dnn: "oai".to_string(), cell: 0 });
    assert!(s.set_digit(12));
    assert_eq!((s.rows[0].sd, s.rows[0].dnn.as_str()), (Some(12), "oai12"));
    assert_eq!(s.status, "UE1 SD=sd12");
    s.field = Field::Sst;
    assert!(!s.set_digit(12));
    s.field = Field::Cell;
    assert!(!s.set_digit(12));
    assert_eq!((s.rows[0].sst, s.rows[0].cell, s.status.as_str()), (1, 0, "UE1 SD=sd12"));
}

#[test]
fn the_plan_is_made_once() {
    let mut map = HashMap::new();
    for id in [9usize, 2, 5] {
        map.insert(id, SliceMapEntry { sst: 1, sd: None, dnn: None, cell: None, imsi: None });
    }
    let none = HashMap::new();
    let srv = None;
    let mut s = ConfigureState::new();
    s.ensure_init(&ctx(&[], &map, &srv, true));
    let ids = |s: &ConfigureState| s.rows.iter().map(|r| r.ue_id).collect::<Vec<_>>();
    assert_eq!(ids(&s), vec![2, 5, 9]);
    assert!(s.initialised);
    s.ensure_init(&ctx(&[], &none, &srv, true));
    assert_eq!(ids(&s), vec![2, 5, 9]);
}

#[test]
fn moves_undo_each_other() {
    let mut s = ConfigureState::new();
    s.rows.push(PlanRow { ue_id: 1, sst: 1, sd: None, dnn: "oai4".to_string(), cell: 3 });
    for field in [Field::Cell, Field::Dnn] {
        s.field = field;
        for dir in [1, -1] {
            assert!(s.can_bump(dir));
            s.bump(dir);
            s.bump(-dir);
            assert_eq!((s.rows[0].cell, s.rows[0].dnn.as_str()), (3, "oai4"));
        }
    }
    s.field = Field::Cell;
    s.bump(1);
    assert_eq!(s.rows[0].cell, 0);
    s.bump(-6);
    assert_eq!(s.rows[0].cell, 2);
    assert!(!s.can_bump(i32::MAX));
}
