use std::collections::HashMap;

use ue_sim::slice::{
    cell_letter, du_log_candidates, du_log_path, g2_ok, parse_sd, parse_slice_line,
    read_slice_map, read_slice_metrics, LogFile, PageCtx, SliceId, SliceMapEntry, SliceMetric,
    UeHealth,
};

fn close(t: &str, v: f64, eps: f64) -> bool {
    (t.parse::<f64>().unwrap_or(0.0) - v).abs() < eps
}

fn entry(sst: u8, sd: Option<&str>, cell: Option<&str>) -> SliceMapEntry {
    SliceMapEntry {
        sst,
        sd: sd.map(|s| s.to_string()),
        dnn: None,
        cell: cell.map(|s| s.to_string()),
        imsi: None,
    }
}

fn health(id: usize) -> UeHealth {
    UeHealth {
        id,
        stage: "DATA".to_string(),
        ip: "10.0.0.1".to_string(),
        has_tun: true,
        last_rtt: None,
        dl_mbps: "0.00".to_string(),
        ul_mbps: "0.00".to_string(),
    }
}

#[test]
fn parses_real_format() {
    let line = "2026-06-18T07:00:00.123 [SCHED ] [I] Scheduler slice pci=1 sst=1 sd=0x2 \
metrics: nof_ues=3 dl[min_prbs=26 max_prbs=106 ded_prbs=0] ul[min_prbs=26 max_prbs=106 ded_prbs=0] \
avg_dl_rbs_per_slot=64.20 avg_ul_rbs_per_slot=3.10 dl_prb_ratio=60.6% ul_prb_ratio=2.9%";
    let m = parse_slice_line(line).expect("should parse");
    assert_eq!(m.pci, 1);
    assert_eq!(m.sst, 1);
    assert_eq!(m.sd, Some(2));
    assert_eq!(m.nof_ues, 3);
    assert_eq!(m.dl_min_prbs, 26);
    assert_eq!(m.dl_max_prbs, 106);
    assert_eq!(m.dl_ded_prbs, 0);
    assert!(close(&m.avg_dl_rbs_per_slot, 64.20, 1e-6));
    assert!(close(&m.dl_prb_ratio, 60.6, 1e-3));
    assert!(close(&m.ul_prb_ratio, 2.9, 1e-3));
}

#[test]
fn parses_no_sd() {
    let line = "Scheduler slice pci=1 sst=2 metrics: nof_ues=0 dl[min_prbs=53 max_prbs=106 \
ded_prbs=0] ul[min_prbs=53 max_prbs=106 ded_prbs=0] avg_dl_rbs_per_slot=0.00 \
avg_ul_rbs_per_slot=0.00 dl_prb_ratio=0.0% ul_prb_ratio=0.0%";
    let m = parse_slice_line(line).expect("should parse");
    assert_eq!(m.sst, 2);
    assert_eq!(m.sd, None);
    assert_eq!(m.dl_min_prbs, 53);
}

#[test]
fn rejects_non_slice_line() {
    assert!(parse_slice_line("[SCHED] some other log line").is_none());
}

#[test]
fn cell_index_accepts_letter_or_number() {
    let mk = |c: &str| SliceMapEntry {
        sst: 1,
        sd: None,
        dnn: None,
        cell: Some(c.to_string()),
        imsi: None,
    };
    assert_eq!(mk("A").cell_index(), 0);
    assert_eq!(mk("B").cell_index(), 1);
    assert_eq!(mk("0").cell_index(), 0);
    assert_eq!(mk("1").cell_index(), 1);
    assert_eq!(mk("0").cell_label(), "A");
    assert_eq!(mk("1").cell_label(), "B");
    let none = SliceMapEntry { sst: 1, sd: None, dnn: None, cell: None, imsi: None };
    assert_eq!(none.cell_index(), 0);
    assert_eq!(none.cell_label(), "A");
}

#[test]
fn sd_parsing() {
    assert_eq!(parse_sd("2"), Some(2));
    assert_eq!(parse_sd("0x2"), Some(2));
    assert_eq!(parse_sd("0xFF"), Some(255));
}

#[test]
fn g2_rule() {
    assert!(g2_ok(&[25, 25, 25, 25], &[0, 0, 0, 0]));
    assert!(!g2_ok(&[50, 60], &[0, 0]));
    assert!(!g2_ok(&[10, 10], &[60, 60]));
}

#[test]
fn g2_rule_holds_beyond_the_range_of_a_sum() {
    assert!(!g2_ok(&[u32::MAX, 1], &[]));
    assert!(!g2_ok(&[], &[u32::MAX, u32::MAX]));
    assert!(g2_ok(&[100], &[100]));
    assert!(!g2_ok(&[101], &[]));
    assert!(g2_ok(&[], &[]));
}

#[test]
fn a_slice_line_needs_a_cell_and_a_type() {
    assert!(parse_slice_line("Scheduler slice sst=1 metrics: nof_ues=1").is_none());
    assert!(parse_slice_line("Scheduler slice pci=1 metrics: nof_ues=1").is_none());
    assert!(parse_slice_line("Scheduler slice pci=70000 sst=1").is_none());
    assert!(parse_slice_line("Scheduler slice pci=1 sst=256").is_none());
}

#[test]
fn a_short_slice_line_reads_as_zeros() {
    let m = parse_slice_line("Scheduler slice pci=7 sst=3").unwrap();
    assert_eq!(m.pci, 7);
    assert_eq!(m.nof_ues, 0);
    assert_eq!(m.dl_max_prbs, 0);
    assert_eq!(m.avg_ul_rbs_per_slot, "");
    assert_eq!(m.slice_id(), SliceId::new(3, None));
}

#[test]
fn the_downlink_limits_are_not_the_uplink_ones() {
    let m = parse_slice_line(
        "Scheduler slice pci=1 sst=1 ul[min_prbs=9 max_prbs=9 ded_prbs=9] \
dl[min_prbs=1 max_prbs=2 ded_prbs=3]",
    )
    .unwrap();
    assert_eq!((m.dl_min_prbs, m.dl_max_prbs, m.dl_ded_prbs), (1, 2, 3));
}

#[test]
fn an_empty_metric_is_all_zero() {
    let m = SliceMetric::default();
    assert_eq!((m.pci, m.sst, m.sd, m.nof_ues), (0, 0, None, 0));
    assert_eq!(m.dl_prb_ratio, "");
}

#[test]
fn the_latest_line_of_a_slice_counts() {
    let log = "x Scheduler slice pci=1 sst=1 sd=0x2 metrics: nof_ues=1\n\
y Scheduler slice pci=1 sst=2 metrics: nof_ues=5\n\
noise\n\
z Scheduler slice pci=1 sst=1 sd=2 metrics: nof_ues=4\n";
    let v = read_slice_metrics(log);
    assert_eq!(v.len(), 2);
    let first = v.iter().find(|m| m.sst == 1).unwrap();
    assert_eq!((first.sd, first.nof_ues), (Some(2), 4));
    let second = v.iter().find(|m| m.sst == 2).unwrap();
    assert_eq!(second.nof_ues, 5);
}

#[test]
fn only_the_end_of_a_log_is_read() {
    let mut log = String::from("Scheduler slice pci=1 sst=1 metrics: nof_ues=1\n");
    for _ in 0..4000 {
        log.push_str("noise\n");
    }
    assert!(read_slice_metrics(&log).is_empty());
}

#[test]
fn sd_spellings_that_are_no_number() {
    assert_eq!(parse_sd(" 0X1f "), Some(31));
    assert_eq!(parse_sd("0x"), None);
    assert_eq!(parse_sd("4294967296"), None);
    assert_eq!(parse_sd("ten"), None);
    assert_eq!(parse_sd("+7"), Some(7));
}

#[test]
fn slices_are_named() {
    assert_eq!(SliceId::new(1, Some(1)).short(), "S1/sd1");
    assert_eq!(SliceId::new(2, None).short(), "S2");
    let names: Vec<&str> = (0..=5).map(|n| SliceId::new(n, None).service()).collect();
    assert_eq!(names, vec!["slice", "eMBB", "URLLC", "mMTC", "V2X", "slice"]);
}

#[test]
fn cells_are_lettered_and_bounded() {
    assert_eq!(cell_letter(0), 'A');
    assert_eq!(cell_letter(7), 'H');
    assert_eq!(entry(1, None, Some("99")).cell_index(), 25);
    assert_eq!(entry(1, None, Some("z")).cell_label(), "Z");
    assert_eq!(entry(1, None, Some(" b ")).cell_index(), 1);
    assert_eq!(entry(1, None, Some("")).cell_index(), 0);
}

#[test]
fn the_map_keeps_numbered_ues_only() {
    let map = read_slice_map(vec![
        ("2".to_string(), entry(1, Some("3"), Some("B"))),
        ("x".to_string(), entry(9, None, None)),
    ]);
    assert_eq!(map.len(), 1);
    assert_eq!(map[&2].slice_id(), SliceId::new(1, Some(3)));
}

#[test]
fn du_logs_are_looked_for_in_order() {
    assert_eq!(
        du_log_candidates(Some("/x/du.log"), Some("/t")),
        vec![
            "/x/du.log",
            "/t/build/apps/du.log",
            "/t/build/apps/du/du.log",
            "/t/du.log",
            "du.log"
        ]
    );
    assert_eq!(du_log_candidates(Some(""), Some("")), vec!["du.log"]);
    assert_eq!(du_log_candidates(None, None), vec!["du.log"]);
}

#[test]
fn the_newest_log_that_holds_something_is_taken() {
    let file = |p: &str, is_file: bool, len: u64, modified: Option<i128>| LogFile {
        path: p.to_string(),
        is_file,
        len,
        modified,
    };
    let files = vec![
        file("old", true, 5, Some(10)),
        file("new", true, 5, Some(20)),
        file("empty", true, 0, Some(30)),
        file("dir", false, 5, Some(40)),
        file("unknown", true, 5, None),
    ];
    assert_eq!(du_log_path(&files), Some("new".to_string()));
    assert_eq!(du_log_path(&vec![file("empty", true, 0, Some(1))]), None);
    let tie = vec![file("a", true, 1, Some(1)), file("b", true, 1, Some(1))];
    assert_eq!(du_log_path(&tie), Some("b".to_string()));
}

#[test]
fn ues_are_grouped_by_slice() {
    let mut map = HashMap::new();
    map.insert(1, entry(1, Some("2"), None));
    map.insert(2, entry(1, None, None));
    map.insert(3, entry(1, Some("2"), None));
    map.insert(9, entry(4, None, None));
    let ues = vec![health(3), health(2), health(1), health(5)];
    let srv = None;
    let ctx = PageCtx {
        ue_health: &ues,
        slice_map: &map,
        slice_metrics: &[],
        srv: &srv,
        gnb_up: true,
        scripts_dir: "/s",
    };
    assert_eq!(ctx.slice_of(1), Some(SliceId::new(1, Some(2))));
    assert_eq!(ctx.slice_of(5), None);
    assert_eq!(ctx.ues_in_slice(SliceId::new(1, Some(2))), vec![3, 1]);
    assert_eq!(ctx.distinct_slices(), vec![SliceId::new(1, Some(2)), SliceId::new(1, None)]);
}
