use ue_sim::dash::{
    cmd_logs, fmt_uptime, last_lines, log_path, log_style, log_window, pattern_style,
    read_log_tail, render_status_once, status_style, ue_detail_lines, ue_rows, DashState, LogSrc,
    ProxyStatus, TrafficStatus, UeMetrics,
};
use ue_sim::keys::Key;
use ue_sim::ui::{Color, Span, Style};

fn joined(line: &[Span]) -> String {
    line.iter().map(|s| s.text.as_str()).collect::<Vec<_>>().concat()
}

fn metrics(ip: Option<&str>) -> UeMetrics {
    UeMetrics {
        ip: ip.map(|s| s.to_string()),
        pattern: None,
        status: Some("active".to_string()),
        dl_mbps: Some("1.50".to_string()),
        ul_mbps: None,
        latency_ms: Some("12.3".to_string()),
        loss_pct: None,
    }
}

fn no_proxy() -> ProxyStatus {
    ProxyStatus {
        running: None,
        n_ues: None,
        dl_frames: None,
        ul_frames: None,
        dl_errors: None,
        ul_errors: None,
        uptime_s: None,
    }
}

fn two_ues() -> TrafficStatus {
    TrafficStatus {
        num_ues: Some(2),
        ues: Some(vec![
            ("10".to_string(), metrics(None)),
            ("x".to_string(), metrics(None)),
            ("2".to_string(), metrics(Some("10.0.0.2"))),
        ]),
    }
}

#[test]
fn uptimes_are_written_in_parts() {
    assert_eq!(fmt_uptime(0), "00:00:00");
    assert_eq!(fmt_uptime(3661), "01:01:01");
    assert_eq!(fmt_uptime(360000), "100:00:00");
}

#[test]
fn ues_stand_in_the_order_of_their_numbers() {
    assert_eq!(ue_rows(&two_ues()), vec![(2, 2), (10, 0)]);
    assert!(ue_rows(&TrafficStatus { num_ues: None, ues: None }).is_empty());
}

#[test]
fn log_lines_are_coloured_by_level() {
    let fg = |l: &str| log_style(l).fg.unwrap();
    assert_eq!(fg("[x] [E] y"), Color::Rgb(235, 70, 70));
    assert_eq!(fg("ERROR and INFO"), Color::Rgb(235, 70, 70));
    assert_eq!(fg("WARN"), Color::Rgb(210, 140, 0));
    assert_eq!(fg("[proxy] up"), Color::Rgb(0, 185, 90));
    assert_eq!(fg("DEBUG"), Color::Rgb(65, 155, 235));
    assert_eq!(fg("TRACE"), Color::Rgb(190, 70, 190));
    assert_eq!(fg("plain"), Color::Rgb(185, 175, 155));
}

#[test]
fn statuses_and_patterns_have_looks() {
    let s = status_style("active");
    assert_eq!((s.text.as_str(), s.style.fg, s.style.bold), ("● active", Some(Color::Rgb(0, 175, 80)), true));
    assert_eq!(status_style("waiting_iface").text, "○ waiting...");
    assert_eq!(status_style("no_ip").text, "○ no_ip");
    assert_eq!(status_style("no_iperf_server").text, "○ no iperf");
    assert_eq!(status_style("odd").text, "odd");
    assert_eq!(pattern_style("speedtest").fg, Some(Color::Rgb(60, 150, 235)));
    assert_eq!(pattern_style("video").fg, Some(Color::Rgb(190, 70, 190)));
    assert_eq!(pattern_style("load").fg, Some(Color::Rgb(215, 125, 0)));
    assert!(!pattern_style("idle").bold);
}

#[test]
fn the_status_is_reported() {
    let rule = "─".repeat(76);
    let mut ps = no_proxy();
    ps.running = Some(true);
    ps.uptime_s = Some(61);
    ps.dl_frames = Some(5);
    ps.dl_errors = Some(1);
    ps.ul_errors = Some(2);
    assert!(ps.errors_fit());
    assert_eq!(
        render_status_once(false, true, &ps, &two_ues()),
        vec![
            "─── Multi-UE Simulation Status ──────────────────────────────────────────".to_string(),
            "Proxy: ● RUNNING  Uptime: 00:01:01  DL: 5 fr  UL: 0 fr  Errors: 3".to_string(),
            format!(
                "{:<4} {:<17} {:<15} {:<10} {:<9} {:<9} {:<10}",
                "UE", "IP", "Status", "Pattern", "DL Mbps", "UL Mbps", "Lat ms"
            ),
            rule.clone(),
            format!(
                "{:<4} {:<17} {:<15} {:<10} {:<9} {:<9} {:<10}",
                2, "10.0.0.2", "active", "idle", "1.50", "—", "12.3"
            ),
            format!(
                "{:<4} {:<17} {:<15} {:<10} {:<9} {:<9} {:<10}",
                10, "—", "active", "idle", "1.50", "—", "12.3"
            ),
        ]
    );
    let none = TrafficStatus { num_ues: None, ues: None };
    let v = render_status_once(true, false, &no_proxy(), &none);
    assert_eq!(v[1], "gNB: ○ STOPPED   UEs: 0   Mode: rfsim (per-namespace)");
    assert_eq!(v[4], "(no UE data — traffic engine not running)");
    ps.dl_errors = Some(u64::MAX);
    assert!(!ps.errors_fit());
}

#[test]
fn a_ue_named_with_zeros_is_not_reported() {
    let ts = TrafficStatus { num_ues: None, ues: Some(vec![("007".to_string(), metrics(None))]) };
    assert_eq!(render_status_once(true, true, &no_proxy(), &ts).len(), 4);
    assert_eq!(ue_rows(&ts), vec![(7, 0)]);
}

#[test]
fn log_sources_have_paths_and_labels() {
    assert_eq!(LogSrc::Radio.path("/s", true, 1), "/s/logs/gnb.log");
    assert_eq!(LogSrc::Radio.path("/s", false, 1), "/s/logs/proxy_nue.log");
    assert_eq!(LogSrc::NrUe.path("/s", true, 3), "/s/logs/ue3_nue.log");
    assert_eq!(LogSrc::NrUe.path("/s", false, 3), "/s/logs/traffic_nue.log");
    assert_eq!(LogSrc::Traffic.path("/s", true, 3), "/s/logs/traffic_nue.log");
    assert_eq!(LogSrc::Radio.label(true, 1), "gnb.log");
    assert_eq!(LogSrc::Radio.label(false, 1), "proxy.log");
    assert_eq!(LogSrc::NrUe.label(true, 3), "nr-ue3.log");
    assert_eq!(LogSrc::NrUe.label(false, 3), "nr-ue.log");
    assert_eq!(LogSrc::Traffic.label(false, 3), "traffic.log");
    for s in [LogSrc::Radio, LogSrc::NrUe, LogSrc::Traffic] {
        assert_eq!(s.next().next().next(), s);
    }
}

#[test]
fn logs_are_found_by_name() {
    assert_eq!(log_path("ue12", "/s", false), "/s/logs/ue12_nue.log");
    assert_eq!(log_path("uex", "/s", true), "/s/logs/ue1_nue.log");
    assert_eq!(log_path("uex", "/s", false), "/s/logs/traffic_nue.log");
    assert_eq!(log_path("ue", "/s", true), "/s/logs/ue1_nue.log");
    assert_eq!(log_path("traffic", "/s", true), "/s/logs/traffic_nue.log");
    assert_eq!(log_path("gnb", "/s", true), "/s/logs/gnb.log");
    assert_eq!(log_path("proxy", "/s", true), "/s/logs/proxy_nue.log");
    assert_eq!(cmd_logs("gnb", "/s", true, true), vec!["-f", "-n", "50", "/s/logs/gnb.log"]);
    assert_eq!(cmd_logs("gnb", "/s", true, false), vec!["-n", "200", "/s/logs/gnb.log"]);
}

#[test]
fn only_the_end_of_a_log_is_kept() {
    assert_eq!(last_lines("a\nb\r\nc", 2), vec!["b", "c"]);
    assert!(last_lines("", 2).is_empty());
    let log = "x\n".repeat(2001);
    assert_eq!(read_log_tail(&log).len(), 2000);
}

#[test]
fn the_window_stays_within_the_log() {
    let w = log_window(100, 10, 5);
    assert_eq!((w.offset, w.start, w.end), (5, 85, 95));
    let w = log_window(100, 10, 500);
    assert_eq!((w.offset, w.start, w.end), (90, 0, 10));
    let w = log_window(3, 10, 2);
    assert_eq!((w.offset, w.start, w.end), (0, 0, 3));
}

#[test]
fn keys_move_through_the_dashboard() {
    let mut s = DashState::new(true, 3);
    assert_eq!((s.log_src, s.selected, s.ue_count, s.ue_log_idx), (LogSrc::NrUe, Some(0), 3, 1));
    for _ in 0..5 {
        s.handle_key(Key::Down, false);
    }
    assert_eq!(s.selected, Some(2));
    s.handle_key(Key::Up, false);
    assert_eq!(s.selected, Some(1));
    s.handle_key(Key::PageUp, false);
    s.handle_key(Key::PageUp, false);
    s.handle_key(Key::PageDown, false);
    assert_eq!(s.log_scroll, 10);
    s.handle_key(Key::Tab, false);
    assert_eq!((s.log_scroll, s.log_src), (0, LogSrc::Traffic));
    s.handle_key(Key::Char('['), false);
    assert_eq!((s.ue_log_idx, s.log_src), (3, LogSrc::NrUe));
    s.handle_key(Key::Char(']'), false);
    assert_eq!(s.ue_log_idx, 1);
    s.handle_key(Key::PageUp, false);
    s.handle_key(Key::End, false);
    assert_eq!(s.log_scroll, 0);
    assert!(!s.handle_key(Key::Char('c'), false));
    assert!(s.handle_key(Key::Char('c'), true));
    assert!(s.handle_key(Key::Char('q'), false));
    assert!(s.handle_key(Key::Esc, false));
    let mut z = DashState::new(false, 3);
    assert_eq!(z.ue_count, 0);
    z.ue_down();
    assert_eq!(z.selected, Some(0));
}

#[test]
fn a_refresh_keeps_a_ue_shown() {
    let mut s = DashState::new(true, 9);
    s.ue_log_idx = 8;
    s.refresh(&two_ues(), 5);
    assert_eq!((s.ue_count, s.ue_log_idx), (5, 1));
    let mut s = DashState::new(false, 9);
    s.refresh(&two_ues(), 5);
    assert_eq!(s.ue_count, 3);
}

#[test]
fn details_name_the_interface() {
    let v = ue_detail_lines(2, &metrics(None), true);
    assert_eq!(
        v.iter().map(|l| joined(l)).collect::<Vec<_>>(),
        vec![
            "  Interface : oaitun_ue1 (in uesim2)",
            "  IP        : — (waiting for registration)",
            "  Status    : ● active",
            "  Pattern   : idle",
            "",
            "  DL        : 1.50 Mbps",
            "  UL        : —",
            "  Latency   : 12.3 ms",
            "  Loss      : 0.0%",
        ]
    );
    assert_eq!(v[1][1].style.fg, Some(Color::Yellow));
    let v = ue_detail_lines(2, &metrics(Some("10.0.0.2")), false);
    assert_eq!(joined(&v[0]), "  Interface : oaitun_ue2");
    assert_eq!(v[1][1].style, Style::strong(Color::Green));
}

#[test]
fn the_dashboard_is_laid_out() {
    let mut s = DashState::new(false, 0);
    s.selected = Some(1);
    let ts = two_ues();
    s.refresh(&ts, 0);
    let mut ps = no_proxy();
    ps.n_ues = Some(4);
    let logs: Vec<String> = (0..9).map(|i| format!("l{}", i)).collect();
    s.log_scroll = 2;
    let v = s.render(false, &ps, &ts, &logs, 5);
    assert_eq!(
        v.header.iter().map(|l| joined(l)).collect::<Vec<_>>(),
        vec![
            " Proxy: ○ STOPPED",
            " DL 0 frames   UL 0 frames   Uptime: 00:00:00  Errors: 0  UEs: 4"
        ]
    );
    assert_eq!(v.table.len(), 2);
    assert_eq!(v.table[0].cells[1].text, "10.0.0.2");
    assert_eq!(v.detail_title.text, " UE 10  ↑↓ to select ");
    assert_eq!(v.log_title.text, " nr-ue.log ↑2  End→tail  Tab → ");
    assert_eq!(v.log.iter().map(|l| joined(l)).collect::<Vec<_>>(), vec!["l4", "l5", "l6"]);
    assert_eq!(
        joined(&v.footer),
        " q/Esc:quit  Tab:cycle log (proxy/nr-ue/traffic)  ↑↓:select UE  PgUp/Dn:scroll log  End:tail"
    );
    let mut r = DashState::new(true, 2);
    let none = TrafficStatus { num_ues: None, ues: None };
    r.refresh(&none, 2);
    let v = r.render(true, &no_proxy(), &none, &vec![], 0);
    assert_eq!(joined(&v.header[0]), " gNB: ● RUNNING");
    assert_eq!(joined(&v.header[1]), " Mode: rfsim/ns   UEs: 2  ns: uesim1..uesim2");
    assert_eq!(v.table[0].cells[1].text, "waiting for traffic engine...");
    assert_eq!(v.detail_title.text, " UE Detail  ↑↓ to select ");
    assert_eq!(joined(&v.detail[0]), "  (start simulation first)");
    assert_eq!(v.log_title.text, " nr-ue1.log ● live  [/]:UE  Tab → ");
}
