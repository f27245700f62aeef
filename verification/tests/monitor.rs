use ue_sim::conn::{Stage, UeConn};
use ue_sim::keys::Key;
use ue_sim::monitor::{
    ids_with_data, next_focus, plan_sampling, radio_state, ChartMetric, Effect, MonitorFrame, MonitorState,
    NueProxyStatus, Radio, Surroundings, UeView, LOAD_PERIOD_MS, READY,
};
use ue_sim::ui::{Color, Span};

fn joined(line: &[Span]) -> String {
    line.iter().map(|s| s.text.as_str()).collect::<Vec<_>>().concat()
}

fn view(id: usize, stage: Stage) -> UeView {
    UeView {
        conn: UeConn {
            id,
            sync: 0,
            sib1: 0,
            rar_ok: 0,
            rar_fail: 0,
            rrc: 0,
            reg: 1,
            stage,
            ip: format!("10.0.0.{}", id),
            has_tun: stage == Stage::Data,
        },
        last_rtt: Some("12".to_string()),
        recv: 3,
        dl: "1.50".to_string(),
        ul: "-".to_string(),
        tput: " 2.0M".to_string(),
        rtt_len: 7,
        tput_len: 2,
    }
}

fn frame<'a>(
    ue_ids: &'a Vec<usize>,
    views: &'a Vec<UeView>,
    gnb_up: bool,
    srv: &'a Option<String>,
) -> MonitorFrame<'a> {
    MonitorFrame { ue_ids, views, gnb_up, target: "8.8.8.8", srv, scripts: "/s" }
}

fn told(v: &[Effect]) -> Vec<String> {
    v.iter()
        .map(|e| match e {
            Effect::StopPings => "stop pings".to_string(),
            Effect::StartPing(i) => format!("ping {}", i),
            Effect::Shell(c) => format!("sh {}", c),
            Effect::SpeedTest(t) => format!("speed {} {} {} {}", t.ue, t.srv, t.port, t.ip),
            Effect::Video(t) => format!("video {} {} {} {}", t.ue, t.srv, t.port, t.ip),
            Effect::StopLoad => "stop load".to_string(),
            Effect::StartLoad => "start load".to_string(),
        })
        .collect()
}

#[test]
fn charts_go_round() {
    let m = ChartMetric::AvgRtt;
    assert_eq!(m.next(), ChartMetric::AllRtt);
    assert_eq!(m.next().next(), ChartMetric::SelRtt);
    assert_eq!(m.next().next().next(), ChartMetric::Bitrate);
    assert_eq!(m.next().next().next().next(), m);
}

#[test]
fn sampling_follows_the_data_plane() {
    let v = vec![view(3, Stage::Data), view(4, Stage::Rrc), view(1, Stage::Data)];
    assert_eq!(ids_with_data(&v), vec![3, 1]);
    let p = plan_sampling(&v, &vec![1, 9]);
    assert_eq!((p.start, p.stop), (vec![3], vec![9]));
}

#[test]
fn stuck_ues_and_the_load_are_noticed() {
    let v = vec![view(3, Stage::Data), view(4, Stage::Rrc)];
    let mut s = MonitorState::new(4);
    s.sel = 9;
    s.notice(&v, 5, "t");
    assert_eq!(s.sel, 1);
    assert_eq!(
        s.status,
        "UE stuck at RRC (AMF timing) — retry with: sudo PROXY_WAVE_SIZE=1 bash clean_start.sh N"
    );
    s.load_on = true;
    s.notice(&v, 5, "t");
    assert_eq!(s.status, "LOAD DIST: focus UE4 (2/2) pinging all → t [L to stop]");
    let mut s = MonitorState::new(4);
    s.notice(&vec![], 5, "t");
    assert_eq!(s.status, READY);
}

#[test]
fn the_end_of_traffic_is_noted() {
    let mut s = MonitorState::new(4);
    s.end_round(2);
    assert_eq!((s.prev_traffic, s.status.as_str()), (2, READY));
    s.end_round(0);
    assert_eq!(
        s.status,
        "traffic finished — press g (then p if sampling is off) to see throughput graph"
    );
    let mut s = MonitorState::new(4);
    s.load_on = true;
    s.end_round(1);
    s.end_round(0);
    assert_eq!(s.status, READY);
}

#[test]
fn pings_are_toggled() {
    let ids = vec![1usize, 2];
    let views = vec![];
    let srv = None;
    let f = frame(&ids, &views, true, &srv);
    let mut s = MonitorState::new(4);
    let r = s.handle_key(Key::Char('p'), false, &f);
    assert_eq!(told(&r.effects), vec!["ping 1", "ping 2"]);
    assert!(s.ping_on && !r.quit);
    assert_eq!(s.status, "ping → 8.8.8.8 (2 UEs, DL/UL always live)  [g: graph modes]");
    let r = s.handle_key(Key::Char('p'), false, &f);
    assert_eq!(told(&r.effects), vec!["stop pings"]);
    assert_eq!((s.ping_on, s.status.as_str()), (false, "ping off"));
    let none = vec![];
    let f = frame(&none, &views, true, &srv);
    let r = s.handle_key(Key::Char('p'), false, &f);
    assert!(r.effects.is_empty());
    assert_eq!(s.status, "no UEs running — press s to start");
}

#[test]
fn ues_are_started_only_with_a_gnb() {
    let ids = vec![];
    let views = vec![];
    let srv = None;
    let up = frame(&ids, &views, true, &srv);
    let down = frame(&ids, &views, false, &srv);
    let mut s = MonitorState::new(4);
    let r = s.handle_key(Key::Char('s'), false, &up);
    assert_eq!(told(&r.effects), vec!["stop pings", "sh bash /s/dash_ctl.sh restart 4"]);
    assert_eq!(s.status, "(re)starting 4 UEs (your gNB kept)…");
    let r = s.handle_key(Key::Char('r'), false, &up);
    assert_eq!(told(&r.effects), vec!["stop pings", "sh bash /s/dash_ctl.sh restart 4"]);
    assert_eq!(s.status, "restarting 4 UEs (your gNB kept)…");
    let r = s.handle_key(Key::Char('s'), false, &down);
    assert_eq!(told(&r.effects), vec!["stop pings"]);
    assert_eq!(s.status, "gNB is DOWN — start your gNB first, then press s");
    s.handle_key(Key::Char('r'), false, &down);
    assert_eq!(s.status, "gNB is DOWN — start your gNB first");
    let r = s.handle_key(Key::Char('x'), false, &down);
    assert_eq!(told(&r.effects), vec!["stop pings", "sh bash /s/dash_ctl.sh stop"]);
    assert_eq!(s.status, "stopping UEs…");
}

#[test]
fn the_start_count_stays_in_range() {
    let ids = vec![];
    let views = vec![];
    let srv = None;
    let f = frame(&ids, &views, true, &srv);
    let mut s = MonitorState::new(31);
    for _ in 0..4 {
        s.handle_key(Key::Char('+'), false, &f);
    }
    assert_eq!(s.n_set, 32);
    for _ in 0..40 {
        s.handle_key(Key::Char('-'), false, &f);
    }
    assert_eq!(s.n_set, 1);
    let ids = vec![1usize, 2];
    let f = frame(&ids, &views, true, &srv);
    let r = s.handle_key(Key::Char('='), false, &f);
    assert_eq!(told(&r.effects), vec!["sh bash /s/mue_add.sh"]);
    assert_eq!(s.status, "adding 1 UE live (UE3 joins, others kept)…");
    s.handle_key(Key::Char('_'), false, &f);
    assert_eq!(s.status, "live remove not supported — use x to stop all, or r to restart");
    s.n_set = usize::MAX;
    let none = vec![];
    assert!(!s.accepts(Key::Char('+'), &frame(&none, &views, true, &srv)));
}

#[test]
fn speed_tests_reach_the_ues_with_data() {
    let ids = vec![1usize, 2];
    let views = vec![view(1, Stage::Data), view(2, Stage::Rrc)];
    let srv = Some("h".to_string());
    let f = frame(&ids, &views, true, &srv);
    let mut s = MonitorState::new(4);
    let r = s.handle_key(Key::Char('i'), false, &f);
    assert_eq!(
        told(&r.effects),
        vec![
            "sh docker exec oai-ext-dn pkill -9 iperf3 2>/dev/null || true",
            "sh docker exec oai-ext-dn sysctl -qw net.core.rmem_max=67108864 \
net.core.wmem_max=67108864 net.ipv4.tcp_rmem='4096 1048576 67108864' \
net.ipv4.tcp_wmem='4096 1048576 67108864' 2>/dev/null || true",
            "sh docker exec -d oai-ext-dn sh -c 'sleep 2; iperf3 -s -p 5201' 2>/dev/null || true",
            "speed 1 h 5201 10.0.0.1",
        ]
    );
    assert_eq!(
        s.status,
        "speedtest → h (1 UEs w/ data plane, ~65s DL+UL)… [press p to see DL/UL live]"
    );
    let r = s.handle_key(Key::Char('v'), false, &f);
    assert_eq!(
        told(&r.effects),
        vec![
            "sh docker exec oai-ext-dn pkill -9 iperf3 2>/dev/null || true",
            "sh docker exec -d oai-ext-dn sh -c 'sleep 2; iperf3 -s -p 5201' 2>/dev/null || true",
            "video 1 h 5201 10.0.0.1",
        ]
    );
    assert_eq!(s.status, "video → 1 UEs (30s) — press p then g to watch bitrate");
    let idle = vec![view(2, Stage::Rrc)];
    let f = frame(&ids, &idle, true, &srv);
    s.handle_key(Key::Char('v'), false, &f);
    assert_eq!(s.status, "no UEs with a live tunnel (DATA stage) to test");
    let unset = None;
    let f = frame(&ids, &views, true, &unset);
    s.handle_key(Key::Char('i'), false, &f);
    assert_eq!(s.status, "set IPERF_SRV=<ip> to enable speedtest");
    s.handle_key(Key::Char('v'), false, &f);
    assert_eq!(s.status, "set IPERF_SRV=<ip> for traffic tests");
}

#[test]
fn ports_beyond_the_range_are_not_accepted() {
    let ids = vec![60336usize];
    let views = vec![view(60336, Stage::Data)];
    let srv = Some("h".to_string());
    let s = MonitorState::new(4);
    assert!(!s.accepts(Key::Char('i'), &frame(&ids, &views, true, &srv)));
    let views = vec![view(60335, Stage::Data)];
    assert!(s.accepts(Key::Char('v'), &frame(&ids, &views, true, &srv)));
}

#[test]
fn the_load_is_toggled() {
    let ids = vec![5usize];
    let views = vec![];
    let srv = None;
    let f = frame(&ids, &views, true, &srv);
    let mut s = MonitorState::new(4);
    let r = s.handle_key(Key::Char('L'), false, &f);
    assert_eq!(told(&r.effects), vec!["ping 5", "start load"]);
    assert!(s.load_on && s.ping_on);
    assert_eq!(s.status, "LOAD DIST: pinging all 1 UEs, focus cycles every 5s [L to stop]");
    let r = s.handle_key(Key::Char('l'), false, &f);
    assert_eq!(told(&r.effects), vec!["stop load", "stop pings"]);
    assert!(!s.load_on && !s.ping_on);
    assert_eq!(s.status, "load distribution off");
}

#[test]
fn other_keys_select_or_quit() {
    let ids = vec![1usize, 2];
    let views = vec![view(1, Stage::Data), view(2, Stage::Data)];
    let srv = None;
    let f = frame(&ids, &views, true, &srv);
    let mut s = MonitorState::new(4);
    s.handle_key(Key::Down, false, &f);
    s.handle_key(Key::Down, false, &f);
    assert_eq!(s.sel, 1);
    assert_eq!(s.selected_ue(&views), 2);
    s.handle_key(Key::Up, false, &f);
    s.handle_key(Key::Up, false, &f);
    assert_eq!(s.sel, 0);
    s.handle_key(Key::Char('g'), false, &f);
    assert_eq!(s.metric, ChartMetric::AllRtt);
    assert!(!s.handle_key(Key::Char('c'), false, &f).quit);
    assert!(s.handle_key(Key::Char('c'), true, &f).quit);
    assert!(s.handle_key(Key::Char('q'), false, &f).quit);
    assert!(s.handle_key(Key::Esc, false, &f).quit);
}

#[test]
fn duplicate_processes_are_told() {
    let r = radio_state(true, 1, 2, 1);
    assert!(r.gnb_up && r.gnb_dup && r.proxy_up && !r.proxy_dup);
    let r = radio_state(false, 1, 1, 2);
    assert!(!r.gnb_up && !r.gnb_dup && r.proxy_up && r.proxy_dup);
}

fn surroundings<'a>(
    ps: &'a NueProxyStatus,
    radio: Radio,
    srv: &'a Option<String>,
    log: &'a str,
) -> Surroundings<'a> {
    Surroundings { ps, radio, focus: 1, target: "t", srv, log, log_height: 4 }
}

#[test]
fn the_monitor_is_laid_out() {
    let views = vec![view(1, Stage::Data), view(2, Stage::Rrc), view(3, Stage::Data)];
    let ps = NueProxyStatus { dl: Some(1), ul: None, dl_err: Some(2), ul_err: Some(3) };
    assert!(ps.errors_fit());
    let srv = Some("h".to_string());
    let mut s = MonitorState::new(4);
    s.ping_on = true;
    let log = "[a] [b] one\ntwo\n[c] ERROR three\n";
    let v = s.render_dash(&views, &surroundings(&ps, radio_state(true, 1, 1, 1), &srv, log));
    assert_eq!(
        joined(&v.header),
        " ● gNB UP  proxy UP   running 3 UEs   REGISTERED 3/3  DATA 2/3   start N=4   ping→t   \
iperf:h   IQ dl 1 ul 0 err 5"
    );
    assert_eq!(
        v.table[1].cells.iter().map(|c| c.text.as_str()).collect::<Vec<_>>(),
        vec!["2", "RRC", "10.0.0.2", "12ms", "3", "1.50", "-"]
    );
    assert_eq!(v.table[0].style.bg, Some(Color::Rgb(38, 42, 52)));
    assert_eq!(v.chart_title, " avg RTT (ms) — g: all UEs ");
    assert_eq!((v.chart_width, v.unit.as_str(), v.legend), (7, "ms", false));
    assert_eq!(
        v.time_labels.iter().map(|l| l.text.as_str()).collect::<Vec<_>>(),
        vec!["-7s", "-3s", "now"]
    );
    assert_eq!(v.upper, 2);
    assert_eq!(
        v.sparks.iter().map(|l| l.text.as_str()).collect::<Vec<_>>(),
        vec!["UE1 12ms 2.0M", "UE2 12ms 2.0M", "UE3 12ms 2.0M"]
    );
    assert_eq!(v.log_title.text, " UE1 log (live) ");
    assert_eq!(v.log.iter().map(|l| joined(l)).collect::<Vec<_>>(), vec!["two", "ERROR three"]);
    assert_eq!(v.log[1][0].style.fg, Some(Color::Rgb(235, 70, 70)));
    assert_eq!(
        joined(&v.keys),
        format!(
            " s start  r restart  x stop  + add-UE  - N  p ping  i speedtest  v video  L load-dist  \
g graph  ↑↓ select  q quit  {}",
            READY
        )
    );
}

#[test]
fn the_load_is_shown() {
    let views = vec![view(1, Stage::Data), view(2, Stage::Rrc)];
    let ps = NueProxyStatus { dl: None, ul: None, dl_err: None, ul_err: None };
    let srv = None;
    let mut s = MonitorState::new(4);
    s.load_on = true;
    s.metric = ChartMetric::Bitrate;
    let v = s.render_dash(&views, &surroundings(&ps, radio_state(true, 2, 1, 2), &srv, ""));
    assert_eq!(
        joined(&v.header),
        " ⚠ gNB DUP  proxy x2!   running 2 UEs   REGISTERED 2/2  DATA 1/2   start N=4   LOAD:UE2   \
iperf:unset   IQ dl 0 ul 0 err 0   ⚠ DUPLICATE gNB — press r to rebuild"
    );
    assert_eq!(v.table[1].style.bg, Some(Color::Rgb(45, 50, 65)));
    assert_eq!(v.sparks[1].text, "▶UE2 12ms 2.0M");
    assert_eq!(
        v.chart_title,
        " all UEs THROUGHPUT (Mbps) — g: avg RTT  [p starts it, i=iperf spikes] "
    );
    assert_eq!((v.chart_width, v.unit.as_str(), v.legend), (2, "Mbps", true));
    assert_eq!(v.chart_lines[1].text, "UE2");
    assert_eq!(v.chart_lines[1].style.fg, Some(Color::Rgb(195, 95, 0)));
    let none = vec![];
    let v = s.render_dash(&none, &surroundings(&ps, radio_state(false, 0, 0, 0), &srv, ""));
    assert_eq!(
        joined(&v.header),
        " ○ gNB DOWN  proxy down   running 0 UEs   REGISTERED 0/0  DATA 0/0   start N=4   LOAD:UE0   \
iperf:unset   IQ dl 0 ul 0 err 0"
    );
    assert_eq!((v.chart_width, v.log_title.text.as_str()), (1, " UE log "));
}

#[test]
fn the_walk_goes_round() {
    assert_eq!(LOAD_PERIOD_MS, 5000);
    assert_eq!(next_focus(0), 1);
    assert_eq!(next_focus(4) % 5, 0);
    assert_eq!(next_focus(usize::MAX), 0);
}
