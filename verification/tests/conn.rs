use ue_sim::conn::{
    discover_ext_dn_ip, iperf_srv, live_tun_ip, log_assigned_ip, needs_tun_ip, parse_ue_conn,
    ping_target, stage_color, Stage,
};
use ue_sim::ui::Color;

#[test]
fn the_tunnel_address_is_one_of_the_data_network() {
    let out = "5: oaitun_ue1: <UP>\n    inet 192.168.0.2/24 scope\n    inet 10.0.0.7/24 brd\n";
    assert_eq!(live_tun_ip(out), "10.0.0.7");
    assert_eq!(live_tun_ip("  inet 10.1.2.3\n"), "10.1.2.3");
    assert_eq!(live_tun_ip("  inet6 10::1\n  inet \n"), "");
    assert_eq!(live_tun_ip(""), "");
}

#[test]
fn the_far_end_is_not_the_loopback() {
    let out = " inet 127.0.0.1/8 lo\n inet 192.168.70.135/26 eth0\n";
    assert_eq!(discover_ext_dn_ip(out), Some("192.168.70.135".to_string()));
    assert_eq!(discover_ext_dn_ip(" inet 127.0.0.1/8 lo\n"), None);
}

#[test]
fn settings_override_the_usual_targets() {
    assert_eq!(ping_target(None), "8.8.8.8");
    assert_eq!(ping_target(Some("")), "8.8.8.8");
    assert_eq!(ping_target(Some("1.1.1.1")), "1.1.1.1");
    assert_eq!(iperf_srv(None, "10.9.9.9"), Some("10.9.9.9".to_string()));
    assert_eq!(iperf_srv(Some("h"), "10.9.9.9"), Some("h".to_string()));
}

#[test]
fn the_last_assigned_address_counts() {
    let log = "UE IPv4: 10.0.0.1\nUE IPv4: 10.0.0.2 ok\nIPv4 192.168.0.1\n";
    assert_eq!(log_assigned_ip(log), "10.0.0.2");
    assert_eq!(log_assigned_ip("got IPv4 10.0.0.9,\n"), "10.0.0.9");
    assert_eq!(log_assigned_ip("UE IPv4: 10.0.0\n"), "");
    assert_eq!(log_assigned_ip("UE IPv4: x IPv4 10.0.0.4\n"), "10.0.0.4");
}

#[test]
fn stages_follow_the_log() {
    let c = parse_ue_conn(4, None, "10.0.0.1");
    assert_eq!((c.stage, c.stage.name(), c.ip.as_str()), (Stage::NoLog, "(no log)", "—"));
    let c = parse_ue_conn(4, Some(""), "10.0.0.1");
    assert_eq!((c.stage.name(), c.ip.as_str(), c.has_tun), ("--", "—", false));
    let c = parse_ue_conn(4, Some("pbch decoded sucessfully\nSIB1 decoded\nSIB1 decoded"), "10.0.0.1");
    assert_eq!((c.stage, c.sync, c.sib1, c.has_tun), (Stage::Sib1, 1, 2, false));
    let log = "RAR reception failed\nRRCSetupComplete\nUE IPv4: 10.0.0.3\n";
    assert!(needs_tun_ip(log));
    let c = parse_ue_conn(4, Some(log), "");
    assert_eq!((c.stage, c.rar_fail, c.rrc, c.ip.as_str()), (Stage::Rrc, 1, 1, "10.0.0.3↓"));
    let c = parse_ue_conn(4, Some(log), "10.0.0.3");
    assert_eq!((c.id, c.stage, c.has_tun, c.ip.as_str()), (4, Stage::Data, true, "10.0.0.3"));
}

#[test]
fn recent_lines_come_first() {
    let mut log = String::from("Registration Accept\n");
    for _ in 0..250 {
        log.push_str("pbch decoded sucessfully\n");
    }
    let c = parse_ue_conn(1, Some(&log), "");
    assert_eq!((c.stage, c.reg, c.sync), (Stage::Sync, 1, 250));
    let mut log = String::from("Registration Accept\nRAR-Msg2 decoded\n");
    for _ in 0..248 {
        log.push_str("x\n");
    }
    assert_eq!(parse_ue_conn(1, Some(&log), "").stage, Stage::Registered);
    log.push_str("x\n");
    assert_eq!(parse_ue_conn(1, Some(&log), "").stage, Stage::Rar);
    log.push_str("x\n");
    assert_eq!(parse_ue_conn(1, Some(&log), "").stage, Stage::Registered);
    assert!(!needs_tun_ip("SIB1 decoded"));
}

#[test]
fn stages_have_colours() {
    assert_eq!(stage_color(Stage::Data), Color::Rgb(0, 140, 60));
    assert_eq!(stage_color(Stage::Registered), Color::Rgb(20, 115, 20));
    assert_eq!(stage_color(Stage::Nothing), Color::Rgb(140, 130, 115));
    assert_eq!(stage_color(Stage::NoLog), Color::Rgb(140, 130, 115));
}
