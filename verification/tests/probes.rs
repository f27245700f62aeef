use ue_sim::launch::Cmd;
use ue_sim::probes::{
    bit_rates, byte_growth, counters_command, ensure_iperf_route, gnb_dl_port, iperf_command,
    ping_command, proc_count, rtt_text, sample_step, traffic_command, tun_counters, tunnel_command,
    tunnel_step, ues_to_start, LiveMetric, TunnelStep, RTT_HIST,
};

fn line(c: &Cmd) -> String {
    format!("{} {}", c.program, c.args.join(" "))
}

#[test]
fn histories_keep_the_latest_samples() {
    let mut m = LiveMetric::new();
    assert_eq!((m.recv, m.last_rtt, m.dl_mbps), (0, None, 0.0f64.to_bits()));
    for i in 0..RTT_HIST + 2 {
        m.add_rtt((i as f64).to_bits());
        m.add_rates((i as f64).to_bits(), 1.0f64.to_bits(), (i as f64 + 1.0).to_bits());
    }
    assert_eq!(m.recv, 242);
    assert_eq!((m.rtt.len(), m.tput.len()), (RTT_HIST, RTT_HIST));
    assert_eq!(f64::from_bits(m.rtt[0]), 2.0);
    assert_eq!(f64::from_bits(m.rtt[239]), 241.0);
    assert_eq!(m.last_rtt, Some(241.0f64.to_bits()));
    assert_eq!(m.last_tput, Some(242.0f64.to_bits()));
    assert_eq!(f64::from_bits(m.tput[0]), 3.0);
    assert_eq!(f64::from_bits(m.ul_mbps), 1.0);
}

#[test]
fn round_trip_times_are_found() {
    let l = "64 bytes from 8.8.8.8: icmp_seq=1 ttl=57 time=12.3 ms";
    assert_eq!(rtt_text(l), Some("12.3".to_string()));
    assert_eq!(rtt_text("time="), Some("".to_string()));
    assert_eq!(rtt_text("Destination unreachable"), None);
}

#[test]
fn a_missing_tunnel_is_waited_for() {
    assert_eq!(tunnel_step(0, true, "10.0.0.1"), TunnelStep::Ping);
    assert_eq!(tunnel_step(0, false, ""), TunnelStep::Wait(1000));
    assert_eq!(tunnel_step(19, false, ""), TunnelStep::Wait(1000));
    assert_eq!(tunnel_step(20, false, ""), TunnelStep::GiveUp);
    assert_eq!(tunnel_step(0, true, ""), TunnelStep::GiveUp);
}

#[test]
fn commands_run_in_the_namespace() {
    assert_eq!(line(&tunnel_command(2)), "ip netns exec ue2 ip -4 addr show oaitun_ue1");
    assert_eq!(
        line(&ping_command(2, "8.8.8.8")),
        "ip netns exec ue2 ping -i 1 -W 3 -I oaitun_ue1 8.8.8.8"
    );
    assert_eq!(line(&counters_command(2)), "ip netns exec ue2 cat /proc/net/dev");
    assert_eq!(
        line(&iperf_command(2, "h", 5202, "10.0.0.2", false)),
        "ip netns exec ue2 iperf3 -c h -p 5202 -B 10.0.0.2 -t 30 -P 4 -w 4M -J"
    );
    assert_eq!(
        line(&iperf_command(2, "h", 5202, "10.0.0.2", true)),
        "ip netns exec ue2 iperf3 -c h -p 5202 -B 10.0.0.2 -t 30 -P 4 -w 4M -J -R"
    );
    assert_eq!(
        line(&traffic_command(2, "h", 5202, "10.0.0.2", "video")),
        "ip netns exec ue2 iperf3 -c h -p 5202 -B 10.0.0.2 -u -J -t 30 -b 8M -R"
    );
    assert_eq!(
        line(&traffic_command(2, "h", 5202, "10.0.0.2", "gaming")),
        "ip netns exec ue2 iperf3 -c h -p 5202 -B 10.0.0.2 -u -J -t 30 -b 1M -l 100"
    );
}

#[test]
fn routes_need_a_tunnel() {
    assert!(ensure_iperf_route(1, "").is_empty());
    let v = ensure_iperf_route(1, "10.0.0.2");
    assert_eq!(v.len(), 3);
    assert_eq!(
        line(&v[0]),
        "ip netns exec ue1 ip rule add from 10.0.0.2 lookup 200 priority 100"
    );
    assert_eq!(
        line(&v[1]),
        "ip netns exec ue1 ip route replace default dev oaitun_ue1 table 200"
    );
    assert_eq!(v[2].args[8], "net.ipv4.tcp_wmem=4096 1048576 67108864");
}

#[test]
fn byte_counters_are_read() {
    let dev = "Inter-|   Receive\n lo: 1 2 3 4 5 6 7 8 9\n  oaitun_ue1: 100 1 0 0 0 0 0 0 77 1 0\n";
    assert_eq!(tun_counters(dev), Some((100, 77)));
    assert_eq!(tun_counters("oaitun_ue1:5 1 0 0 0 0 0 0 x"), Some((5, 0)));
    assert_eq!(tun_counters("oaitun_ue1: 1 2 3 4 5 6 7 8"), None);
    assert_eq!(byte_growth((100, 5), (40, 9)), (60, 0));
}

#[test]
fn bit_rates_are_found_in_order() {
    let r = "{\"bits_per_second\": 1.5e6, \"x\":{\"bits_per_second\":\n-2}}";
    assert_eq!(bit_rates(r), vec!["1.5e6", "-2"]);
    assert!(bit_rates("{}").is_empty());
}

#[test]
fn numbers_of_the_system_are_read() {
    assert_eq!(proc_count(" 3\n"), 3);
    assert_eq!(proc_count("none"), 0);
    assert_eq!(ues_to_start(Some(9), Some("2")), 9);
    assert_eq!(ues_to_start(None, Some(" 2\n")), 2);
    assert_eq!(ues_to_start(None, Some("x")), 4);
    assert_eq!(ues_to_start(None, None), 4);
    assert_eq!(gnb_dl_port(Some("5000")), 5000);
    assert_eq!(gnb_dl_port(Some(" 5000")), 4556);
    assert_eq!(gnb_dl_port(Some("70000")), 4556);
    assert_eq!(gnb_dl_port(None), 4556);
}

#[test]
fn growth_needs_two_readings() {
    assert_eq!(sample_step(None, None), (None, None));
    assert_eq!(sample_step(None, Some((5, 6))), (None, Some((5, 6))));
    assert_eq!(sample_step(Some((5, 6)), None), (None, Some((5, 6))));
    assert_eq!(sample_step(Some((5, 9)), Some((8, 6))), (Some((3, 0)), Some((8, 6))));
}
