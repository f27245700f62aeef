use ue_sim::telnet::{
    channelmod_modify, channelmod_show_current, discover_enb_channel_idx,
    has_telnet_port, read_wait, reply_step, send, telnet_reachable, ue_telnet_port,
};

#[test]
fn ports_count_up() {
    assert_eq!(ue_telnet_port(1), 9096);
    assert_eq!(ue_telnet_port(0), 9095);
    assert_eq!(ue_telnet_port(65537), 9096);
    assert!(has_telnet_port(56440));
    assert!(!has_telnet_port(56441));
}

#[test]
fn commands_end_with_one_line_feed() {
    assert_eq!(send(1, "help", 5).line, "help\n");
    assert_eq!(send(1, "help\n", 5).line, "help\n");
    assert_eq!(send(1, "", 5).line, "\n");
    let r = channelmod_modify(2, 1, "ploss", "-20.00");
    assert_eq!((r.port, r.timeout_ms), (9097, 400));
    assert_eq!(r.line, "channelmod modify 1 ploss -20.00\n");
    let r = channelmod_show_current(2);
    assert_eq!((r.port, r.timeout_ms), (9097, 500));
    assert_eq!(r.line, "channelmod show current\n");
    assert_eq!((telnet_reachable(3).port, telnet_reachable(3).timeout_ms), (9098, 150));
}

#[test]
fn long_or_late_replies_are_not_read_on() {
    assert!(!reply_step(65536, 0, 400));
    assert!(reply_step(65537, 0, 400));
    assert!(!reply_step(0, 799, 400));
    assert!(reply_step(0, 800, 400));
    assert!(!reply_step(0, u64::MAX, u64::MAX));
}

#[test]
fn an_exchange_waits_at_most_twice_its_timeout() {
    assert_eq!(read_wait(0, 400), 400);
    assert_eq!(read_wait(400, 400), 400);
    assert_eq!(read_wait(401, 400), 399);
    assert_eq!(read_wait(799, 400), 1);
    assert_eq!(read_wait(800, 400), 0);
    assert_eq!(read_wait(u64::MAX, 400), 0);
}

#[test]
fn the_downlink_channel_is_found() {
    let list = "model 3 rfsimu_channel_ue0\nmodel 1 rfsimu_channel_enB0 type 7\n";
    assert_eq!(discover_enb_channel_idx(Some(list)), Some(1));
    assert_eq!(discover_enb_channel_idx(Some("enB\nENB 12\n")), Some(12));
    assert_eq!(discover_enb_channel_idx(Some("enb 99999999999 4")), Some(4));
    assert_eq!(discover_enb_channel_idx(Some("nothing 7")), Some(0));
    assert_eq!(discover_enb_channel_idx(None), None);
}
