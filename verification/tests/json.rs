use ue_sim::json::{
    cmd_traffic, gnb_process_path, load_pids, mode_file, mode_is_rfsim, read_mode,
    read_mode_num_ues, save_pids, Pids,
};

#[test]
fn the_mode_file_is_read_back() {
    assert_eq!(mode_file(true, 10), "{\"mode\":\"rfsim\",\"num_ues\":10}");
    assert_eq!(mode_file(false, 0), "{\"mode\":\"zmq\",\"num_ues\":0}");
    for n in [0usize, 7, 12345] {
        let t = mode_file(true, n);
        assert!(read_mode(Some(&t)));
        assert_eq!(read_mode_num_ues(Some(&t)), n);
        let t = mode_file(false, n);
        assert!(!read_mode(Some(&t)));
        assert_eq!(read_mode_num_ues(Some(&t)), n);
    }
}

#[test]
fn a_missing_or_broken_mode_file_says_nothing() {
    assert!(!read_mode(None));
    assert!(!read_mode(Some("not json")));
    assert!(!read_mode(Some("[\"rfsim\"]")));
    assert!(!read_mode(Some("{\"mode\":7}")));
    assert!(read_mode(Some(" { \"mode\" : \"rf\\u0073im\" } ")));
    assert_eq!(read_mode_num_ues(None), 0);
    assert_eq!(read_mode_num_ues(Some("{\"num_ues\":-3}")), 0);
    assert_eq!(read_mode_num_ues(Some("{\"num_ues\":\"3\"}")), 0);
    assert_eq!(read_mode_num_ues(Some("{\"num_ues\":3}")), 3);
    assert!(mode_is_rfsim(Some("rfsim")));
    assert!(!mode_is_rfsim(Some("zmq")));
    assert!(!mode_is_rfsim(None));
}

#[test]
fn processes_are_read_back() {
    let mut p = Pids::new();
    p.insert("gnb", 5);
    p.insert("ue_1", 6);
    p.insert("gnb", 7);
    p.insert("odd \"name\"\n", 8);
    assert_eq!(p.get("gnb"), Some(7));
    let t = save_pids(&p).unwrap();
    let q = load_pids(Some(&t));
    assert_eq!(q.entries.len(), 3);
    for name in ["gnb", "ue_1", "odd \"name\"\n", "other"] {
        assert_eq!(q.get(name), p.get(name));
    }
    assert_eq!(gnb_process_path(&q), Some("/proc/7".to_string()));
}

#[test]
fn a_broken_process_file_names_none() {
    assert!(load_pids(None).entries.is_empty());
    assert!(load_pids(Some("{\"gnb\":-1}")).entries.is_empty());
    assert!(load_pids(Some("oops")).entries.is_empty());
    assert_eq!(gnb_process_path(&load_pids(Some("{\"proxy\":4}"))), None);
}

#[test]
fn traffic_orders_are_checked() {
    assert_eq!(
        cmd_traffic(3, "video"),
        Ok("{\"pattern\":\"video\",\"ue_id\":3}".to_string())
    );
    for p in ["idle", "speedtest", "gaming"] {
        assert!(cmd_traffic(1, p).is_ok());
    }
    assert_eq!(
        cmd_traffic(1, "load"),
        Err("Unknown pattern 'load'. Valid: idle, speedtest, video, gaming".to_string())
    );
}
