use ue_sim::paths::{
    has_addresses, log_dir, log_gnb, log_nr_ue, log_nr_ue_all, log_proxy, log_traffic, ns_host_ip,
    ns_name, ns_subnet, ns_ue_ip, scripts_dir, veth_host, veth_ns_if, StackPart,
};

#[test]
fn the_scripts_directory_has_fallbacks() {
    assert_eq!(scripts_dir(Some("/e"), Some("/b"), Some("/c")), "/e");
    assert_eq!(scripts_dir(Some(""), Some("/b"), Some("/c")), "/b");
    assert_eq!(scripts_dir(None, None, Some("/c")), "/c");
    assert_eq!(scripts_dir(None, None, None), ".");
}

#[test]
fn logs_lie_in_one_directory() {
    assert_eq!(log_dir("/s"), "/s/logs");
    assert_eq!(log_proxy("/s"), "/s/logs/proxy_nue.log");
    assert_eq!(log_gnb("/s"), "/s/logs/gnb.log");
    assert_eq!(log_nr_ue_all("/s"), "/s/logs/traffic_nue.log");
    assert_eq!(log_traffic("/s"), "/s/logs/traffic_nue.log");
    assert_eq!(log_nr_ue("/s", 12), "/s/logs/ue12_nue.log");
}

#[test]
fn names_and_addresses_carry_the_number() {
    assert_eq!(ns_name(3), "uesim3");
    assert_eq!(veth_host(3), "uesimh3");
    assert_eq!(veth_ns_if(3), "uesimn3");
    assert_eq!(ns_host_ip(3), "10.203.1.100");
    assert_eq!(ns_ue_ip(3), "10.203.1.1");
    assert_eq!(ns_subnet(60), "10.260.1.0/24");
    assert!(has_addresses(usize::MAX - 200));
    assert!(!has_addresses(usize::MAX - 199));
}

#[test]
fn ues_do_not_share_names() {
    for i in 1usize..30 {
        for j in 1usize..30 {
            assert_eq!(ns_name(i) == ns_name(j), i == j);
            assert_eq!(ns_subnet(i) == ns_subnet(j), i == j);
            assert_eq!(log_nr_ue("s", i) == log_nr_ue("s", j), i == j);
        }
    }
}

#[test]
fn parts_of_the_stack_are_taken_from_the_tree() {
    let p = StackPart::UeBinary;
    assert_eq!(p.below_tree(), "build/nr-uesoftmodem");
    assert_eq!(p.choose_path("/t/build/nr-uesoftmodem".to_string(), true), "/t/build/nr-uesoftmodem");
    assert_eq!(p.choose_path("/t/build/nr-uesoftmodem".to_string(), false), "nr-uesoftmodem");
    assert_eq!(StackPart::UeCapabilities.bare_name(), "uecap_ports1.xml");
    assert_eq!(StackPart::GnbBinary.below_tree(), "build/nr-softmodem");
    assert_eq!(
        StackPart::GnbConfig.bare_name(),
        "gnb.sa.band78.fr1.106PRB.pci0.rfsim.conf"
    );
}
