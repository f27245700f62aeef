use ue_sim::json::Pids;
use ue_sim::launch::{
    can_be_cleaned_up, cleanup_ue_namespaces, cmd_start_rfsim, cmd_start_zmq, cmd_stop,
    create_ue_namespace, delete_ue_namespace, dl_frequency, kill_pid, listed_ues,
    running_ue_candidates, stop_existing_simulation, stop_line, traffic_command, Cmd, Job, StartParams, Step,
};

fn line(c: &Cmd) -> String {
    format!("{} {}", c.program, c.args.join(" "))
}

fn lines(v: &[Cmd]) -> Vec<String> {
    v.iter().map(line).collect()
}

fn params(num_ues: usize, imsi_base: &str) -> StartParams {
    StartParams {
        num_ues,
        imsi_base: imsi_base.to_string(),
        key: "K".to_string(),
        opc: "O".to_string(),
        dnn: "oai".to_string(),
        ue_binary: "/b/ue".to_string(),
        lib_dir: "/b".to_string(),
        dl_freq: 123,
        iperf_server: Some("srv".to_string()),
        scripts: "/s".to_string(),
        gen_script: "/r/config/gen_ue_config.py".to_string(),
        proxy_script: "/r/proxy/zmq_proxy.py".to_string(),
        traffic_script: "/r/traffic/ue_traffic.py".to_string(),
    }
}

fn told(v: &[Step]) -> Vec<String> {
    v.iter()
        .map(|s| match s {
            Step::Say(t) => format!("say {}", t),
            Step::StopExisting => "stop existing".to_string(),
            Step::Write(p, _) => format!("write {}", p),
            Step::Run(c) => line(c),
            Step::Start(j) => format!("start {}", j.name),
            Step::SayPid(_, _) => "say pid".to_string(),
            Step::Wait(ms) => format!("wait {}", ms),
            Step::SavePids => "save".to_string(),
            Step::DeleteNamespaces => "delete namespaces".to_string(),
            Step::Remove(p) => format!("remove {}", p),
        })
        .collect()
}

fn said(v: &[Step]) -> Vec<String> {
    v.iter()
        .filter_map(|s| match s {
            Step::Say(t) => Some(t.clone()),
            Step::SayPid(a, b) => Some(format!("{}#{}", a, b)),
            _ => None,
        })
        .collect()
}

fn jobs(v: &[Step]) -> Vec<&Job> {
    v.iter()
        .filter_map(|s| match s {
            Step::Start(j) => Some(j),
            _ => None,
        })
        .collect()
}

fn runs(v: &[Step]) -> Vec<String> {
    v.iter()
        .filter_map(|s| match s {
            Step::Run(c) => Some(line(c)),
            _ => None,
        })
        .collect()
}

#[test]
fn namespaces_are_made_and_removed() {
    assert_eq!(
        lines(&create_ue_namespace(1)),
        vec![
            "ip netns add uesim1",
            "ip link add uesimh1 type veth peer name uesimn1",
            "ip link set uesimn1 netns uesim1",
            "ip addr add 10.201.1.100/24 dev uesimh1",
            "ip link set uesimh1 up",
            "ip netns exec uesim1 ip link set lo up",
            "ip netns exec uesim1 ip addr add 10.201.1.1/24 dev uesimn1",
            "ip netns exec uesim1 ip link set uesimn1 up",
            "ip netns exec uesim1 ip route add default via 10.201.1.100",
            "iptables -t nat -A POSTROUTING -s 10.201.1.0/24 -j MASQUERADE",
            "iptables -A FORWARD -i lo -o uesimh1 -j ACCEPT",
            "iptables -A FORWARD -o lo -i uesimh1 -j ACCEPT",
        ]
    );
    assert_eq!(
        lines(&delete_ue_namespace(1)),
        vec![
            "iptables -t nat -D POSTROUTING -s 10.201.1.0/24 -j MASQUERADE",
            "iptables -D FORWARD -i lo -o uesimh1 -j ACCEPT",
            "iptables -D FORWARD -o lo -i uesimh1 -j ACCEPT",
            "ip link delete uesimh1",
            "ip netns delete uesim1",
        ]
    );
}

#[test]
fn listed_namespaces_are_told_apart() {
    let listing = "uesim2 (id: 1)\nue7\nuesimx\nother\n\nue+3 (id: 0)\nuesim1\n";
    assert_eq!(listed_ues(listing), vec![2, 1]);
    assert!(can_be_cleaned_up(listing));
    let mut want = lines(&delete_ue_namespace(2));
    want.extend(lines(&delete_ue_namespace(1)));
    assert_eq!(told(&cleanup_ue_namespaces(listing)), want);
    assert!(!can_be_cleaned_up("uesim18446744073709551615\n"));
    let v: Vec<(String, usize)> =
        running_ue_candidates(listing).into_iter().map(|n| (n.name, n.id)).collect();
    assert_eq!(v, vec![("ue7".to_string(), 7), ("ue+3".to_string(), 3)]);
}

#[test]
fn an_earlier_simulation_is_stopped() {
    assert_eq!(
        told(&stop_existing_simulation()),
        vec![
            "pkill -9 -f zmq_proxy.py",
            "pkill -9 nr-uesoftmodem",
            "pkill -9 nr-softmodem",
            "pkill -9 -f ue_traffic.py",
            "wait 800",
            "delete namespaces",
            "remove /tmp/multi_ue_pids.json",
            "remove /tmp/multi_ue_proxy_status.json",
            "remove /tmp/multi_ue_traffic_status.json",
            "remove /tmp/multi_ue_mode.json",
        ]
    );
    assert_eq!(told(&kill_pid(7)), vec!["kill -15 7", "wait 400", "kill -9 7"]);
    assert_eq!(stop_line("gnb", 7), "[stop] killing gnb (pid=7)");
}

#[test]
fn a_simulation_is_stopped_process_by_process() {
    let mut pids = Pids::new();
    assert_eq!(
        told(&cmd_stop(&pids)),
        vec![
            "say [stop] pkill cleanup + namespace teardown...",
            "stop existing",
            "say [stop] done"
        ]
    );
    pids.insert("gnb", 7);
    let v = told(&cmd_stop(&pids));
    assert_eq!(
        &v[..4],
        &["say [stop] killing gnb (pid=7)", "kill -15 7", "wait 400", "kill -9 7"]
    );
    assert_eq!(v.len(), 7);
}

#[test]
fn traffic_is_started_with_what_is_given() {
    assert_eq!(line(&traffic_command("t.py", 2, None, None)), "python3 t.py --num-ues 2");
    assert_eq!(
        line(&traffic_command("t.py", 2, Some("p"), Some("s"))),
        "python3 t.py --num-ues 2 --ns-prefix p --iperf-server s"
    );
}

#[test]
fn a_zmq_start_is_planned() {
    let p = params(2, "001010000000009");
    assert!(p.can_be_numbered(false));
    let v = cmd_start_zmq(&p, "dl", "ul", 5000);
    assert_eq!(
        said(&v),
        vec![
            "[start] stopping any existing simulation...",
            "[start] creating 2 namespace(s)...",
            "[start]   ns=uesim1  imsi=001010000000009  host-ip=10.201.1.100",
            "[start]   ns=uesim2  imsi=001010000000010  host-ip=10.202.1.100",
            "[start] launching ZMQ proxy  (ns-prefix=uesim)",
            "[start] proxy pid=#  (waiting 600ms...)",
            "[start] launching UE1  ns=uesim1",
            "[start]   UE1 pid=#  log=/s/logs/ue1_nue.log",
            "[start] launching UE2  ns=uesim2",
            "[start]   UE2 pid=#  log=/s/logs/ue2_nue.log",
            "\nAll 2 UEs started  (ZMQ + namespaces uesim1..uesim2)",
            "Run:  ue-sim status --watch   for live dashboard",
            "Logs: /s/logs/ue1_nue.log  ..  /s/logs/ue2_nue.log",
            "      /s/logs/proxy_nue.log",
        ]
    );
    let j = jobs(&v);
    assert_eq!(
        j.iter().map(|j| j.name.as_str()).collect::<Vec<_>>(),
        vec!["proxy", "ue_1", "ue_2", "traffic"]
    );
    assert_eq!(
        line(&j[0].cmd),
        "python3 /r/proxy/zmq_proxy.py --num-ues 2 --gnb-dl-addr dl --gnb-ul-addr ul \
--base-port 5000 --ns-prefix uesim"
    );
    assert_eq!((j[0].log.as_str(), j[0].failure.as_str()), ("/s/logs/proxy_nue.log", "failed to start zmq_proxy.py"));
    assert_eq!(
        line(&j[2].cmd),
        "ip netns exec uesim2 /b/ue -O /tmp/multi_ue_nr-ue2.conf --device.name oai_zmqdevif \
-r 106 --numerology 1 --band 78 -C 123"
    );
    assert_eq!(j[2].env, Some(("LD_LIBRARY_PATH".to_string(), "/b".to_string())));
    assert_eq!(
        line(&j[3].cmd),
        "python3 /r/traffic/ue_traffic.py --num-ues 2 --ns-prefix uesim --iperf-server srv"
    );
    let r = runs(&v);
    assert_eq!(r[0], "sysctl -w net.ipv4.ip_forward=1");
    assert_eq!(r.len(), 1 + 2 * 13);
    assert_eq!(
        r[13],
        "python3 /r/config/gen_ue_config.py --num-ues 1 --imsi-base 001010000000009 --key K \
--opc O --dnn oai --base-port 5000 --ns-host-ip 10.201.1.100 --output /tmp/multi_ue_nr-ue1.conf"
    );
    let waits: Vec<u64> = v
        .iter()
        .filter_map(|s| match s {
            Step::Wait(w) => Some(*w),
            _ => None,
        })
        .collect();
    assert_eq!(waits, vec![600, 300, 300]);
    assert!(v.iter().any(|s| matches!(s, Step::Write(p, t)
        if p == "/tmp/multi_ue_mode.json" && t == "{\"mode\":\"zmq\",\"num_ues\":2}")));
    assert!(v.iter().any(|s| matches!(s, Step::SavePids)));
    assert!(v.iter().any(|s| matches!(s, Step::StopExisting)));
}

#[test]
fn an_rfsim_start_is_planned() {
    let v = cmd_start_rfsim(&params(1, "7"), "/b/gnb", "g.conf");
    assert_eq!(
        said(&v),
        vec![
            "[start] stopping any existing simulation...",
            "[start] launching OAI gNB (rfsim)  config=g.conf",
            "[start] gnb pid=#  (waiting 4s for rfsim server...)",
            "[start] UE1  ns=uesim1  imsi=7  server=10.201.1.100",
            "[start]   pid=#  log=/s/logs/ue1_nue.log",
            "[start] launching traffic engine (namespace mode)",
            "\nAll 1 UEs started  (namespaces uesim1..uesim1)",
            "Run:  ue-sim status --watch   for live dashboard",
            "Logs: /s/logs/ue1_nue.log  ..  /s/logs/ue1_nue.log",
        ]
    );
    let j = jobs(&v);
    assert_eq!(line(&j[0].cmd), "/b/gnb -O g.conf --sa --rfsim");
    assert_eq!(j[0].name, "gnb");
    assert_eq!(
        line(&j[1].cmd),
        "ip netns exec uesim1 /b/ue -O /tmp/multi_ue_nr-ue1.conf --rfsim --sa -r 106 \
--numerology 1 --band 78 -C 123 --rfsimulator.[0].serveraddr 10.201.1.100 --telnetsrv \
--telnetsrv.listenport 9096"
    );
    assert!(j[1].env.is_none());
    assert!(runs(&v).contains(
        &"python3 /r/config/gen_ue_config.py --num-ues 1 --imsi-base 7 --key K --opc O --dnn oai \
--rfsim --output /tmp/multi_ue_nr-ue1.conf"
            .to_string()
    ));
}

#[test]
fn an_unreadable_subscriber_number_is_replaced() {
    let v = cmd_start_zmq(&params(1, "abc"), "dl", "ul", 1);
    assert!(said(&v).contains(&"[start]   ns=uesim1  imsi=1010000000001  host-ip=10.201.1.100".to_string()));
    assert!(!params(2, "18446744073709551615").can_be_numbered(false));
    assert!(params(0, "18446744073709551615").can_be_numbered(true));
}

#[test]
fn frequencies_have_defaults() {
    assert_eq!(dl_frequency(Some(5), true), 5);
    assert_eq!(dl_frequency(None, true), 3619200000);
    assert_eq!(dl_frequency(None, false), 3489420000);
}

#[test]
fn made_namespaces_are_found_again() {
    for i in [1usize, 10, 4096] {
        let made = create_ue_namespace(i);
        let listing = format!("other\n{} (id: 3)\n", made[0].args[2]);
        assert_eq!(listed_ues(&listing), vec![i]);
        assert_eq!(told(&cleanup_ue_namespaces(&listing)), lines(&delete_ue_namespace(i)));
    }
}
