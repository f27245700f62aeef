//! Where the files of a simulation lie, and how its namespaces, interfaces and addresses are named.

use vstd::prelude::*;

use crate::slice;
use crate::text;

verus! {

/// What the proxy last reported.
pub const PROXY_STATUS: &'static str = "/tmp/multi_ue_proxy_status.json";

/// What the traffic engine last reported.
pub const TRAFFIC_STATUS: &'static str = "/tmp/multi_ue_traffic_status.json";

/// The processes of the running simulation.
pub const PIDS_FILE: &'static str = "/tmp/multi_ue_pids.json";

/// The socket of the traffic engine.
pub const TRAFFIC_SOCK: &'static str = "/tmp/multi_ue_traffic.sock";

/// The mode of the running simulation.
pub const MODE_FILE: &'static str = "/tmp/multi_ue_mode.json";

/// How many UEs the launch script last started.
pub const COUNT_FILE: &'static str = "/tmp/run_nue.n";

/// What the names of the namespaces and interfaces of UEs start with.
pub const NS_PREFIX: &'static str = "uesim";

/// The directory of the launch scripts: the one that the environment names, else the one that the
/// program was built under, else the current one.
pub open spec fn scripts_place(
    env: Option<Seq<char>>,
    built: Option<Seq<char>>,
    current: Option<Seq<char>>,
) -> Seq<char> {
    if env is Some && env->0.len() > 0 {
        env->0
    } else {
        match built {
            Some(p) => p,
            None => match current {
                Some(p) => p,
                None => "."@,
            },
        }
    }
}

/// The directory of the launch scripts.
pub fn scripts_dir(env: Option<&str>, built: Option<&str>, current: Option<&str>) -> (r: String)
    ensures
        r@ == scripts_place(
            slice::opt_text(env),
            slice::opt_text(built),
            slice::opt_text(current),
        ),
{
    match env {
        Some(v) => {
            if v.unicode_len() > 0 {
                return text::owned(v);
            }
        },
        None => {},
    }
    match built {
        Some(p) => text::owned(p),
        None => match current {
            Some(p) => text::owned(p),
            None => text::owned("."),
        },
    }
}

/// The directory of the logs.
pub open spec fn logs_below(scripts: Seq<char>) -> Seq<char> {
    scripts + "/logs"@
}

pub open spec fn log_named(scripts: Seq<char>, name: Seq<char>) -> Seq<char> {
    logs_below(scripts) + "/"@ + name
}

pub open spec fn ue_log(scripts: Seq<char>, i: nat) -> Seq<char> {
    logs_below(scripts) + "/ue"@ + text::dec(i) + "_nue.log"@
}

pub fn log_dir(scripts: &str) -> (r: String)
    ensures
        r@ == logs_below(scripts@),
{
    slice::concat_texts(scripts, "/logs")
}

fn log_file(scripts: &str, name: &str) -> (r: String)
    ensures
        r@ == log_named(scripts@, name@),
{
    let mut out = log_dir(scripts);
    out.append("/");
    out.append(name);
    out
}

pub fn log_proxy(scripts: &str) -> (r: String)
    ensures
        r@ == log_named(scripts@, "proxy_nue.log"@),
{
    log_file(scripts, "proxy_nue.log")
}

pub fn log_gnb(scripts: &str) -> (r: String)
    ensures
        r@ == log_named(scripts@, "gnb.log"@),
{
    log_file(scripts, "gnb.log")
}

/// The log that stands for all UEs where they have none of their own.
pub fn log_nr_ue_all(scripts: &str) -> (r: String)
    ensures
        r@ == log_named(scripts@, "traffic_nue.log"@),
{
    log_file(scripts, "traffic_nue.log")
}

pub fn log_traffic(scripts: &str) -> (r: String)
    ensures
        r@ == log_named(scripts@, "traffic_nue.log"@),
{
    log_file(scripts, "traffic_nue.log")
}

pub fn log_nr_ue(scripts: &str, i: usize) -> (r: String)
    ensures
        r@ == ue_log(scripts@, i as nat),
{
    let mut out = log_dir(scripts);
    out.append("/ue");
    text::push_dec(&mut out, i as u64);
    out.append("_nue.log");
    out
}

/// A name made of the prefix, a middle and a UE's number.
pub open spec fn sim_name(middle: Seq<char>, i: nat) -> Seq<char> {
    NS_PREFIX@ + middle + text::dec(i)
}

fn name_of(middle: &str, i: usize) -> (r: String)
    ensures
        r@ == sim_name(middle@, i as nat),
{
    let mut out = text::owned(NS_PREFIX);
    out.append(middle);
    text::push_dec(&mut out, i as u64);
    out
}

/// The namespace of a UE.
pub open spec fn ns(i: nat) -> Seq<char> {
    NS_PREFIX@ + text::dec(i)
}

/// The namespace of a UE.
pub fn ns_name(i: usize) -> (r: String)
    ensures
        r@ == ns(i as nat),
{
    let mut out = text::owned(NS_PREFIX);
    text::push_dec(&mut out, i as u64);
    out
}

/// The host's end of the link to a UE's namespace.
pub fn veth_host(i: usize) -> (r: String)
    ensures
        r@ == sim_name("h"@, i as nat),
{
    name_of("h", i)
}

/// The namespace's end of the link.
pub fn veth_ns_if(i: usize) -> (r: String)
    ensures
        r@ == sim_name("n"@, i as nat),
{
    name_of("n", i)
}

/// An address in the network of a UE's namespace.
pub open spec fn address(i: nat, last: Seq<char>) -> Seq<char> {
    "10."@ + text::dec(200 + i) + last
}

fn address_of(i: usize, last: &str) -> (r: String)
    requires
        i <= usize::MAX - 200,
    ensures
        r@ == address(i as nat, last@),
{
    let mut out = text::owned("10.");
    text::push_dec(&mut out, (200 + i) as u64);
    out.append(last);
    out
}

/// The addresses of a UE's namespace can be numbered.
pub fn has_addresses(i: usize) -> (r: bool)
    ensures
        r == (i <= usize::MAX - 200),
{
    i <= usize::MAX - 200
}

/// The host's address on the link to a UE's namespace.
pub fn ns_host_ip(i: usize) -> (r: String)
    requires
        i <= usize::MAX - 200,
    ensures
        r@ == address(i as nat, ".1.100"@),
{
    address_of(i, ".1.100")
}

/// The namespace's address on the link.
pub fn ns_ue_ip(i: usize) -> (r: String)
    requires
        i <= usize::MAX - 200,
    ensures
        r@ == address(i as nat, ".1.1"@),
{
    address_of(i, ".1.1")
}

/// The network of the link.
pub fn ns_subnet(i: usize) -> (r: String)
    requires
        i <= usize::MAX - 200,
    ensures
        r@ == address(i as nat, ".1.0/24"@),
{
    address_of(i, ".1.0/24")
}

/// A part of the radio stack that is looked for in the source tree.
#[derive(Clone, Copy)]
pub enum StackPart {
    UeBinary,
    UeCapabilities,
    GnbBinary,
    GnbConfig,
}

pub open spec fn part_below_tree(p: StackPart) -> Seq<char> {
    match p {
        StackPart::UeBinary => "build/nr-uesoftmodem"@,
        StackPart::UeCapabilities => "targets/PROJECTS/GENERIC-NR-5GC/CONF/uecap_ports1.xml"@,
        StackPart::GnbBinary => "build/nr-softmodem"@,
        StackPart::GnbConfig =>
            "targets/PROJECTS/GENERIC-NR-5GC/CONF/gnb.sa.band78.fr1.106PRB.pci0.rfsim.conf"@,
    }
}

pub open spec fn part_name(p: StackPart) -> Seq<char> {
    match p {
        StackPart::UeBinary => "nr-uesoftmodem"@,
        StackPart::UeCapabilities => "uecap_ports1.xml"@,
        StackPart::GnbBinary => "nr-softmodem"@,
        StackPart::GnbConfig => "gnb.sa.band78.fr1.106PRB.pci0.rfsim.conf"@,
    }
}

impl StackPart {
    /// Where the part lies below the root of the tree.
    pub fn below_tree(self) -> (r: &'static str)
        ensures
            r@ == part_below_tree(self),
    {
        match self {
            StackPart::UeBinary => "build/nr-uesoftmodem",
            StackPart::UeCapabilities => "targets/PROJECTS/GENERIC-NR-5GC/CONF/uecap_ports1.xml",
            StackPart::GnbBinary => "build/nr-softmodem",
            StackPart::GnbConfig =>
                "targets/PROJECTS/GENERIC-NR-5GC/CONF/gnb.sa.band78.fr1.106PRB.pci0.rfsim.conf",
        }
    }

    /// What the part is called where the tree does not have it.
    pub fn bare_name(self) -> (r: &'static str)
        ensures
            r@ == part_name(self),
    {
        match self {
            StackPart::UeBinary => "nr-uesoftmodem",
            StackPart::UeCapabilities => "uecap_ports1.xml",
            StackPart::GnbBinary => "nr-softmodem",
            StackPart::GnbConfig => "gnb.sa.band78.fr1.106PRB.pci0.rfsim.conf",
        }
    }

    /// The part to use: the one in the tree where it is there, else the one of its bare name.
    pub fn choose_path(self, in_tree: String, found: bool) -> (r: String)
        ensures
            r@ == if found {
                in_tree@
            } else {
                part_name(self)
            },
    {
        if found {
            in_tree
        } else {
            text::owned(self.bare_name())
        }
    }
}

/// The log of a UE named by number is told apart from those of other UEs, and so are its
/// namespace and its network.
pub proof fn law_ues_do_not_share(scripts: Seq<char>, i: nat, j: nat)
    requires
        i != j,
    ensures
        ue_log(scripts, i) != ue_log(scripts, j),
        ns(i) != ns(j),
        sim_name("h"@, i) != sim_name("h"@, j),
        sim_name("n"@, i) != sim_name("n"@, j),
        address(i, ".1.0/24"@) != address(j, ".1.0/24"@),
{
    let d = text::dec(i);
    let e = text::dec(j);
    if ue_log(scripts, i) == ue_log(scripts, j) {
        lemma_middle(logs_below(scripts) + "/ue"@, d, e, "_nue.log"@);
        text::law_dec_injective(i, j);
    }
    let none = Seq::<char>::empty();
    assert(ns(i) == NS_PREFIX@ + d + none);
    assert(ns(j) == NS_PREFIX@ + e + none);
    if ns(i) == ns(j) {
        lemma_middle(NS_PREFIX@, d, e, none);
        text::law_dec_injective(i, j);
    }
    assert(sim_name("h"@, i) == NS_PREFIX@ + "h"@ + d + none);
    assert(sim_name("h"@, j) == NS_PREFIX@ + "h"@ + e + none);
    if sim_name("h"@, i) == sim_name("h"@, j) {
        lemma_middle(NS_PREFIX@ + "h"@, d, e, none);
        text::law_dec_injective(i, j);
    }
    assert(sim_name("n"@, i) == NS_PREFIX@ + "n"@ + d + none);
    assert(sim_name("n"@, j) == NS_PREFIX@ + "n"@ + e + none);
    if sim_name("n"@, i) == sim_name("n"@, j) {
        lemma_middle(NS_PREFIX@ + "n"@, d, e, none);
        text::law_dec_injective(i, j);
    }
    if address(i, ".1.0/24"@) == address(j, ".1.0/24"@) {
        lemma_middle("10."@, text::dec(200 + i), text::dec(200 + j), ".1.0/24"@);
        text::law_dec_injective(200 + i, 200 + j);
    }
}

proof fn lemma_middle(a: Seq<char>, x: Seq<char>, y: Seq<char>, b: Seq<char>)
    requires
        a + x + b == a + y + b,
    ensures
        x == y,
{
    let s = a + x + b;
    let t = a + y + b;
    assert(s.len() == t.len());
    assert(x == s.subrange(a.len() as int, (a.len() + x.len()) as int));
    assert(y == t.subrange(a.len() as int, (a.len() + y.len()) as int));
}

} // verus!
