//! What the plans that start a simulation do for each UE.

use vstd::prelude::*;

use crate::launch;
use crate::launch::StartParams;
use crate::paths;
use crate::reading;
use crate::text;

verus! {

// ---------------------------------------------------------------------------
// Subscriber identities
// ---------------------------------------------------------------------------

/// The identities count up from the first one, one by one, and none is shorter than it: leading
/// zeros stay.
pub proof fn law_identities_count_up(base: Seq<char>, i: nat)
    requires
        i >= 1,
        text::number(base, 10, u64::MAX as nat) is Some,
        text::number(base, 10, u64::MAX as nat)->0 + i <= u64::MAX,
        base.len() <= u32::MAX,
    ensures
        ({
            let first = text::number(base, 10, u64::MAX as nat)->0;
            let mine = launch::imsi_text(base, i);
            &&& text::number(mine, 10, u64::MAX as nat) == Some((first + i - 1) as nat)
            &&& mine.len() >= base.len()
            &&& text::dec((first + i - 1) as nat).len() <= base.len() ==> mine.len() == base.len()
            &&& reading::unbroken(mine)
        }),
{
    let first = text::number(base, 10, u64::MAX as nat)->0;
    let n = (first + i - 1) as nat;
    reading::law_number_of_padded(n, launch::byte_len(base), u64::MAX as nat);
    assert forall|k: int| 0 <= k < base.len() implies '\0' <= #[trigger] base[k]
        <= '\u{7f}' by {
        if base[0] == '+' {
            if k > 0 {
                assert(base.skip(1)[k - 1] == base[k]);
                assert(text::is_digit_of(base.skip(1)[k - 1], 10));
            }
        } else {
            assert(text::is_digit_of(base[k], 10));
        }
    }
    assert(vstd::utf8::is_ascii_chars(base));
    vstd::utf8::is_ascii_chars_encode_utf8(base);
    assert(launch::byte_len(base) == base.len());
    lemma_identity_unbroken(base, i);
}

proof fn lemma_identity_unbroken(base: Seq<char>, i: nat)
    ensures
        reading::unbroken(launch::imsi_text(base, i)),
{
    let n = (launch::first_imsi(base) + i - 1) as nat;
    reading::lemma_digits(n);
    let d = text::dec(n);
    let t = launch::imsi_text(base, i);
    let fill = t.len() - d.len();
    assert forall|k: int| 0 <= k < t.len() implies !text::is_white(#[trigger] t[k]) by {
        if k >= fill {
            assert(t[k] == d[k - fill]);
        }
    }
}

/// Different UEs have different identities.
pub proof fn law_identities_differ(base: Seq<char>, i: nat, j: nat)
    requires
        1 <= i < j,
        text::number(base, 10, u64::MAX as nat) is Some,
        text::number(base, 10, u64::MAX as nat)->0 + j <= u64::MAX,
        base.len() <= u32::MAX,
    ensures
        launch::imsi_text(base, i) != launch::imsi_text(base, j),
{
    law_identities_count_up(base, i);
    law_identities_count_up(base, j);
}

// ---------------------------------------------------------------------------
// Namespaces
// ---------------------------------------------------------------------------

/// The commands that make a namespace fit together: one link is made, one end of it goes into the
/// namespace, both ends are in one network and come up, what leaves the namespace goes to the
/// host's end, and the host lets that network and that link out.
#[verifier::spinoff_prover]
#[verifier::rlimit(50)]
pub proof fn law_namespace_is_linked(i: nat)
    ensures
        ({
            let c = launch::create_commands(i);
            let net = "10."@ + text::dec(200 + i) + ".1."@;
            let inside = |k: int, ns: Seq<char>|
                c[k].program == "ip"@ && c[k].args[0] == "netns"@ && c[k].args[1] == "exec"@
                    && c[k].args[2] == ns && c[k].args[3] == "ip"@;
            let ns = c[0].args[2];
            let host = c[1].args[2];
            let end = c[1].args[7];
            &&& c[0].args =~= seq!["netns"@, "add"@, ns]
            &&& ns == "uesim"@ + text::dec(i)
            &&& host == "uesimh"@ + text::dec(i)
            &&& end == "uesimn"@ + text::dec(i)
            &&& c[2].args =~= seq!["link"@, "set"@, end, "netns"@, ns]
            &&& c[3].args =~= seq!["addr"@, "add"@, net + "100/24"@, "dev"@, host]
            &&& c[4].args =~= seq!["link"@, "set"@, host, "up"@]
            &&& inside(5, ns)
            &&& inside(6, ns) && c[6].args[6] == net + "1/24"@ && c[6].args[8] == end
            &&& inside(7, ns) && c[7].args[6] == end && c[7].args[7] == "up"@
            &&& inside(8, ns) && c[8].args[6] == "default"@ && c[8].args[8] == net + "100"@
            &&& c[9].program == "iptables"@ && c[9].args[5] == net + "0/24"@
            &&& c[10].args[5] == host && c[10].args[4] == "-o"@
            &&& c[11].args[5] == host && c[11].args[4] == "-i"@
        }),
{
    reveal_strlit("uesim");
    reveal_strlit("uesimh");
    reveal_strlit("uesimn");
    reveal_strlit("h");
    reveal_strlit("n");
    reveal_strlit(".1.");
    reveal_strlit(".1.100");
    reveal_strlit(".1.1");
    reveal_strlit(".1.0/24");
    reveal_strlit("/24");
    reveal_strlit("100/24");
    reveal_strlit("1/24");
    reveal_strlit("100");
    reveal_strlit("0/24");
    let net = "10."@ + text::dec(200 + i) + ".1."@;
    assert(paths::sim_name("h"@, i) =~= "uesimh"@ + text::dec(i));
    assert(paths::sim_name("n"@, i) =~= "uesimn"@ + text::dec(i));
    assert(paths::address(i, ".1.100"@) + "/24"@ =~= net + "100/24"@);
    assert(paths::address(i, ".1.1"@) + "/24"@ =~= net + "1/24"@);
    assert(paths::address(i, ".1.100"@) =~= net + "100"@);
    assert(paths::address(i, ".1.0/24"@) =~= net + "0/24"@);
}

// ---------------------------------------------------------------------------
// With the radio simulator
// ---------------------------------------------------------------------------

/// Where the steps of a UE start in the plan with the radio simulator.
pub open spec fn rfsim_at(i: nat) -> int {
    8 + 17 * (i - 1)
}

#[verifier::spinoff_prover]
#[verifier::rlimit(50)]
proof fn lemma_rfsim_all(p: StartParams, n: nat, i: nat)
    requires
        1 <= i <= n,
    ensures
        launch::rfsim_all(p, n).len() == 17 * n,
        launch::rfsim_all(p, n).subrange(17 * (i - 1), 17 * i as int) == launch::rfsim_one(p, i),
    decreases n,
{
    let before = launch::rfsim_all(p, (n - 1) as nat);
    let one = launch::rfsim_one(p, n);
    assert(launch::create_commands(n).len() == 12);
    assert(one.len() == 17);
    if n > 1 {
        if i < n {
            lemma_rfsim_all(p, (n - 1) as nat, i);
            assert((before + one).subrange(17 * (i - 1), 17 * i as int) =~= before.subrange(
                17 * (i - 1),
                17 * i as int,
            ));
        } else {
            lemma_rfsim_all(p, (n - 1) as nat, 1);
            assert((before + one).subrange(17 * (i - 1), 17 * i as int) =~= one);
        }
    } else {
        assert(before.len() == 0);
        assert((before + one).subrange(17 * (i - 1), 17 * i as int) =~= one);
    }
}

#[verifier::spinoff_prover]
#[verifier::rlimit(50)]
proof fn lemma_rfsim_step(
    p: StartParams,
    gnb_binary: Seq<char>,
    gnb_config: Seq<char>,
    i: nat,
    k: int,
)
    requires
        1 <= i <= p.num_ues,
        0 <= k < 17,
    ensures
        launch::rfsim_plan(p, gnb_binary, gnb_config)[rfsim_at(i) + k] == launch::rfsim_one(p, i)[k],
{
    let all = launch::rfsim_all(p, p.num_ues as nat);
    lemma_rfsim_all(p, p.num_ues as nat, i);
    assert(all.subrange(17 * (i - 1), 17 * i as int)[k] == all[17 * (i - 1) + k]);
}

/// What the plan with the radio simulator does for a UE: it says its namespace, its identity and
/// the address of its server; it makes that namespace; it writes a configuration with that
/// identity and the given keys; and it starts the UE in that namespace with that configuration,
/// on the given frequency and with that server.
#[verifier::spinoff_prover]
#[verifier::rlimit(50)]
pub proof fn law_rfsim_ue(p: StartParams, gnb_binary: Seq<char>, gnb_config: Seq<char>, i: nat)
    requires
        1 <= i <= p.num_ues,
    ensures
        ({
            let steps = launch::rfsim_plan(p, gnb_binary, gnb_config);
            let at = rfsim_at(i);
            let say = steps[at];
            let made = steps[at + 1];
            let linked = steps[at + 4];
            let run = steps[at + 13];
            let start = steps[at + 14];
            &&& say is Say && made is Run && linked is Run && run is Run && start is Start
            &&& {
                let line = say->Say_0;
                let config = run->Run_0.args;
                let job = start->Start_0;
                &&& text::starts_with(line, "[start] UE"@ + text::dec(i) + " "@)
                &&& reading::setting(line, "imsi="@) == Some(config[4])
                &&& reading::setting(line, "ns="@) == Some(job.cmd.args[2])
                &&& reading::setting(line, "server="@) == Some(job.cmd.args[17])
                &&& made->Run_0.args =~= seq!["netns"@, "add"@, job.cmd.args[2]]
                &&& linked->Run_0.args[2] == job.cmd.args[17] + "/24"@
                &&& run->Run_0.program == "python3"@
                &&& config[0] == p.gen_script@
                &&& config[3] == "--imsi-base"@
                &&& config[5] == "--key"@ && config[6] == p.key@
                &&& config[7] == "--opc"@ && config[8] == p.opc@
                &&& config[9] == "--dnn"@ && config[10] == p.dnn@
                &&& config[12] == "--output"@ && job.cmd.args[4] == "-O"@
                &&& config[13] == job.cmd.args[5]
                &&& job.name == "ue_"@ + text::dec(i)
                &&& job.cmd.args[3] == p.ue_binary@
                &&& job.cmd.args[14] == "-C"@
                &&& text::number(job.cmd.args[15], 10, u64::MAX as nat) == Some(p.dl_freq as nat)
                &&& job.cmd.args[16] == "--rfsimulator.[0].serveraddr"@
                &&& job.log == p.scripts@ + "/logs/ue"@ + text::dec(i) + "_nue.log"@
                &&& steps[at + 15] is SayPid && steps[at + 15]->SayPid_1 == "  log="@ + job.log
            }
        }),
{
    let line = launch::rfsim_one(p, i)[0]->Say_0;
    lemma_rfsim_step(p, gnb_binary, gnb_config, i, 0);
    lemma_rfsim_step(p, gnb_binary, gnb_config, i, 1);
    lemma_rfsim_step(p, gnb_binary, gnb_config, i, 4);
    lemma_rfsim_step(p, gnb_binary, gnb_config, i, 13);
    lemma_rfsim_step(p, gnb_binary, gnb_config, i, 14);
    lemma_rfsim_step(p, gnb_binary, gnb_config, i, 15);
    assert(launch::create_commands(i).len() == 12);
    text::law_number_of_dec(p.dl_freq as nat, u64::MAX as nat);
    lemma_rfsim_line(p, i);
    lemma_ue_log(p.scripts@, i);
}

proof fn lemma_ue_log(scripts: Seq<char>, i: nat)
    ensures
        paths::ue_log(scripts, i) == scripts + "/logs/ue"@ + text::dec(i) + "_nue.log"@,
{
    reveal_strlit("/logs");
    reveal_strlit("/ue");
    reveal_strlit("/logs/ue");
    assert(paths::ue_log(scripts, i) =~= scripts + "/logs/ue"@ + text::dec(i) + "_nue.log"@);
}

proof fn lemma_ns_unbroken(i: nat)
    ensures
        reading::unbroken(paths::ns(i)),
        reading::lacks(paths::ns(i), '='),
        reading::unbroken(paths::address(i, ".1.100"@)),
        reading::lacks(paths::address(i, ".1.100"@), '='),
{
    reveal_strlit("uesim");
    reveal_strlit("10.");
    reveal_strlit(".1.100");
    reading::lemma_digits(i);
    reading::lemma_digits(200 + i);
    let n = paths::ns(i);
    assert forall|k: int| 0 <= k < n.len() implies !text::is_white(#[trigger] n[k]) && n[k]
        != '=' by {
        if k >= 5 {
            assert(n[k] == text::dec(i)[k - 5]);
        }
    }
    let a = paths::address(i, ".1.100"@);
    let d = text::dec(200 + i);
    assert forall|k: int| 0 <= k < a.len() implies !text::is_white(#[trigger] a[k]) && a[k]
        != '=' by {
        if 3 <= k < 3 + d.len() {
            assert(a[k] == d[k - 3]);
        }
    }
}

#[verifier::spinoff_prover]
#[verifier::rlimit(50)]
proof fn lemma_rfsim_line(p: StartParams, i: nat)
    ensures
        ({
            let line = launch::rfsim_one(p, i)[0]->Say_0;
            &&& text::starts_with(line, "[start] UE"@ + text::dec(i) + " "@)
            &&& reading::setting(line, "ns="@) == Some(paths::ns(i))
            &&& reading::setting(line, "imsi="@) == Some(launch::imsi_text(p.imsi_base@, i))
            &&& reading::setting(line, "server="@) == Some(paths::address(i, ".1.100"@))
        }),
{
    reveal_strlit("[start] UE");
    reveal_strlit("  ns=");
    reveal_strlit("  imsi=");
    reveal_strlit("  server=");
    reveal_strlit("ns=");
    reveal_strlit("imsi=");
    reveal_strlit("server=");
    reveal_strlit("  ");
    reveal_strlit(" ");
    let line = launch::rfsim_one(p, i)[0]->Say_0;
    let ns = paths::ns(i);
    let imsi = launch::imsi_text(p.imsi_base@, i);
    let server = paths::address(i, ".1.100"@);
    let d = text::dec(i);
    reading::lemma_digits(i);
    lemma_ns_unbroken(i);
    lemma_identity_unbroken(p.imsi_base@, i);
    lemma_identity_lacks(p.imsi_base@, i);
    let b1 = "[start] UE"@ + d + "  "@;
    let front = "[start] UE"@ + d + " "@;
    assert(line.subrange(0, front.len() as int) =~= front);
    assert forall|q: int| 0 <= q < b1.len() implies #[trigger] b1[q] != '=' by {
        if 10 <= q < 10 + d.len() {
            assert(b1[q] == d[q - 10]);
        }
    }
    let a1 = "  imsi="@ + imsi + "  server="@ + server;
    assert(line =~= b1 + "ns="@ + ns + a1);
    reading::lemma_setting_behind(b1, "ns="@, ns, a1);
    let b2 = b1 + "ns="@ + ns + "  "@;
    let a2 = "  server="@ + server;
    assert(line =~= b2 + "imsi="@ + imsi + a2);
    assert forall|q: int| 0 <= q < b2.len() && #[trigger] b2[q] == '=' implies q > 0 && b2[q - 1]
        == 's' by {
        if q < b1.len() {
            assert(b2[q] == b1[q]);
        } else if q >= b1.len() + 3 && q < b1.len() + 3 + ns.len() {
            assert(b2[q] == ns[q - b1.len() - 3]);
        }
    }
    reading::lemma_setting_behind(b2, "imsi="@, imsi, a2);
    let b3 = b2 + "imsi="@ + imsi + "  "@;
    let none = Seq::<char>::empty();
    assert(line =~= b3 + "server="@ + server + none);
    assert forall|q: int| 0 <= q < b3.len() && #[trigger] b3[q] == '=' implies q > 0 && b3[q - 1]
        != 'r' by {
        if q < b2.len() {
            assert(b3[q] == b2[q]);
            assert(b3[q - 1] == b2[q - 1]);
        } else if q >= b2.len() + 5 && q < b2.len() + 5 + imsi.len() {
            assert(b3[q] == imsi[q - b2.len() - 5]);
        }
    }
    reading::lemma_setting_behind(b3, "server="@, server, none);
}

proof fn lemma_identity_lacks(base: Seq<char>, i: nat)
    ensures
        reading::lacks(launch::imsi_text(base, i), '='),
{
    let n = (launch::first_imsi(base) + i - 1) as nat;
    reading::lemma_digits(n);
    let d = text::dec(n);
    let t = launch::imsi_text(base, i);
    let fill = t.len() - d.len();
    assert forall|k: int| 0 <= k < t.len() implies #[trigger] t[k] != '=' by {
        if k >= fill {
            assert(t[k] == d[k - fill]);
        }
    }
}

/// In the plan with the radio simulator a UE's configuration carries the identity that lies as far
/// behind the first one as the UE behind the first UE.
#[verifier::spinoff_prover]
#[verifier::rlimit(50)]
pub proof fn law_rfsim_identity(
    p: StartParams,
    gnb_binary: Seq<char>,
    gnb_config: Seq<char>,
    i: nat,
)
    requires
        1 <= i <= p.num_ues,
        text::number(p.imsi_base@, 10, u64::MAX as nat) is Some,
        p.well_formed(true),
        p.imsi_base@.len() <= u32::MAX,
    ensures
        ({
            let first = text::number(p.imsi_base@, 10, u64::MAX as nat)->0;
            let run = launch::rfsim_plan(p, gnb_binary, gnb_config)[rfsim_at(i) + 13];
            &&& run is Run
            &&& run->Run_0.args[3] == "--imsi-base"@
            &&& text::number(run->Run_0.args[4], 10, u64::MAX as nat) == Some(
                (first + i - 1) as nat,
            )
            &&& run->Run_0.args[4].len() >= p.imsi_base@.len()
        }),
{
    lemma_rfsim_names(p, gnb_binary, gnb_config, i);
    law_identities_count_up(p.imsi_base@, i);
}

/// Two UEs of the plan with the radio simulator share neither identity nor configuration,
/// namespace, server address, log or port.
#[verifier::spinoff_prover]
#[verifier::rlimit(50)]
pub proof fn law_rfsim_ues_differ(
    p: StartParams,
    gnb_binary: Seq<char>,
    gnb_config: Seq<char>,
    i: nat,
    j: nat,
)
    requires
        1 <= i < j <= p.num_ues,
        text::number(p.imsi_base@, 10, u64::MAX as nat) is Some,
        p.well_formed(true),
        p.imsi_base@.len() <= u32::MAX,
    ensures
        ({
            let steps = launch::rfsim_plan(p, gnb_binary, gnb_config);
            let a = steps[rfsim_at(i) + 13]->Run_0.args;
            let b = steps[rfsim_at(j) + 13]->Run_0.args;
            let x = steps[rfsim_at(i) + 14]->Start_0;
            let y = steps[rfsim_at(j) + 14]->Start_0;
            &&& a[4] != b[4]
            &&& a[13] != b[13]
            &&& x.name != y.name
            &&& x.log != y.log
            &&& x.cmd.args[2] != y.cmd.args[2]
            &&& x.cmd.args[17] != y.cmd.args[17]
            &&& x.cmd.args[20] != y.cmd.args[20]
        }),
{
    law_identities_differ(p.imsi_base@, i, j);
    lemma_rfsim_names(p, gnb_binary, gnb_config, i);
    lemma_rfsim_names(p, gnb_binary, gnb_config, j);
    paths::law_ues_do_not_share(p.scripts@, i, j);
    lemma_told_apart("/tmp/multi_ue_nr-ue"@, i, j, ".conf"@);
    lemma_ends_apart("ue_"@, i, j);
    lemma_told_apart("10."@, 200 + i, 200 + j, ".1.100"@);
    let port = crate::telnet::TELNET_BASE as nat;
    if text::dec(port + i) == text::dec(port + j) {
        text::law_dec_injective(port + i, port + j);
    }
}

#[verifier::spinoff_prover]
#[verifier::rlimit(50)]
proof fn lemma_rfsim_names(
    p: StartParams,
    gnb_binary: Seq<char>,
    gnb_config: Seq<char>,
    i: nat,
)
    requires
        1 <= i <= p.num_ues,
    ensures
        ({
            let steps = launch::rfsim_plan(p, gnb_binary, gnb_config);
            let a = steps[rfsim_at(i) + 13]->Run_0.args;
            let x = steps[rfsim_at(i) + 14]->Start_0;
            &&& steps[rfsim_at(i) + 13] is Run
            &&& a[3] == "--imsi-base"@
            &&& a[4] == launch::imsi_text(p.imsi_base@, i)
            &&& a[13] == "/tmp/multi_ue_nr-ue"@ + text::dec(i) + ".conf"@
            &&& x.name == "ue_"@ + text::dec(i)
            &&& x.log == paths::ue_log(p.scripts@, i)
            &&& x.cmd.args[2] == paths::ns(i)
            &&& x.cmd.args[17] == "10."@ + text::dec(200 + i) + ".1.100"@
            &&& x.cmd.args[20] == text::dec(crate::telnet::TELNET_BASE as nat + i)
        }),
{
    lemma_rfsim_step(p, gnb_binary, gnb_config, i, 13);
    lemma_rfsim_step(p, gnb_binary, gnb_config, i, 14);
    assert(launch::create_commands(i).len() == 12);
}

proof fn lemma_ends_apart(before: Seq<char>, i: nat, j: nat)
    requires
        i != j,
    ensures
        before + text::dec(i) != before + text::dec(j),
{
    let none = Seq::<char>::empty();
    lemma_told_apart(before, i, j, none);
    assert(before + text::dec(i) + none =~= before + text::dec(i));
    assert(before + text::dec(j) + none =~= before + text::dec(j));
}

/// Texts around different numbers are different.
pub proof fn lemma_told_apart(before: Seq<char>, i: nat, j: nat, after: Seq<char>)
    requires
        i != j,
    ensures
        before + text::dec(i) + after != before + text::dec(j) + after,
{
    let s = before + text::dec(i) + after;
    let t = before + text::dec(j) + after;
    if s == t {
        let n = before.len() as int;
        assert(s.len() == t.len());
        assert(text::dec(i) =~= s.subrange(n, n + text::dec(i).len()));
        assert(text::dec(j) =~= t.subrange(n, n + text::dec(j).len()));
        text::law_dec_injective(i, j);
    }
}

// ---------------------------------------------------------------------------
// Over the radio proxy
// ---------------------------------------------------------------------------

/// Where the steps that prepare a UE start in the plan over the radio proxy.
pub open spec fn zmq_prepared_at(i: nat) -> int {
    5 + 14 * (i - 1)
}

/// Where the steps that start a UE start in the plan over the radio proxy with `n` UEs.
pub open spec fn zmq_started_at(n: nat, i: nat) -> int {
    9 + 14 * n + 4 * (i - 1)
}

#[verifier::spinoff_prover]
#[verifier::rlimit(50)]
proof fn lemma_zmq_prepare(p: StartParams, base_port: u16, n: nat, i: nat)
    requires
        1 <= i <= n,
    ensures
        launch::zmq_prepare(p, base_port, n).len() == 14 * n,
        launch::zmq_prepare(p, base_port, n).subrange(14 * (i - 1), 14 * i as int)
            == launch::zmq_prepare_one(p, base_port, i),
    decreases n,
{
    let before = launch::zmq_prepare(p, base_port, (n - 1) as nat);
    let one = launch::zmq_prepare_one(p, base_port, n);
    assert(launch::create_commands(n).len() == 12);
    assert(one.len() == 14);
    if n > 1 {
        if i < n {
            lemma_zmq_prepare(p, base_port, (n - 1) as nat, i);
            assert((before + one).subrange(14 * (i - 1), 14 * i as int) =~= before.subrange(
                14 * (i - 1),
                14 * i as int,
            ));
        } else {
            lemma_zmq_prepare(p, base_port, (n - 1) as nat, 1);
            assert((before + one).subrange(14 * (i - 1), 14 * i as int) =~= one);
        }
    } else {
        assert(before.len() == 0);
        assert((before + one).subrange(14 * (i - 1), 14 * i as int) =~= one);
    }
}

#[verifier::spinoff_prover]
#[verifier::rlimit(50)]
proof fn lemma_zmq_starts(p: StartParams, n: nat, i: nat)
    requires
        1 <= i <= n,
    ensures
        launch::zmq_starts(p, n).len() == 4 * n,
        launch::zmq_starts(p, n).subrange(4 * (i - 1), 4 * i as int) == launch::zmq_start_one(p, i),
    decreases n,
{
    let before = launch::zmq_starts(p, (n - 1) as nat);
    let one = launch::zmq_start_one(p, n);
    if n > 1 {
        if i < n {
            lemma_zmq_starts(p, (n - 1) as nat, i);
            assert((before + one).subrange(4 * (i - 1), 4 * i as int) =~= before.subrange(
                4 * (i - 1),
                4 * i as int,
            ));
        } else {
            lemma_zmq_starts(p, (n - 1) as nat, 1);
            assert((before + one).subrange(4 * (i - 1), 4 * i as int) =~= one);
        }
    } else {
        assert(before.len() == 0);
        assert((before + one).subrange(4 * (i - 1), 4 * i as int) =~= one);
    }
}

#[verifier::spinoff_prover]
#[verifier::rlimit(50)]
proof fn lemma_zmq_prepare_step(
    p: StartParams,
    gnb_dl: Seq<char>,
    gnb_ul: Seq<char>,
    base_port: u16,
    i: nat,
    k: int,
)
    requires
        1 <= i <= p.num_ues,
        0 <= k < 14,
    ensures
        launch::zmq_plan(p, gnb_dl, gnb_ul, base_port)[zmq_prepared_at(i) + k]
            == launch::zmq_prepare_one(p, base_port, i)[k],
{
    let all = launch::zmq_prepare(p, base_port, p.num_ues as nat);
    lemma_zmq_prepare(p, base_port, p.num_ues as nat, i);
    assert(all.subrange(14 * (i - 1), 14 * i as int)[k] == all[14 * (i - 1) + k]);
}

#[verifier::spinoff_prover]
#[verifier::rlimit(50)]
proof fn lemma_zmq_start_step(
    p: StartParams,
    gnb_dl: Seq<char>,
    gnb_ul: Seq<char>,
    base_port: u16,
    i: nat,
    k: int,
)
    requires
        1 <= i <= p.num_ues,
        0 <= k < 4,
    ensures
        launch::zmq_plan(p, gnb_dl, gnb_ul, base_port)[zmq_started_at(p.num_ues as nat, i) + k]
            == launch::zmq_start_one(p, i)[k],
{
    let n = p.num_ues as nat;
    let prep = launch::zmq_prepare(p, base_port, n);
    let all = launch::zmq_starts(p, n);
    lemma_zmq_prepare(p, base_port, n, i);
    lemma_zmq_starts(p, n, i);
    let front = launch::zmq_head(p) + prep + launch::zmq_proxy(p, gnb_dl, gnb_ul, base_port);
    assert(front.len() == 9 + 14 * n);
    assert(all.subrange(4 * (i - 1), 4 * i as int)[k] == all[4 * (i - 1) + k]);
    assert(launch::zmq_plan(p, gnb_dl, gnb_ul, base_port) == front + all + launch::zmq_tail(p));
}

/// What the plan over the radio proxy does for a UE: it says its namespace, its identity and the
/// host's address; it makes that namespace; it writes a configuration with that identity, that
/// address, the proxy's port and the given keys; and, once the proxy runs, it starts the UE in that
/// namespace with that configuration, on the given frequency.
#[verifier::spinoff_prover]
#[verifier::rlimit(50)]
pub proof fn law_zmq_ue(
    p: StartParams,
    gnb_dl: Seq<char>,
    gnb_ul: Seq<char>,
    base_port: u16,
    i: nat,
)
    requires
        1 <= i <= p.num_ues,
    ensures
        ({
            let steps = launch::zmq_plan(p, gnb_dl, gnb_ul, base_port);
            let at = zmq_prepared_at(i);
            let then = zmq_started_at(p.num_ues as nat, i);
            let say = steps[at];
            let made = steps[at + 1];
            let linked = steps[at + 4];
            let run = steps[at + 13];
            let start = steps[then + 1];
            &&& say is Say && made is Run && linked is Run && run is Run && start is Start
            &&& {
                let line = say->Say_0;
                let config = run->Run_0.args;
                let job = start->Start_0;
                &&& reading::setting(line, "ns="@) == Some(job.cmd.args[2])
                &&& reading::setting(line, "imsi="@) == Some(config[4])
                &&& reading::setting(line, "host-ip="@) == Some(config[14])
                &&& made->Run_0.args =~= seq!["netns"@, "add"@, job.cmd.args[2]]
                &&& linked->Run_0.args[2] == config[14] + "/24"@
                &&& run->Run_0.program == "python3"@
                &&& config[0] == p.gen_script@
                &&& config[3] == "--imsi-base"@
                &&& config[5] == "--key"@ && config[6] == p.key@
                &&& config[7] == "--opc"@ && config[8] == p.opc@
                &&& config[9] == "--dnn"@ && config[10] == p.dnn@
                &&& config[11] == "--base-port"@
                &&& text::number(config[12], 10, u16::MAX as nat) == Some(base_port as nat)
                &&& config[13] == "--ns-host-ip"@
                &&& config[15] == "--output"@ && job.cmd.args[4] == "-O"@
                &&& config[16] == job.cmd.args[5]
                &&& job.name == "ue_"@ + text::dec(i)
                &&& job.cmd.args[3] == p.ue_binary@
                &&& job.cmd.args[14] == "-C"@
                &&& text::number(job.cmd.args[15], 10, u64::MAX as nat) == Some(p.dl_freq as nat)
                &&& job.env == Some(("LD_LIBRARY_PATH"@, p.lib_dir@))
                &&& job.log == p.scripts@ + "/logs/ue"@ + text::dec(i) + "_nue.log"@
                &&& steps[then + 2] is SayPid && steps[then + 2]->SayPid_1 == "  log="@ + job.log
            }
        }),
{
    lemma_zmq_prepare_step(p, gnb_dl, gnb_ul, base_port, i, 0);
    lemma_zmq_prepare_step(p, gnb_dl, gnb_ul, base_port, i, 1);
    lemma_zmq_prepare_step(p, gnb_dl, gnb_ul, base_port, i, 4);
    lemma_zmq_prepare_step(p, gnb_dl, gnb_ul, base_port, i, 13);
    lemma_zmq_start_step(p, gnb_dl, gnb_ul, base_port, i, 1);
    lemma_zmq_start_step(p, gnb_dl, gnb_ul, base_port, i, 2);
    assert(launch::create_commands(i).len() == 12);
    text::law_number_of_dec(p.dl_freq as nat, u64::MAX as nat);
    text::law_number_of_dec(base_port as nat, u16::MAX as nat);
    lemma_zmq_line(p, base_port, i);
    lemma_ue_log(p.scripts@, i);
}

#[verifier::spinoff_prover]
#[verifier::rlimit(50)]
proof fn lemma_zmq_line(p: StartParams, base_port: u16, i: nat)
    ensures
        ({
            let line = launch::zmq_prepare_one(p, base_port, i)[0]->Say_0;
            &&& reading::setting(line, "ns="@) == Some(paths::ns(i))
            &&& reading::setting(line, "imsi="@) == Some(launch::imsi_text(p.imsi_base@, i))
            &&& reading::setting(line, "host-ip="@) == Some(paths::address(i, ".1.100"@))
        }),
{
    reveal_strlit("[start]   ns=");
    reveal_strlit("[start]   ");
    reveal_strlit("  imsi=");
    reveal_strlit("  host-ip=");
    reveal_strlit("ns=");
    reveal_strlit("imsi=");
    reveal_strlit("host-ip=");
    reveal_strlit("  ");
    let line = launch::zmq_prepare_one(p, base_port, i)[0]->Say_0;
    let ns = paths::ns(i);
    let imsi = launch::imsi_text(p.imsi_base@, i);
    let host = paths::address(i, ".1.100"@);
    lemma_ns_unbroken(i);
    lemma_identity_unbroken(p.imsi_base@, i);
    lemma_identity_lacks(p.imsi_base@, i);
    let b1 = "[start]   "@;
    let a1 = "  imsi="@ + imsi + "  host-ip="@ + host;
    assert(line =~= b1 + "ns="@ + ns + a1);
    reading::lemma_setting_behind(b1, "ns="@, ns, a1);
    let b2 = b1 + "ns="@ + ns + "  "@;
    let a2 = "  host-ip="@ + host;
    assert(line =~= b2 + "imsi="@ + imsi + a2);
    assert forall|q: int| 0 <= q < b2.len() && #[trigger] b2[q] == '=' implies q > 0 && b2[q - 1]
        == 's' by {
        if q < b1.len() {
            assert(b2[q] == b1[q]);
        } else if q >= b1.len() + 3 && q < b1.len() + 3 + ns.len() {
            assert(b2[q] == ns[q - b1.len() - 3]);
        }
    }
    reading::lemma_setting_behind(b2, "imsi="@, imsi, a2);
    let b3 = b2 + "imsi="@ + imsi + "  "@;
    let none = Seq::<char>::empty();
    assert(line =~= b3 + "host-ip="@ + host + none);
    assert forall|q: int| 0 <= q < b3.len() && #[trigger] b3[q] == '=' implies q > 0 && b3[q - 1]
        != 'p' by {
        if q < b2.len() {
            assert(b3[q] == b2[q]);
            assert(b3[q - 1] == b2[q - 1]);
        } else if q >= b2.len() + 5 && q < b2.len() + 5 + imsi.len() {
            assert(b3[q] == imsi[q - b2.len() - 5]);
        }
    }
    reading::lemma_setting_behind(b3, "host-ip="@, host, none);
}

#[verifier::spinoff_prover]
#[verifier::rlimit(50)]
proof fn lemma_zmq_names(
    p: StartParams,
    gnb_dl: Seq<char>,
    gnb_ul: Seq<char>,
    base_port: u16,
    i: nat,
)
    requires
        1 <= i <= p.num_ues,
    ensures
        ({
            let steps = launch::zmq_plan(p, gnb_dl, gnb_ul, base_port);
            let run = steps[zmq_prepared_at(i) + 13];
            let x = steps[zmq_started_at(p.num_ues as nat, i) + 1]->Start_0;
            &&& run is Run
            &&& run->Run_0.args[3] == "--imsi-base"@
            &&& run->Run_0.args[4] == launch::imsi_text(p.imsi_base@, i)
            &&& run->Run_0.args[14] == "10."@ + text::dec(200 + i) + ".1.100"@
            &&& run->Run_0.args[16] == "/tmp/multi_ue_nr-ue"@ + text::dec(i) + ".conf"@
            &&& x.log == paths::ue_log(p.scripts@, i)
            &&& x.cmd.args[2] == paths::ns(i)
        }),
{
    lemma_zmq_prepare_step(p, gnb_dl, gnb_ul, base_port, i, 13);
    lemma_zmq_start_step(p, gnb_dl, gnb_ul, base_port, i, 1);
    assert(launch::create_commands(i).len() == 12);
}

/// In the plan over the radio proxy a UE's configuration carries the identity that lies as far
/// behind the first one as the UE behind the first UE.
#[verifier::spinoff_prover]
#[verifier::rlimit(50)]
pub proof fn law_zmq_identity(
    p: StartParams,
    gnb_dl: Seq<char>,
    gnb_ul: Seq<char>,
    base_port: u16,
    i: nat,
)
    requires
        1 <= i <= p.num_ues,
        text::number(p.imsi_base@, 10, u64::MAX as nat) is Some,
        p.well_formed(false),
        p.imsi_base@.len() <= u32::MAX,
    ensures
        ({
            let first = text::number(p.imsi_base@, 10, u64::MAX as nat)->0;
            let run = launch::zmq_plan(p, gnb_dl, gnb_ul, base_port)[zmq_prepared_at(i) + 13];
            &&& run is Run
            &&& run->Run_0.args[3] == "--imsi-base"@
            &&& text::number(run->Run_0.args[4], 10, u64::MAX as nat) == Some(
                (first + i - 1) as nat,
            )
            &&& run->Run_0.args[4].len() >= p.imsi_base@.len()
        }),
{
    lemma_zmq_names(p, gnb_dl, gnb_ul, base_port, i);
    law_identities_count_up(p.imsi_base@, i);
}

/// Two UEs of the plan over the radio proxy share neither identity nor configuration, namespace,
/// host address or log.
#[verifier::spinoff_prover]
#[verifier::rlimit(50)]
pub proof fn law_zmq_ues_differ(
    p: StartParams,
    gnb_dl: Seq<char>,
    gnb_ul: Seq<char>,
    base_port: u16,
    i: nat,
    j: nat,
)
    requires
        1 <= i < j <= p.num_ues,
        text::number(p.imsi_base@, 10, u64::MAX as nat) is Some,
        p.well_formed(false),
        p.imsi_base@.len() <= u32::MAX,
    ensures
        ({
            let steps = launch::zmq_plan(p, gnb_dl, gnb_ul, base_port);
            let a = steps[zmq_prepared_at(i) + 13]->Run_0.args;
            let b = steps[zmq_prepared_at(j) + 13]->Run_0.args;
            let x = steps[zmq_started_at(p.num_ues as nat, i) + 1]->Start_0;
            let y = steps[zmq_started_at(p.num_ues as nat, j) + 1]->Start_0;
            &&& a[4] != b[4]
            &&& a[14] != b[14]
            &&& a[16] != b[16]
            &&& x.log != y.log
            &&& x.cmd.args[2] != y.cmd.args[2]
        }),
{
    law_identities_differ(p.imsi_base@, i, j);
    lemma_zmq_names(p, gnb_dl, gnb_ul, base_port, i);
    lemma_zmq_names(p, gnb_dl, gnb_ul, base_port, j);
    paths::law_ues_do_not_share(p.scripts@, i, j);
    lemma_told_apart("/tmp/multi_ue_nr-ue"@, i, j, ".conf"@);
    lemma_told_apart("10."@, 200 + i, 200 + j, ".1.100"@);
}

// ---------------------------------------------------------------------------
// What all UEs share
// ---------------------------------------------------------------------------

/// The proxy is started between the configurations and the UEs, for all UEs, between the given
/// addresses of the gNB, from the port that the configurations name, and with the prefix of the
/// UEs' namespaces.
#[verifier::spinoff_prover]
#[verifier::rlimit(50)]
pub proof fn law_zmq_proxy(
    p: StartParams,
    gnb_dl: Seq<char>,
    gnb_ul: Seq<char>,
    base_port: u16,
    i: nat,
)
    requires
        1 <= i <= p.num_ues,
    ensures
        ({
            let steps = launch::zmq_plan(p, gnb_dl, gnb_ul, base_port);
            let start = steps[6 + 14 * p.num_ues];
            &&& start is Start
            &&& {
                let args = start->Start_0.cmd.args;
                &&& start->Start_0.cmd.program == "python3"@
                &&& args[0] == p.proxy_script@
                &&& args[1] == "--num-ues"@
                &&& text::number(args[2], 10, usize::MAX as nat) == Some(p.num_ues as nat)
                &&& args[3] == "--gnb-dl-addr"@ && args[4] == gnb_dl
                &&& args[5] == "--gnb-ul-addr"@ && args[6] == gnb_ul
                &&& args[7] == "--base-port"@
                &&& args[8] == steps[zmq_prepared_at(i) + 13]->Run_0.args[12]
                &&& args[9] == "--ns-prefix"@
                &&& args[10] + text::dec(i) == steps[zmq_prepared_at(i) + 1]->Run_0.args[2]
            }
        }),
{
    text::law_number_of_dec(p.num_ues as nat, usize::MAX as nat);
    lemma_zmq_proxy_step(p, gnb_dl, gnb_ul, base_port);
    lemma_zmq_shared(p, gnb_dl, gnb_ul, base_port, i);
}

#[verifier::spinoff_prover]
#[verifier::rlimit(50)]
proof fn lemma_zmq_proxy_step(p: StartParams, gnb_dl: Seq<char>, gnb_ul: Seq<char>, base_port: u16)
    requires
        p.num_ues >= 1,
    ensures
        launch::zmq_plan(p, gnb_dl, gnb_ul, base_port)[6 + 14 * p.num_ues as int]
            == launch::zmq_proxy(p, gnb_dl, gnb_ul, base_port)[1],
{
    let n = p.num_ues as nat;
    lemma_zmq_prepare(p, base_port, n, 1);
    let front = launch::zmq_head(p) + launch::zmq_prepare(p, base_port, n);
    assert(front.len() == 5 + 14 * n);
    let proxy = launch::zmq_proxy(p, gnb_dl, gnb_ul, base_port);
    assert((front + proxy)[6 + 14 * n as int] == proxy[1]);
}

#[verifier::spinoff_prover]
#[verifier::rlimit(50)]
proof fn lemma_zmq_shared(
    p: StartParams,
    gnb_dl: Seq<char>,
    gnb_ul: Seq<char>,
    base_port: u16,
    i: nat,
)
    requires
        1 <= i <= p.num_ues,
    ensures
        ({
            let steps = launch::zmq_plan(p, gnb_dl, gnb_ul, base_port);
            &&& steps[zmq_prepared_at(i) + 1]->Run_0.args[2] == paths::ns(i)
            &&& steps[zmq_prepared_at(i) + 13]->Run_0.args[12] == text::dec(base_port as nat)
        }),
{
    lemma_zmq_prepare_step(p, gnb_dl, gnb_ul, base_port, i, 1);
    lemma_zmq_prepare_step(p, gnb_dl, gnb_ul, base_port, i, 13);
    assert(launch::create_commands(i).len() == 12);
}

/// The traffic engine serves all UEs, in namespaces of the UEs' prefix, and is told the server of
/// the speed tests where one is given; so it is in both kinds of plan.
#[verifier::spinoff_prover]
#[verifier::rlimit(50)]
pub proof fn law_traffic_serves_all(
    p: StartParams,
    gnb_binary: Seq<char>,
    gnb_config: Seq<char>,
    gnb_dl: Seq<char>,
    gnb_ul: Seq<char>,
    base_port: u16,
)
    requires
        p.num_ues >= 1,
    ensures
        ({
            let n = p.num_ues as int;
            let rfsim = launch::rfsim_plan(p, gnb_binary, gnb_config);
            let zmq = launch::zmq_plan(p, gnb_dl, gnb_ul, base_port);
            let start = rfsim[9 + 17 * n];
            &&& rfsim.len() == 14 + 17 * n
            &&& zmq.len() == 15 + 18 * n
            &&& start is Start
            &&& zmq[9 + 18 * n] == start
            &&& {
                let job = start->Start_0;
                let args = job.cmd.args;
                &&& job.cmd.program == "python3"@
                &&& args[0] == p.traffic_script@
                &&& args[1] == "--num-ues"@
                &&& text::number(args[2], 10, usize::MAX as nat) == Some(p.num_ues as nat)
                &&& args[3] == "--ns-prefix"@ && args[4] == "uesim"@
                &&& match p.iperf_server {
                    Some(s) => args.len() == 7 && args[5] == "--iperf-server"@ && args[6] == s@,
                    None => args.len() == 5,
                }
                &&& job.log == p.scripts@ + "/logs/traffic_nue.log"@
            }
        }),
{
    lemma_traffic_job(p);
    lemma_rfsim_traffic(p, gnb_binary, gnb_config);
    lemma_zmq_traffic(p, gnb_dl, gnb_ul, base_port);
}

#[verifier::spinoff_prover]
#[verifier::rlimit(50)]
proof fn lemma_traffic_job(p: StartParams)
    ensures
        ({
            let job = launch::traffic_job(p);
            let args = job.cmd.args;
            &&& job.cmd.program == "python3"@
            &&& args[0] == p.traffic_script@
            &&& args[1] == "--num-ues"@
            &&& text::number(args[2], 10, usize::MAX as nat) == Some(p.num_ues as nat)
            &&& args[3] == "--ns-prefix"@ && args[4] == "uesim"@
            &&& match p.iperf_server {
                Some(s) => args.len() == 7 && args[5] == "--iperf-server"@ && args[6] == s@,
                None => args.len() == 5,
            }
            &&& job.log == p.scripts@ + "/logs/traffic_nue.log"@
        }),
{
    reveal_strlit("/logs");
    reveal_strlit("/");
    reveal_strlit("traffic_nue.log");
    reveal_strlit("/logs/traffic_nue.log");
    text::law_number_of_dec(p.num_ues as nat, usize::MAX as nat);
    assert(paths::log_named(p.scripts@, "traffic_nue.log"@) =~= p.scripts@
        + "/logs/traffic_nue.log"@);
}

#[verifier::spinoff_prover]
#[verifier::rlimit(50)]
proof fn lemma_rfsim_traffic(p: StartParams, gnb_binary: Seq<char>, gnb_config: Seq<char>)
    requires
        p.num_ues >= 1,
    ensures
        launch::rfsim_plan(p, gnb_binary, gnb_config).len() == 14 + 17 * p.num_ues,
        launch::rfsim_plan(p, gnb_binary, gnb_config)[9 + 17 * p.num_ues as int]
            == launch::StepView::Start(launch::traffic_job(p)),
{
    let n = p.num_ues as nat;
    lemma_rfsim_all(p, n, 1);
    let front = launch::rfsim_head(p, gnb_binary, gnb_config) + launch::rfsim_all(p, n);
    assert(front.len() == 8 + 17 * n);
    let tail = launch::rfsim_tail(p);
    assert(tail.len() == 6);
    assert((front + tail)[9 + 17 * n as int] == tail[1]);
}

#[verifier::spinoff_prover]
#[verifier::rlimit(50)]
proof fn lemma_zmq_traffic(p: StartParams, gnb_dl: Seq<char>, gnb_ul: Seq<char>, base_port: u16)
    requires
        p.num_ues >= 1,
    ensures
        launch::zmq_plan(p, gnb_dl, gnb_ul, base_port).len() == 15 + 18 * p.num_ues,
        launch::zmq_plan(p, gnb_dl, gnb_ul, base_port)[9 + 18 * p.num_ues as int]
            == launch::StepView::Start(launch::traffic_job(p)),
{
    let n = p.num_ues as nat;
    lemma_zmq_prepare(p, base_port, n, 1);
    lemma_zmq_starts(p, n, 1);
    let front = launch::zmq_head(p) + launch::zmq_prepare(p, base_port, n) + launch::zmq_proxy(
        p,
        gnb_dl,
        gnb_ul,
        base_port,
    ) + launch::zmq_starts(p, n);
    assert(front.len() == 9 + 18 * n);
    let tail = launch::zmq_tail(p);
    assert(tail.len() == 6);
    assert((front + tail)[9 + 18 * n as int] == tail[0]);
}

/// The gNB of the radio simulator runs the given program with the given configuration, before any
/// UE, and is waited for.
#[verifier::spinoff_prover]
#[verifier::rlimit(50)]
pub proof fn law_rfsim_gnb(p: StartParams, gnb_binary: Seq<char>, gnb_config: Seq<char>)
    ensures
        ({
            let steps = launch::rfsim_plan(p, gnb_binary, gnb_config);
            let start = steps[5];
            &&& start is Start
            &&& start->Start_0.cmd.program == gnb_binary
            &&& start->Start_0.cmd.args[0] == "-O"@
            &&& start->Start_0.cmd.args[1] == gnb_config
            &&& start->Start_0.cmd.args.contains("--rfsim"@)
            &&& start->Start_0.log == p.scripts@ + "/logs/gnb.log"@
            &&& steps[7] is Wait && steps[7]->Wait_0 == 4000
        }),
{
    reveal_strlit("/logs");
    reveal_strlit("/");
    reveal_strlit("gnb.log");
    reveal_strlit("/logs/gnb.log");
    let steps = launch::rfsim_plan(p, gnb_binary, gnb_config);
    assert(steps[5]->Start_0.cmd.args[3] == "--rfsim"@);
    assert(paths::log_named(p.scripts@, "gnb.log"@) =~= p.scripts@ + "/logs/gnb.log"@);
}

/// Where the first identity is no number, the UEs count up from the usual one.
pub proof fn law_usual_identities(base: Seq<char>, i: nat)
    requires
        i >= 1,
        text::number(base, 10, u64::MAX as nat) is None,
        1010000000001 + i <= u64::MAX,
    ensures
        text::number(launch::imsi_text(base, i), 10, u64::MAX as nat) == Some(1010000000000 + i),
{
    reading::law_number_of_padded(1010000000000 + i, launch::byte_len(base), u64::MAX as nat);
}

/// The last words of a start say how many UEs were started, in which namespaces, and where the
/// logs of the first and of the last one lie.
#[verifier::spinoff_prover]
#[verifier::rlimit(50)]
pub proof fn law_start_is_said(
    p: StartParams,
    gnb_binary: Seq<char>,
    gnb_config: Seq<char>,
    gnb_dl: Seq<char>,
    gnb_ul: Seq<char>,
    base_port: u16,
)
    requires
        p.num_ues >= 1,
    ensures
        ({
            let n = p.num_ues as nat;
            let rfsim = launch::rfsim_plan(p, gnb_binary, gnb_config);
            let zmq = launch::zmq_plan(p, gnb_dl, gnb_ul, base_port);
            let range = "uesim1..uesim"@ + text::dec(n) + ")"@;
            let logs = "Logs: "@ + p.scripts@ + "/logs/ue"@ + text::dec(1) + "_nue.log"@ + "  ..  "@
                + p.scripts@ + "/logs/ue"@ + text::dec(n) + "_nue.log"@;
            &&& rfsim[rfsim.len() - 3] == launch::StepView::Say(
                "\nAll "@ + text::dec(n) + " UEs started  (namespaces "@ + range,
            )
            &&& zmq[zmq.len() - 4] == launch::StepView::Say(
                "\nAll "@ + text::dec(n) + " UEs started  (ZMQ + namespaces "@ + range,
            )
            &&& rfsim[rfsim.len() - 1] == launch::StepView::Say(logs)
            &&& zmq[zmq.len() - 2] == launch::StepView::Say(logs)
        }),
{
    lemma_tail_words(p);
    let rfsim = launch::rfsim_plan(p, gnb_binary, gnb_config);
    let tail = launch::rfsim_tail(p);
    assert(tail.len() == 6);
    assert(rfsim[rfsim.len() - 3] == tail[3]);
    assert(rfsim[rfsim.len() - 1] == tail[5]);
    let zmq = launch::zmq_plan(p, gnb_dl, gnb_ul, base_port);
    let end = launch::zmq_tail(p);
    assert(end.len() == 6);
    assert(zmq[zmq.len() - 4] == end[2]);
    assert(zmq[zmq.len() - 2] == end[4]);
}

proof fn lemma_tail_words(p: StartParams)
    ensures
        ({
            let n = p.num_ues as nat;
            let range = "uesim1..uesim"@ + text::dec(n) + ")"@;
            let logs = "Logs: "@ + p.scripts@ + "/logs/ue"@ + text::dec(1) + "_nue.log"@ + "  ..  "@
                + p.scripts@ + "/logs/ue"@ + text::dec(n) + "_nue.log"@;
            &&& "\nAll "@ + text::dec(n) + " UEs started  (namespaces "@ + launch::ns_range(n)
                + ")"@ == "\nAll "@ + text::dec(n) + " UEs started  (namespaces "@ + range
            &&& "\nAll "@ + text::dec(n) + " UEs started  (ZMQ + namespaces "@ + launch::ns_range(
                n,
            ) + ")"@ == "\nAll "@ + text::dec(n) + " UEs started  (ZMQ + namespaces "@ + range
            &&& launch::logs_line(p) == logs
        }),
{
    let n = p.num_ues as nat;
    let range = "uesim1..uesim"@ + text::dec(n) + ")"@;
    assert(launch::ns_range(n) + ")"@ == range) by {
        reveal_strlit("uesim");
        reveal_strlit("1..");
        reveal_strlit("uesim1..uesim");
        assert("uesim"@ + "1.."@ + "uesim"@ =~= "uesim1..uesim"@);
        assert(launch::ns_range(n) + ")"@ =~= range);
    }
    let a = "\nAll "@ + text::dec(n) + " UEs started  (namespaces "@;
    assert(a + launch::ns_range(n) + ")"@ =~= a + (launch::ns_range(n) + ")"@));
    let b = "\nAll "@ + text::dec(n) + " UEs started  (ZMQ + namespaces "@;
    assert(b + launch::ns_range(n) + ")"@ =~= b + (launch::ns_range(n) + ")"@));
    lemma_ue_log(p.scripts@, 1);
    lemma_ue_log(p.scripts@, n);
    assert(launch::logs_line(p) =~= "Logs: "@ + p.scripts@ + "/logs/ue"@ + text::dec(1)
        + "_nue.log"@ + "  ..  "@ + p.scripts@ + "/logs/ue"@ + text::dec(n) + "_nue.log"@);
}

/// Both kinds of plan run their UEs with the same radio parameters, those of the launch command, and
/// each UE in its own configuration alone; packets are forwarded before any namespace is made; and
/// after each UE there is a pause.
#[verifier::spinoff_prover]
#[verifier::rlimit(50)]
pub proof fn law_radio_parameters(
    p: StartParams,
    gnb_binary: Seq<char>,
    gnb_config: Seq<char>,
    gnb_dl: Seq<char>,
    gnb_ul: Seq<char>,
    base_port: u16,
    i: nat,
)
    requires
        1 <= i <= p.num_ues,
    ensures
        ({
            let rfsim = launch::rfsim_plan(p, gnb_binary, gnb_config);
            let zmq = launch::zmq_plan(p, gnb_dl, gnb_ul, base_port);
            let then = zmq_started_at(p.num_ues as nat, i);
            let a = rfsim[rfsim_at(i) + 14]->Start_0.cmd.args;
            let b = zmq[then + 1]->Start_0.cmd.args;
            let radio = seq!["-r"@, "106"@, "--numerology"@, "1"@, "--band"@, "78"@];
            &&& a.subrange(8, 14) == radio
            &&& b.subrange(8, 14) == radio
            &&& a[6] == "--rfsim"@ && a[7] == "--sa"@
            &&& b[6] == "--device.name"@ && b[7] == "oai_zmqdevif"@
            &&& rfsim[rfsim_at(i) + 16] is Wait && rfsim[rfsim_at(i) + 16]->Wait_0 == 300
            &&& zmq[then + 3] is Wait && zmq[then + 3]->Wait_0 == 300
        }),
        ({
            let rfsim = launch::rfsim_plan(p, gnb_binary, gnb_config);
            let zmq = launch::zmq_plan(p, gnb_dl, gnb_ul, base_port);
            let a = rfsim[rfsim_at(i) + 13]->Run_0.args;
            let b = zmq[zmq_prepared_at(i) + 13]->Run_0.args;
            &&& a.subrange(0, 11) == b.subrange(0, 11)
            &&& a[1] == "--num-ues"@ && a[2] == "1"@
            &&& a[11] == "--rfsim"@ && a.len() == 14 && b.len() == 17
            &&& rfsim[3] == zmq[3]
            &&& rfsim[3] is Run && rfsim[3]->Run_0.args == seq!["-w"@, "net.ipv4.ip_forward=1"@]
        }),
{
    lemma_rfsim_radio(p, gnb_binary, gnb_config, i);
    lemma_zmq_radio(p, gnb_dl, gnb_ul, base_port, i);
    lemma_config_words(p, gnb_binary, gnb_config, gnb_dl, gnb_ul, base_port, i);
}

#[verifier::spinoff_prover]
#[verifier::rlimit(50)]
proof fn lemma_rfsim_radio(p: StartParams, gnb_binary: Seq<char>, gnb_config: Seq<char>, i: nat)
    requires
        1 <= i <= p.num_ues,
    ensures
        ({
            let rfsim = launch::rfsim_plan(p, gnb_binary, gnb_config);
            let a = rfsim[rfsim_at(i) + 14]->Start_0.cmd.args;
            &&& a.subrange(8, 14) == seq![
                "-r"@,
                "106"@,
                "--numerology"@,
                "1"@,
                "--band"@,
                "78"@,
            ]
            &&& a[6] == "--rfsim"@ && a[7] == "--sa"@
            &&& rfsim[rfsim_at(i) + 16] is Wait && rfsim[rfsim_at(i) + 16]->Wait_0 == 300
        }),
{
    lemma_rfsim_step(p, gnb_binary, gnb_config, i, 14);
    lemma_rfsim_step(p, gnb_binary, gnb_config, i, 16);
    assert(launch::create_commands(i).len() == 12);
    let a = launch::rfsim_ue_job(p, i).cmd.args;
    assert(a.subrange(8, 14) =~= seq!["-r"@, "106"@, "--numerology"@, "1"@, "--band"@, "78"@]);
}

#[verifier::spinoff_prover]
#[verifier::rlimit(50)]
proof fn lemma_zmq_radio(
    p: StartParams,
    gnb_dl: Seq<char>,
    gnb_ul: Seq<char>,
    base_port: u16,
    i: nat,
)
    requires
        1 <= i <= p.num_ues,
    ensures
        ({
            let zmq = launch::zmq_plan(p, gnb_dl, gnb_ul, base_port);
            let then = zmq_started_at(p.num_ues as nat, i);
            let b = zmq[then + 1]->Start_0.cmd.args;
            &&& b.subrange(8, 14) == seq![
                "-r"@,
                "106"@,
                "--numerology"@,
                "1"@,
                "--band"@,
                "78"@,
            ]
            &&& b[6] == "--device.name"@ && b[7] == "oai_zmqdevif"@
            &&& zmq[then + 3] is Wait && zmq[then + 3]->Wait_0 == 300
        }),
{
    lemma_zmq_start_step(p, gnb_dl, gnb_ul, base_port, i, 1);
    lemma_zmq_start_step(p, gnb_dl, gnb_ul, base_port, i, 3);
    let b = launch::zmq_ue_job(p, i).cmd.args;
    assert(b.subrange(8, 14) =~= seq!["-r"@, "106"@, "--numerology"@, "1"@, "--band"@, "78"@]);
}

#[verifier::spinoff_prover]
#[verifier::rlimit(50)]
proof fn lemma_config_words(
    p: StartParams,
    gnb_binary: Seq<char>,
    gnb_config: Seq<char>,
    gnb_dl: Seq<char>,
    gnb_ul: Seq<char>,
    base_port: u16,
    i: nat,
)
    requires
        1 <= i <= p.num_ues,
    ensures
        ({
            let rfsim = launch::rfsim_plan(p, gnb_binary, gnb_config);
            let zmq = launch::zmq_plan(p, gnb_dl, gnb_ul, base_port);
            let a = rfsim[rfsim_at(i) + 13]->Run_0.args;
            let b = zmq[zmq_prepared_at(i) + 13]->Run_0.args;
            &&& a.subrange(0, 11) == b.subrange(0, 11)
            &&& a[1] == "--num-ues"@ && a[2] == "1"@
            &&& a[11] == "--rfsim"@ && a.len() == 14 && b.len() == 17
            &&& rfsim[3] == zmq[3]
            &&& rfsim[3] is Run && rfsim[3]->Run_0.args == seq!["-w"@, "net.ipv4.ip_forward=1"@]
        }),
{
    lemma_rfsim_step(p, gnb_binary, gnb_config, i, 13);
    lemma_zmq_prepare_step(p, gnb_dl, gnb_ul, base_port, i, 13);
    assert(launch::create_commands(i).len() == 12);
    let a = launch::rfsim_config_command(p, i).args;
    let b = launch::zmq_config_command(p, base_port, i).args;
    assert(a.subrange(0, 11) =~= b.subrange(0, 11));
    assert(launch::rfsim_plan(p, gnb_binary, gnb_config)[3] == launch::rfsim_head(
        p,
        gnb_binary,
        gnb_config,
    )[3]);
    assert(launch::zmq_plan(p, gnb_dl, gnb_ul, base_port)[3] == launch::zmq_head(p)[3]);
}

/// The telnet port of a UE that is started is the one that commands to it go to.
#[verifier::spinoff_prover]
#[verifier::rlimit(50)]
pub proof fn law_telnet_port_is_given(
    p: StartParams,
    gnb_binary: Seq<char>,
    gnb_config: Seq<char>,
    i: nat,
)
    requires
        1 <= i <= p.num_ues,
        i <= 56000,
    ensures
        ({
            let args = launch::rfsim_plan(p, gnb_binary, gnb_config)[rfsim_at(i)
                + 14]->Start_0.cmd.args;
            &&& args[18] == "--telnetsrv"@ && args[19] == "--telnetsrv.listenport"@
            &&& text::number(args[20], 10, u16::MAX as nat) == Some(crate::telnet::telnet_port(i))
            &&& crate::telnet::telnet_port(i) == 9095 + i
        }),
{
    lemma_rfsim_step(p, gnb_binary, gnb_config, i, 14);
    assert(launch::create_commands(i).len() == 12);
    text::law_number_of_dec(crate::telnet::TELNET_BASE as nat + i, u16::MAX as nat);
}

/// A part of the radio stack is looked for in the tree under its own name.
#[verifier::spinoff_prover]
#[verifier::rlimit(50)]
pub proof fn law_parts_keep_their_names(part: paths::StackPart)
    ensures
        ({
            let p = paths::part_below_tree(part);
            let name = paths::part_name(part);
            &&& p.len() > name.len()
            &&& p.skip(p.len() - name.len()) == name
            &&& p[p.len() - name.len() - 1] == '/'
        }),
{
    reveal_strlit("build/nr-uesoftmodem");
    reveal_strlit("nr-uesoftmodem");
    reveal_strlit("targets/PROJECTS/GENERIC-NR-5GC/CONF/uecap_ports1.xml");
    reveal_strlit("uecap_ports1.xml");
    reveal_strlit("build/nr-softmodem");
    reveal_strlit("nr-softmodem");
    reveal_strlit("targets/PROJECTS/GENERIC-NR-5GC/CONF/gnb.sa.band78.fr1.106PRB.pci0.rfsim.conf");
    reveal_strlit("gnb.sa.band78.fr1.106PRB.pci0.rfsim.conf");
    let p = paths::part_below_tree(part);
    let name = paths::part_name(part);
    assert(p.skip(p.len() - name.len()) =~= name);
}

/// The proxy is given time before the first UE is started.
#[verifier::spinoff_prover]
#[verifier::rlimit(50)]
pub proof fn law_proxy_is_waited_for(
    p: StartParams,
    gnb_dl: Seq<char>,
    gnb_ul: Seq<char>,
    base_port: u16,
)
    requires
        p.num_ues >= 1,
    ensures
        ({
            let steps = launch::zmq_plan(p, gnb_dl, gnb_ul, base_port);
            let at = 8 + 14 * p.num_ues as int;
            steps[at] is Wait && steps[at]->Wait_0 == 600
        }),
{
    let n = p.num_ues as nat;
    lemma_zmq_prepare(p, base_port, n, 1);
    let front = launch::zmq_head(p) + launch::zmq_prepare(p, base_port, n);
    assert(front.len() == 5 + 14 * n);
    let proxy = launch::zmq_proxy(p, gnb_dl, gnb_ul, base_port);
    assert((front + proxy)[8 + 14 * n as int] == proxy[3]);
}

/// Every UE that is started over the radio proxy is named, with its namespace, before and after.
#[verifier::spinoff_prover]
#[verifier::rlimit(50)]
pub proof fn law_zmq_start_is_said(
    p: StartParams,
    gnb_dl: Seq<char>,
    gnb_ul: Seq<char>,
    base_port: u16,
    i: nat,
)
    requires
        1 <= i <= p.num_ues,
    ensures
        ({
            let steps = launch::zmq_plan(p, gnb_dl, gnb_ul, base_port);
            let then = zmq_started_at(p.num_ues as nat, i);
            &&& steps[then] == launch::StepView::Say(
                "[start] launching UE"@ + text::dec(i) + "  ns="@ + ("uesim"@ + text::dec(i)),
            )
            &&& steps[then + 2] is SayPid
            &&& steps[then + 2]->SayPid_0 == "[start]   UE"@ + text::dec(i) + " pid="@
        }),
{
    lemma_zmq_start_step(p, gnb_dl, gnb_ul, base_port, i, 0);
    lemma_zmq_start_step(p, gnb_dl, gnb_ul, base_port, i, 2);
}

/// A simulation is known by the mode that it was started in.
pub proof fn law_mode_is_known_again(rfsim: bool)
    ensures
        crate::json::is_rfsim(Some(crate::json::mode_word(rfsim))) == rfsim,
        !crate::json::is_rfsim(None),
{
    reveal_strlit("rfsim");
    reveal_strlit("zmq");
    assert("rfsim"@.len() == 5);
    assert("zmq"@.len() == 3);
}

} // verus!
