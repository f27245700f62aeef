//! What the commands to the radio stack and to the test tools name.

use vstd::prelude::*;

use crate::handover;
use crate::handover::{Look, SwitchView};
use crate::json;
use crate::launch;
use crate::probes;
use crate::reading;
use crate::telnet;
use crate::text;
use crate::text::CharClass;

verus! {

// ---------------------------------------------------------------------------
// Handover
// ---------------------------------------------------------------------------

/// The words of a handover command are the serving cell's identity, the UE's identifier and the
/// target cell's identity, in this order.
#[verifier::spinoff_prover]
#[verifier::rlimit(50)]
pub proof fn law_ho_command_read_back(serving: nat, rnti: Seq<char>, target: nat)
    requires
        rnti.len() > 0,
        reading::unbroken(rnti),
        serving <= u16::MAX,
        target <= u16::MAX,
    ensures
        ({
            let words = text::tokens(
                handover::ho_command(serving, rnti, target),
                CharClass::NonWhite,
            );
            &&& words.len() == 4
            &&& words[0] == "ho"@
            &&& text::number(words[1], 10, u16::MAX as nat) == Some(serving)
            &&& words[2] == rnti
            &&& text::number(words[3], 10, u16::MAX as nat) == Some(target)
        }),
{
    reveal_strlit("ho");
    reveal_strlit("ho ");
    reveal_strlit(" ");
    reading::lemma_digits(serving);
    reading::lemma_digits(target);
    text::law_number_of_dec(serving, u16::MAX as nat);
    text::law_number_of_dec(target, u16::MAX as nat);
    let w = seq!["ho"@, text::dec(serving), rnti, text::dec(target)];
    lemma_four_spaced(w);
    reading::lemma_words_of(w);
    assert(handover::ho_command(serving, rnti, target) =~= reading::spaced(w));
}

proof fn lemma_four_spaced(w: Seq<Seq<char>>)
    requires
        w.len() == 4,
    ensures
        reading::spaced(w) == w[0] + " "@ + (w[1] + " "@ + (w[2] + " "@ + w[3])),
{
    let a = w.skip(1);
    let b = a.skip(1);
    let c = b.skip(1);
    assert(reading::spaced(c) == c[0]);
    assert(reading::spaced(b) == b[0] + " "@ + reading::spaced(c));
    assert(reading::spaced(a) == a[0] + " "@ + reading::spaced(b));
}

/// A handover that switches writes full gain to the UE's file of the target cell and no gain to
/// its file of the source cell, a fifth of a second apart; one that does not looks again soon.
pub proof fn law_switch_writes(ue: nat, source: nat, target: nat, looks: Seq<Look>)
    ensures
        match handover::switch_run(ue, source, target, looks) {
            SwitchView::Switch(wait, up, down) => {
                &&& wait == 200
                &&& up.path == "/tmp/proxy_ue_gain_"@ + text::dec(ue) + "_"@ + text::dec(target)
                &&& up.gain == "1.000"@
                &&& down.path == "/tmp/proxy_ue_gain_"@ + text::dec(ue) + "_"@ + text::dec(source)
                &&& down.gain == "0.000"@
            },
            SwitchView::Poll(wait) => wait == 50,
            SwitchView::Abandon => true,
        },
    decreases looks.len(),
{
    if looks.len() > 0 {
        law_switch_writes(ue, source, target, looks.drop_last());
    }
}

/// The script that starts the CU changes into the source tree, binds the CU to the given
/// processors, and runs it with the given configuration, reading from the pipe.
#[verifier::spinoff_prover]
#[verifier::rlimit(50)]
pub proof fn law_cu_script_names(tree: Seq<char>, cfg: Seq<char>, cpu: Seq<char>)
    ensures
        ({
            let script = handover::cu_script(tree, cfg, cpu);
            let run = "; cd "@ + tree
                + "/build/apps || exit 1; exec env MKL_THREADING_LAYER=GNU taskset -c "@ + cpu
                + " ./cu/ocu -c "@ + cfg + " < "@ + handover::CU_FIFO@;
            let first = "pkill -9 -x ocu 2>/dev/null; "@;
            &&& script.len() >= run.len() + first.len()
            &&& script.skip(script.len() - run.len()) == run
            &&& text::starts_with(script, first)
        }),
{
    reveal_strlit("pkill -9 -x ocu 2>/dev/null; ");
    reveal_strlit("pkill -9 -x ocu 2>/dev/null; sleep 1; rm -f ");
    let script = handover::cu_script(tree, cfg, cpu);
    let run = "; cd "@ + tree
        + "/build/apps || exit 1; exec env MKL_THREADING_LAYER=GNU taskset -c "@ + cpu
        + " ./cu/ocu -c "@ + cfg + " < "@ + handover::CU_FIFO@;
    let first = "pkill -9 -x ocu 2>/dev/null; "@;
    assert(script.skip(script.len() - run.len()) =~= run);
    assert(script.subrange(0, first.len() as int) =~= first);
}

/// Without an override the CU's configuration lies in the source tree; with one, it is that.
pub proof fn law_cu_config(tree: Seq<char>, given: Seq<char>)
    ensures
        handover::cu_config(tree, Some(given)) == given,
        text::starts_with(handover::cu_config(tree, None), tree),
        handover::cu_cpus(Some(given)) == given,
{
    assert(handover::cu_config(tree, None).subrange(0, tree.len() as int) =~= tree);
}

// ---------------------------------------------------------------------------
// Telnet
// ---------------------------------------------------------------------------

/// A command goes out with exactly one line feed more than it has, and none where it ends in one.
pub proof fn law_command_line_ends(cmd: Seq<char>)
    ensures
        ({
            let line = telnet::command_line(cmd);
            &&& line.len() > 0 && line.last() == '\n'
            &&& text::starts_with(line, cmd)
            &&& line.len() <= cmd.len() + 1
            &&& telnet::command_line(line) == line
        }),
{
    reveal_strlit("\n");
    let line = telnet::command_line(cmd);
    assert(line.subrange(0, cmd.len() as int) =~= cmd);
}

/// Every UE has a telnet port of its own, as far behind that of the first as its number.
pub proof fn law_telnet_ports_differ(i: nat, j: nat)
    requires
        i < j < 65536,
    ensures
        telnet::telnet_port(j) - telnet::telnet_port(i) == j - i,
{
}

/// The words of a channel command are its parts.
#[verifier::spinoff_prover]
#[verifier::rlimit(50)]
pub proof fn law_modify_command_read_back(idx: nat, param: Seq<char>, value: Seq<char>)
    requires
        idx <= u32::MAX,
        param.len() > 0,
        reading::unbroken(param),
        value.len() > 0,
        reading::unbroken(value),
    ensures
        ({
            let words = text::tokens(
                telnet::modify_command(idx, param, value),
                CharClass::NonWhite,
            );
            &&& words.len() == 5
            &&& words[0] == "channelmod"@ && words[1] == "modify"@
            &&& text::number(words[2], 10, u32::MAX as nat) == Some(idx)
            &&& words[3] == param
            &&& words[4] == value
        }),
{
    reveal_strlit("channelmod");
    reveal_strlit("modify");
    reveal_strlit("channelmod modify ");
    reveal_strlit(" ");
    reading::lemma_digits(idx);
    text::law_number_of_dec(idx, u32::MAX as nat);
    let w = seq!["channelmod"@, "modify"@, text::dec(idx), param, value];
    lemma_four_spaced(w.skip(1));
    assert(reading::spaced(w) == w[0] + " "@ + reading::spaced(w.skip(1)));
    reading::lemma_words_of(w);
    assert(telnet::modify_command(idx, param, value) =~= reading::spaced(w));
}

// ---------------------------------------------------------------------------
// Tests
// ---------------------------------------------------------------------------

/// A speed test runs in the UE's namespace, from its address, against the given server and port,
/// and differs in the two directions by one switch only.
pub proof fn law_speed_test_names(
    ue: nat,
    srv: Seq<char>,
    port: nat,
    ip: Seq<char>,
    reverse: bool,
)
    requires
        port <= u16::MAX,
    ensures
        ({
            let args = probes::speed_args(ue, srv, port, ip, reverse);
            &&& args[0] == "netns"@ && args[1] == "exec"@ && args[2] == "ue"@ + text::dec(ue)
            &&& args[4] == "-c"@ && args[5] == srv
            &&& args[6] == "-p"@ && text::number(args[7], 10, u16::MAX as nat) == Some(port)
            &&& args[8] == "-B"@ && args[9] == ip
        }),
        probes::speed_args(ue, srv, port, ip, true) == probes::speed_args(
            ue,
            srv,
            port,
            ip,
            false,
        ).push("-R"@),
{
    text::law_number_of_dec(port, u16::MAX as nat);
}

/// Other traffic runs in the same way, over datagrams; a stream comes down at eight times the rate
/// at which a game's packets go up.
#[verifier::spinoff_prover]
#[verifier::rlimit(50)]
pub proof fn law_stream_names(
    ue: nat,
    srv: Seq<char>,
    port: nat,
    ip: Seq<char>,
    kind: Seq<char>,
)
    requires
        port <= u16::MAX,
    ensures
        ({
            let args = probes::stream_args(ue, srv, port, ip, kind);
            &&& args.take(10) == probes::speed_args(ue, srv, port, ip, false).take(10)
            &&& args[10] == "-u"@
            &&& args[14] == "-b"@
            &&& kind == "video"@ ==> args[15] == "8M"@ && args[16] == "-R"@ && args.len() == 17
            &&& kind != "video"@ ==> args[15] == "1M"@ && args.skip(16) == seq!["-l"@, "100"@]
        }),
{
    let args = probes::stream_args(ue, srv, port, ip, kind);
    assert(args.take(10) =~= probes::speed_args(ue, srv, port, ip, false).take(10));
    if kind != "video"@ {
        assert(args.skip(16) =~= seq!["-l"@, "100"@]);
    }
}

/// What comes from a tunnel's address is looked up in the table whose way out is the tunnel, in
/// the UE's own namespace; without a tunnel nothing is done.
pub proof fn law_route_through_tunnel(ue: nat, tun_ip: Seq<char>)
    ensures
        ({
            let c = probes::route_commands(ue, tun_ip);
            &&& tun_ip.len() == 0 <==> c.len() == 0
            &&& forall|k: int|
                0 <= k < c.len() ==> (#[trigger] c[k]).program == "ip"@ && c[k].args[0] == "netns"@
                    && c[k].args[1] == "exec"@ && c[k].args[2] == "ue"@ + text::dec(ue)
            &&& tun_ip.len() > 0 ==> {
                &&& c[0].args[6] == "from"@ && c[0].args[7] == tun_ip
                &&& c[0].args[8] == "lookup"@ && c[1].args[9] == "table"@
                &&& c[0].args[9] == c[1].args[10]
                &&& c[1].args[6] == "default"@ && c[1].args[7] == "dev"@
                &&& c[1].args[8] == "oaitun_ue1"@
            }
        }),
{
}

/// Two orders to the traffic engine are told apart by the UE and by the pattern.
#[verifier::spinoff_prover]
#[verifier::rlimit(50)]
pub proof fn law_traffic_orders_differ(i: nat, j: nat, p: Seq<char>, q: Seq<char>)
    requires
        json::is_word(p),
        json::is_word(q),
        json::traffic_order_text(i, p) == json::traffic_order_text(j, q),
    ensures
        i == j,
        p == q,
{
    reveal_strlit("{\"pattern\":\"");
    reveal_strlit("\",\"ue_id\":");
    reveal_strlit("}");
    let a = json::traffic_order_text(i, p);
    let b = json::traffic_order_text(j, q);
    assert("{\"pattern\":\""@.len() == 12);
    if p.len() < q.len() {
        assert(a[12 + p.len() as int] == '"');
        assert(b[12 + p.len() as int] == q[p.len() as int]);
    } else if q.len() < p.len() {
        assert(b[12 + q.len() as int] == '"');
        assert(a[12 + q.len() as int] == p[q.len() as int]);
    }
    assert(p =~= a.subrange(12, 12 + p.len() as int));
    assert(q =~= b.subrange(12, 12 + q.len() as int));
    let n = 12 + p.len() as int + 10;
    assert("\",\"ue_id\":"@.len() == 10);
    assert(text::dec(i) =~= a.subrange(n, a.len() - 1));
    assert(text::dec(j) =~= b.subrange(n, b.len() - 1));
    text::law_dec_injective(i, j);
}

/// A process is first asked to end, then given time, then made to; by its own number.
pub proof fn law_kill_by_number(pid: nat)
    requires
        pid <= u32::MAX,
    ensures
        ({
            let k = launch::kill_plan(pid);
            &&& k.len() == 3
            &&& k[0] is Run && k[1] is Wait && k[2] is Run
            &&& k[0]->Run_0.program == "kill"@ && k[0]->Run_0.args[0] == "-15"@
            &&& text::number(k[0]->Run_0.args[1], 10, u32::MAX as nat) == Some(pid)
            &&& k[1]->Wait_0 == 400
            &&& k[2]->Run_0.program == "kill"@ && k[2]->Run_0.args[0] == "-9"@
            &&& k[2]->Run_0.args[1] == k[0]->Run_0.args[1]
        }),
{
    text::law_number_of_dec(pid, u32::MAX as nat);
}

/// Stopping ends every process that was noted, in the order in which they were, and then whatever
/// else runs.
#[verifier::spinoff_prover]
#[verifier::rlimit(50)]
pub proof fn law_stop_ends_all(v: Seq<(String, u32)>, i: int)
    requires
        0 <= i < v.len(),
    ensures
        launch::whole_stop(v).len() == 4 * v.len() + 3,
        launch::whole_stop(v).subrange(4 * i + 1, 4 * i + 4) == launch::kill_plan(v[i].1 as nat),
        launch::whole_stop(v)[4 * v.len() as int + 1] == launch::StepView::StopExisting,
{
    lemma_kills(v, v.len() as int, i);
    let k = launch::kills(v, v.len() as int);
    assert(launch::whole_stop(v).subrange(4 * i + 1, 4 * i + 4) =~= k.subrange(
        4 * i + 1,
        4 * i + 4,
    ));
}

proof fn lemma_kills(v: Seq<(String, u32)>, n: int, i: int)
    requires
        0 <= i < n <= v.len(),
    ensures
        launch::kills(v, n).len() == 4 * n,
        launch::kills(v, n).subrange(4 * i + 1, 4 * i + 4) == launch::kill_plan(v[i].1 as nat),
    decreases n,
{
    let before = launch::kills(v, n - 1);
    let all = launch::kills(v, n);
    let own = launch::kill_plan(v[n - 1].1 as nat);
    assert(own.len() == 3);
    if i < n - 1 {
        lemma_kills(v, n - 1, i);
        assert(all.subrange(4 * i + 1, 4 * i + 4) =~= before.subrange(4 * i + 1, 4 * i + 4));
    } else {
        if n > 1 {
            lemma_kills(v, n - 1, 0);
        } else {
            assert(before.len() == 0);
        }
        assert(all.subrange(4 * i + 1, 4 * i + 4) =~= own);
    }
}

/// What is ended is named with its number.
pub proof fn law_stop_names_processes(v: Seq<(String, u32)>, i: int)
    requires
        0 <= i < v.len(),
    ensures
        launch::whole_stop(v)[4 * i] == launch::StepView::Say(
            "[stop] killing "@ + v[i].0@ + " (pid="@ + text::dec(v[i].1 as nat) + ")"@,
        ),
{
    lemma_kill_said(v, v.len() as int, i);
}

proof fn lemma_kill_said(v: Seq<(String, u32)>, n: int, i: int)
    requires
        0 <= i < n <= v.len(),
    ensures
        launch::kills(v, n).len() == 4 * n,
        launch::kills(v, n)[4 * i] == launch::StepView::Say(
            "[stop] killing "@ + v[i].0@ + " (pid="@ + text::dec(v[i].1 as nat) + ")"@,
        ),
    decreases n,
{
    assert(launch::kill_plan(v[n - 1].1 as nat).len() == 3);
    if i < n - 1 {
        lemma_kill_said(v, n - 1, i);
    } else if n > 1 {
        lemma_kill_said(v, n - 1, 0);
    } else {
        assert(launch::kills(v, 0).len() == 0);
    }
}

/// A UE's namespace is found among those that are listed, by its number.
pub proof fn law_running_ues_are_found(lines: Seq<Seq<char>>, k: int, i: usize)
    requires
        0 <= k < lines.len(),
        text::tokens(lines[k], CharClass::NonWhite).len() > 0,
        text::tokens(lines[k], CharClass::NonWhite)[0] == "ue"@ + text::dec(i as nat),
    ensures
        launch::numbered(lines, "ue"@).contains(("ue"@ + text::dec(i as nat), i)),
    decreases lines.len(),
{
    let prefix = "ue"@;
    let rest = lines.drop_last();
    let all = launch::numbered(lines, prefix);
    let before = launch::numbered(rest, prefix);
    let name = prefix + text::dec(i as nat);
    if k == lines.len() - 1 {
        assert(name.subrange(0, prefix.len() as int) =~= prefix);
        assert(name.skip(prefix.len() as int) =~= text::dec(i as nat));
        text::law_number_of_dec(i as nat, usize::MAX as nat);
        assert(all[all.len() - 1] == (name, i));
    } else {
        law_running_ues_are_found(rest, k, i);
        let j = choose|j: int| 0 <= j < before.len() && before[j] == (name, i);
        assert(all[j] == (name, i));
    }
}

/// Whatever is found is named on some line, with that number behind the prefix.
pub proof fn law_found_ues_are_listed(lines: Seq<Seq<char>>, prefix: Seq<char>, j: int)
    requires
        0 <= j < launch::numbered(lines, prefix).len(),
    ensures
        ({
            let f = launch::numbered(lines, prefix)[j];
            &&& text::starts_with(f.0, prefix)
            &&& text::number(f.0.skip(prefix.len() as int), 10, usize::MAX as nat) == Some(
                f.1 as nat,
            )
            &&& exists|k: int|
                0 <= k < lines.len() && text::tokens(
                    #[trigger] lines[k],
                    CharClass::NonWhite,
                ).len() > 0 && text::tokens(lines[k], CharClass::NonWhite)[0] == f.0
        }),
    decreases lines.len(),
{
    if lines.len() > 0 {
        let rest = lines.drop_last();
        let before = launch::numbered(rest, prefix);
        if j < before.len() {
            law_found_ues_are_listed(rest, prefix, j);
            let f = before[j];
            let k = choose|k: int|
                0 <= k < rest.len() && text::tokens(
                    #[trigger] rest[k],
                    CharClass::NonWhite,
                ).len() > 0 && text::tokens(rest[k], CharClass::NonWhite)[0] == f.0;
            assert(lines[k] == rest[k]);
        } else {
            assert(lines[lines.len() - 1] == lines.last());
        }
    }
}

/// What went wrong is told as it is, and what was sent is repeated.
#[verifier::spinoff_prover]
#[verifier::rlimit(50)]
pub proof fn law_outcomes_are_told(command: Seq<char>, error: Seq<char>)
    ensures
        text::starts_with(handover::ho_outcome_text(command, None), "sent: "@ + command),
        text::starts_with(
            handover::ho_outcome_text(command, Some(error)),
            "FIFO write failed ("@ + error + ")"@,
        ),
        handover::cu_outcome(Some(error)) == "CU launch failed: "@ + error,
        handover::cu_outcome(None) != handover::cu_outcome(Some(error)),
{
    reveal_strlit(")");
    reveal_strlit("). Is the CU running with  < ");
    let a = "sent: "@ + command;
    assert(handover::ho_outcome_text(command, None).subrange(0, a.len() as int) =~= a);
    let b = "FIFO write failed ("@ + error + ")"@;
    assert(handover::ho_outcome_text(command, Some(error)).subrange(0, b.len() as int) =~= b);
    reveal_strlit("CU starting (reading ");
    reveal_strlit("CU launch failed: ");
    assert(handover::cu_outcome(None)[3] == 's');
    assert(handover::cu_outcome(Some(error))[3] == 'l');
}

/// Whatever asks a UE something asks in its own namespace; a ping goes out through its tunnel, to
/// the target.
pub proof fn law_questions_go_to_the_ue(ue: nat, target: Seq<char>)
    ensures
        ({
            let ns = "ue"@ + text::dec(ue);
            let inside = |c: launch::CmdView, program: Seq<char>|
                c.program == "ip"@ && c.args[0] == "netns"@ && c.args[1] == "exec"@ && c.args[2]
                    == ns && c.args[3] == program;
            let ping = probes::ping_words(ue, target);
            &&& inside(ping, "ping"@)
            &&& ping.args.last() == target
            &&& ping.args[ping.args.len() - 3] == "-I"@
            &&& ping.args[ping.args.len() - 2] == "oaitun_ue1"@
            &&& inside(probes::tunnel_query(ue), "ip"@)
            &&& probes::tunnel_query(ue).args.last() == "oaitun_ue1"@
            &&& inside(probes::counters_query(ue), "cat"@)
            &&& probes::counters_query(ue).args.last() == "/proc/net/dev"@
        }),
{
}

/// The two writes of a handover go to two files, the first with full gain and the second with none.
pub proof fn law_fade_writes(target: Seq<char>, source: Seq<char>)
    ensures
        handover::fade(target, source).0.path == target,
        handover::fade(target, source).0.gain == "1.000"@,
        handover::fade(target, source).1.path == source,
        handover::fade(target, source).1.gain == "0.000"@,
{
}

/// The file of a cell's gain is that of no other cell and of no UE.
pub proof fn law_cell_gain_file(cell: nat, ue: nat, other: nat)
    ensures
        handover::cell_gain_path(cell) == "/tmp/proxy_cell_gain_"@ + text::dec(cell),
        handover::cell_gain_path(cell) != handover::ue_gain_path(ue, other),
{
    reveal_strlit("/tmp/proxy_cell_gain_");
    reveal_strlit("/tmp/proxy_ue_gain_");
    assert(handover::cell_gain_path(cell)[11] == 'c');
    assert(handover::ue_gain_path(ue, other)[11] == 'u');
}

/// A reply is read on exactly as long as there is time left to wait and it is not too long.
pub proof fn law_reply_is_read_on(len: nat, elapsed_ms: nat, timeout_ms: nat)
    requires
        len <= 65536,
    ensures
        telnet::reply_done(len, elapsed_ms, timeout_ms) <==> telnet::read_wait_ms(
            elapsed_ms as int,
            timeout_ms as int,
        ) == 0,
        telnet::reply_done(65537 + len, elapsed_ms, timeout_ms),
{
}

/// What is said of a CU that is started names its processors and its configuration's file.
pub proof fn law_cu_start_is_said(cfg: Seq<char>, cpu: Seq<char>)
    ensures
        text::starts_with(
            handover::cu_launch_status(cfg, cpu),
            "launching CU: taskset -c "@ + cpu + " ./cu/ocu -c "@ + text::after_last(cfg, "/"@)
                + " "@,
        ),
{
    reveal_strlit(" ");
    reveal_strlit("  (FIFO ");
    let front = "launching CU: taskset -c "@ + cpu + " ./cu/ocu -c "@ + text::after_last(cfg, "/"@)
        + " "@;
    assert(handover::cu_launch_status(cfg, cpu).subrange(0, front.len() as int) =~= front);
}

} // verus!
