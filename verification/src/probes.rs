//! Measuring the UEs: pings, byte counters, speed tests and other traffic. The measured values
//! themselves are kept as the bits of the floating-point numbers that were read.

use std::collections::VecDeque;

use vstd::prelude::*;

use crate::launch;
use crate::launch::{Cmd, CmdView};
use crate::slice;
use crate::text;
use crate::text::CharClass;

verus! {

// ---------------------------------------------------------------------------
// Histories
// ---------------------------------------------------------------------------

/// How many samples a history holds.
pub const RTT_HIST: usize = 240;

/// The samples of a history after one more: the latest ones that it can hold, the oldest first.
pub open spec fn sampled(history: Seq<u64>, sample: u64) -> Seq<u64> {
    let all = history.push(sample);
    if all.len() > RTT_HIST {
        all.skip(all.len() - RTT_HIST)
    } else {
        all
    }
}

/// What was measured of one UE. Every measured value stands as the bits of a floating-point
/// number.
pub struct LiveMetric {
    /// Round-trip times in ms, the oldest first.
    pub rtt: VecDeque<u64>,
    pub last_rtt: Option<u64>,
    /// How many pings were answered.
    pub recv: u64,
    pub dl_mbps: u64,
    pub ul_mbps: u64,
    /// Throughput in Mbps, the oldest first.
    pub tput: VecDeque<u64>,
    pub last_tput: Option<u64>,
}

/// What was measured of one UE.
#[verifier::ext_equal]
pub struct MetricView {
    pub rtt: Seq<u64>,
    pub last_rtt: Option<u64>,
    pub recv: u64,
    pub dl_mbps: u64,
    pub ul_mbps: u64,
    pub tput: Seq<u64>,
    pub last_tput: Option<u64>,
}

impl View for LiveMetric {
    type V = MetricView;

    open spec fn view(&self) -> MetricView {
        MetricView {
            rtt: self.rtt@,
            last_rtt: self.last_rtt,
            recv: self.recv,
            dl_mbps: self.dl_mbps,
            ul_mbps: self.ul_mbps,
            tput: self.tput@,
            last_tput: self.last_tput,
        }
    }
}

impl MetricView {
    /// No history is longer than it may be.
    pub open spec fn well_formed(self) -> bool {
        self.rtt.len() <= RTT_HIST && self.tput.len() <= RTT_HIST
    }
}

/// Nothing was measured yet; the rates are zero.
pub open spec fn unmeasured() -> MetricView {
    MetricView {
        rtt: seq![],
        last_rtt: None,
        recv: 0,
        dl_mbps: 0,
        ul_mbps: 0,
        tput: seq![],
        last_tput: None,
    }
}

/// Adds a sample to a history.
fn add_sample(history: &mut VecDeque<u64>, sample: u64)
    ensures
        final(history)@ == sampled(old(history)@, sample),
{
    let ghost all = history@.push(sample);
    history.push_back(sample);
    let ghost mut gone: int = 0;
    assert(all.skip(0) == all);
    while history.len() > RTT_HIST
        invariant
            0 <= gone <= all.len(),
            history@ == all.skip(gone),
            gone > 0 ==> history@.len() >= RTT_HIST,
        decreases history@.len(),
    {
        let _ = history.pop_front();
        proof {
            assert(all.skip(gone + 1) == all.skip(gone).skip(1));
            gone = gone + 1;
        }
    }
    assert(history@ == sampled(old(history)@, sample));
}

impl LiveMetric {
    pub fn new() -> (r: Self)
        ensures
            r@ == unmeasured(),
            r@.well_formed(),
    {
        let r = LiveMetric {
            rtt: VecDeque::new(),
            last_rtt: None,
            recv: 0,
            dl_mbps: 0,
            ul_mbps: 0,
            tput: VecDeque::new(),
            last_tput: None,
        };
        assert(r@ =~= unmeasured());
        r
    }

    /// Notes an answered ping.
    pub fn add_rtt(&mut self, rtt: u64)
        requires
            old(self).recv < u64::MAX,
        ensures
            final(self)@ == (MetricView {
                recv: (old(self).recv + 1) as u64,
                last_rtt: Some(rtt),
                rtt: sampled(old(self)@.rtt, rtt),
                ..old(self)@
            }),
    {
        self.recv = self.recv + 1;
        self.last_rtt = Some(rtt);
        add_sample(&mut self.rtt, rtt);
    }

    /// Notes the rates of both directions and their sum.
    pub fn add_rates(&mut self, dl: u64, ul: u64, total: u64)
        ensures
            final(self)@ == (MetricView {
                dl_mbps: dl,
                ul_mbps: ul,
                last_tput: Some(total),
                tput: sampled(old(self)@.tput, total),
                ..old(self)@
            }),
    {
        self.dl_mbps = dl;
        self.ul_mbps = ul;
        self.last_tput = Some(total);
        add_sample(&mut self.tput, total);
    }
}

/// A history never grows beyond its size, ends with the latest sample, and loses a sample only
/// from its old end.
pub proof fn law_history_is_bounded(history: Seq<u64>, sample: u64)
    ensures
        sampled(history, sample).len() <= RTT_HIST,
        sampled(history, sample).last() == sample,
        history.len() < RTT_HIST ==> sampled(history, sample) == history.push(sample),
        history.len() == RTT_HIST ==> sampled(history, sample) == history.skip(1).push(sample),
{
    if history.len() == RTT_HIST {
        assert(sampled(history, sample) =~= history.skip(1).push(sample));
    }
}

// ---------------------------------------------------------------------------
// Pings and byte counters
// ---------------------------------------------------------------------------

/// The round-trip time, as a text, on a line of ping's output.
pub open spec fn rtt_of_line(line: Seq<char>) -> Option<Seq<char>> {
    match text::after_first(line, "time="@) {
        Some(rest) => Some(text::leading(rest, CharClass::DigitOrDot)),
        None => None,
    }
}

/// The round-trip time, as a text, on a line of ping's output.
pub fn rtt_text(line: &str) -> (r: Option<String>)
    ensures
        slice::opt_string(r) == rtt_of_line(line@),
{
    let chars = text::chars_of(line);
    match text::text_after(chars.as_slice(), "time=") {
        Some(rest) => Some(text::string_of(text::take_leading(rest, CharClass::DigitOrDot))),
        None => None,
    }
}

/// How often a missing tunnel is looked for again, one second apart.
pub const TUNNEL_TRIES: usize = 20;

/// What to do about a UE's tunnel before it can ping.
#[derive(Clone, Copy, PartialEq, Eq, Debug, Structural)]
pub enum TunnelStep {
    /// The tunnel is there.
    Ping,
    /// Wait for so many milliseconds, and look again.
    Wait(u64),
    /// The UE does not ping.
    GiveUp,
}

pub open spec fn tunnel_decision(tries: nat, stopped: bool, has_tunnel: bool) -> TunnelStep {
    if has_tunnel {
        TunnelStep::Ping
    } else if stopped || tries >= TUNNEL_TRIES {
        TunnelStep::GiveUp
    } else {
        TunnelStep::Wait(1000)
    }
}

/// Decides what to do about a UE's tunnel after it was looked for again `tries` times.
pub fn tunnel_step(tries: usize, stopped: bool, tun_ip: &str) -> (r: TunnelStep)
    ensures
        r == tunnel_decision(tries as nat, stopped, tun_ip@.len() > 0),
{
    if tun_ip.unicode_len() > 0 {
        TunnelStep::Ping
    } else if stopped || tries >= TUNNEL_TRIES {
        TunnelStep::GiveUp
    } else {
        TunnelStep::Wait(1000)
    }
}

/// What a UE runs in: its namespace.
pub open spec fn ue_ns(ue: nat) -> Seq<char> {
    "ue"@ + text::dec(ue)
}

/// The namespace of a UE.
pub fn ue_netns(ue: usize) -> (r: String)
    ensures
        r@ == ue_ns(ue as nat),
{
    let mut out = text::owned("ue");
    text::push_dec(&mut out, ue as u64);
    out
}

/// The command that shows the state of a UE's tunnel.
pub open spec fn tunnel_query(ue: nat) -> CmdView {
    launch::cmd(
        "ip"@,
        seq![
            "netns"@,
            "exec"@,
            ue_ns(ue),
            "ip"@,
            "-4"@,
            "addr"@,
            "show"@,
            "oaitun_ue1"@,
        ],
    )
}

/// The command that shows the state of a UE's tunnel.
pub fn tunnel_command(ue: usize) -> (r: Cmd)
    ensures
        r@ == tunnel_query(ue as nat),
{
    let c = launch::in_netns(ue_netns(ue).as_str(), "ip").arg("-4").arg("addr").arg("show").arg(
        "oaitun_ue1",
    );
    assert(c@ =~~= launch::cmd(
        "ip"@,
        seq![
            "netns"@,
            "exec"@,
            ue_ns(ue as nat),
            "ip"@,
            "-4"@,
            "addr"@,
            "show"@,
            "oaitun_ue1"@,
        ],
    ));
    c
}

/// The command that pings a target from a UE, through its tunnel.
pub open spec fn ping_words(ue: nat, target: Seq<char>) -> CmdView {
    launch::cmd(
        "ip"@,
        seq![
            "netns"@,
            "exec"@,
            ue_ns(ue),
            "ping"@,
            "-i"@,
            "1"@,
            "-W"@,
            "3"@,
            "-I"@,
            "oaitun_ue1"@,
            target,
        ],
    )
}

/// The command by which a UE pings through its tunnel, once a second.
pub fn ping_command(ue: usize, target: &str) -> (r: Cmd)
    ensures
        r@ == ping_words(ue as nat, target@),
{
    let c = launch::in_netns(ue_netns(ue).as_str(), "ping").arg("-i").arg("1").arg("-W").arg(
        "3",
    ).arg("-I").arg("oaitun_ue1").arg(target);
    assert(c@ =~~= launch::cmd(
        "ip"@,
        seq![
            "netns"@,
            "exec"@,
            ue_ns(ue as nat),
            "ping"@,
            "-i"@,
            "1"@,
            "-W"@,
            "3"@,
            "-I"@,
            "oaitun_ue1"@,
            target@,
        ],
    ));
    c
}

/// The command that shows the byte counters of a UE's interfaces.
pub open spec fn counters_query(ue: nat) -> CmdView {
    launch::cmd(
        "ip"@,
        seq!["netns"@, "exec"@, ue_ns(ue), "cat"@, "/proc/net/dev"@],
    )
}

/// The command that shows the byte counters of a UE's interfaces.
pub fn counters_command(ue: usize) -> (r: Cmd)
    ensures
        r@ == counters_query(ue as nat),
{
    let c = launch::in_netns(ue_netns(ue).as_str(), "cat").arg("/proc/net/dev");
    assert(c@ =~~= launch::cmd(
        "ip"@,
        seq!["netns"@, "exec"@, ue_ns(ue as nat), "cat"@, "/proc/net/dev"@],
    ));
    c
}

pub open spec fn u64_or_zero(t: Seq<char>) -> u64 {
    match text::number(t, 10, u64::MAX as nat) {
        Some(n) => n as u64,
        None => 0,
    }
}

/// The received and sent bytes on a line about the tunnel: its first and its ninth number.
pub open spec fn counters_of_line(line: Seq<char>) -> Option<(u64, u64)> {
    match text::without_prefix(text::trim(line), "oaitun_ue1:"@) {
        Some(rest) => {
            let f = text::tokens(rest, CharClass::NonWhite);
            if f.len() >= 9 {
                Some((u64_or_zero(f[0]), u64_or_zero(f[8])))
            } else {
                None
            }
        },
        None => None,
    }
}

/// The counters on the last line that has some.
pub open spec fn counters_in(lines: Seq<Seq<char>>) -> Option<(u64, u64)>
    decreases lines.len(),
{
    if lines.len() == 0 {
        None
    } else {
        match counters_of_line(lines.last()) {
            Some(c) => Some(c),
            None => counters_in(lines.drop_last()),
        }
    }
}

fn read_u64(t: &[char]) -> (r: u64)
    ensures
        r == u64_or_zero(t@),
{
    match text::read_number(t, 10, u64::MAX) {
        Some(n) => n,
        None => 0,
    }
}

fn read_counters(line: &[char]) -> (r: Option<(u64, u64)>)
    ensures
        r == counters_of_line(line@),
{
    match text::strip_prefix(text::trimmed(line), "oaitun_ue1:") {
        Some(rest) => {
            let f = text::split_tokens(rest, CharClass::NonWhite);
            let ghost want = text::tokens(rest@, CharClass::NonWhite);
            assert(f@.len() == want.len());
            if f.len() >= 9 {
                assert(f@[0]@ == want[0]);
                assert(f@[8]@ == want[8]);
                Some((read_u64(f[0].as_slice()), read_u64(f[8].as_slice())))
            } else {
                None
            }
        },
        None => None,
    }
}

/// The received and sent bytes of a UE's tunnel that the system shows.
pub fn tun_counters(output: &str) -> (r: Option<(u64, u64)>)
    ensures
        r == counters_in(text::lines_of(output@)),
{
    let chars = text::chars_of(output);
    let lines = text::split_lines(chars.as_slice());
    let ghost all = text::lines_of(output@);
    let mut i: usize = lines.len();
    assert(all.take(i as int) == all);
    while i > 0
        invariant
            i <= lines.len(),
            text::char_texts(lines@) == all,
            all == text::lines_of(output@),
            counters_in(all.take(i as int)) == counters_in(all),
        decreases i,
    {
        assert(all.take(i as int).last() == lines@[i - 1]@);
        assert(all.take(i as int).drop_last() == all.take(i - 1));
        match read_counters(lines[i - 1].as_slice()) {
            Some(c) => {
                return Some(c);
            },
            None => {},
        }
        i = i - 1;
    }
    assert(all.take(0) == Seq::<Seq<char>>::empty());
    None
}

pub open spec fn grown(now: u64, before: u64) -> u64 {
    if now > before {
        (now - before) as u64
    } else {
        0
    }
}

/// By how many bytes the counters grew; a counter that was set back did not grow.
pub fn byte_growth(now: (u64, u64), before: (u64, u64)) -> (r: (u64, u64))
    ensures
        r == (grown(now.0, before.0), grown(now.1, before.1)),
{
    (now.0.saturating_sub(before.0), now.1.saturating_sub(before.1))
}

/// The growth since the earlier reading, and the reading to measure the next one from.
pub open spec fn sample_of(
    prev: Option<(u64, u64)>,
    counters: Option<(u64, u64)>,
) -> (Option<(u64, u64)>, Option<(u64, u64)>) {
    match counters {
        Some(now) => match prev {
            Some(before) => (Some((grown(now.0, before.0), grown(now.1, before.1))), Some(now)),
            None => (None, Some(now)),
        },
        None => (None, prev),
    }
}

/// What a look at the counters gives: by how many bytes they grew since the earlier reading, and the
/// reading to measure the next growth from. Without an earlier reading, and where the counters could
/// not be read, there is no growth; and an earlier reading stays until the next one.
pub fn sample_step(prev: Option<(u64, u64)>, counters: Option<(u64, u64)>) -> (r: (
    Option<(u64, u64)>,
    Option<(u64, u64)>,
))
    ensures
        r == sample_of(prev, counters),
        r.0 == match (prev, counters) {
            (Some(before), Some(now)) => Some((grown(now.0, before.0), grown(now.1, before.1))),
            _ => None,
        },
        r.1 == match counters {
            Some(now) => Some(now),
            None => prev,
        },
{
    match counters {
        Some(now) => match prev {
            Some(before) => (Some(byte_growth(now, before)), Some(now)),
            None => (None, Some(now)),
        },
        None => (None, prev),
    }
}

// ---------------------------------------------------------------------------
// Speed tests and other traffic
// ---------------------------------------------------------------------------

/// The commands that route a UE's traffic through its tunnel and widen its buffers; none without
/// a tunnel.
pub open spec fn route_commands(ue: nat, tun_ip: Seq<char>) -> Seq<CmdView> {
    if tun_ip.len() == 0 {
        seq![]
    } else {
        seq![
            launch::cmd(
                "ip"@,
                seq![
                    "netns"@,
                    "exec"@,
                    ue_ns(ue),
                    "ip"@,
                    "rule"@,
                    "add"@,
                    "from"@,
                    tun_ip,
                    "lookup"@,
                    "200"@,
                    "priority"@,
                    "100"@,
                ],
            ),
            launch::cmd(
                "ip"@,
                seq![
                    "netns"@,
                    "exec"@,
                    ue_ns(ue),
                    "ip"@,
                    "route"@,
                    "replace"@,
                    "default"@,
                    "dev"@,
                    "oaitun_ue1"@,
                    "table"@,
                    "200"@,
                ],
            ),
            launch::cmd(
                "ip"@,
                seq![
                    "netns"@,
                    "exec"@,
                    ue_ns(ue),
                    "sysctl"@,
                    "-qw"@,
                    "net.core.rmem_max=67108864"@,
                    "net.core.wmem_max=67108864"@,
                    "net.ipv4.tcp_rmem=4096 1048576 67108864"@,
                    "net.ipv4.tcp_wmem=4096 1048576 67108864"@,
                ],
            ),
        ]
    }
}

/// The commands that route a UE's traffic through its tunnel.
pub fn ensure_iperf_route(ue: usize, tun_ip: &str) -> (r: Vec<Cmd>)
    ensures
        launch::cmds(r@) == route_commands(ue as nat, tun_ip@),
{
    let mut v: Vec<Cmd> = Vec::new();
    if tun_ip.unicode_len() == 0 {
        assert(launch::cmds(v@) =~= route_commands(ue as nat, tun_ip@));
        return v;
    }
    let ns = ue_netns(ue);
    v.push(
        launch::in_netns(ns.as_str(), "ip").arg("rule").arg("add").arg("from").arg(tun_ip).arg(
            "lookup",
        ).arg("200").arg("priority").arg("100"),
    );
    v.push(
        launch::in_netns(ns.as_str(), "ip").arg("route").arg("replace").arg("default").arg(
            "dev",
        ).arg("oaitun_ue1").arg("table").arg("200"),
    );
    v.push(
        launch::in_netns(ns.as_str(), "sysctl").arg("-qw").arg("net.core.rmem_max=67108864").arg(
            "net.core.wmem_max=67108864",
        ).arg("net.ipv4.tcp_rmem=4096 1048576 67108864").arg(
            "net.ipv4.tcp_wmem=4096 1048576 67108864",
        ),
    );
    assert(launch::cmds(v@) =~~= route_commands(ue as nat, tun_ip@));
    v
}

/// The arguments of a speed test.
pub open spec fn speed_args(
    ue: nat,
    srv: Seq<char>,
    port: nat,
    ip: Seq<char>,
    reverse: bool,
) -> Seq<Seq<char>> {
    let args = seq![
        "netns"@,
        "exec"@,
        ue_ns(ue),
        "iperf3"@,
        "-c"@,
        srv,
        "-p"@,
        text::dec(port),
        "-B"@,
        ip,
        "-t"@,
        "30"@,
        "-P"@,
        "4"@,
        "-w"@,
        "4M"@,
        "-J"@,
    ];
    if reverse {
        args.push("-R"@)
    } else {
        args
    }
}

/// The command of a speed test, down or up.
pub fn iperf_command(ue: usize, srv: &str, port: u16, ip: &str, reverse: bool) -> (r: Cmd)
    ensures
        r@ == launch::cmd("ip"@, speed_args(ue as nat, srv@, port as nat, ip@, reverse)),
{
    let ns = ue_netns(ue);
    let port_s = text::dec_text(port as u64);
    let mut c = launch::in_netns(ns.as_str(), "iperf3").arg("-c").arg(srv).arg("-p").arg(
        port_s.as_str(),
    ).arg("-B").arg(ip).arg("-t").arg("30").arg("-P").arg("4").arg("-w").arg("4M").arg("-J");
    assert(c@ =~~= launch::cmd("ip"@, speed_args(ue as nat, srv@, port as nat, ip@, false)));
    if reverse {
        c = c.arg("-R");
    }
    c
}

/// The numbers, as texts, behind every key of a bit rate in a report, from some point on.
pub open spec fn rates_from(s: Seq<char>, i: int) -> Seq<Seq<char>>
    decreases s.len() - i,
    when 0 <= i
{
    let key = "\"bits_per_second\":"@;
    match text::find_from(s, key, i) {
        Some(p) => if i <= p && key.len() > 0 && p + key.len() <= s.len() {
            seq![
                text::leading(text::trim_start(s.skip(p + key.len())), CharClass::NumberText),
            ] + rates_from(s, p + key.len())
        } else {
            seq![]
        },
        None => seq![],
    }
}

/// The bit rates, as texts, that a speed test reports; the last one that is a number is its
/// result.
pub fn bit_rates(report: &str) -> (r: Vec<String>)
    ensures
        text::texts(r@) == rates_from(report@, 0),
{
    let chars = text::chars_of(report);
    let s = chars.as_slice();
    let key = text::chars_of("\"bits_per_second\":");
    proof {
        reveal_strlit("\"bits_per_second\":");
    }
    let mut out: Vec<String> = Vec::new();
    let mut i: usize = 0;
    assert(text::texts(out@) + rates_from(s@, 0) == rates_from(report@, 0));
    loop
        invariant
            i <= s.len(),
            s@ == report@,
            key@ == "\"bits_per_second\":"@,
            key@.len() > 0,
            text::texts(out@) + rates_from(s@, i as int) == rates_from(report@, 0),
        decreases s.len() - i,
    {
        match text::find_pat(s, key.as_slice(), i) {
            Some(p) => {
                let rest = text::trimmed_start(text::from_index(s, p + key.len()));
                let ghost before = out@;
                out.push(text::string_of(text::take_leading(rest, CharClass::NumberText)));
                proof {
                    let one = text::leading(
                        text::trim_start(s@.skip(p + key.len())),
                        CharClass::NumberText,
                    );
                    assert(text::texts(out@) == text::texts(before) + seq![one]);
                    assert(text::texts(out@) + rates_from(s@, p + key.len()) == text::texts(before)
                        + rates_from(s@, i as int));
                }
                i = p + key.len();
            },
            None => {
                assert(text::texts(out@) == rates_from(report@, 0));
                return out;
            },
        }
    }
}

/// The arguments of other traffic: a video stream, or the small packets of a game.
pub open spec fn stream_args(
    ue: nat,
    srv: Seq<char>,
    port: nat,
    ip: Seq<char>,
    kind: Seq<char>,
) -> Seq<Seq<char>> {
    seq![
        "netns"@,
        "exec"@,
        ue_ns(ue),
        "iperf3"@,
        "-c"@,
        srv,
        "-p"@,
        text::dec(port),
        "-B"@,
        ip,
        "-u"@,
        "-J"@,
        "-t"@,
        "30"@,
    ] + if kind == "video"@ {
        seq!["-b"@, "8M"@, "-R"@]
    } else {
        seq!["-b"@, "1M"@, "-l"@, "100"@]
    }
}

/// The command of other traffic.
pub fn traffic_command(ue: usize, srv: &str, port: u16, ip: &str, kind: &str) -> (r: Cmd)
    ensures
        r@ == launch::cmd("ip"@, stream_args(ue as nat, srv@, port as nat, ip@, kind@)),
{
    let ns = ue_netns(ue);
    let port_s = text::dec_text(port as u64);
    let c = launch::in_netns(ns.as_str(), "iperf3").arg("-c").arg(srv).arg("-p").arg(
        port_s.as_str(),
    ).arg("-B").arg(ip).arg("-u").arg("-J").arg("-t").arg("30");
    let done = if text::same_text(kind, "video") {
        c.arg("-b").arg("8M").arg("-R")
    } else {
        c.arg("-b").arg("1M").arg("-l").arg("100")
    };
    assert(done@ =~~= launch::cmd("ip"@, stream_args(ue as nat, srv@, port as nat, ip@, kind@)));
    done
}

// ---------------------------------------------------------------------------
// Processes and ports
// ---------------------------------------------------------------------------

/// A number on its own, or another one where there is none.
pub open spec fn count_in(output: Seq<char>, other: usize) -> usize {
    match text::number(text::trim(output), 10, usize::MAX as nat) {
        Some(n) => n as usize,
        None => other,
    }
}

fn read_count(output: &str, other: usize) -> (r: usize)
    ensures
        r == count_in(output@, other),
{
    let chars = text::chars_of(output);
    match text::read_number(text::trimmed(chars.as_slice()), 10, usize::MAX as u64) {
        Some(n) => n as usize,
        None => other,
    }
}

/// How many processes a search counted.
pub fn proc_count(output: &str) -> (r: usize)
    ensures
        r == count_in(output@, 0),
{
    read_count(output, 0)
}

/// How many UEs to start.
pub open spec fn start_count(given: Option<usize>, last: Option<Seq<char>>) -> usize {
    match given {
        Some(n) => n,
        None => match last {
            Some(t) => count_in(t, 4),
            None => 4,
        },
    }
}

/// How many UEs to start: as given, else as the launch script last started, else four.
pub fn ues_to_start(given: Option<usize>, last: Option<&str>) -> (r: usize)
    ensures
        r == start_count(given, slice::opt_text(last)),
{
    match given {
        Some(n) => n,
        None => match last {
            Some(t) => read_count(t, 4),
            None => 4,
        },
    }
}

/// The port that a setting names, or the usual one.
pub open spec fn dl_port_of(env: Option<Seq<char>>) -> u16 {
    match env {
        Some(t) => match text::number(t, 10, u16::MAX as nat) {
            Some(n) => n as u16,
            None => 4556,
        },
        None => 4556,
    }
}

/// The port on which the gNB sends its downlink.
pub fn gnb_dl_port(env: Option<&str>) -> (r: u16)
    ensures
        r == dl_port_of(slice::opt_text(env)),
{
    match env {
        Some(t) => {
            let chars = text::chars_of(t);
            match text::read_number(chars.as_slice(), 10, u16::MAX as u64) {
                Some(n) => n as u16,
                None => 4556,
            }
        },
        None => 4556,
    }
}

} // verus!
