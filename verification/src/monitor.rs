//! The Monitor: what its keys do, and what it shows of the running UEs.

use vstd::prelude::*;

use crate::conn;
use crate::conn::{ConnView, Stage, UeConn};
use crate::dash;
use crate::keys::Key;
use crate::slice;
use crate::text;
use crate::ui;
use crate::ui::{Color, Span, SpanView, Style, TableRow, TableRowView};

verus! {

// ---------------------------------------------------------------------------
// UEs as the Monitor sees them
// ---------------------------------------------------------------------------

/// What the chart shows.
#[derive(Clone, Copy, PartialEq, Eq, Debug, Structural)]
pub enum ChartMetric {
    AvgRtt,
    AllRtt,
    SelRtt,
    Bitrate,
}

pub open spec fn next_metric(m: ChartMetric) -> ChartMetric {
    match m {
        ChartMetric::AvgRtt => ChartMetric::AllRtt,
        ChartMetric::AllRtt => ChartMetric::SelRtt,
        ChartMetric::SelRtt => ChartMetric::Bitrate,
        ChartMetric::Bitrate => ChartMetric::AvgRtt,
    }
}

impl ChartMetric {
    /// What the chart shows next.
    pub fn next(self) -> (r: ChartMetric)
        ensures
            r == next_metric(self),
    {
        match self {
            ChartMetric::AvgRtt => ChartMetric::AllRtt,
            ChartMetric::AllRtt => ChartMetric::SelRtt,
            ChartMetric::SelRtt => ChartMetric::Bitrate,
            ChartMetric::Bitrate => ChartMetric::AvgRtt,
        }
    }
}

/// Stepping through the charts shows all four, and then the first one again.
pub proof fn law_charts_go_round(m: ChartMetric)
    ensures
        next_metric(m) != m,
        next_metric(next_metric(m)) != m,
        next_metric(next_metric(next_metric(m))) != m,
        next_metric(next_metric(next_metric(next_metric(m)))) == m,
{
}

/// A UE and what was measured of it. Measured values are texts: the round-trip time in whole ms,
/// the rates as the table shows them, and the throughput as the small chart's title shows it.
pub struct UeView {
    pub conn: UeConn,
    pub last_rtt: Option<String>,
    pub recv: u64,
    pub dl: String,
    pub ul: String,
    pub tput: String,
    /// How many samples there are of the round-trip time, and of the throughput.
    pub rtt_len: usize,
    pub tput_len: usize,
}

/// What is seen of a UE.
#[verifier::ext_equal]
pub struct SeenView {
    pub conn: ConnView,
    pub last_rtt: Option<Seq<char>>,
    pub recv: u64,
    pub dl: Seq<char>,
    pub ul: Seq<char>,
    pub tput: Seq<char>,
    pub rtt_len: usize,
    pub tput_len: usize,
}

impl View for UeView {
    type V = SeenView;

    open spec fn view(&self) -> SeenView {
        SeenView {
            conn: self.conn@,
            last_rtt: slice::opt_string(self.last_rtt),
            recv: self.recv,
            dl: self.dl@,
            ul: self.ul@,
            tput: self.tput@,
            rtt_len: self.rtt_len,
            tput_len: self.tput_len,
        }
    }
}

/// What is seen of the UEs.
pub open spec fn seen(v: Seq<UeView>) -> Seq<SeenView> {
    Seq::new(v.len(), |i: int| v[i]@)
}

/// A UE is at a stage.
pub open spec fn any_at(v: Seq<SeenView>, stage: Stage) -> bool {
    exists|i: int| 0 <= i < v.len() && (#[trigger] v[i]).conn.stage == stage
}

fn has_stage(v: &Vec<UeView>, stage: Stage) -> (r: bool)
    ensures
        r == any_at(seen(v@), stage),
{
    let mut i: usize = 0;
    while i < v.len()
        invariant
            i <= v.len(),
            forall|k: int| 0 <= k < i ==> (#[trigger] seen(v@)[k]).conn.stage != stage,
        decreases v.len() - i,
    {
        if v[i].conn.stage == stage {
            assert(seen(v@)[i as int].conn.stage == stage);
            return true;
        }
        i = i + 1;
    }
    false
}

/// The UEs whose data plane works among the first `n`, in their order and each once.
pub open spec fn data_ids(v: Seq<SeenView>, n: int) -> Seq<usize>
    decreases n,
{
    if n <= 0 {
        seq![]
    } else if v[n - 1].conn.has_tun && !data_ids(v, n - 1).contains(v[n - 1].conn.id) {
        data_ids(v, n - 1).push(v[n - 1].conn.id)
    } else {
        data_ids(v, n - 1)
    }
}

/// The members of one list that another does not have, in their order.
pub open spec fn missing_from(a: Seq<usize>, b: Seq<usize>) -> Seq<usize> {
    a.filter(|x: usize| !b.contains(x))
}

/// The UEs whose throughput is measured from now on, and those whose is not any longer.
pub struct Sampling {
    pub start: Vec<usize>,
    pub stop: Vec<usize>,
}

fn holds(v: &Vec<usize>, x: usize) -> (r: bool)
    ensures
        r == v@.contains(x),
{
    let mut i: usize = 0;
    while i < v.len()
        invariant
            i <= v.len(),
            forall|k: int| 0 <= k < i ==> v@[k] != x,
        decreases v.len() - i,
    {
        if v[i] == x {
            return true;
        }
        i = i + 1;
    }
    false
}

fn without(a: &Vec<usize>, b: &Vec<usize>) -> (r: Vec<usize>)
    ensures
        r@ == missing_from(a@, b@),
{
    let ghost pred = |x: usize| !b@.contains(x);
    let mut out: Vec<usize> = Vec::new();
    let mut i: usize = 0;
    assert(a@.take(0).filter(pred) == Seq::<usize>::empty()) by {
        reveal(Seq::filter);
    }
    while i < a.len()
        invariant
            i <= a.len(),
            pred == (|x: usize| !b@.contains(x)),
            out@ == a@.take(i as int).filter(pred),
        decreases a.len() - i,
    {
        let x = a[i];
        proof {
            reveal(Seq::filter);
            assert(a@.take(i + 1).drop_last() == a@.take(i as int));
            assert(a@.take(i + 1).last() == x);
        }
        if !holds(b, x) {
            out.push(x);
        }
        i = i + 1;
    }
    assert(a@.take(i as int) == a@);
    out
}

/// The UEs whose data plane works.
pub fn ids_with_data(v: &Vec<UeView>) -> (r: Vec<usize>)
    ensures
        r@ == data_ids(seen(v@), v@.len() as int),
{
    let mut out: Vec<usize> = Vec::new();
    let mut i: usize = 0;
    while i < v.len()
        invariant
            i <= v.len(),
            out@ == data_ids(seen(v@), i as int),
        decreases v.len() - i,
    {
        assert(seen(v@)[i as int] == v@[i as int]@);
        if v[i].conn.has_tun && !holds(&out, v[i].conn.id) {
            out.push(v[i].conn.id);
        }
        i = i + 1;
    }
    out
}

/// Which UEs' throughput is measured from now on, and which not any longer, where `sampled` are
/// measured so far: it is measured exactly while the data plane works.
pub fn plan_sampling(v: &Vec<UeView>, sampled: &Vec<usize>) -> (r: Sampling)
    ensures
        r.start@ == missing_from(data_ids(seen(v@), v@.len() as int), sampled@),
        r.stop@ == missing_from(sampled@, data_ids(seen(v@), v@.len() as int)),
{
    let live = ids_with_data(v);
    Sampling { start: without(&live, sampled), stop: without(sampled, &live) }
}

proof fn lemma_missing(a: Seq<usize>, b: Seq<usize>, x: usize)
    ensures
        missing_from(a, b).contains(x) <==> a.contains(x) && !b.contains(x),
{
    let p = |y: usize| !b.contains(y);
    let f = missing_from(a, b);
    broadcast use vstd::seq_lib::group_filter_ensures;

    if f.contains(x) {
        let i = choose|i: int| 0 <= i < f.len() && f[i] == x;
        assert(p(f[i]));
        a.lemma_filter_contains_rev(p, x);
    }
    if a.contains(x) && !b.contains(x) {
        let i = choose|i: int| 0 <= i < a.len() && a[i] == x;
        assert(p(a[i]));
    }
}

proof fn lemma_data_ids(v: Seq<SeenView>, n: int, x: usize)
    requires
        n <= v.len(),
    ensures
        data_ids(v, n).contains(x) <==> exists|i: int|
            0 <= i < n && (#[trigger] v[i]).conn.has_tun && v[i].conn.id == x,
    decreases n,
{
    if n > 0 {
        lemma_data_ids(v, n - 1, x);
        let before = data_ids(v, n - 1);
        let all = data_ids(v, n);
        if before.contains(x) {
            let k = choose|k: int| 0 <= k < before.len() && before[k] == x;
            assert(all[k] == x);
        }
        if v[n - 1].conn.has_tun && v[n - 1].conn.id == x && !before.contains(x) {
            assert(all[all.len() - 1] == x);
        }
        if all.contains(x) && !before.contains(x) {
            let k = choose|k: int| 0 <= k < all.len() && all[k] == x;
            if k < before.len() {
                assert(before[k] == x);
            }
        }
    }
}

/// After the change exactly the UEs whose data plane works are measured.
pub proof fn law_sampling_follows_data(v: Seq<SeenView>, sampled: Seq<usize>, x: usize)
    ensures
        ({
            let live = data_ids(v, v.len() as int);
            (missing_from(live, sampled).contains(x) || (sampled.contains(x) && !missing_from(
                sampled,
                live,
            ).contains(x))) <==> exists|i: int|
                0 <= i < v.len() && (#[trigger] v[i]).conn.has_tun && v[i].conn.id == x
        }),
{
    let live = data_ids(v, v.len() as int);
    lemma_missing(live, sampled, x);
    lemma_missing(sampled, live, x);
    lemma_data_ids(v, v.len() as int, x);
}

// ---------------------------------------------------------------------------
// What the keys do
// ---------------------------------------------------------------------------

/// How long the walk through the UEs stays at each of them.
pub const LOAD_PERIOD_MS: u64 = 5000;

/// The step behind another one of the walk through the UEs, from 0 on again behind the last one that
/// can be counted.
pub open spec fn step_behind(focus: usize) -> usize {
    if focus < usize::MAX {
        (focus + 1) as usize
    } else {
        0
    }
}

/// The next step of the walk through the UEs.
pub fn next_focus(focus: usize) -> (r: usize)
    ensures
        r == step_behind(focus),
{
    if focus < usize::MAX {
        focus + 1
    } else {
        0
    }
}

/// A step of the walk goes from one UE to the one behind it, and from the last one to the first.
pub proof fn law_walk_goes_round(focus: usize, n: nat)
    requires
        n > 0,
        focus < usize::MAX,
    ensures
        step_behind(focus) as nat % n == if focus as nat % n + 1 < n {
            focus as nat % n + 1
        } else {
            0
        },
{
    let m = n as int;
    let f = focus as int;
    vstd::arithmetic::div_mod::lemma_fundamental_div_mod(f, m);
    let q = f / m;
    let r = f % m;
    if r + 1 < m {
        vstd::arithmetic::div_mod::lemma_fundamental_div_mod_converse(f + 1, m, q, r + 1);
    } else {
        assert(m * (q + 1) == m * q + m) by (nonlinear_arith);
        assert(f + 1 == (q + 1) * m + 0) by (nonlinear_arith)
            requires
                f == m * q + r,
                r + 1 == m,
        ;
        vstd::arithmetic::div_mod::lemma_fundamental_div_mod_converse(f + 1, m, q + 1, 0);
    }
}

/// What the Monitor says while nothing else is to be said.
pub const READY: &'static str = "ready — press p to ping, i speedtest, v video, L load-dist";

/// The Monitor.
pub struct MonitorState {
    pub ping_on: bool,
    pub load_on: bool,
    /// How many UEs a start starts.
    pub n_set: usize,
    pub sel: usize,
    pub metric: ChartMetric,
    pub status: String,
    /// How many streams ran at the last look.
    pub prev_traffic: usize,
}

/// What the Monitor holds.
#[verifier::ext_equal]
pub struct MonitorView {
    pub ping_on: bool,
    pub load_on: bool,
    pub n_set: usize,
    pub sel: usize,
    pub metric: ChartMetric,
    pub status: Seq<char>,
    pub prev_traffic: usize,
}

impl View for MonitorState {
    type V = MonitorView;

    open spec fn view(&self) -> MonitorView {
        MonitorView {
            ping_on: self.ping_on,
            load_on: self.load_on,
            n_set: self.n_set,
            sel: self.sel,
            metric: self.metric,
            status: self.status@,
            prev_traffic: self.prev_traffic,
        }
    }
}

/// What the Monitor knows when a key is pressed.
pub struct MonitorFrame<'a> {
    pub ue_ids: &'a Vec<usize>,
    pub views: &'a Vec<UeView>,
    pub gnb_up: bool,
    pub target: &'a str,
    pub srv: &'a Option<String>,
    pub scripts: &'a str,
}

/// What the Monitor knows when a key is pressed.
pub struct FrameView {
    pub ids: Seq<usize>,
    pub views: Seq<SeenView>,
    pub gnb_up: bool,
    pub target: Seq<char>,
    pub srv: Option<Seq<char>>,
    pub scripts: Seq<char>,
}

impl<'a> View for MonitorFrame<'a> {
    type V = FrameView;

    open spec fn view(&self) -> FrameView {
        FrameView {
            ids: self.ue_ids@,
            views: seen(self.views@),
            gnb_up: self.gnb_up,
            target: self.target@,
            srv: slice::opt_string(*self.srv),
            scripts: self.scripts@,
        }
    }
}

/// A test between a UE and a server.
pub struct Test {
    pub ue: usize,
    pub srv: String,
    pub port: u16,
    pub ip: String,
}

/// What a test runs between.
#[verifier::ext_equal]
pub struct TestView {
    pub ue: usize,
    pub srv: Seq<char>,
    pub port: nat,
    pub ip: Seq<char>,
}

impl View for Test {
    type V = TestView;

    open spec fn view(&self) -> TestView {
        TestView { ue: self.ue, srv: self.srv@, port: self.port as nat, ip: self.ip@ }
    }
}

/// Something to do in the background.
pub enum Effect {
    /// End all pings.
    StopPings,
    /// Let a UE ping.
    StartPing(usize),
    /// Run a shell command.
    Shell(String),
    /// Test the speed of a UE.
    SpeedTest(Test),
    /// Stream a video to a UE.
    Video(Test),
    /// End the walk through the UEs.
    StopLoad,
    /// Walk through the UEs from the first one on.
    StartLoad,
}

/// Something to do in the background.
pub enum EffectView {
    StopPings,
    StartPing(usize),
    Shell(Seq<char>),
    SpeedTest(TestView),
    Video(TestView),
    StopLoad,
    StartLoad,
}

impl View for Effect {
    type V = EffectView;

    open spec fn view(&self) -> EffectView {
        match *self {
            Effect::StopPings => EffectView::StopPings,
            Effect::StartPing(ue) => EffectView::StartPing(ue),
            Effect::Shell(t) => EffectView::Shell(t@),
            Effect::SpeedTest(t) => EffectView::SpeedTest(t@),
            Effect::Video(t) => EffectView::Video(t@),
            Effect::StopLoad => EffectView::StopLoad,
            Effect::StartLoad => EffectView::StartLoad,
        }
    }
}

pub open spec fn effects(v: Seq<Effect>) -> Seq<EffectView> {
    Seq::new(v.len(), |i: int| v[i]@)
}

fn put_effect(v: &mut Vec<Effect>, e: Effect)
    ensures
        effects(final(v)@) == effects(old(v)@).push(e@),
{
    let ghost before = v@;
    let ghost done = e@;
    v.push(e);
    assert(effects(v@) == effects(before).push(done));
}

/// What a key does: the Monitor after it, whether it ends, and what is to be done.
pub struct KeyStep {
    pub state: MonitorView,
    pub quit: bool,
    pub effects: Seq<EffectView>,
}

pub open spec fn step(state: MonitorView, effects: Seq<EffectView>) -> KeyStep {
    KeyStep { state, quit: false, effects }
}

pub open spec fn say(v: MonitorView, status: Seq<char>) -> MonitorView {
    MonitorView { status, ..v }
}

/// The port of a UE's tests.
pub open spec fn test_port(ue: usize) -> nat {
    5200 + (ue % 65536) as nat
}

/// The commands that end earlier servers, and start one for a UE.
pub open spec fn end_servers() -> Seq<char> {
    "docker exec oai-ext-dn pkill -9 iperf3 2>/dev/null || true"@
}

pub open spec fn widen_buffers() -> Seq<char> {
    "docker exec oai-ext-dn sysctl -qw net.core.rmem_max=67108864 net.core.wmem_max=67108864 net.ipv4.tcp_rmem='4096 1048576 67108864' net.ipv4.tcp_wmem='4096 1048576 67108864' 2>/dev/null || true"@
}

pub open spec fn start_server(port: nat) -> Seq<char> {
    "docker exec -d oai-ext-dn sh -c 'sleep 2; iperf3 -s -p "@ + text::dec(port)
        + "' 2>/dev/null || true"@
}

/// What is started for the UEs among the first `n` whose data plane works: a server, and the test
/// against it.
pub open spec fn test_effects(
    v: Seq<SeenView>,
    n: int,
    srv: Seq<char>,
    video: bool,
) -> Seq<EffectView>
    decreases n,
{
    if n <= 0 {
        seq![]
    } else {
        let before = test_effects(v, n - 1, srv, video);
        let c = v[n - 1].conn;
        if c.has_tun {
            let t = TestView { ue: c.id, srv, port: test_port(c.id), ip: c.ip };
            before.push(EffectView::Shell(start_server(test_port(c.id)))).push(
                if video {
                    EffectView::Video(t)
                } else {
                    EffectView::SpeedTest(t)
                },
            )
        } else {
            before
        }
    }
}

/// How many UEs among the first `n` have a data plane that works.
pub open spec fn data_count(v: Seq<SeenView>, n: int) -> nat
    decreases n,
{
    if n <= 0 {
        0
    } else if v[n - 1].conn.has_tun {
        data_count(v, n - 1) + 1
    } else {
        data_count(v, n - 1)
    }
}

pub open spec fn ping_effects(ids: Seq<usize>) -> Seq<EffectView> {
    Seq::new(ids.len(), |i: int| EffectView::StartPing(ids[i]))
}

pub open spec fn pings_off(v: MonitorView) -> MonitorView {
    MonitorView { ping_on: false, ..v }
}

/// One UE more: of those to start while none runs, else added to those that run.
pub open spec fn one_more(v: MonitorView, f: FrameView) -> KeyStep {
    if f.ids.len() == 0 {
        step(
            MonitorView {
                n_set: if v.n_set < 32 {
                    (v.n_set + 1) as usize
                } else {
                    32
                },
                ..v
            },
            seq![],
        )
    } else {
        step(
            say(
                v,
                "adding 1 UE live (UE"@ + text::dec(f.ids.len() + 1) + " joins, others kept)…"@,
            ),
            seq![EffectView::Shell("bash "@ + f.scripts + "/mue_add.sh"@)],
        )
    }
}

/// One UE less to start, but never none; UEs that run are not removed.
pub open spec fn one_less(v: MonitorView, f: FrameView) -> KeyStep {
    if f.ids.len() == 0 {
        step(
            MonitorView {
                n_set: if v.n_set > 2 {
                    (v.n_set - 1) as usize
                } else {
                    1
                },
                ..v
            },
            seq![],
        )
    } else {
        step(
            say(v, "live remove not supported — use x to stop all, or r to restart"@),
            seq![],
        )
    }
}

/// Starting the UEs anew, refused while the gNB is down. The pings end either way.
pub open spec fn restarted(
    v: MonitorView,
    f: FrameView,
    word: Seq<char>,
    down: Seq<char>,
) -> KeyStep {
    if f.gnb_up {
        step(
            say(pings_off(v), word + text::dec(v.n_set as nat) + " UEs (your gNB kept)…"@),
            seq![
                EffectView::StopPings,
                EffectView::Shell(
                    "bash "@ + f.scripts + "/dash_ctl.sh restart "@ + text::dec(v.n_set as nat),
                ),
            ],
        )
    } else {
        step(say(pings_off(v), down), seq![EffectView::StopPings])
    }
}

pub open spec fn pinged(v: MonitorView, f: FrameView) -> KeyStep {
    if v.ping_on {
        step(say(pings_off(v), "ping off"@), seq![EffectView::StopPings])
    } else if f.ids.len() > 0 {
        step(
            say(
                MonitorView { ping_on: true, ..v },
                "ping → "@ + f.target + " ("@ + text::dec(f.ids.len())
                    + " UEs, DL/UL always live)  [g: graph modes]"@,
            ),
            ping_effects(f.ids),
        )
    } else {
        step(say(v, "no UEs running — press s to start"@), seq![])
    }
}

pub open spec fn no_tunnel() -> Seq<char> {
    "no UEs with a live tunnel (DATA stage) to test"@
}

pub open spec fn speed_tested(v: MonitorView, f: FrameView) -> KeyStep {
    match f.srv {
        Some(srv) => {
            let n = f.views.len() as int;
            let k = data_count(f.views, n);
            step(
                say(
                    v,
                    if k > 0 {
                        "speedtest → "@ + srv + " ("@ + text::dec(k)
                            + " UEs w/ data plane, ~65s DL+UL)… [press p to see DL/UL live]"@
                    } else {
                        no_tunnel()
                    },
                ),
                seq![EffectView::Shell(end_servers()), EffectView::Shell(widen_buffers())]
                    + test_effects(f.views, n, srv, false),
            )
        },
        None => step(say(v, "set IPERF_SRV=<ip> to enable speedtest"@), seq![]),
    }
}

pub open spec fn streamed(v: MonitorView, f: FrameView) -> KeyStep {
    match f.srv {
        Some(srv) => {
            let n = f.views.len() as int;
            let k = data_count(f.views, n);
            step(
                say(
                    v,
                    if k > 0 {
                        "video → "@ + text::dec(k)
                            + " UEs (30s) — press p then g to watch bitrate"@
                    } else {
                        no_tunnel()
                    },
                ),
                seq![EffectView::Shell(end_servers())] + test_effects(f.views, n, srv, true),
            )
        },
        None => step(say(v, "set IPERF_SRV=<ip> for traffic tests"@), seq![]),
    }
}

pub open spec fn load_switched(v: MonitorView, f: FrameView) -> KeyStep {
    if v.load_on {
        step(
            say(MonitorView { load_on: false, ..pings_off(v) }, "load distribution off"@),
            seq![EffectView::StopLoad, EffectView::StopPings],
        )
    } else if f.ids.len() > 0 {
        step(
            say(
                MonitorView { ping_on: true, load_on: true, ..v },
                "LOAD DIST: pinging all "@ + text::dec(f.ids.len())
                    + " UEs, focus cycles every 5s [L to stop]"@,
            ),
            ping_effects(f.ids).push(EffectView::StartLoad),
        )
    } else {
        step(say(v, "no UEs running — press s to start"@), seq![])
    }
}

/// What a key does.
pub open spec fn key_step(v: MonitorView, key: Key, ctrl: bool, f: FrameView) -> KeyStep {
    match key {
        Key::Esc => KeyStep { state: v, quit: true, effects: seq![] },
        Key::Up => step(
            MonitorView {
                sel: if v.sel > 0 {
                    (v.sel - 1) as usize
                } else {
                    0
                },
                ..v
            },
            seq![],
        ),
        Key::Down => step(
            MonitorView {
                sel: if v.sel + 1 < f.views.len() {
                    (v.sel + 1) as usize
                } else {
                    v.sel
                },
                ..v
            },
            seq![],
        ),
        Key::Char(c) => if c == 'q' || (c == 'c' && ctrl) {
            KeyStep { state: v, quit: true, effects: seq![] }
        } else if c == '+' || c == '=' {
            one_more(v, f)
        } else if c == '-' || c == '_' {
            one_less(v, f)
        } else if c == 'g' {
            step(MonitorView { metric: next_metric(v.metric), ..v }, seq![])
        } else if c == 's' {
            restarted(
                v,
                f,
                "(re)starting "@,
                "gNB is DOWN — start your gNB first, then press s"@,
            )
        } else if c == 'r' {
            restarted(v, f, "restarting "@, "gNB is DOWN — start your gNB first"@)
        } else if c == 'x' {
            step(
                say(pings_off(v), "stopping UEs…"@),
                seq![
                    EffectView::StopPings,
                    EffectView::Shell("bash "@ + f.scripts + "/dash_ctl.sh stop"@),
                ],
            )
        } else if c == 'p' {
            pinged(v, f)
        } else if c == 'i' {
            speed_tested(v, f)
        } else if c == 'v' {
            streamed(v, f)
        } else if c == 'L' || c == 'l' {
            load_switched(v, f)
        } else {
            step(v, seq![])
        },
        _ => step(v, seq![]),
    }
}

/// Every UE whose data plane works has a port for its tests.
pub open spec fn ports_fit(v: Seq<SeenView>) -> bool {
    forall|i: int|
        0 <= i < v.len() && (#[trigger] v[i]).conn.has_tun ==> test_port(v[i].conn.id) <= u16::MAX
}

/// The numbers that a key would reach can be held.
pub open spec fn key_fits(v: MonitorView, key: Key, f: FrameView) -> bool {
    match key {
        Key::Char(c) => if c == '+' || c == '=' {
            if f.ids.len() == 0 {
                v.n_set < usize::MAX
            } else {
                f.ids.len() < usize::MAX
            }
        } else if c == 'i' || c == 'v' {
            f.srv is Some ==> ports_fit(f.views)
        } else {
            true
        },
        _ => true,
    }
}

/// The Monitor before it is drawn: the selection lies on a UE, and the status says what is
/// noticed. `focus` counts the steps of the walk through the UEs.
pub open spec fn noticed(
    v: MonitorView,
    views: Seq<SeenView>,
    focus: usize,
    target: Seq<char>,
) -> MonitorView {
    let sel = if views.len() > 0 && v.sel >= views.len() {
        (views.len() - 1) as usize
    } else {
        v.sel
    };
    let status = if v.load_on && views.len() > 0 {
        let fi = focus as nat % views.len();
        "LOAD DIST: focus UE"@ + text::dec(views[fi as int].conn.id as nat) + " ("@ + text::dec(
            fi + 1,
        ) + "/"@ + text::dec(views.len()) + ") pinging all → "@ + target + " [L to stop]"@
    } else if v.status == READY@ && any_at(views, Stage::Rrc) && any_at(views, Stage::Data) {
        "UE stuck at RRC (AMF timing) — retry with: sudo PROXY_WAVE_SIZE=1 bash clean_start.sh N"@
    } else {
        v.status
    };
    MonitorView { sel, status, ..v }
}

/// The Monitor after a round: it says so when the last stream has ended.
pub open spec fn rounded(v: MonitorView, traffic: usize) -> MonitorView {
    MonitorView {
        status: if traffic == 0 && v.prev_traffic > 0 && !v.load_on {
            "traffic finished — press g (then p if sampling is off) to see throughput graph"@
        } else {
            v.status
        },
        prev_traffic: traffic,
        ..v
    }
}

/// What a key did.
pub struct KeyOutcome {
    /// The Monitor ends.
    pub quit: bool,
    pub effects: Vec<Effect>,
}

fn nothing() -> (r: KeyOutcome)
    ensures
        !r.quit,
        effects(r.effects@) == Seq::<EffectView>::empty(),
{
    let r = KeyOutcome { quit: false, effects: Vec::new() };
    assert(effects(r.effects@) == Seq::<EffectView>::empty());
    r
}

fn just(e: Effect) -> (r: Vec<Effect>)
    ensures
        effects(r@) == seq![e@],
{
    let mut v: Vec<Effect> = Vec::new();
    v.push(e);
    assert(effects(v@) =~= seq![e@]);
    v
}

fn put_pings(out: &mut Vec<Effect>, ids: &Vec<usize>)
    ensures
        effects(final(out)@) == effects(old(out)@) + ping_effects(ids@),
{
    let ghost before = effects(out@);
    let ghost want = ping_effects(ids@);
    let mut i: usize = 0;
    assert(want.take(0) == Seq::<EffectView>::empty());
    while i < ids.len()
        invariant
            i <= ids.len(),
            want == ping_effects(ids@),
            effects(out@) == before + want.take(i as int),
        decreases ids.len() - i,
    {
        put_effect(out, Effect::StartPing(ids[i]));
        i = i + 1;
        assert(want.take(i as int) == want.take(i - 1).push(want[i - 1]));
        assert(effects(out@) == before + want.take(i as int));
    }
    assert(want.take(i as int) == want);
}

fn server_text(port: u16) -> (r: String)
    ensures
        r@ == start_server(port as nat),
{
    let mut t = text::owned("docker exec -d oai-ext-dn sh -c 'sleep 2; iperf3 -s -p ");
    text::push_dec(&mut t, port as u64);
    t.append("' 2>/dev/null || true");
    t
}

/// Puts the tests of all UEs whose data plane works; returns how many they are.
fn put_tests(out: &mut Vec<Effect>, views: &Vec<UeView>, srv: &str, video: bool) -> (r: usize)
    requires
        ports_fit(seen(views@)),
    ensures
        effects(final(out)@) == effects(old(out)@) + test_effects(
            seen(views@),
            views@.len() as int,
            srv@,
            video,
        ),
        r == data_count(seen(views@), views@.len() as int),
{
    let ghost before = effects(out@);
    let ghost v = seen(views@);
    let mut k: usize = 0;
    let mut i: usize = 0;
    assert(effects(out@) == before + test_effects(v, 0, srv@, video));
    while i < views.len()
        invariant
            k <= i <= views.len(),
            v == seen(views@),
            ports_fit(v),
            k == data_count(v, i as int),
            effects(out@) == before + test_effects(v, i as int, srv@, video),
        decreases views.len() - i,
    {
        let c = &views[i].conn;
        assert(v[i as int].conn == c@);
        if c.has_tun {
            assert(test_port(v[i as int].conn.id) <= u16::MAX);
            let port: u16 = 5200 + (c.id % 65536) as u16;
            put_effect(out, Effect::Shell(server_text(port)));
            let t = Test { ue: c.id, srv: text::owned(srv), port, ip: c.ip.clone() };
            assert(t@ =~= TestView { ue: c.id, srv: srv@, port: test_port(c.id), ip: c.ip@ });
            put_effect(
                out,
                if video {
                    Effect::Video(t)
                } else {
                    Effect::SpeedTest(t)
                },
            );
            k = k + 1;
        }
        i = i + 1;
        assert(effects(out@) == before + test_effects(v, i as int, srv@, video));
    }
    k
}

impl MonitorState {
    /// The Monitor as it starts.
    pub fn new(n_set: usize) -> (r: Self)
        ensures
            r@ == (MonitorView {
                ping_on: false,
                load_on: false,
                n_set,
                sel: 0,
                metric: ChartMetric::AvgRtt,
                status: READY@,
                prev_traffic: 0,
            }),
    {
        MonitorState {
            ping_on: false,
            load_on: false,
            n_set,
            sel: 0,
            metric: ChartMetric::AvgRtt,
            status: text::owned(READY),
            prev_traffic: 0,
        }
    }

    /// Gets ready to be drawn.
    pub fn notice(&mut self, views: &Vec<UeView>, focus: usize, target: &str)
        ensures
            final(self)@ == noticed(old(self)@, seen(views@), focus, target@),
    {
        let ghost before = self@;
        let ghost all = seen(views@);
        let n = views.len();
        if n > 0 && self.sel >= n {
            self.sel = n - 1;
        }
        if self.load_on && n > 0 {
            let fi: usize = focus % n;
            assert(all[fi as int].conn == views@[fi as int].conn@);
            let mut t = text::owned("LOAD DIST: focus UE");
            text::push_dec(&mut t, views[fi].conn.id as u64);
            t.append(" (");
            text::push_dec(&mut t, (fi + 1) as u64);
            t.append("/");
            text::push_dec(&mut t, n as u64);
            t.append(") pinging all → ");
            t.append(target);
            t.append(" [L to stop]");
            self.status = t;
        } else if text::same_text(self.status.as_str(), READY) && has_stage(views, Stage::Rrc)
            && has_stage(views, Stage::Data) {
            self.status = text::owned(
                "UE stuck at RRC (AMF timing) — retry with: sudo PROXY_WAVE_SIZE=1 bash clean_start.sh N",
            );
        }
        assert(self@ =~= noticed(before, all, focus, target@));
    }

    /// Ends a round; `traffic` streams run.
    pub fn end_round(&mut self, traffic: usize)
        ensures
            final(self)@ == rounded(old(self)@, traffic),
    {
        if traffic == 0 && self.prev_traffic > 0 && !self.load_on {
            self.status = text::owned(
                "traffic finished — press g (then p if sampling is off) to see throughput graph",
            );
        }
        self.prev_traffic = traffic;
    }

    /// The numbers that a key would reach can be held.
    pub fn accepts(&self, key: Key, f: &MonitorFrame) -> (r: bool)
        ensures
            r == key_fits(self@, key, f@),
    {
        match key {
            Key::Char(c) => if c == '+' || c == '=' {
                if f.ue_ids.len() == 0 {
                    self.n_set < usize::MAX
                } else {
                    f.ue_ids.len() < usize::MAX
                }
            } else if c == 'i' || c == 'v' {
                match f.srv {
                    Some(_) => Self::have_ports(f.views),
                    None => true,
                }
            } else {
                true
            },
            _ => true,
        }
    }

    fn have_ports(views: &Vec<UeView>) -> (r: bool)
        ensures
            r == ports_fit(seen(views@)),
    {
        let mut i: usize = 0;
        while i < views.len()
            invariant
                i <= views.len(),
                forall|k: int|
                    0 <= k < i && (#[trigger] seen(views@)[k]).conn.has_tun ==> test_port(
                        seen(views@)[k].conn.id,
                    ) <= u16::MAX,
            decreases views.len() - i,
        {
            assert(seen(views@)[i as int] == views@[i as int]@);
            if views[i].conn.has_tun && views[i].conn.id % 65536 > (u16::MAX - 5200) as usize {
                return false;
            }
            i = i + 1;
        }
        true
    }

    fn add_one(&mut self, f: &MonitorFrame) -> (r: KeyOutcome)
        requires
            key_fits(old(self)@, Key::Char('+'), f@),
        ensures
            ({
                let want = one_more(old(self)@, f@);
                final(self)@ == want.state && r.quit == want.quit && effects(r.effects@)
                    == want.effects
            }),
    {
        if f.ue_ids.len() == 0 {
            self.n_set = if self.n_set < 32 {
                self.n_set + 1
            } else {
                32
            };
            return nothing();
        }
        let mut t = text::owned("adding 1 UE live (UE");
        text::push_dec(&mut t, (f.ue_ids.len() + 1) as u64);
        t.append(" joins, others kept)…");
        self.status = t;
        let mut c = text::owned("bash ");
        c.append(f.scripts);
        c.append("/mue_add.sh");
        KeyOutcome { quit: false, effects: just(Effect::Shell(c)) }
    }

    fn take_one(&mut self, f: &MonitorFrame) -> (r: KeyOutcome)
        ensures
            ({
                let want = one_less(old(self)@, f@);
                final(self)@ == want.state && r.quit == want.quit && effects(r.effects@)
                    == want.effects
            }),
    {
        if f.ue_ids.len() == 0 {
            self.n_set = if self.n_set > 2 {
                self.n_set - 1
            } else {
                1
            };
        } else {
            self.status = text::owned(
                "live remove not supported — use x to stop all, or r to restart",
            );
        }
        nothing()
    }

    fn restart(&mut self, f: &MonitorFrame, word: &str, down: &str) -> (r: KeyOutcome)
        ensures
            ({
                let want = restarted(old(self)@, f@, word@, down@);
                final(self)@ == want.state && r.quit == want.quit && effects(r.effects@)
                    == want.effects
            }),
    {
        self.ping_on = false;
        let mut out = just(Effect::StopPings);
        if f.gnb_up {
            let mut t = text::owned(word);
            text::push_dec(&mut t, self.n_set as u64);
            t.append(" UEs (your gNB kept)…");
            self.status = t;
            let mut c = text::owned("bash ");
            c.append(f.scripts);
            c.append("/dash_ctl.sh restart ");
            text::push_dec(&mut c, self.n_set as u64);
            put_effect(&mut out, Effect::Shell(c));
        } else {
            self.status = text::owned(down);
        }
        assert(effects(out@) =~= restarted(old(self)@, f@, word@, down@).effects);
        KeyOutcome { quit: false, effects: out }
    }

    fn stop_ues(&mut self, f: &MonitorFrame) -> (r: KeyOutcome)
        ensures
            ({
                let want = key_step(old(self)@, Key::Char('x'), false, f@);
                final(self)@ == want.state && r.quit == want.quit && effects(r.effects@)
                    == want.effects
            }),
    {
        self.ping_on = false;
        self.status = text::owned("stopping UEs…");
        let mut c = text::owned("bash ");
        c.append(f.scripts);
        c.append("/dash_ctl.sh stop");
        let mut out = just(Effect::StopPings);
        put_effect(&mut out, Effect::Shell(c));
        assert(effects(out@) =~= key_step(old(self)@, Key::Char('x'), false, f@).effects);
        KeyOutcome { quit: false, effects: out }
    }

    fn switch_ping(&mut self, f: &MonitorFrame) -> (r: KeyOutcome)
        ensures
            ({
                let want = pinged(old(self)@, f@);
                final(self)@ == want.state && r.quit == want.quit && effects(r.effects@)
                    == want.effects
            }),
    {
        if self.ping_on {
            self.ping_on = false;
            self.status = text::owned("ping off");
            return KeyOutcome { quit: false, effects: just(Effect::StopPings) };
        }
        let mut out = nothing();
        if f.ue_ids.len() > 0 {
            put_pings(&mut out.effects, f.ue_ids);
            self.ping_on = true;
            let mut t = text::owned("ping → ");
            t.append(f.target);
            t.append(" (");
            text::push_dec(&mut t, f.ue_ids.len() as u64);
            t.append(" UEs, DL/UL always live)  [g: graph modes]");
            self.status = t;
        } else {
            self.status = text::owned("no UEs running — press s to start");
        }
        assert(effects(out.effects@) =~= pinged(old(self)@, f@).effects);
        out
    }

    fn speed_test(&mut self, f: &MonitorFrame) -> (r: KeyOutcome)
        requires
            f@.srv is Some ==> ports_fit(f@.views),
        ensures
            ({
                let want = speed_tested(old(self)@, f@);
                final(self)@ == want.state && r.quit == want.quit && effects(r.effects@)
                    == want.effects
            }),
    {
        match f.srv {
            Some(srv) => {
                let mut out = just(
                    Effect::Shell(
                        text::owned("docker exec oai-ext-dn pkill -9 iperf3 2>/dev/null || true"),
                    ),
                );
                put_effect(
                    &mut out,
                    Effect::Shell(
                        text::owned(
                            "docker exec oai-ext-dn sysctl -qw net.core.rmem_max=67108864 net.core.wmem_max=67108864 net.ipv4.tcp_rmem='4096 1048576 67108864' net.ipv4.tcp_wmem='4096 1048576 67108864' 2>/dev/null || true",
                        ),
                    ),
                );
                let k = put_tests(&mut out, f.views, srv.as_str(), false);
                let mut t = text::owned("no UEs with a live tunnel (DATA stage) to test");
                if k > 0 {
                    t = text::owned("speedtest → ");
                    t.append(srv.as_str());
                    t.append(" (");
                    text::push_dec(&mut t, k as u64);
                    t.append(" UEs w/ data plane, ~65s DL+UL)… [press p to see DL/UL live]");
                }
                self.status = t;
                assert(effects(out@) =~= speed_tested(old(self)@, f@).effects);
                KeyOutcome { quit: false, effects: out }
            },
            None => {
                self.status = text::owned("set IPERF_SRV=<ip> to enable speedtest");
                nothing()
            },
        }
    }

    fn stream_video(&mut self, f: &MonitorFrame) -> (r: KeyOutcome)
        requires
            f@.srv is Some ==> ports_fit(f@.views),
        ensures
            ({
                let want = streamed(old(self)@, f@);
                final(self)@ == want.state && r.quit == want.quit && effects(r.effects@)
                    == want.effects
            }),
    {
        match f.srv {
            Some(srv) => {
                let mut out = just(
                    Effect::Shell(
                        text::owned("docker exec oai-ext-dn pkill -9 iperf3 2>/dev/null || true"),
                    ),
                );
                let k = put_tests(&mut out, f.views, srv.as_str(), true);
                let mut t = text::owned("no UEs with a live tunnel (DATA stage) to test");
                if k > 0 {
                    t = text::owned("video → ");
                    text::push_dec(&mut t, k as u64);
                    t.append(" UEs (30s) — press p then g to watch bitrate");
                }
                self.status = t;
                assert(effects(out@) =~= streamed(old(self)@, f@).effects);
                KeyOutcome { quit: false, effects: out }
            },
            None => {
                self.status = text::owned("set IPERF_SRV=<ip> for traffic tests");
                nothing()
            },
        }
    }

    fn switch_load(&mut self, f: &MonitorFrame) -> (r: KeyOutcome)
        ensures
            ({
                let want = load_switched(old(self)@, f@);
                final(self)@ == want.state && r.quit == want.quit && effects(r.effects@)
                    == want.effects
            }),
    {
        if self.load_on {
            self.ping_on = false;
            self.load_on = false;
            self.status = text::owned("load distribution off");
            let mut out = just(Effect::StopLoad);
            put_effect(&mut out, Effect::StopPings);
            assert(effects(out@) =~= load_switched(old(self)@, f@).effects);
            return KeyOutcome { quit: false, effects: out };
        }
        let mut out = nothing();
        if f.ue_ids.len() > 0 {
            put_pings(&mut out.effects, f.ue_ids);
            put_effect(&mut out.effects, Effect::StartLoad);
            self.ping_on = true;
            self.load_on = true;
            let mut t = text::owned("LOAD DIST: pinging all ");
            text::push_dec(&mut t, f.ue_ids.len() as u64);
            t.append(" UEs, focus cycles every 5s [L to stop]");
            self.status = t;
        } else {
            self.status = text::owned("no UEs running — press s to start");
        }
        assert(effects(out.effects@) =~= load_switched(old(self)@, f@).effects);
        out
    }

    /// Acts on a key. What is to be done in the background is handed back, in its order.
    pub fn handle_key(&mut self, key: Key, ctrl: bool, f: &MonitorFrame) -> (r: KeyOutcome)
        requires
            key_fits(old(self)@, key, f@),
        ensures
            final(self)@ == key_step(old(self)@, key, ctrl, f@).state,
            r.quit == key_step(old(self)@, key, ctrl, f@).quit,
            effects(r.effects@) == key_step(old(self)@, key, ctrl, f@).effects,
    {
        match key {
            Key::Esc => KeyOutcome { quit: true, effects: nothing().effects },
            Key::Up => {
                if self.sel > 0 {
                    self.sel = self.sel - 1;
                }
                nothing()
            },
            Key::Down => {
                let n = f.views.len();
                if n > 0 && self.sel < n - 1 {
                    self.sel = self.sel + 1;
                }
                nothing()
            },
            Key::Char(c) => if c == 'q' || (c == 'c' && ctrl) {
                KeyOutcome { quit: true, effects: nothing().effects }
            } else if c == '+' || c == '=' {
                self.add_one(f)
            } else if c == '-' || c == '_' {
                self.take_one(f)
            } else if c == 'g' {
                self.metric = self.metric.next();
                nothing()
            } else if c == 's' {
                self.restart(
                    f,
                    "(re)starting ",
                    "gNB is DOWN — start your gNB first, then press s",
                )
            } else if c == 'r' {
                self.restart(f, "restarting ", "gNB is DOWN — start your gNB first")
            } else if c == 'x' {
                self.stop_ues(f)
            } else if c == 'p' {
                self.switch_ping(f)
            } else if c == 'i' {
                self.speed_test(f)
            } else if c == 'v' {
                self.stream_video(f)
            } else if c == 'L' || c == 'l' {
                self.switch_load(f)
            } else {
                nothing()
            },
            _ => nothing(),
        }
    }
}

/// While the gNB is down no key starts UEs: a start or a restart runs no command.
pub proof fn law_no_restart_without_gnb(v: MonitorView, ctrl: bool, f: FrameView)
    requires
        !f.gnb_up,
    ensures
        key_step(v, Key::Char('s'), ctrl, f).effects == seq![EffectView::StopPings],
        key_step(v, Key::Char('r'), ctrl, f).effects == seq![EffectView::StopPings],
{
}

/// The number of UEs to start stays between 1 and 32, whatever key is pressed.
pub proof fn law_start_count_in_range(v: MonitorView, key: Key, ctrl: bool, f: FrameView)
    requires
        1 <= v.n_set <= 32,
    ensures
        1 <= key_step(v, key, ctrl, f).state.n_set <= 32,
{
}

/// With UEs running, the ping key turns the pings off and on: pressed twice it leaves them as they
/// were, and pings are ended exactly where they ran.
pub proof fn law_ping_key_toggles(v: MonitorView, ctrl: bool, f: FrameView)
    requires
        f.ids.len() > 0,
    ensures
        key_step(v, Key::Char('p'), ctrl, f).state.ping_on == !v.ping_on,
        key_step(key_step(v, Key::Char('p'), ctrl, f).state, Key::Char('p'), ctrl, f).state.ping_on
            == v.ping_on,
        v.ping_on ==> key_step(v, Key::Char('p'), ctrl, f).effects == seq![EffectView::StopPings],
        !v.ping_on ==> key_step(v, Key::Char('p'), ctrl, f).effects == ping_effects(f.ids),
{
}

/// While UEs run the selection is one of them: after each look at them, and whatever key is then
/// pressed.
pub proof fn law_selection_stays_in_list(
    v: MonitorView,
    focus: usize,
    target: Seq<char>,
    key: Key,
    ctrl: bool,
    f: FrameView,
)
    requires
        0 < f.views.len() <= usize::MAX,
    ensures
        noticed(v, f.views, focus, target).sel < f.views.len(),
        key_step(noticed(v, f.views, focus, target), key, ctrl, f).state.sel < f.views.len(),
{
}

// ---------------------------------------------------------------------------
// What the Monitor shows
// ---------------------------------------------------------------------------

/// What the proxy last counted.
pub struct NueProxyStatus {
    pub dl: Option<u64>,
    pub ul: Option<u64>,
    pub dl_err: Option<u64>,
    pub ul_err: Option<u64>,
}

impl NueProxyStatus {
    pub open spec fn errors(self) -> nat {
        dash::or_zero(self.dl_err) as nat + dash::or_zero(self.ul_err) as nat
    }

    /// The errors of both directions can be added up.
    pub fn errors_fit(&self) -> (r: bool)
        ensures
            r == (self.errors() <= u64::MAX),
    {
        count_of(self.dl_err) <= u64::MAX - count_of(self.ul_err)
    }
}

fn count_of(n: Option<u64>) -> (r: u64)
    ensures
        r == dash::or_zero(n),
{
    match n {
        Some(v) => v,
        None => 0,
    }
}

/// Which parts of the radio network run, and which run twice.
#[derive(Clone, Copy, PartialEq, Eq, Debug, Structural)]
pub struct Radio {
    pub gnb_up: bool,
    pub gnb_dup: bool,
    pub proxy_up: bool,
    pub proxy_dup: bool,
}

/// The state of the radio network with so many processes of the CU, the DU and the proxy.
pub open spec fn radio_of(gnb_up: bool, cus: usize, dus: usize, proxies: usize) -> Radio {
    Radio {
        gnb_up,
        gnb_dup: cus > 1 || dus > 1,
        proxy_up: proxies > 0,
        proxy_dup: proxies > 1,
    }
}

/// The state of the radio network, from whether the gNB answers and the numbers of processes of
/// the CU, the DU and the proxy.
pub fn radio_state(gnb_up: bool, cus: usize, dus: usize, proxies: usize) -> (r: Radio)
    ensures
        r == radio_of(gnb_up, cus, dus, proxies),
{
    Radio {
        gnb_up,
        gnb_dup: cus > 1 || dus > 1,
        proxy_up: proxies > 0,
        proxy_dup: proxies > 1,
    }
}

/// How many UEs among the first `n` have registered.
pub open spec fn registered_count(v: Seq<SeenView>, n: int) -> nat
    decreases n,
{
    if n <= 0 {
        0
    } else if v[n - 1].conn.reg > 0 {
        registered_count(v, n - 1) + 1
    } else {
        registered_count(v, n - 1)
    }
}

pub open spec fn red() -> Color {
    Color::Rgb(185, 35, 35)
}

pub open spec fn green() -> Color {
    Color::Rgb(0, 140, 60)
}

pub open spec fn gnb_span(r: Radio) -> SpanView {
    if r.gnb_dup {
        ui::styled("⚠ gNB DUP"@, Style { blink: true, ..ui::bold(red()) })
    } else if r.gnb_up {
        ui::strong("● gNB UP"@, green())
    } else {
        ui::strong("○ gNB DOWN"@, red())
    }
}

pub open spec fn proxy_span(r: Radio) -> SpanView {
    if r.proxy_dup {
        ui::strong("proxy x2!"@, red())
    } else if r.proxy_up {
        ui::tinted("proxy UP"@, green())
    } else {
        ui::tinted("proxy down"@, red())
    }
}

/// The colour of a share: green where it is all of some UEs.
pub open spec fn share_tint(part: nat, n: nat) -> Color {
    if n > 0 && part == n {
        Color::Rgb(0, 175, 80)
    } else {
        Color::Rgb(215, 135, 0)
    }
}

/// The UE that the walk is at; 0 where there is none.
pub open spec fn focus_id(v: Seq<SeenView>, focus: usize) -> usize {
    if v.len() > 0 {
        v[(focus as nat % v.len()) as int].conn.id
    } else {
        0
    }
}

pub open spec fn activity_span(
    m: MonitorView,
    v: Seq<SeenView>,
    focus: usize,
    target: Seq<char>,
) -> SpanView {
    if m.load_on {
        ui::tinted("LOAD:UE"@ + text::dec(focus_id(v, focus) as nat), Color::Rgb(215, 135, 0))
    } else if m.ping_on {
        ui::tinted("ping→"@ + target, Color::Rgb(0, 175, 80))
    } else {
        ui::tinted("ping:off"@, Color::Rgb(130, 120, 105))
    }
}

/// The line at the top.
pub open spec fn header_line(
    m: MonitorView,
    v: Seq<SeenView>,
    ps: NueProxyStatus,
    radio: Radio,
    focus: usize,
    target: Seq<char>,
    srv: Option<Seq<char>>,
) -> Seq<SpanView> {
    let n = v.len();
    let reg = registered_count(v, n as int);
    let data = data_count(v, n as int);
    seq![
        ui::raw(" "@),
        gnb_span(radio),
        ui::raw("  "@),
        proxy_span(radio),
        ui::raw("   "@),
        ui::strong(
            "running "@ + text::dec(n) + " UEs"@,
            if n > 0 {
                Color::Rgb(210, 207, 198)
            } else {
                Color::Rgb(130, 128, 122)
            },
        ),
        ui::raw("   "@),
        ui::strong("REGISTERED "@ + text::dec(reg) + "/"@ + text::dec(n), share_tint(reg, n)),
        ui::raw("  "@),
        ui::strong("DATA "@ + text::dec(data) + "/"@ + text::dec(n), share_tint(data, n)),
        ui::raw("   "@),
        ui::tinted("start N="@ + text::dec(m.n_set as nat), Color::Rgb(0, 95, 170)),
        ui::raw("   "@),
        activity_span(m, v, focus, target),
        ui::raw("   "@),
        ui::tinted(
            "iperf:"@ + match srv {
                Some(t) => t,
                None => "unset"@,
            },
            Color::Rgb(120, 110, 98),
        ),
        ui::raw("   "@),
        ui::tinted(
            "IQ dl "@ + text::dec(dash::or_zero(ps.dl) as nat) + " ul "@ + text::dec(
                dash::or_zero(ps.ul) as nat,
            ) + " err "@ + text::dec(ps.errors()),
            Color::Rgb(120, 110, 98),
        ),
        if radio.gnb_dup {
            ui::strong("   ⚠ DUPLICATE gNB — press r to rebuild"@, red())
        } else {
            ui::raw(""@)
        },
    ]
}

/// A round-trip time as it is shown.
pub open spec fn rtt_shown(t: Option<Seq<char>>) -> Seq<char> {
    match t {
        Some(s) => s + "ms"@,
        None => "-"@,
    }
}

/// The style of a UE's row: the colour of its stage, and marked where the walk is at it or where
/// it is selected.
pub open spec fn row_look(m: MonitorView, v: Seq<SeenView>, focus: usize, i: int) -> Style {
    let plain = ui::colored(conn::stage_tint(v[i].conn.stage));
    if m.load_on && i == focus as nat % v.len() {
        Style { bg: Some(Color::Rgb(45, 50, 65)), bold: true, ..plain }
    } else if i == m.sel {
        Style { bg: Some(Color::Rgb(38, 42, 52)), bold: true, ..plain }
    } else {
        plain
    }
}

/// The row of a UE.
pub open spec fn row_cells(u: SeenView) -> Seq<SpanView> {
    seq![
        ui::raw(text::dec(u.conn.id as nat)),
        ui::raw(conn::stage_text(u.conn.stage)),
        ui::raw(u.conn.ip),
        ui::raw(rtt_shown(u.last_rtt)),
        ui::raw(text::dec(u.recv as nat)),
        ui::raw(u.dl),
        ui::raw(u.ul),
    ]
}

/// The table of UEs.
pub open spec fn ue_table(m: MonitorView, v: Seq<SeenView>, focus: usize) -> Seq<TableRowView> {
    Seq::new(
        v.len(),
        |i: int| TableRowView { cells: row_cells(v[i]), style: row_look(m, v, focus, i) },
    )
}

/// The number of the selected UE; 0 where none is.
pub open spec fn selected_id(m: MonitorView, v: Seq<SeenView>) -> usize {
    if m.sel < v.len() {
        v[m.sel as int].conn.id
    } else {
        0
    }
}

pub open spec fn chart_title(m: MonitorView, v: Seq<SeenView>) -> Seq<char> {
    match m.metric {
        ChartMetric::AvgRtt => " avg RTT (ms) — g: all UEs "@,
        ChartMetric::AllRtt => " all UEs RTT (ms) — g: selected "@,
        ChartMetric::SelRtt => " UE"@ + text::dec(selected_id(m, v) as nat)
            + " RTT (ms) — g: bitrate "@,
        ChartMetric::Bitrate =>
            " all UEs THROUGHPUT (Mbps) — g: avg RTT  [p starts it, i=iperf spikes] "@,
    }
}

/// The colours by which the lines of a chart are told apart.
pub open spec fn line_tint(i: int) -> Color {
    let k = i % 8;
    if k == 0 {
        Color::Rgb(0, 115, 185)
    } else if k == 1 {
        Color::Rgb(195, 95, 0)
    } else if k == 2 {
        Color::Rgb(0, 140, 60)
    } else if k == 3 {
        Color::Rgb(140, 30, 140)
    } else if k == 4 {
        Color::Rgb(0, 155, 170)
    } else if k == 5 {
        Color::Rgb(185, 35, 35)
    } else if k == 6 {
        Color::Rgb(80, 145, 0)
    } else {
        Color::Rgb(100, 85, 65)
    }
}

/// The lines of the chart, each with its name and colour: one for every UE, or a single one
/// without a name.
pub open spec fn chart_lines(metric: ChartMetric, v: Seq<SeenView>) -> Seq<SpanView> {
    match metric {
        ChartMetric::AllRtt | ChartMetric::Bitrate => Seq::new(
            v.len(),
            |i: int| ui::tinted("UE"@ + text::dec(v[i].conn.id as nat), line_tint(i)),
        ),
        _ => seq![ui::tinted(""@, Color::Rgb(0, 115, 185))],
    }
}

/// The longest history among the first `n` UEs.
pub open spec fn longest(v: Seq<SeenView>, tput: bool, n: int) -> usize
    decreases n,
{
    if n <= 0 {
        0
    } else {
        let len = if tput {
            v[n - 1].tput_len
        } else {
            v[n - 1].rtt_len
        };
        dash::larger(longest(v, tput, n - 1), len)
    }
}

/// How many samples wide the chart is: the longest history, but at least one.
pub open spec fn chart_width(metric: ChartMetric, v: Seq<SeenView>) -> usize {
    dash::at_least_one(longest(v, metric == ChartMetric::Bitrate, v.len() as int))
}

/// The labels of the time axis; a sample is taken about every second.
pub open spec fn time_labels(width: usize) -> Seq<SpanView> {
    seq![
        ui::tinted("-"@ + text::dec(width as nat) + "s"@, Color::Rgb(150, 148, 142)),
        ui::tinted("-"@ + text::dec((width / 2) as nat) + "s"@, Color::Rgb(150, 148, 142)),
        ui::strong("now"@, Color::Rgb(210, 207, 198)),
    ]
}

pub open spec fn unit_text(metric: ChartMetric) -> Seq<char> {
    if metric == ChartMetric::Bitrate {
        "Mbps"@
    } else {
        "ms"@
    }
}

/// The title of a UE's small chart, marked where the walk is at the UE.
pub open spec fn spark_title(
    m: MonitorView,
    v: Seq<SeenView>,
    focus: usize,
    i: int,
) -> SpanView {
    ui::tinted(
        (if m.load_on && i == focus as nat % v.len() {
            "▶"@
        } else {
            ""@
        }) + "UE"@ + text::dec(v[i].conn.id as nat) + " "@ + rtt_shown(v[i].last_rtt) + v[i].tput,
        conn::stage_tint(v[i].conn.stage),
    )
}

pub open spec fn spark_titles(m: MonitorView, v: Seq<SeenView>, focus: usize) -> Seq<SpanView> {
    Seq::new(v.len(), |i: int| spark_title(m, v, focus, i))
}

/// A log line without its prefix, in the style of its severity.
pub open spec fn log_line(line: Seq<char>) -> Seq<SpanView> {
    seq![ui::styled(text::after_last(line, "] "@), dash::log_look(line))]
}

/// The end of the selected UE's log, as many lines as fit.
pub open spec fn log_lines(content: Seq<char>, height: u16) -> Seq<Seq<SpanView>> {
    let last = slice::tail(text::lines_of(content), dash::inner_height(height));
    Seq::new(last.len(), |i: int| log_line(last[i]))
}

pub open spec fn log_title(id: usize) -> Seq<char> {
    if id > 0 {
        " UE"@ + text::dec(id as nat) + " log (live) "@
    } else {
        " UE log "@
    }
}

/// The keys at the bottom, and the status behind them.
pub open spec fn key_line(m: MonitorView) -> Seq<SpanView> {
    let act = ui::bold(Color::Rgb(0, 185, 80));
    let warn = ui::bold(Color::Rgb(230, 60, 60));
    let nav = ui::bold(Color::Rgb(205, 202, 195));
    let info = ui::colored(Color::Rgb(160, 188, 215));
    let dim = ui::colored(Color::Rgb(148, 146, 140));
    seq![
        ui::styled(" s"@, act),
        ui::raw(" start  "@),
        ui::styled("r"@, nav),
        ui::raw(" restart  "@),
        ui::styled("x"@, warn),
        ui::raw(" stop  "@),
        ui::styled("+"@, act),
        ui::raw(" add-UE  "@),
        ui::styled("-"@, dim),
        ui::raw(" N  "@),
        ui::styled("p"@, info),
        ui::raw(" ping  "@),
        ui::styled("i"@, info),
        ui::raw(" speedtest  "@),
        ui::styled("v"@, info),
        ui::raw(" video  "@),
        ui::styled(
            "L"@,
            if m.load_on {
                ui::bold(Color::Rgb(215, 135, 0))
            } else {
                info
            },
        ),
        ui::raw(
            if m.load_on {
                " load-dist●  "@
            } else {
                " load-dist  "@
            },
        ),
        ui::styled("g"@, info),
        ui::raw(" graph  "@),
        ui::styled("↑↓"@, dim),
        ui::raw(" select  "@),
        ui::styled("q"@, dim),
        ui::raw(" quit  "@),
        ui::tinted(m.status, Color::Rgb(210, 207, 198)),
    ]
}

/// What surrounds the UEs when the Monitor is drawn.
pub struct Surroundings<'a> {
    pub ps: &'a NueProxyStatus,
    pub radio: Radio,
    /// The step of the walk through the UEs.
    pub focus: usize,
    pub target: &'a str,
    pub srv: &'a Option<String>,
    /// The log of the selected UE, and the height of its pane.
    pub log: &'a str,
    pub log_height: u16,
}

/// What the Monitor shows.
pub struct MonitorScreen {
    pub header: Vec<Span>,
    pub table: Vec<TableRow>,
    pub chart_title: String,
    pub chart_lines: Vec<Span>,
    pub chart_width: usize,
    pub time_labels: Vec<Span>,
    pub unit: String,
    /// The chart names its lines.
    pub legend: bool,
    /// The titles of the small charts: the first `upper` stand in the upper row.
    pub sparks: Vec<Span>,
    pub upper: usize,
    pub log_title: Span,
    pub log: Vec<Vec<Span>>,
    pub keys: Vec<Span>,
}

fn registered(v: &Vec<UeView>) -> (r: usize)
    ensures
        r == registered_count(seen(v@), v@.len() as int),
        r <= v@.len(),
{
    let mut k: usize = 0;
    let mut i: usize = 0;
    while i < v.len()
        invariant
            k <= i <= v.len(),
            k == registered_count(seen(v@), i as int),
        decreases v.len() - i,
    {
        assert(seen(v@)[i as int] == v@[i as int]@);
        if v[i].conn.reg > 0 {
            k = k + 1;
        }
        i = i + 1;
    }
    k
}

fn with_data(v: &Vec<UeView>) -> (r: usize)
    ensures
        r == data_count(seen(v@), v@.len() as int),
        r <= v@.len(),
{
    let mut k: usize = 0;
    let mut i: usize = 0;
    while i < v.len()
        invariant
            k <= i <= v.len(),
            k == data_count(seen(v@), i as int),
        decreases v.len() - i,
    {
        assert(seen(v@)[i as int] == v@[i as int]@);
        if v[i].conn.has_tun {
            k = k + 1;
        }
        i = i + 1;
    }
    k
}

fn share_color(part: usize, n: usize) -> (r: Color)
    ensures
        r == share_tint(part as nat, n as nat),
{
    if n > 0 && part == n {
        Color::Rgb(0, 175, 80)
    } else {
        Color::Rgb(215, 135, 0)
    }
}

fn share_text(word: &str, part: usize, n: usize) -> (r: String)
    ensures
        r@ == word@ + text::dec(part as nat) + "/"@ + text::dec(n as nat),
{
    let mut t = text::owned(word);
    text::push_dec(&mut t, part as u64);
    t.append("/");
    text::push_dec(&mut t, n as u64);
    t
}

fn gnb_state(r: Radio) -> (s: Span)
    ensures
        s@ == gnb_span(r),
{
    if r.gnb_dup {
        Span {
            text: text::owned("⚠ gNB DUP"),
            style: Style {
                fg: Some(Color::Rgb(185, 35, 35)),
                bg: None,
                bold: true,
                underlined: false,
                blink: true,
            },
        }
    } else if r.gnb_up {
        ui::b("● gNB UP", Color::Rgb(0, 140, 60))
    } else {
        ui::b("○ gNB DOWN", Color::Rgb(185, 35, 35))
    }
}

fn proxy_state(r: Radio) -> (s: Span)
    ensures
        s@ == proxy_span(r),
{
    if r.proxy_dup {
        ui::b("proxy x2!", Color::Rgb(185, 35, 35))
    } else if r.proxy_up {
        ui::s("proxy UP", Color::Rgb(0, 140, 60))
    } else {
        ui::s("proxy down", Color::Rgb(185, 35, 35))
    }
}

fn rtt_text(t: &Option<String>) -> (r: String)
    ensures
        r@ == rtt_shown(slice::opt_string(*t)),
{
    match t {
        Some(s) => slice::concat_texts(s.as_str(), "ms"),
        None => text::owned("-"),
    }
}

fn line_color(i: usize) -> (r: Color)
    ensures
        r == line_tint(i as int),
{
    let k = i % 8;
    if k == 0 {
        Color::Rgb(0, 115, 185)
    } else if k == 1 {
        Color::Rgb(195, 95, 0)
    } else if k == 2 {
        Color::Rgb(0, 140, 60)
    } else if k == 3 {
        Color::Rgb(140, 30, 140)
    } else if k == 4 {
        Color::Rgb(0, 155, 170)
    } else if k == 5 {
        Color::Rgb(185, 35, 35)
    } else if k == 6 {
        Color::Rgb(80, 145, 0)
    } else {
        Color::Rgb(100, 85, 65)
    }
}

impl MonitorState {
    fn activity(&self, views: &Vec<UeView>, focus: usize, target: &str) -> (r: Span)
        ensures
            r@ == activity_span(self@, seen(views@), focus, target@),
    {
        if self.load_on {
            let mut id: usize = 0;
            if views.len() > 0 {
                let k = focus % views.len();
                assert(seen(views@)[k as int] == views@[k as int]@);
                id = views[k].conn.id;
            }
            let mut t = text::owned("LOAD:UE");
            text::push_dec(&mut t, id as u64);
            ui::s(t.as_str(), Color::Rgb(215, 135, 0))
        } else if self.ping_on {
            ui::s(slice::concat_texts("ping→", target).as_str(), Color::Rgb(0, 175, 80))
        } else {
            ui::s("ping:off", Color::Rgb(130, 120, 105))
        }
    }

    /// The line at the top.
    pub fn render_header(&self, views: &Vec<UeView>, s: &Surroundings) -> (r: Vec<Span>)
        requires
            s.ps.errors() <= u64::MAX,
        ensures
            ui::spans(r@) == header_line(
                self@,
                seen(views@),
                *s.ps,
                s.radio,
                s.focus,
                s.target@,
                slice::opt_string(*s.srv),
            ),
    {
        let n = views.len();
        let reg = registered(views);
        let data = with_data(views);
        let mut running = text::owned("running ");
        text::push_dec(&mut running, n as u64);
        running.append(" UEs");
        let mut start = text::owned("start N=");
        text::push_dec(&mut start, self.n_set as u64);
        let mut iperf = text::owned("iperf:");
        iperf.append(
            match s.srv {
                Some(t) => t.as_str(),
                None => "unset",
            },
        );
        let mut iq = text::owned("IQ dl ");
        text::push_dec(&mut iq, count_of(s.ps.dl));
        iq.append(" ul ");
        text::push_dec(&mut iq, count_of(s.ps.ul));
        iq.append(" err ");
        text::push_dec(&mut iq, count_of(s.ps.dl_err) + count_of(s.ps.ul_err));
        let gnb = gnb_state(s.radio);
        let proxy = proxy_state(s.radio);
        let act = self.activity(views, s.focus, s.target);
        let plain = Style::plain();
        let mut l = ui::no_spans();
        ui::put(&mut l, " ", plain);
        ui::put(&mut l, gnb.text.as_str(), gnb.style);
        ui::put(&mut l, "  ", plain);
        ui::put(&mut l, proxy.text.as_str(), proxy.style);
        ui::put(&mut l, "   ", plain);
        ui::put(
            &mut l,
            running.as_str(),
            Style::strong(
                if n > 0 {
                    Color::Rgb(210, 207, 198)
                } else {
                    Color::Rgb(130, 128, 122)
                },
            ),
        );
        ui::put(&mut l, "   ", plain);
        ui::put(
            &mut l,
            share_text("REGISTERED ", reg, n).as_str(),
            Style::strong(share_color(reg, n)),
        );
        ui::put(&mut l, "  ", plain);
        ui::put(
            &mut l,
            share_text("DATA ", data, n).as_str(),
            Style::strong(share_color(data, n)),
        );
        ui::put(&mut l, "   ", plain);
        ui::put(&mut l, start.as_str(), Style::fg(Color::Rgb(0, 95, 170)));
        ui::put(&mut l, "   ", plain);
        ui::put(&mut l, act.text.as_str(), act.style);
        ui::put(&mut l, "   ", plain);
        ui::put(&mut l, iperf.as_str(), Style::fg(Color::Rgb(120, 110, 98)));
        ui::put(&mut l, "   ", plain);
        ui::put(&mut l, iq.as_str(), Style::fg(Color::Rgb(120, 110, 98)));
        if s.radio.gnb_dup {
            ui::put(
                &mut l,
                "   ⚠ DUPLICATE gNB — press r to rebuild",
                Style::strong(Color::Rgb(185, 35, 35)),
            );
        } else {
            ui::put(&mut l, "", plain);
        }
        assert(ui::spans(l@) =~= header_line(
            self@,
            seen(views@),
            *s.ps,
            s.radio,
            s.focus,
            s.target@,
            slice::opt_string(*s.srv),
        ));
        l
    }

    fn row_style(&self, views: &Vec<UeView>, focus: usize, i: usize) -> (r: Style)
        requires
            i < views@.len(),
        ensures
            r == row_look(self@, seen(views@), focus, i as int),
    {
        assert(seen(views@)[i as int] == views@[i as int]@);
        let mut style = Style::fg(conn::stage_color(views[i].conn.stage));
        if self.load_on && i == focus % views.len() {
            style = style.on(Color::Rgb(45, 50, 65));
            style.bold = true;
        } else if i == self.sel {
            style = style.on(Color::Rgb(38, 42, 52));
            style.bold = true;
        }
        style
    }

    fn cells_of(u: &UeView) -> (r: Vec<Span>)
        ensures
            ui::spans(r@) == row_cells(u@),
    {
        let plain = Style::plain();
        let mut cells = ui::no_spans();
        ui::put(&mut cells, text::dec_text(u.conn.id as u64).as_str(), plain);
        ui::put(&mut cells, u.conn.stage.name(), plain);
        ui::put(&mut cells, u.conn.ip.as_str(), plain);
        ui::put(&mut cells, rtt_text(&u.last_rtt).as_str(), plain);
        ui::put(&mut cells, text::dec_text(u.recv).as_str(), plain);
        ui::put(&mut cells, u.dl.as_str(), plain);
        ui::put(&mut cells, u.ul.as_str(), plain);
        assert(ui::spans(cells@) =~= row_cells(u@));
        cells
    }

    /// The table of UEs.
    pub fn render_table(&self, views: &Vec<UeView>, focus: usize) -> (r: Vec<TableRow>)
        ensures
            ui::table(r@) == ue_table(self@, seen(views@), focus),
    {
        let ghost want = ue_table(self@, seen(views@), focus);
        let mut out = ui::no_rows();
        let mut i: usize = 0;
        while i < views.len()
            invariant
                i <= views.len(),
                want == ue_table(self@, seen(views@), focus),
                ui::table(out@) == want.take(i as int),
            decreases views.len() - i,
        {
            let style = self.row_style(views, focus, i);
            assert(seen(views@)[i as int] == views@[i as int]@);
            ui::put_row(&mut out, Self::cells_of(&views[i]), style);
            assert(want.take(i + 1) == want.take(i as int).push(want[i as int]));
            i = i + 1;
        }
        assert(want.take(i as int) == want);
        out
    }

    /// The number of the selected UE; 0 where none is.
    pub fn selected_ue(&self, views: &Vec<UeView>) -> (r: usize)
        ensures
            r == selected_id(self@, seen(views@)),
    {
        if self.sel < views.len() {
            assert(seen(views@)[self.sel as int] == views@[self.sel as int]@);
            views[self.sel].conn.id
        } else {
            0
        }
    }

    fn title_of_chart(&self, views: &Vec<UeView>) -> (r: String)
        ensures
            r@ == chart_title(self@, seen(views@)),
    {
        match self.metric {
            ChartMetric::AvgRtt => text::owned(" avg RTT (ms) — g: all UEs "),
            ChartMetric::AllRtt => text::owned(" all UEs RTT (ms) — g: selected "),
            ChartMetric::SelRtt => {
                let mut t = text::owned(" UE");
                text::push_dec(&mut t, self.selected_ue(views) as u64);
                t.append(" RTT (ms) — g: bitrate ");
                t
            },
            ChartMetric::Bitrate => text::owned(
                " all UEs THROUGHPUT (Mbps) — g: avg RTT  [p starts it, i=iperf spikes] ",
            ),
        }
    }

    fn lines_of_chart(metric: ChartMetric, views: &Vec<UeView>) -> (r: Vec<Span>)
        ensures
            ui::spans(r@) == chart_lines(metric, seen(views@)),
    {
        let each = match metric {
            ChartMetric::AllRtt => true,
            ChartMetric::Bitrate => true,
            _ => false,
        };
        let ghost want = chart_lines(metric, seen(views@));
        let mut out = ui::no_spans();
        if !each {
            ui::put(&mut out, "", Style::fg(Color::Rgb(0, 115, 185)));
            assert(ui::spans(out@) =~= want);
            return out;
        }
        let mut i: usize = 0;
        while i < views.len()
            invariant
                i <= views.len(),
                metric == ChartMetric::AllRtt || metric == ChartMetric::Bitrate,
                want == chart_lines(metric, seen(views@)),
                ui::spans(out@) == want.take(i as int),
            decreases views.len() - i,
        {
            assert(seen(views@)[i as int] == views@[i as int]@);
            let mut t = text::owned("UE");
            text::push_dec(&mut t, views[i].conn.id as u64);
            ui::put(&mut out, t.as_str(), Style::fg(line_color(i)));
            assert(want.take(i + 1) == want.take(i as int).push(want[i as int]));
            i = i + 1;
        }
        assert(want.take(i as int) == want);
        out
    }

    fn width_of_chart(metric: ChartMetric, views: &Vec<UeView>) -> (r: usize)
        ensures
            r == chart_width(metric, seen(views@)),
            r >= 1,
    {
        let tput = match metric {
            ChartMetric::Bitrate => true,
            _ => false,
        };
        let mut best: usize = 0;
        let mut i: usize = 0;
        while i < views.len()
            invariant
                i <= views.len(),
                tput == (metric == ChartMetric::Bitrate),
                best == longest(seen(views@), tput, i as int),
            decreases views.len() - i,
        {
            assert(seen(views@)[i as int] == views@[i as int]@);
            let len = if tput {
                views[i].tput_len
            } else {
                views[i].rtt_len
            };
            if len > best {
                best = len;
            }
            i = i + 1;
        }
        if best > 1 {
            best
        } else {
            1
        }
    }

    fn labels_of_time(width: usize) -> (r: Vec<Span>)
        ensures
            ui::spans(r@) == time_labels(width),
    {
        let mut first = text::owned("-");
        text::push_dec(&mut first, width as u64);
        first.append("s");
        let mut second = text::owned("-");
        text::push_dec(&mut second, (width / 2) as u64);
        second.append("s");
        let mut out = ui::no_spans();
        ui::put(&mut out, first.as_str(), Style::fg(Color::Rgb(150, 148, 142)));
        ui::put(&mut out, second.as_str(), Style::fg(Color::Rgb(150, 148, 142)));
        ui::put(&mut out, "now", Style::strong(Color::Rgb(210, 207, 198)));
        assert(ui::spans(out@) =~= time_labels(width));
        out
    }

    /// The titles of the small charts.
    pub fn render_sparks(&self, views: &Vec<UeView>, focus: usize) -> (r: Vec<Span>)
        ensures
            ui::spans(r@) == spark_titles(self@, seen(views@), focus),
    {
        let ghost want = spark_titles(self@, seen(views@), focus);
        let mut out = ui::no_spans();
        let mut i: usize = 0;
        while i < views.len()
            invariant
                i <= views.len(),
                want == spark_titles(self@, seen(views@), focus),
                ui::spans(out@) == want.take(i as int),
            decreases views.len() - i,
        {
            assert(seen(views@)[i as int] == views@[i as int]@);
            let u = &views[i];
            let mut t = text::owned(
                if self.load_on && i == focus % views.len() {
                    "▶"
                } else {
                    ""
                },
            );
            t.append("UE");
            text::push_dec(&mut t, u.conn.id as u64);
            t.append(" ");
            t.append(rtt_text(&u.last_rtt).as_str());
            t.append(u.tput.as_str());
            ui::put(&mut out, t.as_str(), Style::fg(conn::stage_color(u.conn.stage)));
            proof {
                assert(want[i as int] == spark_title(self@, seen(views@), focus, i as int));
                assert(want.take(i + 1) == want.take(i as int).push(want[i as int]));
            }
            i = i + 1;
        }
        assert(want.take(i as int) == want);
        out
    }

    /// The end of the selected UE's log.
    pub fn render_log(content: &str, height: u16) -> (r: Vec<Vec<Span>>)
        ensures
            ui::lines(r@) == log_lines(content@, height),
    {
        let h: usize = if height > 2 {
            height as usize - 2
        } else {
            0
        };
        let last = dash::last_lines(content, h);
        let ghost want = log_lines(content@, height);
        let ghost all = slice::tail(text::lines_of(content@), dash::inner_height(height));
        let mut out = ui::no_lines();
        let mut i: usize = 0;
        while i < last.len()
            invariant
                i <= last.len(),
                text::texts(last@) == all,
                all == slice::tail(text::lines_of(content@), dash::inner_height(height)),
                want == log_lines(content@, height),
                ui::lines(out@) == want.take(i as int),
            decreases last.len() - i,
        {
            let line = last[i].as_str();
            assert(line@ == all[i as int]);
            let chars = text::chars_of(line);
            let short = text::string_of(text::behind_last(chars.as_slice(), "] "));
            let one = ui::one_span(short.as_str(), dash::log_style(line));
            assert(ui::spans(one@) =~= log_line(all[i as int]));
            ui::put_line(&mut out, one);
            assert(want.take(i + 1) == want.take(i as int).push(want[i as int]));
            i = i + 1;
        }
        assert(want.take(i as int) == want);
        out
    }

    fn title_of_log(id: usize) -> (r: String)
        ensures
            r@ == log_title(id),
    {
        if id > 0 {
            let mut t = text::owned(" UE");
            text::push_dec(&mut t, id as u64);
            t.append(" log (live) ");
            t
        } else {
            text::owned(" UE log ")
        }
    }

    /// The keys at the bottom, and the status behind them.
    pub fn render_keys(&self) -> (r: Vec<Span>)
        ensures
            ui::spans(r@) == key_line(self@),
    {
        let act = Style::strong(Color::Rgb(0, 185, 80));
        let warn = Style::strong(Color::Rgb(230, 60, 60));
        let nav = Style::strong(Color::Rgb(205, 202, 195));
        let info = Style::fg(Color::Rgb(160, 188, 215));
        let dim = Style::fg(Color::Rgb(148, 146, 140));
        let plain = Style::plain();
        let mut l = ui::no_spans();
        ui::put(&mut l, " s", act);
        ui::put(&mut l, " start  ", plain);
        ui::put(&mut l, "r", nav);
        ui::put(&mut l, " restart  ", plain);
        ui::put(&mut l, "x", warn);
        ui::put(&mut l, " stop  ", plain);
        ui::put(&mut l, "+", act);
        ui::put(&mut l, " add-UE  ", plain);
        ui::put(&mut l, "-", dim);
        ui::put(&mut l, " N  ", plain);
        ui::put(&mut l, "p", info);
        ui::put(&mut l, " ping  ", plain);
        ui::put(&mut l, "i", info);
        ui::put(&mut l, " speedtest  ", plain);
        ui::put(&mut l, "v", info);
        ui::put(&mut l, " video  ", plain);
        ui::put(
            &mut l,
            "L",
            if self.load_on {
                Style::strong(Color::Rgb(215, 135, 0))
            } else {
                info
            },
        );
        ui::put(
            &mut l,
            if self.load_on {
                " load-dist●  "
            } else {
                " load-dist  "
            },
            plain,
        );
        ui::put(&mut l, "g", info);
        ui::put(&mut l, " graph  ", plain);
        ui::put(&mut l, "↑↓", dim);
        ui::put(&mut l, " select  ", plain);
        ui::put(&mut l, "q", dim);
        ui::put(&mut l, " quit  ", plain);
        ui::put(&mut l, self.status.as_str(), Style::fg(Color::Rgb(210, 207, 198)));
        assert(ui::spans(l@) =~= key_line(self@));
        l
    }

    /// What the Monitor shows.
    pub fn render_dash(&self, views: &Vec<UeView>, s: &Surroundings) -> (r: MonitorScreen)
        requires
            s.ps.errors() <= u64::MAX,
        ensures
            ui::spans(r.header@) == header_line(
                self@,
                seen(views@),
                *s.ps,
                s.radio,
                s.focus,
                s.target@,
                slice::opt_string(*s.srv),
            ),
            ui::table(r.table@) == ue_table(self@, seen(views@), s.focus),
            r.chart_title@ == chart_title(self@, seen(views@)),
            ui::spans(r.chart_lines@) == chart_lines(self.metric, seen(views@)),
            r.chart_width == chart_width(self.metric, seen(views@)),
            ui::spans(r.time_labels@) == time_labels(r.chart_width),
            r.unit@ == unit_text(self.metric),
            r.legend == (self.metric == ChartMetric::AllRtt || self.metric == ChartMetric::Bitrate),
            ui::spans(r.sparks@) == spark_titles(self@, seen(views@), s.focus),
            r.upper == (views@.len() + 1) / 2,
            r.log_title@ == ui::strong(
                log_title(selected_id(self@, seen(views@))),
                Color::Rgb(225, 222, 215),
            ),
            ui::lines(r.log@) == log_lines(s.log@, s.log_height),
            ui::spans(r.keys@) == key_line(self@),
    {
        let width = Self::width_of_chart(self.metric, views);
        let n = views.len();
        let title = Self::title_of_log(self.selected_ue(views));
        MonitorScreen {
            header: self.render_header(views, s),
            table: self.render_table(views, s.focus),
            chart_title: self.title_of_chart(views),
            chart_lines: Self::lines_of_chart(self.metric, views),
            chart_width: width,
            time_labels: Self::labels_of_time(width),
            unit: match self.metric {
                ChartMetric::Bitrate => text::owned("Mbps"),
                _ => text::owned("ms"),
            },
            legend: match self.metric {
                ChartMetric::AllRtt => true,
                ChartMetric::Bitrate => true,
                _ => false,
            },
            sparks: self.render_sparks(views, s.focus),
            upper: n / 2 + n % 2,
            log_title: ui::b(title.as_str(), Color::Rgb(225, 222, 215)),
            log: Self::render_log(s.log, s.log_height),
            keys: self.render_keys(),
        }
    }
}

} // verus!
