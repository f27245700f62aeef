//! What the Monitor starts, shows and says.

use vstd::prelude::*;

use crate::conn;
use crate::conn::Stage;
use crate::keys::Key;
use crate::monitor;
use crate::monitor::{
    ChartMetric, EffectView, FrameView, MonitorView, NueProxyStatus, Radio, SeenView, TestView,
};
use crate::reading;
use crate::text;

verus! {

// ---------------------------------------------------------------------------
// Tests
// ---------------------------------------------------------------------------

/// The test that is started for a UE.
spec fn test_of(e: EffectView, video: bool) -> Option<TestView> {
    match e {
        EffectView::SpeedTest(t) => if video {
            None
        } else {
            Some(t)
        },
        EffectView::Video(t) => if video {
            Some(t)
        } else {
            None
        },
        _ => None,
    }
}

proof fn lemma_test_there(v: Seq<SeenView>, n: int, srv: Seq<char>, video: bool, i: int) -> (k: int)
    requires
        0 <= i < n <= v.len(),
        v[i].conn.has_tun,
    ensures
        ({
            let e = monitor::test_effects(v, n, srv, video);
            &&& 0 <= k < e.len() - 1
            &&& e[k] is Shell
            &&& e[k]->Shell_0 == monitor::start_server(monitor::test_port(v[i].conn.id))
            &&& test_of(e[k + 1], video) == Some(
                TestView {
                    ue: v[i].conn.id,
                    srv,
                    port: monitor::test_port(v[i].conn.id),
                    ip: v[i].conn.ip,
                },
            )
        }),
    decreases n,
{
    if i == n - 1 {
        monitor::test_effects(v, n, srv, video).len() - 2
    } else {
        lemma_test_there(v, n - 1, srv, video, i)
    }
}

/// The speed test key starts, for every UE whose data plane works, a server and right after it the
/// test against it: from the UE's address, to the given server, and on the port that the server
/// listens on.
#[verifier::spinoff_prover]
#[verifier::rlimit(50)]
pub proof fn law_speed_test_for_each_ue(
    v: MonitorView,
    ctrl: bool,
    f: FrameView,
    i: int,
) -> (k: int)
    requires
        f.srv is Some,
        0 <= i < f.views.len(),
        f.views[i].conn.has_tun,
        f.views[i].conn.id < 60000,
    ensures
        ({
            let e = monitor::key_step(v, Key::Char('i'), ctrl, f).effects;
            let c = f.views[i].conn;
            &&& 0 <= k < e.len() - 1
            &&& e[k] is Shell && e[k + 1] is SpeedTest
            &&& {
                let t = e[k + 1]->SpeedTest_0;
                &&& t.ue == c.id
                &&& t.ip == c.ip
                &&& t.srv == f.srv->0
                &&& t.port == 5200 + c.id
                &&& text::contains(e[k]->Shell_0, "iperf3 -s -p "@ + text::dec(t.port) + "'"@)
            }
        }),
{
    let n = f.views.len() as int;
    let e = monitor::key_step(v, Key::Char('i'), ctrl, f).effects;
    let k = lemma_test_there(f.views, n, f.srv->0, false, i);
    lemma_server_port(monitor::test_port(f.views[i].conn.id));
    let tests = monitor::test_effects(f.views, n, f.srv->0, false);
    assert(e[k + 2] == tests[k]);
    assert(e[k + 3] == tests[k + 1]);
    k + 2
}

/// The video key does the same with streams.
#[verifier::spinoff_prover]
#[verifier::rlimit(50)]
pub proof fn law_video_for_each_ue(v: MonitorView, ctrl: bool, f: FrameView, i: int) -> (k: int)
    requires
        f.srv is Some,
        0 <= i < f.views.len(),
        f.views[i].conn.has_tun,
        f.views[i].conn.id < 60000,
    ensures
        ({
            let e = monitor::key_step(v, Key::Char('v'), ctrl, f).effects;
            let c = f.views[i].conn;
            &&& 0 <= k < e.len() - 1
            &&& e[k] is Shell && e[k + 1] is Video
            &&& {
                let t = e[k + 1]->Video_0;
                &&& t.ue == c.id
                &&& t.ip == c.ip
                &&& t.srv == f.srv->0
                &&& t.port == 5200 + c.id
                &&& text::contains(e[k]->Shell_0, "iperf3 -s -p "@ + text::dec(t.port) + "'"@)
            }
        }),
{
    let n = f.views.len() as int;
    let e = monitor::key_step(v, Key::Char('v'), ctrl, f).effects;
    let k = lemma_test_there(f.views, n, f.srv->0, true, i);
    lemma_server_port(monitor::test_port(f.views[i].conn.id));
    let tests = monitor::test_effects(f.views, n, f.srv->0, true);
    assert(e[k + 1] == tests[k]);
    assert(e[k + 2] == tests[k + 1]);
    k + 1
}

#[verifier::spinoff_prover]
#[verifier::rlimit(50)]
proof fn lemma_server_port(port: nat)
    ensures
        text::contains(monitor::start_server(port), "iperf3 -s -p "@ + text::dec(port) + "'"@),
{
    reveal_strlit("docker exec -d oai-ext-dn sh -c 'sleep 2; iperf3 -s -p ");
    reveal_strlit("iperf3 -s -p ");
    reveal_strlit("' 2>/dev/null || true");
    reveal_strlit("'");
    let s = monitor::start_server(port);
    let pat = "iperf3 -s -p "@ + text::dec(port) + "'"@;
    let n = "docker exec -d oai-ext-dn sh -c 'sleep 2; iperf3 -s -p "@.len() - "iperf3 -s -p "@.len();
    assert(s.subrange(n, n + pat.len()) =~= pat);
    assert(text::occurs_at(s, pat, n));
    text::lemma_find_from(s, pat, 0);
}

proof fn lemma_tests_counted(v: Seq<SeenView>, n: int, srv: Seq<char>, video: bool)
    requires
        0 <= n <= v.len(),
    ensures
        monitor::test_effects(v, n, srv, video).len() == 2 * monitor::data_count(v, n),
    decreases n,
{
    if n > 0 {
        lemma_tests_counted(v, n - 1, srv, video);
    }
}

/// No test is started for a UE whose data plane does not work: there are two steps for each of the
/// others, and the few before them.
pub proof fn law_no_other_tests(v: MonitorView, ctrl: bool, f: FrameView)
    requires
        f.srv is Some,
    ensures
        ({
            let n = f.views.len() as int;
            let k = monitor::data_count(f.views, n);
            &&& monitor::key_step(v, Key::Char('i'), ctrl, f).effects.len() == 2 + 2 * k
            &&& monitor::key_step(v, Key::Char('v'), ctrl, f).effects.len() == 1 + 2 * k
        }),
{
    let n = f.views.len() as int;
    lemma_tests_counted(f.views, n, f.srv->0, false);
    lemma_tests_counted(f.views, n, f.srv->0, true);
}

/// Without a server no test is started.
pub proof fn law_no_tests_without_server(v: MonitorView, ctrl: bool, f: FrameView)
    requires
        f.srv is None,
    ensures
        monitor::key_step(v, Key::Char('i'), ctrl, f).effects.len() == 0,
        monitor::key_step(v, Key::Char('v'), ctrl, f).effects.len() == 0,
{
}

// ---------------------------------------------------------------------------
// Counts
// ---------------------------------------------------------------------------

/// The count of UEs with a data plane goes up by one with each such UE and stays with any other;
/// so it is all of them exactly where each has one, and none exactly where none has.
pub proof fn law_data_count(v: Seq<SeenView>, n: int)
    requires
        0 <= n <= v.len(),
    ensures
        monitor::data_count(v, n) <= n,
        monitor::data_count(v, n) == n <==> forall|i: int|
            0 <= i < n ==> (#[trigger] v[i]).conn.has_tun,
        monitor::data_count(v, n) == 0 <==> forall|i: int|
            0 <= i < n ==> !(#[trigger] v[i]).conn.has_tun,
    decreases n,
{
    if n > 0 {
        law_data_count(v, n - 1);
        assert(v[n - 1].conn.has_tun || !v[n - 1].conn.has_tun);
    }
}

/// The same of the UEs that have registered.
pub proof fn law_registered_count(v: Seq<SeenView>, n: int)
    requires
        0 <= n <= v.len(),
    ensures
        monitor::registered_count(v, n) <= n,
        monitor::registered_count(v, n) == n <==> forall|i: int|
            0 <= i < n ==> (#[trigger] v[i]).conn.reg > 0,
        monitor::registered_count(v, n) == 0 <==> forall|i: int|
            0 <= i < n ==> (#[trigger] v[i]).conn.reg == 0,
    decreases n,
{
    if n > 0 {
        law_registered_count(v, n - 1);
        assert(v[n - 1].conn.reg > 0 || v[n - 1].conn.reg == 0);
    }
}

/// The counts are those of the UEs that have a data plane, or have registered.
pub proof fn law_counts_are_sizes(v: Seq<SeenView>, n: int)
    requires
        0 <= n <= v.len(),
    ensures
        monitor::data_count(v, n) == v.take(n).filter(|u: SeenView| u.conn.has_tun).len(),
        monitor::registered_count(v, n) == v.take(n).filter(|u: SeenView| u.conn.reg > 0).len(),
    decreases n,
{
    reveal(Seq::filter);
    if n > 0 {
        law_counts_are_sizes(v, n - 1);
        assert(v.take(n).drop_last() =~= v.take(n - 1));
        assert(v.take(n).last() == v[n - 1]);
    }
}

/// The line at the top says how many UEs run, how many of them have registered and how many have a
/// data plane.
#[verifier::spinoff_prover]
#[verifier::rlimit(50)]
pub proof fn law_header_counts(
    m: MonitorView,
    v: Seq<SeenView>,
    ps: NueProxyStatus,
    radio: Radio,
    focus: usize,
    target: Seq<char>,
    srv: Option<Seq<char>>,
)
    ensures
        ({
            let h = monitor::header_line(m, v, ps, radio, focus, target, srv);
            let n = v.len();
            &&& h[5].text == "running "@ + text::dec(n) + " UEs"@
            &&& text::starts_with(h[7].text, "REGISTERED "@)
            &&& reading::split(h[7].text.skip(11), '/') == seq![
                text::dec(monitor::registered_count(v, n as int)),
                text::dec(n),
            ]
            &&& text::starts_with(h[9].text, "DATA "@)
            &&& reading::split(h[9].text.skip(5), '/') == seq![
                text::dec(monitor::data_count(v, n as int)),
                text::dec(n),
            ]
            &&& h[11].text == "start N="@ + text::dec(m.n_set as nat)
            &&& match srv {
                Some(t) => h[15].text == "iperf:"@ + t,
                None => h[15].text == "iperf:unset"@,
            }
        }),
{
    reveal_strlit("REGISTERED ");
    reveal_strlit("DATA ");
    reveal_strlit("/");
    reveal_strlit("iperf:");
    reveal_strlit("unset");
    reveal_strlit("iperf:unset");
    let h = monitor::header_line(m, v, ps, radio, focus, target, srv);
    let n = v.len();
    let reg = text::dec(monitor::registered_count(v, n as int));
    let data = text::dec(monitor::data_count(v, n as int));
    lemma_share(reg, text::dec(n), "REGISTERED "@, h[7].text);
    lemma_share(data, text::dec(n), "DATA "@, h[9].text);
    reading::lemma_digits(monitor::registered_count(v, n as int));
    reading::lemma_digits(monitor::data_count(v, n as int));
    reading::lemma_digits(n);
    lemma_lacks_slash(monitor::registered_count(v, n as int));
    lemma_lacks_slash(monitor::data_count(v, n as int));
    lemma_lacks_slash(n);
    lemma_split_share(reg, text::dec(n));
    lemma_split_share(data, text::dec(n));
    assert("iperf:"@ + "unset"@ =~= "iperf:unset"@);
}

proof fn lemma_lacks_slash(n: nat)
    ensures
        reading::lacks(text::dec(n), '/'),
{
    reading::lemma_digits(n);
}

proof fn lemma_split_share(a: Seq<char>, b: Seq<char>)
    requires
        reading::lacks(a, '/'),
        reading::lacks(b, '/'),
    ensures
        reading::split(a + "/"@ + b, '/') == seq![a, b],
{
    reveal_strlit("/");
    assert("/"@ =~= seq!['/']);
    reading::lemma_split_plain(a, '/');
    reading::lemma_split_behind(a, b, '/');
    assert(reading::split(a + seq!['/'] + b, '/') =~= seq![a, b]);
}

proof fn lemma_share(a: Seq<char>, b: Seq<char>, word: Seq<char>, t: Seq<char>)
    requires
        t == word + a + "/"@ + b,
    ensures
        text::starts_with(t, word),
        t.skip(word.len() as int) == a + "/"@ + b,
{
    assert(t.subrange(0, word.len() as int) =~= word);
    assert(t.skip(word.len() as int) =~= a + "/"@ + b);
}

// ---------------------------------------------------------------------------
// Rows and charts
// ---------------------------------------------------------------------------

/// Every row of the table shows its own UE: number, stage, address, round-trip time, how many
/// answers came, and the rates down and up.
#[verifier::spinoff_prover]
#[verifier::rlimit(50)]
pub proof fn law_rows_are_the_ues_own(m: MonitorView, v: Seq<SeenView>, focus: usize, i: int)
    requires
        0 <= i < v.len(),
    ensures
        ({
            let row = monitor::ue_table(m, v, focus)[i];
            let u = v[i];
            &&& monitor::ue_table(m, v, focus).len() == v.len()
            &&& row.cells.len() == 7
            &&& text::number(row.cells[0].text, 10, usize::MAX as nat) == Some(u.conn.id as nat)
            &&& row.cells[2].text == u.conn.ip
            &&& match u.last_rtt {
                Some(t) => row.cells[3].text == t + "ms"@,
                None => row.cells[3].text == "-"@,
            }
            &&& text::number(row.cells[4].text, 10, u64::MAX as nat) == Some(u.recv as nat)
            &&& row.cells[5].text == u.dl
            &&& row.cells[6].text == u.ul
            &&& row.style.bold <==> i == m.sel || (m.load_on && i == focus as nat % v.len())
        }),
{
    text::law_number_of_dec(v[i].conn.id as nat, usize::MAX as nat);
    text::law_number_of_dec(v[i].recv as nat, u64::MAX as nat);
}

/// Two UEs at different stages show different words for them.
pub proof fn law_stage_words_differ(a: Stage, b: Stage)
    requires
        conn::stage_text(a) == conn::stage_text(b),
    ensures
        a == b,
{
    lemma_stage_word(a);
    lemma_stage_word(b);
}

proof fn lemma_stage_word(a: Stage)
    ensures
        ({
            let s = conn::stage_text(a);
            match a {
                Stage::Data => s.len() == 4 && s[1] == 'A',
                Stage::Registered => s.len() == 10,
                Stage::Rrc => s.len() == 3 && s[1] == 'R',
                Stage::Rar => s.len() == 3 && s[1] == 'A',
                Stage::Sib1 => s.len() == 4 && s[1] == 'I',
                Stage::Sync => s.len() == 4 && s[1] == 'Y',
                Stage::Nothing => s.len() == 2,
                Stage::NoLog => s.len() == 8,
            }
        }),
{
    reveal_strlit("DATA");
    reveal_strlit("REGISTERED");
    reveal_strlit("RRC");
    reveal_strlit("RAR");
    reveal_strlit("SIB1");
    reveal_strlit("SYNC");
    reveal_strlit("--");
    reveal_strlit("(no log)");
}

/// The chart is wide enough for every history, and no wider than the longest one.
#[verifier::spinoff_prover]
#[verifier::rlimit(50)]
pub proof fn law_chart_holds_histories(v: Seq<SeenView>, i: int)
    requires
        0 <= i < v.len(),
    ensures
        monitor::chart_width(ChartMetric::Bitrate, v) >= v[i].tput_len,
        monitor::chart_width(ChartMetric::AllRtt, v) >= v[i].rtt_len,
        monitor::chart_width(ChartMetric::AvgRtt, v) >= v[i].rtt_len,
        monitor::chart_width(ChartMetric::SelRtt, v) >= v[i].rtt_len,
        monitor::chart_width(ChartMetric::Bitrate, v) > 1 ==> exists|j: int|
            0 <= j < v.len() && (#[trigger] v[j]).tput_len == monitor::chart_width(
                ChartMetric::Bitrate,
                v,
            ),
        monitor::chart_width(ChartMetric::AllRtt, v) > 1 ==> exists|j: int|
            0 <= j < v.len() && (#[trigger] v[j]).rtt_len == monitor::chart_width(
                ChartMetric::AllRtt,
                v,
            ),
{
    lemma_longest(v, true, v.len() as int, i);
    lemma_longest(v, false, v.len() as int, i);
}

proof fn lemma_longest(v: Seq<SeenView>, tput: bool, n: int, i: int)
    requires
        0 <= n <= v.len(),
    ensures
        0 <= i < n ==> monitor::longest(v, tput, n) >= if tput {
            v[i].tput_len
        } else {
            v[i].rtt_len
        },
        monitor::longest(v, tput, n) > 0 ==> exists|j: int|
            0 <= j < n && (if tput {
                (#[trigger] v[j]).tput_len
            } else {
                v[j].rtt_len
            }) == monitor::longest(v, tput, n),
    decreases n,
{
    if n > 0 {
        lemma_longest(v, tput, n - 1, i);
        let len = if tput {
            v[n - 1].tput_len
        } else {
            v[n - 1].rtt_len
        };
        if monitor::longest(v, tput, n) == len {
            assert(v[n - 1] == v[n - 1]);
        }
    }
}

/// The lines of a chart of all UEs are named after them, and neighbours have different colours.
pub proof fn law_chart_lines_named(v: Seq<SeenView>, i: int)
    requires
        0 <= i < v.len(),
    ensures
        monitor::chart_lines(ChartMetric::AllRtt, v).len() == v.len(),
        monitor::chart_lines(ChartMetric::Bitrate, v) == monitor::chart_lines(
            ChartMetric::AllRtt,
            v,
        ),
        monitor::chart_lines(ChartMetric::AllRtt, v)[i].text == "UE"@ + text::dec(
            v[i].conn.id as nat,
        ),
        i + 1 < v.len() ==> monitor::chart_lines(ChartMetric::AllRtt, v)[i].style
            != monitor::chart_lines(ChartMetric::AllRtt, v)[i + 1].style,
{
    assert((i + 1) % 8 == if i % 8 == 7 {
        0
    } else {
        i % 8 + 1
    });
}

// ---------------------------------------------------------------------------
// Keys
// ---------------------------------------------------------------------------

/// The ping key starts one ping for each running UE, in their order.
pub proof fn law_ping_for_each_ue(v: MonitorView, ctrl: bool, f: FrameView, i: int)
    requires
        !v.ping_on,
        0 <= i < f.ids.len(),
    ensures
        monitor::key_step(v, Key::Char('p'), ctrl, f).effects.len() == f.ids.len(),
        monitor::key_step(v, Key::Char('p'), ctrl, f).effects[i] == EffectView::StartPing(f.ids[i]),
{
}

/// One UE more and one less to start undo each other, as long as the number stays in its range;
/// while UEs run, more means that one is added to them, and the number to start stays.
pub proof fn law_more_and_less(v: MonitorView, ctrl: bool, f: FrameView)
    requires
        1 <= v.n_set < 32,
    ensures
        f.ids.len() == 0 ==> {
            let more = monitor::key_step(v, Key::Char('+'), ctrl, f);
            let back = monitor::key_step(more.state, Key::Char('-'), ctrl, f);
            more.state.n_set == v.n_set + 1 && back.state == v && more.effects.len() == 0
        },
        f.ids.len() > 0 ==> {
            let more = monitor::key_step(v, Key::Char('+'), ctrl, f);
            more.state.n_set == v.n_set && more.effects == seq![
                EffectView::Shell("bash "@ + f.scripts + "/mue_add.sh"@),
            ]
        },
        f.ids.len() > 0 ==> monitor::key_step(v, Key::Char('-'), ctrl, f).effects.len() == 0,
{
}

/// Starting anew ends the pings, and asks for as many UEs as are to be started.
pub proof fn law_restart_asks_for_number(v: MonitorView, ctrl: bool, f: FrameView, key: Key)
    requires
        f.gnb_up,
        key == Key::Char('s') || key == Key::Char('r'),
    ensures
        ({
            let s = monitor::key_step(v, key, ctrl, f);
            let order = "bash "@ + f.scripts + "/dash_ctl.sh restart "@ + text::dec(v.n_set as nat);
            &&& s.effects == seq![EffectView::StopPings, EffectView::Shell(order)]
            &&& !s.state.ping_on
            &&& s.state.n_set == v.n_set
            &&& !s.quit
        }),
{
}

/// Stopping ends the pings, and asks for a stop.
pub proof fn law_stop_asks_for_stop(v: MonitorView, ctrl: bool, f: FrameView)
    ensures
        ({
            let s = monitor::key_step(v, Key::Char('x'), ctrl, f);
            &&& s.effects == seq![
                EffectView::StopPings,
                EffectView::Shell("bash "@ + f.scripts + "/dash_ctl.sh stop"@),
            ]
            &&& !s.state.ping_on
        }),
{
}

/// With UEs running, the load key turns the walk through them on with their pings, and off again
/// with them.
pub proof fn law_load_key_toggles(v: MonitorView, ctrl: bool, f: FrameView)
    requires
        f.ids.len() > 0,
        !v.load_on,
    ensures
        ({
            let on = monitor::key_step(v, Key::Char('L'), ctrl, f);
            let off = monitor::key_step(on.state, Key::Char('L'), ctrl, f);
            &&& on.state.load_on && on.state.ping_on
            &&& on.effects.len() == f.ids.len() + 1
            &&& on.effects.last() == EffectView::StartLoad
            &&& forall|i: int|
                0 <= i < f.ids.len() ==> #[trigger] on.effects[i] == EffectView::StartPing(f.ids[i])
            &&& !off.state.load_on && !off.state.ping_on
            &&& off.effects == seq![EffectView::StopLoad, EffectView::StopPings]
        }),
{
}

/// While the walk is on, the status names the UE that it is at and its place among them.
pub proof fn law_walk_is_named(
    v: MonitorView,
    views: Seq<SeenView>,
    focus: usize,
    target: Seq<char>,
)
    requires
        v.load_on,
        views.len() > 0,
    ensures
        ({
            let at = focus as nat % views.len();
            let status = monitor::noticed(v, views, focus, target).status;
            &&& at < views.len()
            &&& text::starts_with(
                status,
                "LOAD DIST: focus UE"@ + text::dec(views[at as int].conn.id as nat) + " ("@
                    + text::dec(at + 1) + "/"@ + text::dec(views.len()) + ")"@,
            )
        }),
{
    reveal_strlit(") pinging all → ");
    reveal_strlit(")");
    let at = focus as nat % views.len();
    let status = monitor::noticed(v, views, focus, target).status;
    let front = "LOAD DIST: focus UE"@ + text::dec(views[at as int].conn.id as nat) + " ("@
        + text::dec(at + 1) + "/"@ + text::dec(views.len()) + ")"@;
    assert(status.subrange(0, front.len() as int) =~= front);
}

/// When the last stream has ended, and only then, the status says so.
pub proof fn law_end_of_traffic(v: MonitorView, traffic: usize)
    requires
        !v.load_on,
    ensures
        monitor::rounded(v, traffic).prev_traffic == traffic,
        traffic > 0 || v.prev_traffic == 0 ==> monitor::rounded(v, traffic).status == v.status,
        traffic == 0 && v.prev_traffic > 0 ==> text::starts_with(
            monitor::rounded(v, traffic).status,
            "traffic finished"@,
        ),
        monitor::rounded(monitor::rounded(v, traffic), traffic) == monitor::rounded(v, traffic),
{
    reveal_strlit("traffic finished — press g (then p if sampling is off) to see throughput graph");
    reveal_strlit("traffic finished");
    if traffic == 0 && v.prev_traffic > 0 {
        let t = monitor::rounded(v, traffic).status;
        assert(t.subrange(0, 16) =~= "traffic finished"@);
    }
}

/// The end of a UE's log is shown, as many lines as fit, each without what stands in front of its
/// message.
pub proof fn law_log_shows_end(content: Seq<char>, height: u16, i: int)
    requires
        0 <= i < text::lines_of(content).len(),
        i >= text::lines_of(content).len() - (height - 2),
    ensures
        ({
            let lines = text::lines_of(content);
            let shown = monitor::log_lines(content, height);
            let k = i - (lines.len() - shown.len());
            &&& shown.len() <= lines.len()
            &&& 0 <= k < shown.len()
            &&& shown[k].len() == 1
            &&& shown[k][0].text == text::after_last(lines[i], "] "@)
        }),
{
}

/// The spans for the gNB and the radio proxy tell their states apart; a second one of either is
/// told before anything else.
pub proof fn law_radio_states_differ(a: Radio, b: Radio)
    ensures
        monitor::gnb_span(a).text == monitor::gnb_span(b).text ==> a.gnb_dup == b.gnb_dup && (
        a.gnb_dup || a.gnb_up == b.gnb_up),
        monitor::proxy_span(a).text == monitor::proxy_span(b).text ==> a.proxy_dup == b.proxy_dup
            && (a.proxy_dup || a.proxy_up == b.proxy_up),
{
    reveal_strlit("⚠ gNB DUP");
    reveal_strlit("● gNB UP");
    reveal_strlit("○ gNB DOWN");
    reveal_strlit("proxy x2!");
    reveal_strlit("proxy UP");
    reveal_strlit("proxy down");
    assert("⚠ gNB DUP"@.len() == 9);
    assert("● gNB UP"@.len() == 8);
    assert("○ gNB DOWN"@.len() == 10);
    assert("proxy x2!"@.len() == 9);
    assert("proxy UP"@.len() == 8);
    assert("proxy down"@.len() == 10);
}

/// What goes on is named: the walk with the UE that it is at, else the pings with what they ask,
/// else that there are none.
pub proof fn law_activity_is_named(
    m: MonitorView,
    v: Seq<SeenView>,
    focus: usize,
    target: Seq<char>,
)
    ensures
        ({
            let t = monitor::activity_span(m, v, focus, target).text;
            &&& m.load_on && v.len() > 0 ==> t == "LOAD:UE"@ + text::dec(
                v[(focus as nat % v.len()) as int].conn.id as nat,
            )
            &&& !m.load_on && m.ping_on ==> t == "ping→"@ + target
            &&& !m.load_on && !m.ping_on ==> t == "ping:off"@
        }),
{
}

/// The numbers of the radio proxy stand at the top in their order: down, up, and the errors of both.
#[verifier::spinoff_prover]
#[verifier::rlimit(50)]
pub proof fn law_header_shows_frames(
    m: MonitorView,
    v: Seq<SeenView>,
    ps: NueProxyStatus,
    radio: Radio,
    focus: usize,
    target: Seq<char>,
    srv: Option<Seq<char>>,
    dl: u64,
    ul: u64,
    dl_err: u64,
    ul_err: u64,
)
    requires
        ps.dl == Some(dl),
        ps.ul == Some(ul),
        ps.dl_err == Some(dl_err),
        ps.ul_err == Some(ul_err),
    ensures
        monitor::header_line(m, v, ps, radio, focus, target, srv)[17].text == "IQ dl "@ + text::dec(
            dl as nat,
        ) + " ul "@ + text::dec(ul as nat) + " err "@ + text::dec(dl_err as nat + ul_err as nat),
        monitor::header_line(m, v, ps, radio, focus, target, srv)[13] == monitor::activity_span(
            m,
            v,
            focus,
            target,
        ),
{
}

/// While nothing else is said, a UE that is stuck before registration beside one that works is
/// pointed out, and only then.
pub proof fn law_stuck_ue_is_noticed(
    v: MonitorView,
    views: Seq<SeenView>,
    focus: usize,
    target: Seq<char>,
    i: int,
    j: int,
)
    requires
        !v.load_on,
        v.status == monitor::READY@,
        0 <= i < views.len(),
        0 <= j < views.len(),
    ensures
        views[i].conn.stage == Stage::Rrc && views[j].conn.stage == Stage::Data
            ==> text::starts_with(
            monitor::noticed(v, views, focus, target).status,
            "UE stuck at RRC"@,
        ),
        (forall|k: int| 0 <= k < views.len() ==> (#[trigger] views[k]).conn.stage != Stage::Rrc)
            ==> monitor::noticed(v, views, focus, target).status == v.status,
{
    reveal_strlit("UE stuck at RRC");
    reveal_strlit(
        "UE stuck at RRC (AMF timing) — retry with: sudo PROXY_WAVE_SIZE=1 bash clean_start.sh N",
    );
    if views[i].conn.stage == Stage::Rrc && views[j].conn.stage == Stage::Data {
        assert(monitor::any_at(views, Stage::Rrc));
        assert(monitor::any_at(views, Stage::Data));
        let t = monitor::noticed(v, views, focus, target).status;
        assert(t.subrange(0, 15) =~= "UE stuck at RRC"@);
    }
}

/// The selected UE's log and chart are named after it.
pub proof fn law_selected_ue_is_named(m: MonitorView, v: Seq<SeenView>)
    requires
        m.sel < v.len(),
        v[m.sel as int].conn.id > 0,
    ensures
        ({
            let id = v[m.sel as int].conn.id;
            &&& monitor::selected_id(m, v) == id
            &&& monitor::log_title(monitor::selected_id(m, v)) == " UE"@ + text::dec(id as nat)
                + " log (live) "@
            &&& m.metric == ChartMetric::SelRtt ==> text::starts_with(
                monitor::chart_title(m, v),
                " UE"@ + text::dec(id as nat) + " RTT"@,
            )
        }),
{
    reveal_strlit(" RTT");
    reveal_strlit(" RTT (ms) — g: bitrate ");
    if m.metric == ChartMetric::SelRtt {
        let t = monitor::chart_title(m, v);
        let front = " UE"@ + text::dec(v[m.sel as int].conn.id as nat) + " RTT"@;
        assert(t.subrange(0, front.len() as int) =~= front);
    }
}

/// A UE's small chart is named after it, with its round-trip time and its throughput, in the
/// colour of its stage.
pub proof fn law_sparks_are_the_ues_own(m: MonitorView, v: Seq<SeenView>, focus: usize, i: int)
    requires
        0 <= i < v.len(),
        !m.load_on,
        v[i].last_rtt is Some,
    ensures
        monitor::spark_titles(m, v, focus).len() == v.len(),
        monitor::spark_titles(m, v, focus)[i].text == "UE"@ + text::dec(v[i].conn.id as nat) + " "@
            + v[i].last_rtt->0 + "ms"@ + v[i].tput,
        monitor::spark_titles(m, v, focus)[i].style.fg == Some(conn::stage_tint(v[i].conn.stage)),
{
    reveal_strlit("");
    assert(monitor::spark_titles(m, v, focus)[i].text =~= "UE"@ + text::dec(v[i].conn.id as nat)
        + " "@ + v[i].last_rtt->0 + "ms"@ + v[i].tput);
}

/// Going down and up the table undo each other inside it.
pub proof fn law_rows_are_left_again(v: MonitorView, ctrl: bool, f: FrameView)
    requires
        f.views.len() <= usize::MAX,
        v.sel + 1 < f.views.len(),
    ensures
        ({
            let down = monitor::key_step(v, Key::Down, ctrl, f).state;
            down.sel == v.sel + 1 && monitor::key_step(down, Key::Up, ctrl, f).state == v
        }),
{
}

/// What the Monitor has to say stands behind its keys.
pub proof fn law_status_is_shown(m: MonitorView)
    ensures
        monitor::key_line(m).last().text == m.status,
{
}

/// One process of each kind is right, none is down, and a second one of any is a duplicate.
pub proof fn law_radio_of(gnb_up: bool, cus: usize, dus: usize, proxies: usize)
    ensures
        ({
            let r = monitor::radio_of(gnb_up, cus, dus, proxies);
            &&& r.gnb_up == gnb_up
            &&& r.gnb_dup <==> cus >= 2 || dus >= 2
            &&& r.proxy_up <==> proxies != 0
            &&& r.proxy_dup ==> r.proxy_up
            &&& proxies == 1 ==> r.proxy_up && !r.proxy_dup
            &&& proxies >= 2 ==> r.proxy_dup
        }),
{
}

/// What a key starts is said with its numbers: what is pinged and by how many UEs, and the same of
/// the tests and of the walk.
#[verifier::spinoff_prover]
#[verifier::rlimit(50)]
pub proof fn law_what_starts_is_said(v: MonitorView, ctrl: bool, f: FrameView)
    requires
        f.ids.len() > 0,
        !v.ping_on,
        !v.load_on,
        f.srv is Some,
    ensures
        ({
            let k = monitor::data_count(f.views, f.views.len() as int);
            let said = |c: char| monitor::key_step(v, Key::Char(c), ctrl, f).state.status;
            &&& text::starts_with(
                said('p'),
                "ping → "@ + f.target + " ("@ + text::dec(f.ids.len()) + " UEs"@,
            )
            &&& k > 0 ==> text::starts_with(
                said('i'),
                "speedtest → "@ + f.srv->0 + " ("@ + text::dec(k) + " UEs"@,
            )
            &&& k > 0 ==> text::starts_with(said('v'), "video → "@ + text::dec(k) + " UEs"@)
            &&& k == 0 ==> said('i') == said('v')
            &&& text::starts_with(
                said('L'),
                "LOAD DIST: pinging all "@ + text::dec(f.ids.len()) + " UEs"@,
            )
            &&& text::starts_with(
                said('+'),
                "adding 1 UE live (UE"@ + text::dec(f.ids.len() + 1) + " joins"@,
            )
        }),
{
    lemma_said_of_pings(f.target, f.ids.len());
    lemma_said_of_tests(f.srv->0, monitor::data_count(f.views, f.views.len() as int));
}

proof fn lemma_said_of_pings(target: Seq<char>, n: nat)
    ensures
        text::starts_with(
            "ping → "@ + target + " ("@ + text::dec(n) + " UEs, DL/UL always live)  [g: graph modes]"@,
            "ping → "@ + target + " ("@ + text::dec(n) + " UEs"@,
        ),
        text::starts_with(
            "LOAD DIST: pinging all "@ + text::dec(n) + " UEs, focus cycles every 5s [L to stop]"@,
            "LOAD DIST: pinging all "@ + text::dec(n) + " UEs"@,
        ),
        text::starts_with(
            "adding 1 UE live (UE"@ + text::dec(n + 1) + " joins, others kept)…"@,
            "adding 1 UE live (UE"@ + text::dec(n + 1) + " joins"@,
        ),
{
    reveal_strlit(" UEs");
    reveal_strlit(" joins");
    reveal_strlit(" UEs, DL/UL always live)  [g: graph modes]");
    reveal_strlit(" UEs, focus cycles every 5s [L to stop]");
    reveal_strlit(" joins, others kept)…");
    let a = "ping → "@ + target + " ("@ + text::dec(n);
    lemma_front(a, " UEs, DL/UL always live)  [g: graph modes]"@, " UEs"@);
    let b = "LOAD DIST: pinging all "@ + text::dec(n);
    lemma_front(b, " UEs, focus cycles every 5s [L to stop]"@, " UEs"@);
    let c = "adding 1 UE live (UE"@ + text::dec(n + 1);
    lemma_front(c, " joins, others kept)…"@, " joins"@);
}

proof fn lemma_said_of_tests(srv: Seq<char>, k: nat)
    ensures
        text::starts_with(
            "speedtest → "@ + srv + " ("@ + text::dec(k)
                + " UEs w/ data plane, ~65s DL+UL)… [press p to see DL/UL live]"@,
            "speedtest → "@ + srv + " ("@ + text::dec(k) + " UEs"@,
        ),
        text::starts_with(
            "video → "@ + text::dec(k) + " UEs (30s) — press p then g to watch bitrate"@,
            "video → "@ + text::dec(k) + " UEs"@,
        ),
{
    reveal_strlit(" UEs");
    reveal_strlit(" UEs w/ data plane, ~65s DL+UL)… [press p to see DL/UL live]");
    reveal_strlit(" UEs (30s) — press p then g to watch bitrate");
    let a = "speedtest → "@ + srv + " ("@ + text::dec(k);
    lemma_front(a, " UEs w/ data plane, ~65s DL+UL)… [press p to see DL/UL live]"@, " UEs"@);
    let b = "video → "@ + text::dec(k);
    lemma_front(b, " UEs (30s) — press p then g to watch bitrate"@, " UEs"@);
}

proof fn lemma_front(a: Seq<char>, long: Seq<char>, short: Seq<char>)
    requires
        short.len() <= long.len(),
        forall|k: int| 0 <= k < short.len() ==> #[trigger] short[k] == long[k],
    ensures
        text::starts_with(a + long, a + short),
{
    let t = a + long;
    let f = a + short;
    assert(t.subrange(0, f.len() as int) =~= f);
}

/// Only the keys for it end the Monitor, and these do nothing else.
pub proof fn law_monitor_ends_by_key(v: MonitorView, key: Key, ctrl: bool, f: FrameView)
    ensures
        ({
            let s = monitor::key_step(v, key, ctrl, f);
            &&& s.quit <==> key == Key::Esc || key == Key::Char('q') || (key == Key::Char('c')
                && ctrl)
            &&& s.quit ==> s.state == v && s.effects.len() == 0
        }),
{
}

/// Servers of earlier tests are ended before any new one is started.
pub proof fn law_old_servers_end_first(v: MonitorView, ctrl: bool, f: FrameView, video: bool)
    requires
        f.srv is Some,
    ensures
        ({
            let key = Key::Char(
                if video {
                    'v'
                } else {
                    'i'
                },
            );
            let e = monitor::key_step(v, key, ctrl, f).effects;
            &&& e.len() > 0 && e[0] is Shell
            &&& text::contains(e[0]->Shell_0, "pkill -9 iperf3"@)
        }),
{
    let s = "docker exec oai-ext-dn pkill -9 iperf3 2>/dev/null || true"@;
    let pat = "pkill -9 iperf3"@;
    reveal_strlit("docker exec oai-ext-dn pkill -9 iperf3 2>/dev/null || true");
    reveal_strlit("pkill -9 iperf3");
    assert(s.subrange(23, 23 + pat.len() as int) =~= pat);
    assert(text::occurs_at(s, pat, 23));
    text::lemma_find_from(s, pat, 0);
}

/// A chart's time runs from its width back to now, in the unit of what it shows.
pub proof fn law_chart_labels(width: usize, metric: ChartMetric)
    ensures
        monitor::time_labels(width)[0].text == "-"@ + text::dec(width as nat) + "s"@,
        monitor::time_labels(width)[1].text == "-"@ + text::dec((width / 2) as nat) + "s"@,
        monitor::time_labels(width)[2].text == "now"@,
        metric == ChartMetric::Bitrate <==> monitor::unit_text(metric) == "Mbps"@,
{
    reveal_strlit("Mbps");
    reveal_strlit("ms");
    assert("Mbps"@.len() == 4);
    assert("ms"@.len() == 2);
}

/// A share is shown as full exactly where it is all of some UEs.
pub proof fn law_full_share_looks_full(part: nat, n: nat)
    requires
        n > 0,
        part <= n,
    ensures
        monitor::share_tint(part, n) == monitor::share_tint(n, n) <==> part == n,
        monitor::share_tint(0, 0) != monitor::share_tint(n, n),
{
}

/// The keys that stand for one another do the same, and any other key does nothing.
pub proof fn law_monitor_keys(v: MonitorView, f: FrameView, c: char)
    ensures
        ({
            let step = |k: char| monitor::key_step(v, Key::Char(k), false, f);
            &&& step('=') == step('+')
            &&& step('_') == step('-')
            &&& step('l') == step('L')
            &&& step('g').state.metric != v.metric && step('g').effects.len() == 0
            &&& c != '=' && c != '+' && c != '_' && c != '-' && c != 'l' && c != 'L' && c != 'g'
                && c != 's' && c != 'r' && c != 'x' && c != 'p' && c != 'i' && c != 'v' && c != 'q'
                ==> step(c).state == v && step(c).effects.len() == 0 && !step(c).quit
        }),
{
}

} // verus!
