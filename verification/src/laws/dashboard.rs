//! What the live dashboard shows, and where its logs lie.

use vstd::prelude::*;

use crate::conn;
use crate::dash;
use crate::dash::{DashState, LogSrc, ProxyStatus, TrafficStatus};
use crate::keys::Key;
use crate::laws::report;
use crate::launch;
use crate::paths;
use crate::text;

verus! {

/// A number that was reported, or zero.
pub open spec fn told_or_zero(n: Option<u64>) -> nat {
    match n {
        Some(v) => v as nat,
        None => 0,
    }
}

// ---------------------------------------------------------------------------
// The state of the radio
// ---------------------------------------------------------------------------

/// The second line of the report says whether the radio proxy runs, how long, the frames of both
/// directions, and the errors of both together; with the radio simulator, whether the gNB runs and
/// how many UEs there are.
#[verifier::spinoff_prover]
#[verifier::rlimit(50)]
pub proof fn law_report_state(gnb_running: bool, ps: ProxyStatus, ts: TrafficStatus)
    ensures
        ({
            let line = dash::report_lines(false, gnb_running, ps, ts)[1];
            let end = "  DL: "@ + text::dec(told_or_zero(ps.dl_frames)) + " fr  UL: "@ + text::dec(
                told_or_zero(ps.ul_frames),
            ) + " fr  Errors: "@ + text::dec(
                told_or_zero(ps.dl_errors) + told_or_zero(ps.ul_errors),
            );
            let front = if ps.running == Some(true) {
                "Proxy: ● RUNNING"@
            } else {
                "Proxy: ○ STOPPED"@
            } + "  Uptime: "@ + dash::uptime_text(told_or_zero(ps.uptime_s));
            line == front + end
        }),
        ({
            let line = dash::report_lines(true, gnb_running, ps, ts)[1];
            let front = if gnb_running {
                "gNB: ● RUNNING"@
            } else {
                "gNB: ○ STOPPED"@
            };
            ts.num_ues is Some ==> text::starts_with(
                line,
                front + "   UEs: "@ + text::dec(ts.num_ues->0 as nat) + " "@,
            )
        }),
{
    reveal_strlit("Proxy: ");
    reveal_strlit("gNB: ");
    reveal_strlit("● RUNNING");
    reveal_strlit("○ STOPPED");
    reveal_strlit("Proxy: ● RUNNING");
    reveal_strlit("Proxy: ○ STOPPED");
    reveal_strlit("gNB: ● RUNNING");
    reveal_strlit("gNB: ○ STOPPED");
    reveal_strlit("   Mode: rfsim (per-namespace)");
    reveal_strlit(" ");
    assert("Proxy: "@ + "● RUNNING"@ =~= "Proxy: ● RUNNING"@);
    assert("Proxy: "@ + "○ STOPPED"@ =~= "Proxy: ○ STOPPED"@);
    assert("gNB: "@ + "● RUNNING"@ =~= "gNB: ● RUNNING"@);
    assert("gNB: "@ + "○ STOPPED"@ =~= "gNB: ○ STOPPED"@);
    lemma_proxy_state(gnb_running, ps, ts);
    if ts.num_ues is Some {
        let line = dash::report_state(true, gnb_running, ps, ts);
        let front = "gNB: "@ + dash::running_text(gnb_running) + "   UEs: "@ + text::dec(
            ts.num_ues->0 as nat,
        ) + " "@;
        assert(line.subrange(0, front.len() as int) =~= front);
    }
}

#[verifier::spinoff_prover]
#[verifier::rlimit(50)]
proof fn lemma_proxy_state(gnb_running: bool, ps: ProxyStatus, ts: TrafficStatus)
    ensures
        ({
            let end = "  DL: "@ + text::dec(told_or_zero(ps.dl_frames)) + " fr  UL: "@ + text::dec(
                told_or_zero(ps.ul_frames),
            ) + " fr  Errors: "@ + text::dec(
                told_or_zero(ps.dl_errors) + told_or_zero(ps.ul_errors),
            );
            dash::report_state(false, gnb_running, ps, ts) == "Proxy: "@ + dash::running_text(
                ps.running == Some(true),
            ) + "  Uptime: "@ + dash::uptime_text(told_or_zero(ps.uptime_s)) + end
        }),
{
    let end = "  DL: "@ + text::dec(told_or_zero(ps.dl_frames)) + " fr  UL: "@ + text::dec(
        told_or_zero(ps.ul_frames),
    ) + " fr  Errors: "@ + text::dec(told_or_zero(ps.dl_errors) + told_or_zero(ps.ul_errors));
    assert(dash::report_state(false, gnb_running, ps, ts) =~= "Proxy: "@ + dash::running_text(
        ps.running == Some(true),
    ) + "  Uptime: "@ + dash::uptime_text(told_or_zero(ps.uptime_s)) + end);
}

/// The top of the dashboard says the same of the radio proxy, each number under its own word.
#[verifier::spinoff_prover]
#[verifier::rlimit(50)]
pub proof fn law_header_state(
    s: DashState,
    gnb_running: bool,
    ps: ProxyStatus,
    ts: TrafficStatus,
)
    requires
        !s.rfsim,
    ensures
        ({
            let h = dash::header_lines(s, gnb_running, ps, ts);
            &&& h.len() == 2
            &&& h[1][1].text == "DL "@
            &&& h[1][2].text == text::dec(told_or_zero(ps.dl_frames)) + " frames"@
            &&& h[1][4].text == "UL "@
            &&& h[1][5].text == text::dec(told_or_zero(ps.ul_frames)) + " frames"@
            &&& h[1][7].text == "Uptime: "@ + dash::uptime_text(told_or_zero(ps.uptime_s))
                + "  Errors: "@ + text::dec(
                told_or_zero(ps.dl_errors) + told_or_zero(ps.ul_errors),
            )
            &&& h[0][1].style != dash::header_lines(
                s,
                gnb_running,
                ProxyStatus { running: Some(ps.running != Some(true)), ..ps },
                ts,
            )[0][1].style
        }),
{
}

// ---------------------------------------------------------------------------
// Logs
// ---------------------------------------------------------------------------

/// The log that the dashboard shows is the one that the same source names on the command line.
#[verifier::spinoff_prover]
#[verifier::rlimit(50)]
pub proof fn law_shown_log_is_the_named_one(scripts: Seq<char>, ue: usize, rfsim: bool)
    ensures
        dash::source_path(LogSrc::NrUe, scripts, true, ue) == dash::named_log(
            "ue"@ + text::dec(ue as nat),
            scripts,
            rfsim,
        ),
        dash::source_path(LogSrc::Radio, scripts, true, ue) == dash::named_log(
            "gnb"@,
            scripts,
            rfsim,
        ),
        dash::source_path(LogSrc::Radio, scripts, false, ue) == dash::named_log(
            "proxy"@,
            scripts,
            rfsim,
        ),
        dash::source_path(LogSrc::Traffic, scripts, rfsim, ue) == dash::named_log(
            "traffic"@,
            scripts,
            rfsim,
        ),
        dash::source_path(LogSrc::Traffic, scripts, rfsim, ue) == scripts
            + "/logs/traffic_nue.log"@,
        dash::source_path(LogSrc::Radio, scripts, true, ue) == scripts + "/logs/gnb.log"@,
        dash::source_path(LogSrc::Radio, scripts, false, ue) == scripts + "/logs/proxy_nue.log"@,
{
    reveal_strlit("ue");
    reveal_strlit("gnb");
    reveal_strlit("proxy");
    reveal_strlit("traffic");
    report::law_named_log_of_a_ue(ue, scripts, rfsim);
    lemma_ue_path(scripts, ue as nat);
    lemma_log_paths(scripts);
    lemma_not_ue("gnb"@);
    lemma_not_ue("proxy"@);
    lemma_not_ue("traffic"@);
    assert("gnb"@.len() == 3);
    assert("proxy"@.len() == 5);
    assert("traffic"@.len() == 7);
}

proof fn lemma_not_ue(s: Seq<char>)
    requires
        s.len() > 0,
        s[0] != 'u',
    ensures
        !text::starts_with(s, "ue"@),
{
    reveal_strlit("ue");
    if text::starts_with(s, "ue"@) {
        assert(s.subrange(0, 2)[0] == s[0]);
    }
}

proof fn lemma_ue_path(scripts: Seq<char>, i: nat)
    ensures
        paths::ue_log(scripts, i) == scripts + "/logs/ue"@ + text::dec(i) + "_nue.log"@,
{
    reveal_strlit("/logs");
    reveal_strlit("/ue");
    reveal_strlit("/logs/ue");
    assert(paths::ue_log(scripts, i) =~= scripts + "/logs/ue"@ + text::dec(i) + "_nue.log"@);
}

proof fn lemma_log_paths(scripts: Seq<char>)
    ensures
        paths::log_named(scripts, "traffic_nue.log"@) == scripts + "/logs/traffic_nue.log"@,
        paths::log_named(scripts, "gnb.log"@) == scripts + "/logs/gnb.log"@,
        paths::log_named(scripts, "proxy_nue.log"@) == scripts + "/logs/proxy_nue.log"@,
{
    reveal_strlit("/logs");
    reveal_strlit("/");
    reveal_strlit("traffic_nue.log");
    reveal_strlit("/logs/traffic_nue.log");
    reveal_strlit("gnb.log");
    reveal_strlit("/logs/gnb.log");
    reveal_strlit("proxy_nue.log");
    reveal_strlit("/logs/proxy_nue.log");
    assert(paths::log_named(scripts, "traffic_nue.log"@) =~= scripts + "/logs/traffic_nue.log"@);
    assert(paths::log_named(scripts, "gnb.log"@) =~= scripts + "/logs/gnb.log"@);
    assert(paths::log_named(scripts, "proxy_nue.log"@) =~= scripts + "/logs/proxy_nue.log"@);
}

/// The title of the log names the UE whose log is shown, and whether its end is shown.
#[verifier::spinoff_prover]
#[verifier::rlimit(50)]
pub proof fn law_log_title_names_ue(s: DashState, offset: nat)
    requires
        s.rfsim,
        s.log_src == LogSrc::NrUe,
    ensures
        ({
            let t = dash::log_title(s, offset).text;
            let label = " nr-ue"@ + text::dec(s.ue_log_idx as nat) + ".log"@;
            &&& text::starts_with(t, label)
            &&& offset == 0 <==> text::starts_with(t.skip(label.len() as int), " ●"@)
            &&& offset > 0 ==> text::starts_with(
                t.skip(label.len() as int),
                " ↑"@ + text::dec(offset) + " "@,
            )
        }),
{
    reveal_strlit(" ");
    reveal_strlit("nr-ue");
    reveal_strlit(" nr-ue");
    reveal_strlit(" ●");
    reveal_strlit(" ↑");
    reveal_strlit(" ● live  [/]:UE  Tab → ");
    reveal_strlit("  [/]:UE  End→tail  Tab → ");
    let t = dash::log_title(s, offset).text;
    let label = " nr-ue"@ + text::dec(s.ue_log_idx as nat) + ".log"@;
    assert(t.subrange(0, label.len() as int) =~= label);
    let rest = t.skip(label.len() as int);
    if offset == 0 {
        assert(rest =~= " ● live  [/]:UE  Tab → "@);
        assert(rest.subrange(0, 2) =~= " ●"@);
    } else {
        let front = " ↑"@ + text::dec(offset) + " "@;
        assert(rest =~= " ↑"@ + text::dec(offset) + "  [/]:UE  End→tail  Tab → "@);
        assert(rest.subrange(0, front.len() as int) =~= front);
        assert(rest[1] == '↑');
        if text::starts_with(rest, " ●"@) {
            assert(rest.subrange(0, 2)[1] == '●');
        }
    }
}

/// The part of the log on the screen is one piece of it, as long as fits; at its end the last line
/// is the last one of the log, and every line scrolled up shows one line more above.
#[verifier::spinoff_prover]
#[verifier::rlimit(50)]
pub proof fn law_visible_lines(s: DashState, logs: Seq<Seq<char>>, height: u16, k: int)
    requires
        height > 2,
        logs.len() >= height - 2,
        s.log_scroll <= logs.len() - (height - 2),
        0 <= k < height - 2,
    ensures
        ({
            let seen = dash::visible(s, logs, height);
            let first = logs.len() - s.log_scroll - (height - 2);
            &&& seen.len() == height - 2
            &&& seen[k] == logs[first + k]
            &&& dash::styled_lines(seen)[k][0].text == logs[first + k]
        }),
{
}

// ---------------------------------------------------------------------------
// Numbers of UEs
// ---------------------------------------------------------------------------

/// The dashboard counts every UE that a report lists or gives as their number, and with the radio
/// simulator those of the mode file; nothing else changes but a log of a UE that is gone.
pub proof fn law_refresh_counts_ues(
    s: DashState,
    listed: usize,
    counted: Option<usize>,
    mode_ues: usize,
)
    ensures
        ({
            let r = dash::refreshed(s, listed, counted, mode_ues);
            &&& r.ue_count >= listed
            &&& counted is Some ==> r.ue_count >= counted->0
            &&& s.rfsim ==> r.ue_count >= mode_ues
            &&& r.ue_count == listed || counted == Some(r.ue_count) || (s.rfsim && r.ue_count
                == mode_ues) || r.ue_count == 0
            &&& r.log_src == s.log_src && r.log_scroll == s.log_scroll && r.selected == s.selected
                && r.rfsim == s.rfsim
            &&& 1 <= s.ue_log_idx <= r.ue_count ==> r.ue_log_idx == s.ue_log_idx
            &&& dash::shows_a_ue(r)
        }),
{
}

/// The pane of a UE is that of the selected row, with the same number as in the table.
#[verifier::spinoff_prover]
#[verifier::rlimit(50)]
pub proof fn law_detail_is_of_selected(s: DashState, ts: TrafficStatus, i: int, id: usize)
    requires
        ts.ues is Some,
        ts.ues->0@.len() <= usize::MAX,
        s.selected is Some,
        s.selected->0 < dash::ue_order(ts).len(),
        dash::ue_order(ts)[s.selected->0 as int] == (id, i as usize),
        0 <= i < ts.ues->0@.len(),
    ensures
        ({
            let pane = dash::detail_pane(s, ts);
            let row = dash::ue_table(ts)[s.selected->0 as int];
            let m = ts.ues->0@[i].1;
            &&& text::starts_with(pane.0.text, " UE "@ + row.cells[0].text + " "@)
            &&& m.ip is Some ==> pane.1[1][1].text == row.cells[1].text
            &&& m.ul_mbps is Some ==> pane.1[6][1].text == row.cells[5].text + " Mbps"@
            &&& m.dl_mbps is Some ==> pane.1[5][1].text == row.cells[4].text + " Mbps"@
        }),
{
    reveal_strlit("  ↑↓ to select ");
    reveal_strlit(" ");
    let pane = dash::detail_pane(s, ts);
    let front = " UE "@ + text::dec(id as nat) + " "@;
    assert(pane.0.text.subrange(0, front.len() as int) =~= front);
}

// ---------------------------------------------------------------------------
// Looks
// ---------------------------------------------------------------------------

/// A severe line looks severe, whatever else it names; and lines of different severity look
/// different.
pub proof fn law_severity_is_seen(line: Seq<char>, other: Seq<char>)
    requires
        text::contains(line, "ERROR"@) || text::contains(line, "[ERR"@) || text::contains(
            line,
            "] [E] "@,
        ),
    ensures
        dash::log_look(line) == dash::log_look("ERROR"@),
        dash::log_look(other) == dash::log_look(line) ==> text::contains(other, "ERROR"@)
            || text::contains(other, "[ERR"@) || text::contains(other, "] [E] "@),
{
    let e = "ERROR"@;
    assert(e.subrange(0, e.len() as int) =~= e);
    assert(text::occurs_at(e, e, 0));
    text::lemma_find_from(e, e, 0);
}

/// A state that has a word of its own is shown by it, and any other by itself.
pub proof fn law_unknown_states_shown_as_they_are(s: Seq<char>)
    requires
        s != "active"@,
        s != "waiting_iface"@,
        s != "no_ip"@,
        s != "no_iperf_server"@,
    ensures
        dash::status_look(s).text == s,
        dash::status_look(s).style != dash::status_look("active"@).style,
{
}

// ---------------------------------------------------------------------------
// Addresses and settings
// ---------------------------------------------------------------------------

/// Without a tunnel, a UE shows the address that its log says, marked as such, or a dash.
pub proof fn law_address_without_tunnel(id: usize, log: Seq<char>, tunnel: Seq<char>)
    requires
        !conn::conn_of(id, log, tunnel).has_tun,
    ensures
        ({
            let a = conn::assigned_address(text::lines_of(log));
            let ip = conn::conn_of(id, log, tunnel).ip;
            &&& a.len() == 0 ==> ip == "—"@
            &&& a.len() > 0 ==> ip.len() == a.len() + 1 && ip.drop_last() == a && ip.last() == '↓'
        }),
{
    reveal_strlit("↓");
    let a = conn::assigned_address(text::lines_of(log));
    if a.len() > 0 {
        assert((a + "↓"@).drop_last() =~= a);
    }
}

/// A setting counts where it is set to something.
pub proof fn law_setting_counts(value: Seq<char>, other: Seq<char>)
    ensures
        value.len() > 0 ==> conn::setting_or(Some(value), other) == value,
        value.len() == 0 ==> conn::setting_or(Some(value), other) == other,
        conn::setting_or(None, other) == other,
{
}

/// The far end's address is the first one that is not the loopback's.
pub proof fn law_outer_address(lines: Seq<Seq<char>>, i: int)
    requires
        0 <= i < lines.len(),
        conn::inet_of_line(lines[i]) is Some,
        !text::contains(text::trim(lines[i]), "127.0.0.1"@),
        forall|j: int|
            0 <= j < i ==> conn::inet_of_line(#[trigger] lines[j]) is None || text::contains(
                text::trim(lines[j]),
                "127.0.0.1"@,
            ),
    ensures
        conn::outer_address(lines) == conn::inet_of_line(lines[i]),
    decreases lines.len(),
{
    if i > 0 {
        let rest = lines.skip(1);
        assert(rest[i - 1] == lines[i]);
        assert(conn::inet_of_line(lines[0]) is None || text::contains(
            text::trim(lines[0]),
            "127.0.0.1"@,
        ));
        assert forall|j: int| 0 <= j < i - 1 implies conn::inet_of_line(#[trigger] rest[j]) is None
            || text::contains(text::trim(rest[j]), "127.0.0.1"@) by {
            assert(rest[j] == lines[j + 1]);
        }
        law_outer_address(rest, i - 1);
    }
}

/// Whatever a start runs is ended by a stop: the UEs, the gNB, the radio proxy and the traffic
/// engine; and the files of a simulation are removed once the processes have had time to end.
pub proof fn law_stop_ends_what_start_runs()
    ensures
        ({
            let s = launch::stop_plan();
            let ends = |k: int, name: Seq<char>|
                s[k] is Run && s[k]->Run_0.program == "pkill"@ && s[k]->Run_0.args.last() == name;
            &&& ends(0, "zmq_proxy.py"@)
            &&& ends(1, "nr-uesoftmodem"@)
            &&& ends(2, "nr-softmodem"@)
            &&& ends(3, "ue_traffic.py"@)
            &&& s[4] is Wait && s[4]->Wait_0 == 800
            &&& s[5] is DeleteNamespaces
            &&& s.skip(6) == seq![
                launch::StepView::Remove("/tmp/multi_ue_pids.json"@),
                launch::StepView::Remove("/tmp/multi_ue_proxy_status.json"@),
                launch::StepView::Remove("/tmp/multi_ue_traffic_status.json"@),
                launch::StepView::Remove("/tmp/multi_ue_mode.json"@),
            ]
        }),
{
    assert(launch::stop_plan().skip(6) =~= seq![
        launch::StepView::Remove("/tmp/multi_ue_pids.json"@),
        launch::StepView::Remove("/tmp/multi_ue_proxy_status.json"@),
        launch::StepView::Remove("/tmp/multi_ue_traffic_status.json"@),
        launch::StepView::Remove("/tmp/multi_ue_mode.json"@),
    ]);
}

/// Going down and up the table undo each other inside it.
pub proof fn law_table_steps_undo_each_other(s: DashState, i: usize, ctrl: bool)
    requires
        s.selected == Some(i),
        i + 1 < s.ue_count,
    ensures
        ({
            let down = dash::key_step(s, Key::Down, ctrl).0;
            down.selected == Some((i + 1) as usize) && dash::key_step(down, Key::Up, ctrl).0 == s
        }),
{
}

/// The next log is shown from its end.
pub proof fn law_next_log_is_shown(s: DashState, ctrl: bool)
    ensures
        ({
            let n = dash::key_step(s, Key::Tab, ctrl).0;
            &&& n.log_src != s.log_src
            &&& n.log_scroll == 0
            &&& dash::key_step(
                dash::key_step(n, Key::Tab, ctrl).0,
                Key::Tab,
                ctrl,
            ).0.log_src == s.log_src
        }),
{
}

/// Every stage that a log speaks of has a colour of its own.
pub proof fn law_stage_colours_differ(a: conn::Stage, b: conn::Stage)
    requires
        conn::mark_of(a) is Some,
        conn::stage_tint(a) == conn::stage_tint(b),
    ensures
        a == b,
{
}

/// Only the keys for it end the dashboard, and these change nothing.
pub proof fn law_dashboard_ends_by_key(s: DashState, key: Key, ctrl: bool)
    ensures
        dash::key_step(s, key, ctrl).1 <==> key == Key::Esc || key == Key::Char('q') || (key
            == Key::Char('c') && ctrl),
        dash::key_step(s, key, ctrl).1 ==> dash::key_step(s, key, ctrl).0 == s,
{
}

/// A log is followed from its last fifty lines on, or shown by its last two hundred.
pub proof fn law_tail_names_log(path: Seq<char>, follow: bool)
    ensures
        ({
            let a = dash::tail_args(path, follow);
            let n = a.len();
            &&& a.last() == path
            &&& a[n - 3] == "-n"@
            &&& a[0] == "-f"@ <==> follow
            &&& follow ==> a[n - 2] == "50"@ && n == 4
            &&& !follow ==> a[n - 2] == "200"@ && n == 3
        }),
{
    reveal_strlit("-f");
    reveal_strlit("-n");
    assert("-f"@[1] == 'f');
    assert("-n"@[1] == 'n');
}

/// A UE without a log has come nowhere and has no address.
pub proof fn law_no_log_shows_nothing(id: usize)
    ensures
        ({
            let c = conn::conn_without_log(id);
            &&& c.id == id
            &&& c.stage == conn::Stage::NoLog
            &&& !c.has_tun
            &&& c.sync == 0 && c.sib1 == 0 && c.rar_ok == 0 && c.rar_fail == 0 && c.rrc == 0
                && c.reg == 0
            &&& c.ip == conn::conn_of(id, Seq::empty(), Seq::empty()).ip
        }),
{
    assert(conn::assigned_address(text::lines_of(Seq::<char>::empty())).len() == 0);
}

/// The patterns that put load on a UE stand out, each in its own way, and the others look alike.
pub proof fn law_patterns_stand_out(p: Seq<char>, q: Seq<char>)
    requires
        p != "speedtest"@,
        p != "video"@,
        p != "load"@,
        q != "speedtest"@,
        q != "video"@,
        q != "load"@,
    ensures
        dash::pattern_look(p) == dash::pattern_look(q),
        dash::pattern_look("speedtest"@) != dash::pattern_look(p),
        dash::pattern_look("video"@) != dash::pattern_look(p),
        dash::pattern_look("load"@) != dash::pattern_look(p),
{
}

/// The dashboard starts at the first UE, with the end of its log.
pub proof fn law_dashboard_starts_at_first_ue(rfsim: bool, mode_ues: usize)
    ensures
        ({
            let s = dash::fresh(rfsim, mode_ues);
            &&& s.selected == Some(0usize)
            &&& s.ue_log_idx == 1
            &&& s.log_src == LogSrc::NrUe
            &&& s.log_scroll == 0
            &&& s.rfsim == rfsim
            &&& rfsim ==> s.ue_count == mode_ues
        }),
{
}

/// How severe a line is, by the marks that it holds.
pub open spec fn severity(line: Seq<char>) -> nat {
    let has = |m: Seq<char>| text::contains(line, m);
    if has("] [E] "@) || has("ERROR"@) || has("[ERR"@) {
        5
    } else if has("] [W] "@) || has("WARN"@) {
        4
    } else if has("] [I] "@) || has("INFO"@) || has("[start]"@) || has("[stop]"@) || has(
        "[proxy]"@,
    ) || has("[traffic]"@) {
        3
    } else if has("] [D] "@) || has("DEBUG"@) {
        2
    } else if has("] [T] "@) || has("TRACE"@) {
        1
    } else {
        0
    }
}

/// Lines look alike exactly where they are equally severe.
pub proof fn law_lines_look_by_severity(a: Seq<char>, b: Seq<char>)
    ensures
        dash::log_look(a) == dash::log_look(b) <==> severity(a) == severity(b),
{
}

/// The states that have words of their own are shown by different ones.
pub proof fn law_states_have_their_words()
    ensures
        dash::status_look("active"@).text == "● active"@,
        dash::status_look("waiting_iface"@).text == "○ waiting..."@,
        dash::status_look("no_ip"@).text == "○ no_ip"@,
        dash::status_look("no_iperf_server"@).text == "○ no iperf"@,
{
    reveal_strlit("active");
    reveal_strlit("waiting_iface");
    reveal_strlit("no_ip");
    reveal_strlit("no_iperf_server");
    assert("active"@.len() == 6);
    assert("waiting_iface"@.len() == 13);
    assert("no_ip"@.len() == 5);
    assert("no_iperf_server"@.len() == 15);
}

/// Of a log its last two thousand lines are kept, in their order.
pub proof fn law_log_end_is_kept(content: Seq<char>, k: int)
    ensures
        ({
            let lines = text::lines_of(content);
            let kept = dash::log_tail(content);
            &&& kept.len() == if lines.len() < 2000 {
                lines.len()
            } else {
                2000
            }
            &&& 0 <= k < kept.len() ==> kept[k] == lines[lines.len() - kept.len() + k]
        }),
{
}

/// A log that fits is shown whole, and one that is scrolled up further than it goes from its start.
pub proof fn law_visible_edges(s: DashState, logs: Seq<Seq<char>>, height: u16)
    requires
        height > 2,
    ensures
        logs.len() <= height - 2 ==> dash::visible(s, logs, height) == logs,
        logs.len() > height - 2 && s.log_scroll >= logs.len() - (height - 2) ==> dash::visible(
            s,
            logs,
            height,
        ) == logs.take(height - 2),
{
    if logs.len() <= height - 2 {
        assert(dash::visible(s, logs, height) =~= logs);
    } else if s.log_scroll >= logs.len() - (height - 2) {
        assert(dash::visible(s, logs, height) =~= logs.take(height - 2));
    }
}

/// With the radio simulator, the top of the dashboard says how many UEs there are and in which
/// namespaces.
pub proof fn law_header_names_ues(
    s: DashState,
    gnb_running: bool,
    ps: ProxyStatus,
    ts: TrafficStatus,
    n: usize,
)
    requires
        s.rfsim,
        ts.num_ues == Some(n),
    ensures
        ({
            let h = dash::header_lines(s, gnb_running, ps, ts);
            &&& h[1][2].text == "   UEs: "@ + text::dec(n as nat) + "  ns: uesim1..uesim"@ + text::dec(
                n as nat,
            )
            &&& h[0][1] != dash::header_lines(s, !gnb_running, ps, ts)[0][1]
        }),
{
    reveal_strlit("  ns: ");
    reveal_strlit("uesim");
    reveal_strlit("1..");
    reveal_strlit("  ns: uesim1..uesim");
    assert("  ns: "@ + "uesim"@ + "1.."@ + "uesim"@ =~= "  ns: uesim1..uesim"@);
    let h = dash::header_lines(s, gnb_running, ps, ts);
    assert(h[1][2].text =~= "   UEs: "@ + text::dec(n as nat) + "  ns: uesim1..uesim"@ + text::dec(
        n as nat,
    ));
}

/// The logs are called by the names of their files.
pub proof fn law_logs_are_called_by_name(ue: usize)
    ensures
        dash::source_label(LogSrc::Radio, true, ue) == "gnb.log"@,
        dash::source_label(LogSrc::Radio, false, ue) == "proxy.log"@,
        dash::source_label(LogSrc::NrUe, true, ue) == "nr-ue"@ + text::dec(ue as nat) + ".log"@,
        dash::source_label(LogSrc::NrUe, false, ue) == "nr-ue.log"@,
        dash::source_label(LogSrc::Traffic, true, ue) == dash::source_label(
            LogSrc::Traffic,
            false,
            ue,
        ),
        dash::source_label(LogSrc::Traffic, true, ue) == "traffic.log"@,
{
}

} // verus!
