//! The status of a running simulation: the printed report, and the live dashboard with its table
//! of UEs, the details of one UE and the log below.

use vstd::prelude::*;

use crate::keys::Key;
use crate::order;
use crate::paths;
use crate::slice;
use crate::text;
use crate::ui;
use crate::ui::{Color, Span, SpanView, Style, TableRow, TableRowView};

verus! {

// ---------------------------------------------------------------------------
// What was reported
// ---------------------------------------------------------------------------

/// What the proxy last reported.
pub struct ProxyStatus {
    pub running: Option<bool>,
    pub n_ues: Option<usize>,
    pub dl_frames: Option<u64>,
    pub ul_frames: Option<u64>,
    pub dl_errors: Option<u64>,
    pub ul_errors: Option<u64>,
    pub uptime_s: Option<u64>,
}

/// What the traffic engine last reported of one UE. Numbers are decimal texts: the rates with two
/// places and only where they are above zero, the latency with one, and the loss with one and
/// only where it is above zero.
pub struct UeMetrics {
    pub ip: Option<String>,
    pub pattern: Option<String>,
    pub status: Option<String>,
    pub dl_mbps: Option<String>,
    pub ul_mbps: Option<String>,
    pub latency_ms: Option<String>,
    pub loss_pct: Option<String>,
}

/// What the traffic engine last reported; every UE stands under its own name, in any order.
pub struct TrafficStatus {
    pub num_ues: Option<usize>,
    pub ues: Option<Vec<(String, UeMetrics)>>,
}

pub open spec fn or_zero(n: Option<u64>) -> u64 {
    match n {
        Some(v) => v,
        None => 0,
    }
}

/// The text of a field, or another text where there is none.
pub open spec fn text_or(t: Option<String>, other: Seq<char>) -> Seq<char> {
    match t {
        Some(s) => s@,
        None => other,
    }
}

fn zero_or(n: Option<u64>) -> (r: u64)
    ensures
        r == or_zero(n),
{
    match n {
        Some(v) => v,
        None => 0,
    }
}

fn or_text<'a>(t: &'a Option<String>, other: &'a str) -> (r: &'a str)
    ensures
        r@ == text_or(*t, other@),
{
    match t {
        Some(s) => s.as_str(),
        None => other,
    }
}

impl ProxyStatus {
    pub open spec fn errors(self) -> nat {
        or_zero(self.dl_errors) as nat + or_zero(self.ul_errors) as nat
    }

    /// The errors of both directions can be added up.
    pub fn errors_fit(&self) -> (r: bool)
        ensures
            r == (self.errors() <= u64::MAX),
    {
        zero_or(self.dl_errors) <= u64::MAX - zero_or(self.ul_errors)
    }
}

/// A number of seconds as hours, minutes and seconds.
pub open spec fn uptime_text(s: nat) -> Seq<char> {
    text::pad_left(text::dec(s / 3600), '0', 2) + ":"@ + text::pad_left(
        text::dec((s % 3600) / 60),
        '0',
        2,
    ) + ":"@ + text::pad_left(text::dec(s % 60), '0', 2)
}

/// A number of seconds as hours, minutes and seconds.
pub fn fmt_uptime(s: u64) -> (r: String)
    ensures
        r@ == uptime_text(s as nat),
{
    let mut out = text::padded_left(text::dec_text(s / 3600).as_str(), '0', 2);
    out.append(":");
    out.append(text::padded_left(text::dec_text((s % 3600) / 60).as_str(), '0', 2).as_str());
    out.append(":");
    out.append(text::padded_left(text::dec_text(s % 60).as_str(), '0', 2).as_str());
    out
}

// ---------------------------------------------------------------------------
// The order of the UEs
// ---------------------------------------------------------------------------

/// The UE that a name numbers.
pub open spec fn id_of_name(name: Seq<char>) -> Option<usize> {
    match text::number(name, 10, usize::MAX as nat) {
        Some(n) => Some(n as usize),
        None => None,
    }
}

fn read_id(name: &str) -> (r: Option<usize>)
    ensures
        r == id_of_name(name@),
{
    let chars = text::chars_of(name);
    match text::read_number(chars.as_slice(), 10, usize::MAX as u64) {
        Some(n) => Some(n as usize),
        None => None,
    }
}

/// A UE with its position in a report, put behind those whose number is not larger.
pub open spec fn placed(s: Seq<(usize, usize)>, x: (usize, usize)) -> Seq<(usize, usize)>
    decreases s.len(),
{
    if s.len() == 0 || s.last().0 <= x.0 {
        s.push(x)
    } else {
        placed(s.drop_last(), x).push(s.last())
    }
}

/// The numbered UEs among the first `n` of a report with their positions, in ascending order.
pub open spec fn ordered(ues: Seq<(String, UeMetrics)>, n: int) -> Seq<(usize, usize)>
    decreases n,
{
    if n <= 0 {
        seq![]
    } else {
        match id_of_name(ues[n - 1].0@) {
            Some(id) => placed(ordered(ues, n - 1), (id, (n - 1) as usize)),
            None => ordered(ues, n - 1),
        }
    }
}

/// The rows of the table of UEs: number, and position in the report.
pub open spec fn ue_order(ts: TrafficStatus) -> Seq<(usize, usize)> {
    match ts.ues {
        Some(v) => ordered(v@, v@.len() as int),
        None => seq![],
    }
}

fn place(v: &mut Vec<(usize, usize)>, x: (usize, usize))
    ensures
        final(v)@ == placed(old(v)@, x),
{
    let n = v.len();
    let mut k: usize = n;
    assert(v@.take(n as int) == v@);
    assert(placed(v@.take(k as int), x) + v@.skip(k as int) == placed(v@, x));
    while k > 0 && v[k - 1].0 > x.0
        invariant
            k <= n,
            n == v.len(),
            v@ == old(v)@,
            placed(v@.take(k as int), x) + v@.skip(k as int) == placed(old(v)@, x),
        decreases k,
    {
        proof {
            let t = v@.take(k as int);
            assert(t.last() == v@[k - 1]);
            assert(t.drop_last() == v@.take(k - 1));
            assert(placed(t, x) + v@.skip(k as int) == placed(v@.take(k - 1), x) + v@.skip(k - 1));
        }
        k = k - 1;
    }
    assert(placed(v@.take(k as int), x) == v@.take(k as int).push(x)) by {
        if k > 0 {
            assert(v@.take(k as int).last() == v@[k - 1]);
        }
    }
    v.insert(k, x);
    assert(v@ == placed(old(v)@, x));
}

/// The rows of the table of UEs: number, and position in the report.
pub fn ue_rows(ts: &TrafficStatus) -> (r: Vec<(usize, usize)>)
    ensures
        r@ == ue_order(*ts),
        forall|i: int| 0 <= i < r@.len() ==> ts.ues is Some && (#[trigger] r@[i]).1 < ts.ues->0@.len(),
{
    let mut out: Vec<(usize, usize)> = Vec::new();
    match &ts.ues {
        Some(v) => {
            let mut i: usize = 0;
            while i < v.len()
                invariant
                    i <= v.len(),
                    out@ == ordered(v@, i as int),
                decreases v.len() - i,
            {
                match read_id(v[i].0.as_str()) {
                    Some(id) => {
                        place(&mut out, (id, i));
                    },
                    None => {},
                }
                i = i + 1;
            }
            proof {
                law_ue_order(v@, v@.len() as int);
            }
        },
        None => {},
    }
    out
}

proof fn lemma_placed(s: Seq<(usize, usize)>, x: (usize, usize))
    requires
        forall|i: int, j: int| 0 <= i <= j < s.len() ==> (#[trigger] s[i]).0 <= (#[trigger] s[j]).0,
    ensures
        forall|i: int, j: int|
            0 <= i <= j < placed(s, x).len() ==> (#[trigger] placed(s, x)[i]).0 <= (
            #[trigger] placed(s, x)[j]).0,
        forall|y: (usize, usize)|
            #[trigger] placed(s, x).contains(y) <==> y == x || s.contains(y),
        placed(s, x).len() == s.len() + 1,
        forall|i: int|
            0 <= i < placed(s, x).len() ==> (#[trigger] placed(s, x)[i]).0 <= if s.len() == 0
                || s.last().0 <= x.0 {
                x.0
            } else {
                s.last().0
            },
    decreases s.len(),
{
    let r = placed(s, x);
    if s.len() == 0 || s.last().0 <= x.0 {
        assert forall|y: (usize, usize)| r.contains(y) <==> y == x || s.contains(y) by {
            assert(r[s.len() as int] == x);
            if s.contains(y) {
                let k = choose|k: int| 0 <= k < s.len() && s[k] == y;
                assert(r[k] == y);
            }
            if r.contains(y) && y != x {
                let k = choose|k: int| 0 <= k < r.len() && r[k] == y;
                assert(s[k] == y);
            }
        }
    } else {
        let d = s.drop_last();
        lemma_placed(d, x);
        let p = placed(d, x);
        assert(r == p.push(s.last()));
        assert(d.len() > 0 ==> d.last().0 <= s.last().0);
        assert forall|y: (usize, usize)| r.contains(y) <==> y == x || s.contains(y) by {
            assert(r[p.len() as int] == s.last());
            if p.contains(y) {
                let k = choose|k: int| 0 <= k < p.len() && p[k] == y;
                assert(r[k] == y);
            }
            if s.contains(y) {
                let k = choose|k: int| 0 <= k < s.len() && s[k] == y;
                if k < d.len() {
                    assert(d[k] == y);
                }
            }
            if d.contains(y) {
                let k = choose|k: int| 0 <= k < d.len() && d[k] == y;
                assert(s[k] == y);
            }
            if r.contains(y) {
                let k = choose|k: int| 0 <= k < r.len() && r[k] == y;
                if k < p.len() {
                    assert(p[k] == y);
                } else {
                    assert(s[s.len() - 1] == y);
                }
            }
        }
    }
}

/// The rows are in ascending order of the UEs' numbers, and there is one for every UE of the
/// report whose name is a number, and no other.
pub proof fn law_ue_order(ues: Seq<(String, UeMetrics)>, n: int)
    requires
        0 <= n <= ues.len(),
        ues.len() <= usize::MAX,
    ensures
        forall|i: int, j: int|
            0 <= i <= j < ordered(ues, n).len() ==> (#[trigger] ordered(ues, n)[i]).0 <= (
            #[trigger] ordered(ues, n)[j]).0,
        forall|i: int|
            0 <= i < ordered(ues, n).len() ==> (#[trigger] ordered(ues, n)[i]).1 < n && id_of_name(
                ues[ordered(ues, n)[i].1 as int].0@,
            ) == Some(ordered(ues, n)[i].0),
        forall|k: int|
            0 <= k < n && id_of_name((#[trigger] ues[k]).0@) is Some ==> ordered(ues, n).contains(
                (id_of_name(ues[k].0@)->0, k as usize),
            ),
    decreases n,
{
    if n > 0 {
        law_ue_order(ues, n - 1);
        let before = ordered(ues, n - 1);
        let after = ordered(ues, n);
        match id_of_name(ues[n - 1].0@) {
            Some(id) => {
                let x = (id, (n - 1) as usize);
                lemma_placed(before, x);
                assert forall|i: int| 0 <= i < after.len() implies (#[trigger] after[i]).1 < n
                    && id_of_name(ues[after[i].1 as int].0@) == Some(after[i].0) by {
                    assert(placed(before, x).contains(after[i]));
                    if after[i] != x {
                        assert(before.contains(after[i]));
                        let k = choose|k: int| 0 <= k < before.len() && before[k] == after[i];
                        assert(before[k].1 < n - 1);
                    }
                }
                assert forall|k: int|
                    0 <= k < n && id_of_name((#[trigger] ues[k]).0@) is Some implies after.contains(
                    (id_of_name(ues[k].0@)->0, k as usize),
                ) by {
                    if k < n - 1 {
                        assert(before.contains((id_of_name(ues[k].0@)->0, k as usize)));
                    }
                }
            },
            None => {},
        }
    }
}

// ---------------------------------------------------------------------------
// Styles of log lines, states and patterns
// ---------------------------------------------------------------------------

/// How a log line looks: by the first severity that it names.
pub open spec fn log_look(line: Seq<char>) -> Style {
    if text::contains(line, "] [E] "@) || text::contains(line, "ERROR"@) || text::contains(
        line,
        "[ERR"@,
    ) {
        ui::colored(Color::Rgb(235, 70, 70))
    } else if text::contains(line, "] [W] "@) || text::contains(line, "WARN"@) {
        ui::colored(Color::Rgb(210, 140, 0))
    } else if text::contains(line, "] [I] "@) || text::contains(line, "INFO"@) || text::contains(
        line,
        "[start]"@,
    ) || text::contains(line, "[stop]"@) || text::contains(line, "[proxy]"@) || text::contains(
        line,
        "[traffic]"@,
    ) {
        ui::colored(Color::Rgb(0, 185, 90))
    } else if text::contains(line, "] [D] "@) || text::contains(line, "DEBUG"@) {
        ui::colored(Color::Rgb(65, 155, 235))
    } else if text::contains(line, "] [T] "@) || text::contains(line, "TRACE"@) {
        ui::colored(Color::Rgb(190, 70, 190))
    } else {
        ui::colored(Color::Rgb(185, 175, 155))
    }
}

/// How a log line looks.
pub fn log_style(line: &str) -> (r: Style)
    ensures
        r == log_look(line@),
{
    let chars = text::chars_of(line);
    let l = chars.as_slice();
    if text::has(l, "] [E] ") || text::has(l, "ERROR") || text::has(l, "[ERR") {
        Style::fg(Color::Rgb(235, 70, 70))
    } else if text::has(l, "] [W] ") || text::has(l, "WARN") {
        Style::fg(Color::Rgb(210, 140, 0))
    } else if text::has(l, "] [I] ") || text::has(l, "INFO") || text::has(l, "[start]")
        || text::has(l, "[stop]") || text::has(l, "[proxy]") || text::has(l, "[traffic]") {
        Style::fg(Color::Rgb(0, 185, 90))
    } else if text::has(l, "] [D] ") || text::has(l, "DEBUG") {
        Style::fg(Color::Rgb(65, 155, 235))
    } else if text::has(l, "] [T] ") || text::has(l, "TRACE") {
        Style::fg(Color::Rgb(190, 70, 190))
    } else {
        Style::fg(Color::Rgb(185, 175, 155))
    }
}

/// A UE's state as it is shown.
pub open spec fn status_look(s: Seq<char>) -> SpanView {
    if s == "active"@ {
        ui::strong("● active"@, Color::Rgb(0, 175, 80))
    } else if s == "waiting_iface"@ {
        ui::tinted("○ waiting..."@, Color::Rgb(210, 140, 0))
    } else if s == "no_ip"@ {
        ui::tinted("○ no_ip"@, Color::Rgb(235, 70, 70))
    } else if s == "no_iperf_server"@ {
        ui::tinted("○ no iperf"@, Color::Rgb(235, 70, 70))
    } else {
        ui::tinted(s, Color::Rgb(185, 175, 155))
    }
}

/// A UE's state as it is shown.
pub fn status_style(s: &str) -> (r: Span)
    ensures
        r@ == status_look(s@),
{
    if text::same_text(s, "active") {
        ui::b("● active", Color::Rgb(0, 175, 80))
    } else if text::same_text(s, "waiting_iface") {
        ui::s("○ waiting...", Color::Rgb(210, 140, 0))
    } else if text::same_text(s, "no_ip") {
        ui::s("○ no_ip", Color::Rgb(235, 70, 70))
    } else if text::same_text(s, "no_iperf_server") {
        ui::s("○ no iperf", Color::Rgb(235, 70, 70))
    } else {
        ui::s(s, Color::Rgb(185, 175, 155))
    }
}

/// How a traffic pattern looks.
pub open spec fn pattern_look(p: Seq<char>) -> Style {
    if p == "speedtest"@ {
        ui::bold(Color::Rgb(60, 150, 235))
    } else if p == "video"@ {
        ui::bold(Color::Rgb(190, 70, 190))
    } else if p == "load"@ {
        ui::bold(Color::Rgb(215, 125, 0))
    } else {
        ui::colored(Color::Rgb(175, 165, 145))
    }
}

/// How a traffic pattern looks.
pub fn pattern_style(p: &str) -> (r: Style)
    ensures
        r == pattern_look(p@),
{
    if text::same_text(p, "speedtest") {
        Style::strong(Color::Rgb(60, 150, 235))
    } else if text::same_text(p, "video") {
        Style::strong(Color::Rgb(190, 70, 190))
    } else if text::same_text(p, "load") {
        Style::strong(Color::Rgb(215, 125, 0))
    } else {
        Style::fg(Color::Rgb(175, 165, 145))
    }
}

// ---------------------------------------------------------------------------
// The printed report
// ---------------------------------------------------------------------------

/// Seven columns, each filled up to its width.
pub open spec fn report_row(c: Seq<Seq<char>>) -> Seq<char> {
    text::pad_right(c[0], 4) + " "@ + text::pad_right(c[1], 17) + " "@ + text::pad_right(c[2], 15)
        + " "@ + text::pad_right(c[3], 10) + " "@ + text::pad_right(c[4], 9) + " "@
        + text::pad_right(c[5], 9) + " "@ + text::pad_right(c[6], 10)
}

/// The row of one UE.
pub open spec fn metrics_row(id: usize, m: UeMetrics) -> Seq<char> {
    report_row(
        seq![
            text::dec(id as nat),
            text_or(m.ip, "—"@),
            text_or(m.status, "—"@),
            text_or(m.pattern, "idle"@),
            text_or(m.dl_mbps, "—"@),
            text_or(m.ul_mbps, "—"@),
            text_or(m.latency_ms, "—"@),
        ],
    )
}

/// The numbers of the UEs of a report, in its order.
pub open spec fn report_ids(ues: Seq<(String, UeMetrics)>, n: int) -> Seq<usize>
    decreases n,
{
    if n <= 0 {
        seq![]
    } else {
        match id_of_name(ues[n - 1].0@) {
            Some(id) => report_ids(ues, n - 1).push(id),
            None => report_ids(ues, n - 1),
        }
    }
}

/// What a report says of a name.
pub open spec fn metrics_of(ues: Seq<(String, UeMetrics)>, name: Seq<char>) -> Option<UeMetrics>
    decreases ues.len(),
{
    if ues.len() == 0 {
        None
    } else if ues[0].0@ == name {
        Some(ues[0].1)
    } else {
        metrics_of(ues.skip(1), name)
    }
}

/// The rows of the first `n` UEs of some that stand under their plain numbers.
pub open spec fn report_rows(
    ues: Seq<(String, UeMetrics)>,
    ids: Seq<usize>,
    n: int,
) -> Seq<Seq<char>>
    decreases n,
{
    if n <= 0 {
        seq![]
    } else {
        match metrics_of(ues, text::dec(ids[n - 1] as nat)) {
            Some(m) => report_rows(ues, ids, n - 1).push(metrics_row(ids[n - 1], m)),
            None => report_rows(ues, ids, n - 1),
        }
    }
}

pub open spec fn running_text(up: bool) -> Seq<char> {
    if up {
        "● RUNNING"@
    } else {
        "○ STOPPED"@
    }
}

pub open spec fn or_false(b: Option<bool>) -> bool {
    match b {
        Some(v) => v,
        None => false,
    }
}

pub open spec fn count_or(n: Option<usize>, other: usize) -> usize {
    match n {
        Some(v) => v,
        None => other,
    }
}

pub open spec fn report_state(
    rfsim: bool,
    gnb_running: bool,
    ps: ProxyStatus,
    ts: TrafficStatus,
) -> Seq<char> {
    if rfsim {
        "gNB: "@ + running_text(gnb_running) + "   UEs: "@ + text::dec(
            count_or(ts.num_ues, 0) as nat,
        ) + "   Mode: rfsim (per-namespace)"@
    } else {
        "Proxy: "@ + running_text(or_false(ps.running)) + "  Uptime: "@ + uptime_text(
            or_zero(ps.uptime_s) as nat,
        ) + "  DL: "@ + text::dec(or_zero(ps.dl_frames) as nat) + " fr  UL: "@ + text::dec(
            or_zero(ps.ul_frames) as nat,
        ) + " fr  Errors: "@ + text::dec(ps.errors())
    }
}

/// The lines of the report.
pub open spec fn report_lines(
    rfsim: bool,
    gnb_running: bool,
    ps: ProxyStatus,
    ts: TrafficStatus,
) -> Seq<Seq<char>> {
    seq![
        "─── Multi-UE Simulation Status ──────────────────────────────────────────"@,
        report_state(rfsim, gnb_running, ps, ts),
        report_row(
            seq!["UE"@, "IP"@, "Status"@, "Pattern"@, "DL Mbps"@, "UL Mbps"@, "Lat ms"@],
        ),
        text::repeat('─', 76),
    ] + match ts.ues {
        Some(v) => {
            let ids = order::sorted(report_ids(v@, v@.len() as int));
            report_rows(v@, ids, ids.len() as int)
        },
        None => seq!["(no UE data — traffic engine not running)"@],
    }
}

/// Seven columns, each filled up to its width.
fn row_text(c: [&str; 7]) -> (r: String)
    ensures
        r@ == report_row(seq![c[0]@, c[1]@, c[2]@, c[3]@, c[4]@, c[5]@, c[6]@]),
{
    let mut out = text::padded_right(c[0], 4);
    out.append(" ");
    out.append(text::padded_right(c[1], 17).as_str());
    out.append(" ");
    out.append(text::padded_right(c[2], 15).as_str());
    out.append(" ");
    out.append(text::padded_right(c[3], 10).as_str());
    out.append(" ");
    out.append(text::padded_right(c[4], 9).as_str());
    out.append(" ");
    out.append(text::padded_right(c[5], 9).as_str());
    out.append(" ");
    out.append(text::padded_right(c[6], 10).as_str());
    out
}

fn find_metrics<'a>(ues: &'a Vec<(String, UeMetrics)>, name: &str) -> (r: Option<&'a UeMetrics>)
    ensures
        match r {
            Some(m) => metrics_of(ues@, name@) == Some(*m),
            None => metrics_of(ues@, name@) is None,
        },
{
    let mut i: usize = 0;
    assert(ues@.skip(0) == ues@);
    while i < ues.len()
        invariant
            i <= ues.len(),
            metrics_of(ues@, name@) == metrics_of(ues@.skip(i as int), name@),
        decreases ues.len() - i,
    {
        assert(ues@.skip(i as int)[0] == ues@[i as int]);
        assert(ues@.skip(i as int).skip(1) == ues@.skip(i + 1));
        if text::same_text(ues[i].0.as_str(), name) {
            return Some(&ues[i].1);
        }
        i = i + 1;
    }
    None
}

fn ids_in_report(ues: &Vec<(String, UeMetrics)>) -> (r: Vec<usize>)
    ensures
        r@ == report_ids(ues@, ues@.len() as int),
{
    let mut out: Vec<usize> = Vec::new();
    let mut i: usize = 0;
    while i < ues.len()
        invariant
            i <= ues.len(),
            out@ == report_ids(ues@, i as int),
        decreases ues.len() - i,
    {
        match read_id(ues[i].0.as_str()) {
            Some(id) => {
                out.push(id);
            },
            None => {},
        }
        i = i + 1;
    }
    out
}

fn put_text(v: &mut Vec<String>, t: String)
    ensures
        text::texts(final(v)@) == text::texts(old(v)@).push(t@),
{
    let ghost before = v@;
    let ghost shown = t@;
    v.push(t);
    assert(text::texts(v@) == text::texts(before).push(shown));
}

fn state_line(rfsim: bool, gnb_running: bool, ps: &ProxyStatus, ts: &TrafficStatus) -> (r: String)
    requires
        !rfsim ==> ps.errors() <= u64::MAX,
    ensures
        r@ == report_state(rfsim, gnb_running, *ps, *ts),
{
    if rfsim {
        let mut out = text::owned("gNB: ");
        out.append(running_word(gnb_running));
        out.append("   UEs: ");
        text::push_dec(
            &mut out,
            match ts.num_ues {
                Some(n) => n as u64,
                None => 0,
            },
        );
        out.append("   Mode: rfsim (per-namespace)");
        out
    } else {
        let up = match ps.running {
            Some(b) => b,
            None => false,
        };
        let mut out = text::owned("Proxy: ");
        out.append(running_word(up));
        out.append("  Uptime: ");
        out.append(fmt_uptime(zero_or(ps.uptime_s)).as_str());
        out.append("  DL: ");
        text::push_dec(&mut out, zero_or(ps.dl_frames));
        out.append(" fr  UL: ");
        text::push_dec(&mut out, zero_or(ps.ul_frames));
        out.append(" fr  Errors: ");
        text::push_dec(&mut out, zero_or(ps.dl_errors) + zero_or(ps.ul_errors));
        out
    }
}

fn running_word(up: bool) -> (r: &'static str)
    ensures
        r@ == running_text(up),
{
    if up {
        "● RUNNING"
    } else {
        "○ STOPPED"
    }
}

/// The lines of the report on a simulation.
pub fn render_status_once(
    rfsim: bool,
    gnb_running: bool,
    ps: &ProxyStatus,
    ts: &TrafficStatus,
) -> (r: Vec<String>)
    requires
        !rfsim ==> ps.errors() <= u64::MAX,
    ensures
        text::texts(r@) == report_lines(rfsim, gnb_running, *ps, *ts),
{
    let mut out: Vec<String> = Vec::new();
    assert(text::texts(out@) == Seq::<Seq<char>>::empty());
    put_text(
        &mut out,
        text::owned("─── Multi-UE Simulation Status ──────────────────────────────────────────"),
    );
    put_text(&mut out, state_line(rfsim, gnb_running, ps, ts));
    put_text(
        &mut out,
        row_text(["UE", "IP", "Status", "Pattern", "DL Mbps", "UL Mbps", "Lat ms"]),
    );
    let rule = text::padded_left("", '─', 76);
    proof {
        reveal_strlit("");
        assert(rule@ == text::repeat('─', 76));
    }
    put_text(&mut out, rule);
    let ghost head = text::texts(out@);
    match &ts.ues {
        Some(v) => {
            let ids = order::sort_ids(&ids_in_report(v));
            let mut i: usize = 0;
            assert(text::texts(out@) == head + report_rows(v@, ids@, 0));
            while i < ids.len()
                invariant
                    i <= ids.len(),
                    text::texts(out@) == head + report_rows(v@, ids@, i as int),
                decreases ids.len() - i,
            {
                let name = text::dec_text(ids[i] as u64);
                match find_metrics(v, name.as_str()) {
                    Some(m) => {
                        let row = row_text(
                            [
                                name.as_str(),
                                or_text(&m.ip, "—"),
                                or_text(&m.status, "—"),
                                or_text(&m.pattern, "idle"),
                                or_text(&m.dl_mbps, "—"),
                                or_text(&m.ul_mbps, "—"),
                                or_text(&m.latency_ms, "—"),
                            ],
                        );
                        assert(row@ == metrics_row(ids@[i as int], *m));
                        put_text(&mut out, row);
                        assert(text::texts(out@) == head + report_rows(v@, ids@, i + 1));
                    },
                    None => {},
                }
                i = i + 1;
            }
        },
        None => {
            put_text(&mut out, text::owned("(no UE data — traffic engine not running)"));
        },
    }
    assert(text::texts(out@) =~= report_lines(rfsim, gnb_running, *ps, *ts));
    out
}

// ---------------------------------------------------------------------------
// The logs of a simulation
// ---------------------------------------------------------------------------

/// The log that the dashboard shows.
#[derive(Clone, Copy, PartialEq, Eq, Debug, Structural)]
pub enum LogSrc {
    Radio,
    NrUe,
    Traffic,
}

pub open spec fn next_source(s: LogSrc) -> LogSrc {
    match s {
        LogSrc::Radio => LogSrc::NrUe,
        LogSrc::NrUe => LogSrc::Traffic,
        LogSrc::Traffic => LogSrc::Radio,
    }
}

pub open spec fn source_path(s: LogSrc, scripts: Seq<char>, rfsim: bool, ue: usize) -> Seq<char> {
    match s {
        LogSrc::Radio => if rfsim {
            paths::log_named(scripts, "gnb.log"@)
        } else {
            paths::log_named(scripts, "proxy_nue.log"@)
        },
        LogSrc::NrUe => if rfsim {
            paths::ue_log(scripts, ue as nat)
        } else {
            paths::log_named(scripts, "traffic_nue.log"@)
        },
        LogSrc::Traffic => paths::log_named(scripts, "traffic_nue.log"@),
    }
}

pub open spec fn source_label(s: LogSrc, rfsim: bool, ue: usize) -> Seq<char> {
    match s {
        LogSrc::Radio => if rfsim {
            "gnb.log"@
        } else {
            "proxy.log"@
        },
        LogSrc::NrUe => if rfsim {
            "nr-ue"@ + text::dec(ue as nat) + ".log"@
        } else {
            "nr-ue.log"@
        },
        LogSrc::Traffic => "traffic.log"@,
    }
}

impl LogSrc {
    /// Where the log lies.
    pub fn path(self, scripts: &str, rfsim: bool, ue_idx: usize) -> (r: String)
        ensures
            r@ == source_path(self, scripts@, rfsim, ue_idx),
    {
        match self {
            LogSrc::Radio => if rfsim {
                paths::log_gnb(scripts)
            } else {
                paths::log_proxy(scripts)
            },
            LogSrc::NrUe => if rfsim {
                paths::log_nr_ue(scripts, ue_idx)
            } else {
                paths::log_nr_ue_all(scripts)
            },
            LogSrc::Traffic => paths::log_traffic(scripts),
        }
    }

    /// What the log is called.
    pub fn label(self, rfsim: bool, ue_idx: usize) -> (r: String)
        ensures
            r@ == source_label(self, rfsim, ue_idx),
    {
        match self {
            LogSrc::Radio => if rfsim {
                text::owned("gnb.log")
            } else {
                text::owned("proxy.log")
            },
            LogSrc::NrUe => if rfsim {
                let mut out = text::owned("nr-ue");
                text::push_dec(&mut out, ue_idx as u64);
                out.append(".log");
                out
            } else {
                text::owned("nr-ue.log")
            },
            LogSrc::Traffic => text::owned("traffic.log"),
        }
    }

    /// The log that comes after this one.
    pub fn next(self) -> (r: LogSrc)
        ensures
            r == next_source(self),
    {
        match self {
            LogSrc::Radio => LogSrc::NrUe,
            LogSrc::NrUe => LogSrc::Traffic,
            LogSrc::Traffic => LogSrc::Radio,
        }
    }
}

/// Stepping through the logs shows all three, and then the first one again.
pub proof fn law_logs_go_round(s: LogSrc)
    ensures
        next_source(s) != s,
        next_source(next_source(s)) != s,
        next_source(next_source(next_source(s))) == s,
{
}

/// The log file that a source on the command line names: `ue` with a number the log of that UE,
/// and anything unknown the log of the first UE or of all.
pub open spec fn named_log(source: Seq<char>, scripts: Seq<char>, rfsim: bool) -> Seq<char> {
    let usual = if rfsim {
        paths::ue_log(scripts, 1)
    } else {
        paths::log_named(scripts, "traffic_nue.log"@)
    };
    if text::starts_with(source, "ue"@) && source.len() > 2 {
        match id_of_name(source.skip(2)) {
            Some(i) => paths::ue_log(scripts, i as nat),
            None => usual,
        }
    } else if source == "traffic"@ {
        paths::log_named(scripts, "traffic_nue.log"@)
    } else if source == "gnb"@ {
        paths::log_named(scripts, "gnb.log"@)
    } else if source == "proxy"@ {
        paths::log_named(scripts, "proxy_nue.log"@)
    } else {
        usual
    }
}

fn usual_log(scripts: &str, rfsim: bool) -> (r: String)
    ensures
        r@ == if rfsim {
            paths::ue_log(scripts@, 1)
        } else {
            paths::log_named(scripts@, "traffic_nue.log"@)
        },
{
    if rfsim {
        paths::log_nr_ue(scripts, 1)
    } else {
        paths::log_nr_ue_all(scripts)
    }
}

/// The log file that a source on the command line names.
pub fn log_path(source: &str, scripts: &str, rfsim: bool) -> (r: String)
    ensures
        r@ == named_log(source@, scripts@, rfsim),
{
    let chars = text::chars_of(source);
    let s = chars.as_slice();
    if text::has_prefix(s, "ue") && s.len() > 2 {
        return match text::read_number(text::from_index(s, 2), 10, usize::MAX as u64) {
            Some(n) => paths::log_nr_ue(scripts, n as usize),
            None => usual_log(scripts, rfsim),
        };
    }
    if text::is_text(s, "traffic") {
        paths::log_traffic(scripts)
    } else if text::is_text(s, "gnb") {
        paths::log_gnb(scripts)
    } else if text::is_text(s, "proxy") {
        paths::log_proxy(scripts)
    } else {
        usual_log(scripts, rfsim)
    }
}

/// The arguments by which a log is shown: its last 50 lines and what follows, or its last 200.
pub open spec fn tail_args(path: Seq<char>, follow: bool) -> Seq<Seq<char>> {
    if follow {
        seq!["-f"@, "-n"@, "50"@, path]
    } else {
        seq!["-n"@, "200"@, path]
    }
}

/// The arguments by which the log that a source on the command line names is shown.
pub fn cmd_logs(source: &str, scripts: &str, rfsim: bool, follow: bool) -> (r: Vec<String>)
    ensures
        text::texts(r@) == tail_args(named_log(source@, scripts@, rfsim), follow),
{
    let path = log_path(source, scripts, rfsim);
    let ghost want = tail_args(path@, follow);
    let mut v: Vec<String> = Vec::new();
    if follow {
        v.push(text::owned("-f"));
        v.push(text::owned("-n"));
        v.push(text::owned("50"));
    } else {
        v.push(text::owned("-n"));
        v.push(text::owned("200"));
    }
    v.push(path);
    assert(text::texts(v@) =~= want);
    v
}

/// How many lines at the end of a log the dashboard holds.
pub const LOG_LINES: usize = 2000;

/// The lines of a log from some point on, as strings.
fn strings_from(lines: &Vec<Vec<char>>, start: usize) -> (r: Vec<String>)
    requires
        start <= lines@.len(),
    ensures
        text::texts(r@) == text::char_texts(lines@).skip(start as int),
{
    let mut out: Vec<String> = Vec::new();
    let mut i: usize = start;
    while i < lines.len()
        invariant
            start <= i <= lines.len(),
            out@.len() == i - start,
            forall|k: int| 0 <= k < out@.len() ==> #[trigger] out@[k]@ == lines@[start + k]@,
        decreases lines.len() - i,
    {
        out.push(text::string_of(lines[i].as_slice()));
        i = i + 1;
    }
    assert(text::texts(out@) == text::char_texts(lines@).skip(start as int));
    out
}

/// The last lines of a log.
pub fn last_lines(content: &str, n: usize) -> (r: Vec<String>)
    ensures
        text::texts(r@) == slice::tail(text::lines_of(content@), n as nat),
{
    let chars = text::chars_of(content);
    let lines = text::split_lines(chars.as_slice());
    let start: usize = if lines.len() > n {
        lines.len() - n
    } else {
        0
    };
    let out = strings_from(&lines, start);
    assert(text::texts(out@) == slice::tail(text::lines_of(content@), n as nat));
    out
}

/// The end of a log that is kept for the screen.
pub open spec fn log_tail(content: Seq<char>) -> Seq<Seq<char>> {
    slice::tail(text::lines_of(content), LOG_LINES as nat)
}

/// The lines of a log that the dashboard holds.
pub fn read_log_tail(content: &str) -> (r: Vec<String>)
    ensures
        text::texts(r@) == log_tail(content@),
{
    last_lines(content, LOG_LINES)
}

/// The part of a log that is on the screen.
pub struct LogWindow {
    /// How many lines lie below the window.
    pub offset: usize,
    pub start: usize,
    pub end: usize,
}

/// How far the log is scrolled up: no further than its first line allows.
pub open spec fn window_offset(total: nat, height: nat, scroll: nat) -> nat {
    let most = if total > height {
        (total - height) as nat
    } else {
        0
    };
    if scroll < most {
        scroll
    } else {
        most
    }
}

/// The part of a log that is on a screen of that height.
pub fn log_window(total: usize, height: usize, scroll: usize) -> (r: LogWindow)
    ensures
        r.offset == window_offset(total as nat, height as nat, scroll as nat),
        r.end == total - r.offset,
        r.start == if r.end > height {
            r.end - height
        } else {
            0
        },
        r.start <= r.end <= total,
{
    let most: usize = if total > height {
        total - height
    } else {
        0
    };
    let offset: usize = if scroll < most {
        scroll
    } else {
        most
    };
    let end: usize = total - offset;
    let start: usize = if end > height {
        end - height
    } else {
        0
    };
    LogWindow { offset, start, end }
}

/// The window is full wherever the log has enough lines, and shows all of a log that fits.
pub proof fn law_log_window_is_full(total: nat, height: nat, scroll: nat)
    ensures
        ({
            let end = total - window_offset(total, height, scroll);
            let start = if end > height {
                end - height
            } else {
                0
            };
            end - start == if total < height {
                total
            } else {
                height
            }
        }),
{
}

// ---------------------------------------------------------------------------
// The dashboard
// ---------------------------------------------------------------------------

/// The live dashboard.
#[derive(Clone, Copy, PartialEq, Eq, Debug, Structural)]
pub struct DashState {
    pub log_src: LogSrc,
    /// How many lines the log is scrolled up.
    pub log_scroll: usize,
    /// The selected row of the table of UEs.
    pub selected: Option<usize>,
    pub ue_count: usize,
    pub rfsim: bool,
    /// The UE whose log is shown.
    pub ue_log_idx: usize,
}

pub open spec fn fresh(rfsim: bool, mode_ues: usize) -> DashState {
    DashState {
        log_src: LogSrc::NrUe,
        log_scroll: 0,
        selected: Some(0),
        ue_count: if rfsim {
            mode_ues
        } else {
            0
        },
        rfsim,
        ue_log_idx: 1,
    }
}

pub open spec fn selected_or_first(s: DashState) -> usize {
    match s.selected {
        Some(i) => i,
        None => 0,
    }
}

pub open spec fn at_least_one(n: usize) -> usize {
    if n > 1 {
        n
    } else {
        1
    }
}

/// The UE whose log is shown exists, or is the first one.
pub open spec fn shows_a_ue(s: DashState) -> bool {
    1 <= s.ue_log_idx <= at_least_one(s.ue_count)
}

pub open spec fn larger(a: usize, b: usize) -> usize {
    if a > b {
        a
    } else {
        b
    }
}

/// The dashboard after a look at the reports: `listed` UEs are in the traffic report, which gives
/// `counted` as their number, and `mode_ues` are in the mode file.
pub open spec fn refreshed(
    s: DashState,
    listed: usize,
    counted: Option<usize>,
    mode_ues: usize,
) -> DashState {
    let seen = larger(listed, count_or(counted, 0));
    let ue_count = if s.rfsim {
        larger(seen, mode_ues)
    } else {
        seen
    };
    DashState {
        ue_count,
        ue_log_idx: if s.ue_log_idx == 0 || s.ue_log_idx > at_least_one(ue_count) {
            1
        } else {
            s.ue_log_idx
        },
        ..s
    }
}

/// The log of the next UE, from the first one again behind the last.
pub open spec fn log_of_next(s: DashState) -> DashState {
    DashState {
        ue_log_idx: (s.ue_log_idx % at_least_one(s.ue_count) + 1) as usize,
        log_scroll: 0,
        log_src: LogSrc::NrUe,
        ..s
    }
}

/// The log of the UE before, from the last one again before the first.
pub open spec fn log_of_prev(s: DashState) -> DashState {
    DashState {
        ue_log_idx: if s.ue_log_idx <= 1 {
            at_least_one(s.ue_count)
        } else {
            (s.ue_log_idx - 1) as usize
        },
        log_scroll: 0,
        log_src: LogSrc::NrUe,
        ..s
    }
}

pub open spec fn row_up(s: DashState) -> DashState {
    if selected_or_first(s) > 0 {
        DashState { selected: Some((selected_or_first(s) - 1) as usize), ..s }
    } else {
        s
    }
}

pub open spec fn row_down(s: DashState) -> DashState {
    if s.ue_count > 0 && selected_or_first(s) + 1 < s.ue_count {
        DashState { selected: Some((selected_or_first(s) + 1) as usize), ..s }
    } else {
        s
    }
}

pub open spec fn scrolled_up(s: DashState, n: usize) -> DashState {
    DashState {
        log_scroll: if s.log_scroll + n > usize::MAX {
            usize::MAX
        } else {
            (s.log_scroll + n) as usize
        },
        ..s
    }
}

pub open spec fn scrolled_down(s: DashState, n: usize) -> DashState {
    DashState {
        log_scroll: if s.log_scroll > n {
            (s.log_scroll - n) as usize
        } else {
            0
        },
        ..s
    }
}

/// What a key does, and whether it ends the dashboard.
pub open spec fn key_step(s: DashState, key: Key, ctrl: bool) -> (DashState, bool) {
    match key {
        Key::Esc => (s, true),
        Key::Tab => (DashState { log_src: next_source(s.log_src), log_scroll: 0, ..s }, false),
        Key::Up => (row_up(s), false),
        Key::Down => (row_down(s), false),
        Key::PageUp => (scrolled_up(s, 10), false),
        Key::PageDown => (scrolled_down(s, 10), false),
        Key::End => (DashState { log_scroll: 0, ..s }, false),
        Key::Char(c) => if c == 'q' || (c == 'c' && ctrl) {
            (s, true)
        } else if c == '[' {
            (log_of_prev(s), false)
        } else if c == ']' {
            (log_of_next(s), false)
        } else {
            (s, false)
        },
        _ => (s, false),
    }
}

impl DashState {
    /// The dashboard as it starts; the mode file says whether the radio simulator is used, and how
    /// many UEs there are.
    pub fn new(rfsim: bool, mode_ues: usize) -> (r: Self)
        ensures
            r == fresh(rfsim, mode_ues),
            shows_a_ue(r),
    {
        DashState {
            log_src: LogSrc::NrUe,
            log_scroll: 0,
            selected: Some(0),
            ue_count: if rfsim {
                mode_ues
            } else {
                0
            },
            rfsim,
            ue_log_idx: 1,
        }
    }

    fn selection(&self) -> (r: usize)
        ensures
            r == selected_or_first(*self),
    {
        match self.selected {
            Some(i) => i,
            None => 0,
        }
    }

    fn log_count(&self) -> (r: usize)
        ensures
            r == at_least_one(self.ue_count),
    {
        if self.ue_count > 1 {
            self.ue_count
        } else {
            1
        }
    }

    pub fn ue_up(&mut self)
        ensures
            *final(self) == row_up(*old(self)),
    {
        let s = self.selection();
        if s > 0 {
            self.selected = Some(s - 1);
        }
    }

    pub fn ue_down(&mut self)
        ensures
            *final(self) == row_down(*old(self)),
    {
        if self.ue_count == 0 {
            return ;
        }
        let s = self.selection();
        if s < self.ue_count - 1 {
            self.selected = Some(s + 1);
        }
    }

    pub fn log_up(&mut self, n: usize)
        ensures
            *final(self) == scrolled_up(*old(self), n),
    {
        self.log_scroll = self.log_scroll.saturating_add(n);
    }

    pub fn log_down(&mut self, n: usize)
        ensures
            *final(self) == scrolled_down(*old(self), n),
    {
        self.log_scroll = self.log_scroll.saturating_sub(n);
    }

    pub fn log_end(&mut self)
        ensures
            *final(self) == (DashState { log_scroll: 0, ..*old(self) }),
    {
        self.log_scroll = 0;
    }

    pub fn ue_log_next(&mut self)
        ensures
            *final(self) == log_of_next(*old(self)),
    {
        let max = self.log_count();
        self.ue_log_idx = self.ue_log_idx % max + 1;
        self.log_scroll = 0;
        self.log_src = LogSrc::NrUe;
    }

    pub fn ue_log_prev(&mut self)
        ensures
            *final(self) == log_of_prev(*old(self)),
    {
        let max = self.log_count();
        if self.ue_log_idx <= 1 {
            self.ue_log_idx = max;
        } else {
            self.ue_log_idx = self.ue_log_idx - 1;
        }
        self.log_scroll = 0;
        self.log_src = LogSrc::NrUe;
    }

    /// Takes over what the reports say.
    pub fn refresh(&mut self, ts: &TrafficStatus, mode_ues: usize)
        ensures
            *final(self) == refreshed(
                *old(self),
                match ts.ues {
                    Some(v) => v@.len() as usize,
                    None => 0,
                },
                ts.num_ues,
                mode_ues,
            ),
            shows_a_ue(*final(self)),
    {
        let mut n: usize = match &ts.ues {
            Some(v) => v.len(),
            None => 0,
        };
        match ts.num_ues {
            Some(k) => {
                if k > n {
                    n = k;
                }
            },
            None => {},
        }
        if self.rfsim && mode_ues > n {
            n = mode_ues;
        }
        self.ue_count = n;
        if self.ue_log_idx == 0 || self.ue_log_idx > self.log_count() {
            self.ue_log_idx = 1;
        }
    }

    /// Acts on a key; says whether it ends the dashboard.
    pub fn handle_key(&mut self, key: Key, ctrl: bool) -> (quit: bool)
        ensures
            (*final(self), quit) == key_step(*old(self), key, ctrl),
    {
        match key {
            Key::Esc => {
                return true;
            },
            Key::Tab => {
                self.log_src = self.log_src.next();
                self.log_scroll = 0;
            },
            Key::Up => {
                self.ue_up();
            },
            Key::Down => {
                self.ue_down();
            },
            Key::PageUp => {
                self.log_up(10);
            },
            Key::PageDown => {
                self.log_down(10);
            },
            Key::End => {
                self.log_end();
            },
            Key::Char(c) => {
                if c == 'q' || (c == 'c' && ctrl) {
                    return true;
                } else if c == '[' {
                    self.ue_log_prev();
                } else if c == ']' {
                    self.ue_log_next();
                }
            },
            _ => {},
        }
        false
    }
}

/// The log that is shown is always that of a UE there is, or of the first one, and going to the
/// next and back to the one before undo each other.
pub proof fn law_ue_logs_go_round(s: DashState, key: Key, ctrl: bool)
    requires
        shows_a_ue(s),
    ensures
        shows_a_ue(key_step(s, key, ctrl).0),
        log_of_prev(log_of_next(s)).ue_log_idx == s.ue_log_idx,
        log_of_next(log_of_prev(s)).ue_log_idx == s.ue_log_idx,
{
    let m = at_least_one(s.ue_count);
    if s.ue_log_idx == m {
        assert(m % m == 0) by (nonlinear_arith)
            requires
                m >= 1,
        ;
    } else {
        assert(s.ue_log_idx % m == s.ue_log_idx) by (nonlinear_arith)
            requires
                s.ue_log_idx < m,
        ;
    }
    let p = log_of_prev(s).ue_log_idx;
    if p == m {
        assert(m % m == 0) by (nonlinear_arith)
            requires
                m >= 1,
        ;
    } else {
        assert(p % m == p) by (nonlinear_arith)
            requires
                p < m,
        ;
    }
}

/// Where the selected row is one of a UE, no key moves the selection off the UEs.
pub proof fn law_selection_stays_in_table(s: DashState, key: Key, ctrl: bool)
    requires
        selected_or_first(s) < s.ue_count,
    ensures
        selected_or_first(key_step(s, key, ctrl).0) < s.ue_count,
        key_step(s, key, ctrl).0.ue_count == s.ue_count,
{
}

// ---------------------------------------------------------------------------
// What the dashboard shows
// ---------------------------------------------------------------------------

pub open spec fn detail(k: Seq<char>, v: SpanView) -> Seq<SpanView> {
    seq![ui::tinted(k, Color::DarkGray), v]
}

/// A number with its unit, or another text where there is none.
pub open spec fn measured(t: Option<String>, unit: Seq<char>, other: Seq<char>) -> Seq<char> {
    match t {
        Some(s) => s@ + unit,
        None => other,
    }
}

/// What is known of one UE.
pub open spec fn detail_lines(id: usize, m: UeMetrics, rfsim: bool) -> Seq<Seq<SpanView>> {
    seq![
        detail(
            "  Interface : "@,
            ui::tinted(
                if rfsim {
                    "oaitun_ue1 (in uesim"@ + text::dec(id as nat) + ")"@
                } else {
                    "oaitun_ue"@ + text::dec(id as nat)
                },
                Color::White,
            ),
        ),
        detail(
            "  IP        : "@,
            match m.ip {
                Some(t) => ui::strong(t@, Color::Green),
                None => ui::tinted("— (waiting for registration)"@, Color::Yellow),
            },
        ),
        detail("  Status    : "@, status_look(text_or(m.status, "—"@))),
        detail(
            "  Pattern   : "@,
            ui::styled(text_or(m.pattern, "idle"@), pattern_look(text_or(m.pattern, "idle"@))),
        ),
        seq![],
        detail("  DL        : "@, ui::tinted(measured(m.dl_mbps, " Mbps"@, "—"@), Color::Cyan)),
        detail("  UL        : "@, ui::tinted(measured(m.ul_mbps, " Mbps"@, "—"@), Color::Magenta)),
        detail("  Latency   : "@, ui::tinted(measured(m.latency_ms, " ms"@, "—"@), Color::Yellow)),
        detail("  Loss      : "@, ui::tinted(measured(m.loss_pct, "%"@, "0.0%"@), Color::White)),
    ]
}

fn detail_line(k: &str, v: &str, style: Style) -> (r: Vec<Span>)
    ensures
        ui::spans(r@) == detail(k@, ui::styled(v@, style)),
{
    let mut line = ui::no_spans();
    ui::put(&mut line, k, Style::fg(Color::DarkGray));
    ui::put(&mut line, v, style);
    assert(ui::spans(line@) =~= detail(k@, ui::styled(v@, style)));
    line
}

fn with_unit(t: &Option<String>, unit: &str, other: &str) -> (r: String)
    ensures
        r@ == measured(*t, unit@, other@),
{
    match t {
        Some(s) => slice::concat_texts(s.as_str(), unit),
        None => text::owned(other),
    }
}

/// What is known of one UE.
pub fn ue_detail_lines(id: usize, m: &UeMetrics, rfsim: bool) -> (r: Vec<Vec<Span>>)
    ensures
        ui::lines(r@) == detail_lines(id, *m, rfsim),
{
    let mut iface = text::owned(
        if rfsim {
            "oaitun_ue1 (in uesim"
        } else {
            "oaitun_ue"
        },
    );
    text::push_dec(&mut iface, id as u64);
    if rfsim {
        iface.append(")");
    }
    let status = status_style(or_text(&m.status, "—"));
    let pattern = or_text(&m.pattern, "idle");
    let mut out = ui::no_lines();
    ui::put_line(
        &mut out,
        detail_line("  Interface : ", iface.as_str(), Style::fg(Color::White)),
    );
    match &m.ip {
        Some(t) => {
            ui::put_line(
                &mut out,
                detail_line("  IP        : ", t.as_str(), Style::strong(Color::Green)),
            );
        },
        None => {
            ui::put_line(
                &mut out,
                detail_line(
                    "  IP        : ",
                    "— (waiting for registration)",
                    Style::fg(Color::Yellow),
                ),
            );
        },
    }
    ui::put_line(&mut out, detail_line("  Status    : ", status.text.as_str(), status.style));
    ui::put_line(&mut out, detail_line("  Pattern   : ", pattern, pattern_style(pattern)));
    ui::put_line(&mut out, ui::no_spans());
    ui::put_line(
        &mut out,
        detail_line(
            "  DL        : ",
            with_unit(&m.dl_mbps, " Mbps", "—").as_str(),
            Style::fg(Color::Cyan),
        ),
    );
    ui::put_line(
        &mut out,
        detail_line(
            "  UL        : ",
            with_unit(&m.ul_mbps, " Mbps", "—").as_str(),
            Style::fg(Color::Magenta),
        ),
    );
    ui::put_line(
        &mut out,
        detail_line(
            "  Latency   : ",
            with_unit(&m.latency_ms, " ms", "—").as_str(),
            Style::fg(Color::Yellow),
        ),
    );
    ui::put_line(
        &mut out,
        detail_line(
            "  Loss      : ",
            with_unit(&m.loss_pct, "%", "0.0%").as_str(),
            Style::fg(Color::White),
        ),
    );
    assert(ui::lines(out@) =~= detail_lines(id, *m, rfsim));
    out
}

pub open spec fn running_span(up: bool) -> SpanView {
    ui::strong(
        running_text(up),
        if up {
            Color::Green
        } else {
            Color::Red
        },
    )
}

/// The two lines at the top.
pub open spec fn header_lines(
    s: DashState,
    gnb_running: bool,
    ps: ProxyStatus,
    ts: TrafficStatus,
) -> Seq<Seq<SpanView>> {
    if s.rfsim {
        let n = text::dec(count_or(ts.num_ues, s.ue_count) as nat);
        seq![
            seq![ui::raw(" gNB: "@), running_span(gnb_running)],
            seq![
                ui::tinted(" Mode: "@, Color::DarkGray),
                ui::tinted("rfsim/ns"@, Color::Cyan),
                ui::tinted(
                    "   UEs: "@ + n + "  ns: "@ + paths::NS_PREFIX@ + "1.."@ + paths::NS_PREFIX@
                        + n,
                    Color::White,
                ),
            ],
        ]
    } else {
        seq![
            seq![ui::raw(" Proxy: "@), running_span(or_false(ps.running))],
            seq![
                ui::raw(" "@),
                ui::tinted("DL "@, Color::Cyan),
                ui::tinted(text::dec(or_zero(ps.dl_frames) as nat) + " frames"@, Color::White),
                ui::raw("   "@),
                ui::tinted("UL "@, Color::Magenta),
                ui::tinted(text::dec(or_zero(ps.ul_frames) as nat) + " frames"@, Color::White),
                ui::raw("   "@),
                ui::styled(
                    "Uptime: "@ + uptime_text(or_zero(ps.uptime_s) as nat) + "  Errors: "@
                        + text::dec(ps.errors()),
                    if ps.errors() > 0 {
                        ui::bold(Color::Red)
                    } else {
                        ui::colored(Color::DarkGray)
                    },
                ),
                ui::tinted(
                    "  UEs: "@ + text::dec(count_or(ps.n_ues, s.ue_count) as nat),
                    Color::White,
                ),
            ],
        ]
    }
}

/// The row of one UE.
pub open spec fn ue_cells(id: usize, m: UeMetrics) -> Seq<SpanView> {
    seq![
        ui::raw(text::dec(id as nat)),
        ui::raw(text_or(m.ip, "—"@)),
        status_look(text_or(m.status, "—"@)),
        ui::styled(text_or(m.pattern, "idle"@), pattern_look(text_or(m.pattern, "idle"@))),
        ui::raw(text_or(m.dl_mbps, "—"@)),
        ui::raw(text_or(m.ul_mbps, "—"@)),
        ui::raw(text_or(m.latency_ms, "—"@)),
    ]
}

/// The table of UEs; one row says so where there are none.
pub open spec fn ue_table(ts: TrafficStatus) -> Seq<TableRowView> {
    let rows = ue_order(ts);
    if rows.len() == 0 {
        seq![
            TableRowView {
                cells: seq![
                    ui::raw(""@),
                    ui::tinted("waiting for traffic engine..."@, Color::DarkGray),
                    ui::raw(""@),
                    ui::raw(""@),
                    ui::raw(""@),
                    ui::raw(""@),
                    ui::raw(""@),
                ],
                style: ui::unstyled(),
            },
        ]
    } else {
        Seq::new(
            rows.len(),
            |i: int|
                TableRowView {
                    cells: ue_cells(rows[i].0, ts.ues->0@[rows[i].1 as int].1),
                    style: ui::unstyled(),
                },
        )
    }
}

/// The pane of the selected UE: its title and its lines.
pub open spec fn detail_pane(s: DashState, ts: TrafficStatus) -> (SpanView, Seq<Seq<SpanView>>) {
    let rows = ue_order(ts);
    let k = selected_or_first(s);
    if k < rows.len() {
        (
            ui::strong(" UE "@ + text::dec(rows[k as int].0 as nat) + "  ↑↓ to select "@, Color::Green),
            detail_lines(rows[k as int].0, ts.ues->0@[rows[k as int].1 as int].1, s.rfsim),
        )
    } else {
        (
            ui::strong(" UE Detail  ↑↓ to select "@, Color::Green),
            seq![seq![ui::tinted("  (start simulation first)"@, Color::DarkGray)]],
        )
    }
}

/// The title of the log: whether it follows the end, and the keys.
pub open spec fn log_title(s: DashState, offset: nat) -> SpanView {
    let label = source_label(s.log_src, s.rfsim, s.ue_log_idx);
    let keys = s.rfsim && s.log_src == LogSrc::NrUe;
    if offset == 0 {
        ui::strong(
            if keys {
                " "@ + label + " ● live  [/]:UE  Tab → "@
            } else {
                " "@ + label + " ● live  Tab → "@
            },
            Color::Green,
        )
    } else {
        ui::strong(
            if keys {
                " "@ + label + " ↑"@ + text::dec(offset) + "  [/]:UE  End→tail  Tab → "@
            } else {
                " "@ + label + " ↑"@ + text::dec(offset) + "  End→tail  Tab → "@
            },
            Color::Yellow,
        )
    }
}

/// A piece of a log, each line in the style of its severity.
pub open spec fn styled_lines(lines: Seq<Seq<char>>) -> Seq<Seq<SpanView>> {
    Seq::new(lines.len(), |i: int| seq![ui::styled(lines[i], log_look(lines[i]))])
}

/// How many lines fit into a pane of that height, its border left out.
pub open spec fn inner_height(height: u16) -> nat {
    if height > 2 {
        (height - 2) as nat
    } else {
        0
    }
}

/// The part of the log that is on the screen.
pub open spec fn visible(s: DashState, logs: Seq<Seq<char>>, height: u16) -> Seq<Seq<char>> {
    let end = logs.len() - window_offset(logs.len(), inner_height(height), s.log_scroll as nat);
    let start = if end > inner_height(height) {
        end - inner_height(height)
    } else {
        0
    };
    logs.subrange(start, end)
}

pub open spec fn key_span(k: Seq<char>) -> SpanView {
    ui::tinted(k, Color::Yellow)
}

/// The keys at the bottom.
pub open spec fn footer_line(rfsim: bool) -> Seq<SpanView> {
    seq![
        key_span(" q"@),
        ui::raw("/Esc:quit  "@),
        key_span("Tab"@),
        ui::raw(
            ":cycle log ("@ + if rfsim {
                "gnb/nr-ueN/traffic"@
            } else {
                "proxy/nr-ue/traffic"@
            } + ")  "@,
        ),
        key_span("↑↓"@),
        ui::raw(":select UE  "@),
        key_span("PgUp/Dn"@),
        ui::raw(":scroll log  "@),
        key_span("End"@),
        ui::raw(":tail"@),
        ui::tinted(
            if rfsim {
                "  [/]:prev/next UE log"@
            } else {
                ""@
            },
            Color::Cyan,
        ),
    ]
}

/// What the dashboard shows.
pub struct DashScreen {
    pub header: Vec<Vec<Span>>,
    pub table: Vec<TableRow>,
    pub detail_title: Span,
    pub detail: Vec<Vec<Span>>,
    pub log_title: Span,
    pub log: Vec<Vec<Span>>,
    pub footer: Vec<Span>,
}

fn put_running(line: &mut Vec<Span>, up: bool)
    ensures
        ui::spans(final(line)@) == ui::spans(old(line)@).push(running_span(up)),
{
    ui::put(
        line,
        running_word(up),
        Style::strong(
            if up {
                Color::Green
            } else {
                Color::Red
            },
        ),
    );
}

/// The lines of a log from one index up to another, each in the style of its severity.
fn styled_part(logs: &Vec<String>, start: usize, end: usize) -> (r: Vec<Vec<Span>>)
    requires
        start <= end <= logs@.len(),
    ensures
        ui::lines(r@) == styled_lines(text::texts(logs@).subrange(start as int, end as int)),
{
    let ghost want = styled_lines(text::texts(logs@).subrange(start as int, end as int));
    let mut out = ui::no_lines();
    let mut i: usize = start;
    while i < end
        invariant
            start <= i <= end,
            end <= logs@.len(),
            want == styled_lines(text::texts(logs@).subrange(start as int, end as int)),
            ui::lines(out@) == want.take(i - start),
        decreases end - i,
    {
        let line = logs[i].as_str();
        ui::put_line(&mut out, ui::one_span(line, log_style(line)));
        proof {
            assert(want[i - start] == seq![ui::styled(line@, log_look(line@))]);
            assert(want.take(i + 1 - start) == want.take(i - start).push(want[i - start]));
        }
        i = i + 1;
    }
    assert(want.take(end - start) == want);
    out
}

impl DashState {
    fn rfsim_header(&self, gnb_running: bool, ts: &TrafficStatus) -> (r: Vec<Vec<Span>>)
        requires
            self.rfsim,
        ensures
            forall|ps: ProxyStatus|
                ui::lines(r@) == #[trigger] header_lines(*self, gnb_running, ps, *ts),
    {
        let mut first = ui::no_spans();
        ui::put(&mut first, " gNB: ", Style::plain());
        put_running(&mut first, gnb_running);
        let n: usize = match ts.num_ues {
            Some(k) => k,
            None => self.ue_count,
        };
        let mut range = text::owned("   UEs: ");
        text::push_dec(&mut range, n as u64);
        range.append("  ns: ");
        range.append(paths::NS_PREFIX);
        range.append("1..");
        range.append(paths::NS_PREFIX);
        text::push_dec(&mut range, n as u64);
        let mut second = ui::no_spans();
        ui::put(&mut second, " Mode: ", Style::fg(Color::DarkGray));
        ui::put(&mut second, "rfsim/ns", Style::fg(Color::Cyan));
        ui::put(&mut second, range.as_str(), Style::fg(Color::White));
        let mut out = ui::no_lines();
        let ghost a = ui::spans(first@);
        let ghost b = ui::spans(second@);
        ui::put_line(&mut out, first);
        ui::put_line(&mut out, second);
        proof {
            assert forall|ps: ProxyStatus|
                ui::lines(out@) == #[trigger] header_lines(*self, gnb_running, ps, *ts) by {
                let want = header_lines(*self, gnb_running, ps, *ts);
                assert(a =~= want[0]);
                assert(b =~= want[1]);
                assert(ui::lines(out@) =~= want);
            }
        }
        out
    }

    fn proxy_header(&self, ps: &ProxyStatus) -> (r: Vec<Vec<Span>>)
        requires
            !self.rfsim,
            ps.errors() <= u64::MAX,
        ensures
            forall|gnb_running: bool, ts: TrafficStatus|
                ui::lines(r@) == #[trigger] header_lines(*self, gnb_running, *ps, ts),
    {
        let up = match ps.running {
            Some(b) => b,
            None => false,
        };
        let mut first = ui::no_spans();
        ui::put(&mut first, " Proxy: ", Style::plain());
        put_running(&mut first, up);
        let mut dl = text::dec_text(zero_or(ps.dl_frames));
        dl.append(" frames");
        let mut ul = text::dec_text(zero_or(ps.ul_frames));
        ul.append(" frames");
        let errs: u64 = zero_or(ps.dl_errors) + zero_or(ps.ul_errors);
        let mut state = text::owned("Uptime: ");
        state.append(fmt_uptime(zero_or(ps.uptime_s)).as_str());
        state.append("  Errors: ");
        text::push_dec(&mut state, errs);
        let mut ues = text::owned("  UEs: ");
        text::push_dec(
            &mut ues,
            match ps.n_ues {
                Some(k) => k as u64,
                None => self.ue_count as u64,
            },
        );
        let mut second = ui::no_spans();
        ui::put(&mut second, " ", Style::plain());
        ui::put(&mut second, "DL ", Style::fg(Color::Cyan));
        ui::put(&mut second, dl.as_str(), Style::fg(Color::White));
        ui::put(&mut second, "   ", Style::plain());
        ui::put(&mut second, "UL ", Style::fg(Color::Magenta));
        ui::put(&mut second, ul.as_str(), Style::fg(Color::White));
        ui::put(&mut second, "   ", Style::plain());
        ui::put(
            &mut second,
            state.as_str(),
            if errs > 0 {
                Style::strong(Color::Red)
            } else {
                Style::fg(Color::DarkGray)
            },
        );
        ui::put(&mut second, ues.as_str(), Style::fg(Color::White));
        let mut out = ui::no_lines();
        let ghost a = ui::spans(first@);
        let ghost b = ui::spans(second@);
        ui::put_line(&mut out, first);
        ui::put_line(&mut out, second);
        proof {
            assert forall|gnb_running: bool, ts: TrafficStatus|
                ui::lines(out@) == #[trigger] header_lines(*self, gnb_running, *ps, ts) by {
                let want = header_lines(*self, gnb_running, *ps, ts);
                assert(a =~= want[0]);
                assert(b =~= want[1]);
                assert(ui::lines(out@) =~= want);
            }
        }
        out
    }

    /// The two lines at the top.
    pub fn render_header(
        &self,
        gnb_running: bool,
        ps: &ProxyStatus,
        ts: &TrafficStatus,
    ) -> (r: Vec<Vec<Span>>)
        requires
            !self.rfsim ==> ps.errors() <= u64::MAX,
        ensures
            ui::lines(r@) == header_lines(*self, gnb_running, *ps, *ts),
    {
        if self.rfsim {
            self.rfsim_header(gnb_running, ts)
        } else {
            self.proxy_header(ps)
        }
    }

    fn cells_of(id: usize, m: &UeMetrics) -> (r: Vec<Span>)
        ensures
            ui::spans(r@) == ue_cells(id, *m),
    {
        let status = status_style(or_text(&m.status, "—"));
        let pattern = or_text(&m.pattern, "idle");
        let mut cells = ui::no_spans();
        ui::put(&mut cells, text::dec_text(id as u64).as_str(), Style::plain());
        ui::put(&mut cells, or_text(&m.ip, "—"), Style::plain());
        ui::put(&mut cells, status.text.as_str(), status.style);
        ui::put(&mut cells, pattern, pattern_style(pattern));
        ui::put(&mut cells, or_text(&m.dl_mbps, "—"), Style::plain());
        ui::put(&mut cells, or_text(&m.ul_mbps, "—"), Style::plain());
        ui::put(&mut cells, or_text(&m.latency_ms, "—"), Style::plain());
        assert(ui::spans(cells@) =~= ue_cells(id, *m));
        cells
    }

    /// The table of UEs.
    pub fn render_table(ts: &TrafficStatus) -> (r: Vec<TableRow>)
        ensures
            ui::table(r@) == ue_table(*ts),
    {
        let rows = ue_rows(ts);
        let mut out = ui::no_rows();
        let ghost want = ue_table(*ts);
        if rows.len() == 0 {
            let mut cells = ui::no_spans();
            ui::put(&mut cells, "", Style::plain());
            ui::put(&mut cells, "waiting for traffic engine...", Style::fg(Color::DarkGray));
            ui::put(&mut cells, "", Style::plain());
            ui::put(&mut cells, "", Style::plain());
            ui::put(&mut cells, "", Style::plain());
            ui::put(&mut cells, "", Style::plain());
            ui::put(&mut cells, "", Style::plain());
            assert(ui::spans(cells@) =~= want[0].cells);
            ui::put_row(&mut out, cells, Style::plain());
            assert(ui::table(out@) =~= want);
            return out;
        }
        match &ts.ues {
            Some(v) => {
                let mut i: usize = 0;
                while i < rows.len()
                    invariant
                        i <= rows.len(),
                        rows@.len() > 0,
                        rows@ == ue_order(*ts),
                        ts.ues == Some(*v),
                        want == ue_table(*ts),
                        forall|k: int| 0 <= k < rows@.len() ==> (#[trigger] rows@[k]).1 < v@.len(),
                        ui::table(out@) == want.take(i as int),
                    decreases rows.len() - i,
                {
                    let (id, at) = rows[i];
                    assert(rows@[i as int].1 < v@.len());
                    ui::put_row(&mut out, Self::cells_of(id, &v[at].1), Style::plain());
                    assert(want.take(i + 1) == want.take(i as int).push(want[i as int]));
                    i = i + 1;
                }
                assert(want.take(i as int) == want);
            },
            None => {},
        }
        out
    }

    /// The pane of the selected UE: its title and its lines.
    pub fn render_detail(&self, ts: &TrafficStatus) -> (r: (Span, Vec<Vec<Span>>))
        ensures
            r.0@ == detail_pane(*self, *ts).0,
            ui::lines(r.1@) == detail_pane(*self, *ts).1,
    {
        let rows = ue_rows(ts);
        let k = self.selection();
        if k < rows.len() {
            let (id, at) = rows[k];
            assert(rows@[k as int].1 < ts.ues->0@.len());
            match &ts.ues {
                Some(v) => {
                    let mut title = text::owned(" UE ");
                    text::push_dec(&mut title, id as u64);
                    title.append("  ↑↓ to select ");
                    return (
                        ui::b(title.as_str(), Color::Green),
                        ue_detail_lines(id, &v[at].1, self.rfsim),
                    );
                },
                None => {},
            }
        }
        let mut out = ui::no_lines();
        ui::put_line(
            &mut out,
            ui::one_span("  (start simulation first)", Style::fg(Color::DarkGray)),
        );
        assert(ui::lines(out@) =~= detail_pane(*self, *ts).1);
        (ui::b(" UE Detail  ↑↓ to select ", Color::Green), out)
    }

    fn title_of_log(&self, offset: usize) -> (r: Span)
        ensures
            r@ == log_title(*self, offset as nat),
    {
        let keys = self.rfsim && self.log_src == LogSrc::NrUe;
        let mut t = text::owned(" ");
        t.append(self.log_src.label(self.rfsim, self.ue_log_idx).as_str());
        if offset == 0 {
            t.append(
                if keys {
                    " ● live  [/]:UE  Tab → "
                } else {
                    " ● live  Tab → "
                },
            );
            ui::b(t.as_str(), Color::Green)
        } else {
            t.append(" ↑");
            text::push_dec(&mut t, offset as u64);
            t.append(
                if keys {
                    "  [/]:UE  End→tail  Tab → "
                } else {
                    "  End→tail  Tab → "
                },
            );
            ui::b(t.as_str(), Color::Yellow)
        }
    }

    /// The pane of the log: its title and its visible lines.
    pub fn render_log(&self, logs: &Vec<String>, height: u16) -> (r: (Span, Vec<Vec<Span>>))
        ensures
            r.0@ == log_title(
                *self,
                window_offset(logs@.len(), inner_height(height), self.log_scroll as nat),
            ),
            ui::lines(r.1@) == styled_lines(visible(*self, text::texts(logs@), height)),
    {
        let h: usize = if height > 2 {
            height as usize - 2
        } else {
            0
        };
        let w = log_window(logs.len(), h, self.log_scroll);
        (self.title_of_log(w.offset), styled_part(logs, w.start, w.end))
    }

    /// The keys at the bottom.
    pub fn render_footer(&self) -> (r: Vec<Span>)
        ensures
            ui::spans(r@) == footer_line(self.rfsim),
    {
        let mut cycle = text::owned(":cycle log (");
        cycle.append(
            if self.rfsim {
                "gnb/nr-ueN/traffic"
            } else {
                "proxy/nr-ue/traffic"
            },
        );
        cycle.append(")  ");
        let key = Style::fg(Color::Yellow);
        let mut line = ui::no_spans();
        ui::put(&mut line, " q", key);
        ui::put(&mut line, "/Esc:quit  ", Style::plain());
        ui::put(&mut line, "Tab", key);
        ui::put(&mut line, cycle.as_str(), Style::plain());
        ui::put(&mut line, "↑↓", key);
        ui::put(&mut line, ":select UE  ", Style::plain());
        ui::put(&mut line, "PgUp/Dn", key);
        ui::put(&mut line, ":scroll log  ", Style::plain());
        ui::put(&mut line, "End", key);
        ui::put(&mut line, ":tail", Style::plain());
        ui::put(
            &mut line,
            if self.rfsim {
                "  [/]:prev/next UE log"
            } else {
                ""
            },
            Style::fg(Color::Cyan),
        );
        assert(ui::spans(line@) =~= footer_line(self.rfsim));
        line
    }

    /// What the dashboard shows; `logs` are the lines of the shown log and `height` is the height
    /// of its pane.
    pub fn render(
        &self,
        gnb_running: bool,
        ps: &ProxyStatus,
        ts: &TrafficStatus,
        logs: &Vec<String>,
        height: u16,
    ) -> (r: DashScreen)
        requires
            !self.rfsim ==> ps.errors() <= u64::MAX,
        ensures
            ui::lines(r.header@) == header_lines(*self, gnb_running, *ps, *ts),
            ui::table(r.table@) == ue_table(*ts),
            r.detail_title@ == detail_pane(*self, *ts).0,
            ui::lines(r.detail@) == detail_pane(*self, *ts).1,
            r.log_title@ == log_title(
                *self,
                window_offset(logs@.len(), inner_height(height), self.log_scroll as nat),
            ),
            ui::lines(r.log@) == styled_lines(visible(*self, text::texts(logs@), height)),
            ui::spans(r.footer@) == footer_line(self.rfsim),
    {
        let (detail_title, detail) = self.render_detail(ts);
        let (log_title, log) = self.render_log(logs, height);
        DashScreen {
            header: self.render_header(gnb_running, ps, ts),
            table: Self::render_table(ts),
            detail_title,
            detail,
            log_title,
            log,
            footer: self.render_footer(),
        }
    }
}

} // verus!
