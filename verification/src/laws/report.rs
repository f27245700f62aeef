//! What the printed report and the live table say of a UE.

use vstd::prelude::*;

use crate::dash;
use crate::dash::{DashState, ProxyStatus, TrafficStatus, UeMetrics};
use crate::keys::Key;
use crate::order;
use crate::paths;
use crate::reading;
use crate::text;

verus! {

/// What was reported, or the text that stands for nothing.
pub open spec fn told(t: Option<String>, nothing: Seq<char>) -> Seq<char> {
    match t {
        Some(s) => s@,
        None => nothing,
    }
}

/// The values of a UE are no wider than their columns.
pub open spec fn fits(id: usize, m: UeMetrics) -> bool {
    &&& text::dec(id as nat).len() <= 4
    &&& told(m.ip, "—"@).len() <= 17
    &&& told(m.status, "—"@).len() <= 15
    &&& told(m.pattern, "idle"@).len() <= 10
    &&& told(m.dl_mbps, "—"@).len() <= 9
    &&& told(m.ul_mbps, "—"@).len() <= 9
    &&& told(m.latency_ms, "—"@).len() <= 10
}

/// Seven values stand in the columns of the report.
pub open spec fn stands(line: Seq<char>, c: Seq<Seq<char>>) -> bool {
    &&& reading::in_column(line, 0, 4, c[0])
    &&& reading::in_column(line, 5, 17, c[1])
    &&& reading::in_column(line, 23, 15, c[2])
    &&& reading::in_column(line, 39, 10, c[3])
    &&& reading::in_column(line, 50, 9, c[4])
    &&& reading::in_column(line, 60, 9, c[5])
    &&& reading::in_column(line, 70, 10, c[6])
}

#[verifier::spinoff_prover]
#[verifier::rlimit(50)]
proof fn lemma_row_stands(c: Seq<Seq<char>>)
    requires
        c[0].len() <= 4,
        c[1].len() <= 17,
        c[2].len() <= 15,
        c[3].len() <= 10,
        c[4].len() <= 9,
        c[5].len() <= 9,
        c[6].len() <= 10,
    ensures
        stands(dash::report_row(c), c),
{
    reveal_strlit(" ");
    let line = dash::report_row(c);
    let sp = " "@;
    let p0 = text::pad_right(c[0], 4);
    let p1 = text::pad_right(c[1], 17);
    let p2 = text::pad_right(c[2], 15);
    let p3 = text::pad_right(c[3], 10);
    let p4 = text::pad_right(c[4], 9);
    let p5 = text::pad_right(c[5], 9);
    let p6 = text::pad_right(c[6], 10);
    let none = Seq::<char>::empty();
    let a6 = none;
    let a5 = sp + p6 + a6;
    let a4 = sp + p5 + a5;
    let a3 = sp + p4 + a4;
    let a2 = sp + p3 + a3;
    let a1 = sp + p2 + a2;
    let a0 = sp + p1 + a1;
    let b1 = p0 + sp;
    let b2 = b1 + p1 + sp;
    let b3 = b2 + p2 + sp;
    let b4 = b3 + p3 + sp;
    let b5 = b4 + p4 + sp;
    let b6 = b5 + p5 + sp;
    assert(line =~= none + p0 + a0);
    reading::lemma_in_column(none, c[0], 4, a0);
    assert(line =~= b1 + p1 + a1);
    reading::lemma_in_column(b1, c[1], 17, a1);
    assert(line =~= b2 + p2 + a2);
    reading::lemma_in_column(b2, c[2], 15, a2);
    assert(line =~= b3 + p3 + a3);
    reading::lemma_in_column(b3, c[3], 10, a3);
    assert(line =~= b4 + p4 + a4);
    reading::lemma_in_column(b4, c[4], 9, a4);
    assert(line =~= b5 + p5 + a5);
    reading::lemma_in_column(b5, c[5], 9, a5);
    assert(line =~= b6 + p6 + a6);
    reading::lemma_in_column(b6, c[6], 10, a6);
}

/// The headings of the report stand over the columns.
pub proof fn law_report_headings(
    rfsim: bool,
    gnb_running: bool,
    ps: ProxyStatus,
    ts: TrafficStatus,
)
    ensures
        stands(
            dash::report_lines(rfsim, gnb_running, ps, ts)[2],
            seq!["UE"@, "IP"@, "Status"@, "Pattern"@, "DL Mbps"@, "UL Mbps"@, "Lat ms"@],
        ),
{
    reveal_strlit("UE");
    reveal_strlit("IP");
    reveal_strlit("Status");
    reveal_strlit("Pattern");
    reveal_strlit("DL Mbps");
    reveal_strlit("UL Mbps");
    reveal_strlit("Lat ms");
    let c = seq!["UE"@, "IP"@, "Status"@, "Pattern"@, "DL Mbps"@, "UL Mbps"@, "Lat ms"@];
    lemma_row_stands(c);
}

proof fn lemma_id_listed(ues: Seq<(String, UeMetrics)>, n: int, i: int, id: usize)
    requires
        0 <= i < n <= ues.len(),
        ues[i].0@ == text::dec(id as nat),
    ensures
        dash::report_ids(ues, n).contains(id),
    decreases n,
{
    text::law_number_of_dec(id as nat, usize::MAX as nat);
    let ids = dash::report_ids(ues, n);
    if i == n - 1 {
        assert(ids[ids.len() - 1] == id);
    } else {
        lemma_id_listed(ues, n - 1, i, id);
        let before = dash::report_ids(ues, n - 1);
        let k = choose|k: int| 0 <= k < before.len() && before[k] == id;
        assert(ids[k] == id);
    }
}

proof fn lemma_first_of_name(ues: Seq<(String, UeMetrics)>, i: int)
    requires
        0 <= i < ues.len(),
        forall|j: int| 0 <= j < i ==> (#[trigger] ues[j]).0@ != ues[i].0@,
    ensures
        dash::metrics_of(ues, ues[i].0@) == Some(ues[i].1),
    decreases ues.len(),
{
    if i > 0 {
        assert(ues[0].0@ != ues[i].0@);
        let rest = ues.skip(1);
        assert(rest[i - 1] == ues[i]);
        assert forall|j: int| 0 <= j < i - 1 implies (#[trigger] rest[j]).0@ != rest[i - 1].0@ by {
            assert(rest[j] == ues[j + 1]);
        }
        lemma_first_of_name(rest, i - 1);
    }
}

proof fn lemma_row_there(
    ues: Seq<(String, UeMetrics)>,
    ids: Seq<usize>,
    n: int,
    k: int,
    m: UeMetrics,
) -> (r: int)
    requires
        0 <= k < n <= ids.len(),
        dash::metrics_of(ues, text::dec(ids[k] as nat)) == Some(m),
    ensures
        0 <= r < dash::report_rows(ues, ids, n).len(),
        dash::report_rows(ues, ids, n)[r] == dash::metrics_row(ids[k], m),
    decreases n,
{
    if k == n - 1 {
        dash::report_rows(ues, ids, n).len() - 1
    } else {
        lemma_row_there(ues, ids, n - 1, k, m)
    }
}

/// Every UE of a report has a row of its own values, each in the column of its kind: the number,
/// the address, the state, the pattern, the rates down and up, and the latency.
#[verifier::spinoff_prover]
#[verifier::rlimit(50)]
pub proof fn law_report_shows_each_ue(
    rfsim: bool,
    gnb_running: bool,
    ps: ProxyStatus,
    ts: TrafficStatus,
    i: int,
    id: usize,
) -> (row: int)
    requires
        ts.ues is Some,
        0 <= i < ts.ues->0@.len(),
        ts.ues->0@[i].0@ == text::dec(id as nat),
        forall|j: int| 0 <= j < i ==> (#[trigger] ts.ues->0@[j]).0@ != ts.ues->0@[i].0@,
        fits(id, ts.ues->0@[i].1),
    ensures
        4 <= row < dash::report_lines(rfsim, gnb_running, ps, ts).len(),
        ({
            let line = dash::report_lines(rfsim, gnb_running, ps, ts)[row];
            let m = ts.ues->0@[i].1;
            &&& reading::in_column(line, 0, 4, text::dec(id as nat))
            &&& reading::in_column(line, 5, 17, told(m.ip, "—"@))
            &&& reading::in_column(line, 23, 15, told(m.status, "—"@))
            &&& reading::in_column(line, 39, 10, told(m.pattern, "idle"@))
            &&& reading::in_column(line, 50, 9, told(m.dl_mbps, "—"@))
            &&& reading::in_column(line, 60, 9, told(m.ul_mbps, "—"@))
            &&& reading::in_column(line, 70, 10, told(m.latency_ms, "—"@))
        }),
{
    let ues = ts.ues->0@;
    let m = ues[i].1;
    let listed = dash::report_ids(ues, ues.len() as int);
    let ids = order::sorted(listed);
    lemma_id_listed(ues, ues.len() as int, i, id);
    order::law_sorted(listed);
    assert(listed.to_set().contains(id));
    assert(ids.to_set().contains(id));
    let k = choose|k: int| 0 <= k < ids.len() && ids[k] == id;
    lemma_first_of_name(ues, i);
    let r = lemma_row_there(ues, ids, ids.len() as int, k, m);
    let c = seq![
        text::dec(id as nat),
        told(m.ip, "—"@),
        told(m.status, "—"@),
        told(m.pattern, "idle"@),
        told(m.dl_mbps, "—"@),
        told(m.ul_mbps, "—"@),
        told(m.latency_ms, "—"@),
    ];
    lemma_row_stands(c);
    assert(dash::metrics_row(id, m) == dash::report_row(c));
    r + 4
}

proof fn lemma_rows_at_most(ues: Seq<(String, UeMetrics)>, ids: Seq<usize>, n: int)
    requires
        0 <= n <= ids.len(),
    ensures
        dash::report_rows(ues, ids, n).len() <= n,
    decreases n,
{
    if n > 0 {
        lemma_rows_at_most(ues, ids, n - 1);
    }
}

proof fn lemma_ids_at_most(ues: Seq<(String, UeMetrics)>, n: int)
    requires
        0 <= n <= ues.len(),
    ensures
        dash::report_ids(ues, n).len() <= n,
    decreases n,
{
    if n > 0 {
        lemma_ids_at_most(ues, n - 1);
    }
}

/// A report has no more rows than UEs.
pub proof fn law_report_has_no_other_rows(
    rfsim: bool,
    gnb_running: bool,
    ps: ProxyStatus,
    ts: TrafficStatus,
)
    requires
        ts.ues is Some,
    ensures
        dash::report_lines(rfsim, gnb_running, ps, ts).len() <= 4 + ts.ues->0@.len(),
{
    let ues = ts.ues->0@;
    let listed = dash::report_ids(ues, ues.len() as int);
    lemma_ids_at_most(ues, ues.len() as int);
    order::law_sorted(listed);
    lemma_rows_at_most(ues, order::sorted(listed), listed.len() as int);
}

/// An uptime names hours, minutes and seconds that add up to it, each of two digits at least, and
/// minutes and seconds below sixty.
#[verifier::spinoff_prover]
#[verifier::rlimit(50)]
pub proof fn law_uptime_adds_up(s: nat)
    ensures
        ({
            let parts = reading::split(dash::uptime_text(s), ':');
            &&& parts.len() == 3
            &&& parts[0].len() >= 2 && parts[1].len() == 2 && parts[2].len() == 2
            &&& exists|h: nat, m: nat, x: nat|
                {
                    &&& #[trigger] text::number(parts[0], 10, h) == Some(h)
                    &&& #[trigger] text::number(parts[1], 10, m) == Some(m)
                    &&& #[trigger] text::number(parts[2], 10, x) == Some(x)
                    &&& m < 60
                    &&& x < 60
                    &&& h * 3600 + m * 60 + x == s
                }
        }),
{
    reveal_strlit(":");
    let h = s / 3600;
    let m = (s % 3600) / 60;
    let x = s % 60;
    let a = text::pad_left(text::dec(h), '0', 2);
    let b = text::pad_left(text::dec(m), '0', 2);
    let c = text::pad_left(text::dec(x), '0', 2);
    reading::law_number_of_padded(h, 2, h);
    reading::law_number_of_padded(m, 2, m);
    reading::law_number_of_padded(x, 2, x);
    lemma_padded_lacks(h);
    lemma_padded_lacks(m);
    lemma_padded_lacks(x);
    assert(":"@ =~= seq![':']);
    reading::lemma_split_plain(a, ':');
    reading::lemma_split_behind(a, b, ':');
    reading::lemma_split_behind(a + seq![':'] + b, c, ':');
    assert(dash::uptime_text(s) == a + seq![':'] + b + seq![':'] + c);
    let parts = reading::split(dash::uptime_text(s), ':');
    assert(parts =~= seq![a, b, c]);
    lemma_two_digits(m);
    lemma_two_digits(x);
    assert(h * 3600 + m * 60 + x == s);
    assert(text::number(parts[0], 10, h) == Some(h));
    assert(text::number(parts[1], 10, m) == Some(m));
    assert(text::number(parts[2], 10, x) == Some(x));
}

proof fn lemma_two_digits(n: nat)
    requires
        n < 100,
    ensures
        text::dec(n).len() <= 2,
{
    reveal_with_fuel(text::written, 3);
    assert(n / 10 < 10);
}

proof fn lemma_padded_lacks(n: nat)
    ensures
        reading::lacks(text::pad_left(text::dec(n), '0', 2), ':'),
{
    reading::lemma_digits(n);
    let d = text::dec(n);
    let p = text::pad_left(d, '0', 2);
    assert forall|i: int| 0 <= i < p.len() implies #[trigger] p[i] != ':' by {
        if d.len() < 2 && i >= 2 - d.len() {
            assert(p[i] == d[i - (2 - d.len())]);
        }
    }
}

/// The table of the dashboard has a row for every numbered UE of the report, with that UE's own
/// values.
#[verifier::spinoff_prover]
#[verifier::rlimit(50)]
pub proof fn law_table_shows_each_ue(ts: TrafficStatus, i: int, id: usize) -> (row: int)
    requires
        ts.ues is Some,
        ts.ues->0@.len() <= usize::MAX,
        0 <= i < ts.ues->0@.len(),
        ts.ues->0@[i].0@ == text::dec(id as nat),
    ensures
        0 <= row < dash::ue_table(ts).len(),
        ({
            let cells = dash::ue_table(ts)[row].cells;
            let m = ts.ues->0@[i].1;
            &&& cells.len() == 7
            &&& cells[0].text == text::dec(id as nat)
            &&& cells[1].text == told(m.ip, "—"@)
            &&& m.status is Some && m.status->0@ == "active"@ ==> cells[2].text == "● active"@
            &&& cells[3].text == told(m.pattern, "idle"@)
            &&& cells[4].text == told(m.dl_mbps, "—"@)
            &&& cells[5].text == told(m.ul_mbps, "—"@)
            &&& cells[6].text == told(m.latency_ms, "—"@)
        }),
{
    let ues = ts.ues->0@;
    dash::law_ue_order(ues, ues.len() as int);
    text::law_number_of_dec(id as nat, usize::MAX as nat);
    let rows = dash::ue_order(ts);
    assert(dash::id_of_name(ues[i].0@) == Some(id));
    assert(rows.contains((id, i as usize)));
    let k = choose|k: int| 0 <= k < rows.len() && rows[k] == (id, i as usize);
    k
}

/// The details of a UE: a line with the label of a rate shows that rate with its unit, and so for
/// the latency, the loss and the address.
pub proof fn law_details_are_the_ues_own(id: usize, m: UeMetrics, rfsim: bool)
    ensures
        ({
            let d = dash::detail_lines(id, m, rfsim);
            &&& m.ip is Some ==> d[1][0].text == "  IP        : "@ && d[1][1].text == m.ip->0@
            &&& m.dl_mbps is Some ==> d[5][0].text == "  DL        : "@ && d[5][1].text
                == m.dl_mbps->0@ + " Mbps"@
            &&& m.ul_mbps is Some ==> d[6][0].text == "  UL        : "@ && d[6][1].text
                == m.ul_mbps->0@ + " Mbps"@
            &&& m.latency_ms is Some ==> d[7][0].text == "  Latency   : "@ && d[7][1].text
                == m.latency_ms->0@ + " ms"@
            &&& m.loss_pct is Some ==> d[8][0].text == "  Loss      : "@ && d[8][1].text
                == m.loss_pct->0@ + "%"@
        }),
{
}

/// The details of two UEs differ wherever something that was measured of them does.
#[verifier::spinoff_prover]
#[verifier::rlimit(50)]
pub proof fn law_details_tell_ues_apart(id: usize, a: UeMetrics, b: UeMetrics, rfsim: bool)
    requires
        dash::detail_lines(id, a, rfsim) == dash::detail_lines(id, b, rfsim),
    ensures
        a.ip is Some && b.ip is Some ==> a.ip->0@ == b.ip->0@,
        a.dl_mbps is Some && b.dl_mbps is Some ==> a.dl_mbps->0@ == b.dl_mbps->0@,
        a.ul_mbps is Some && b.ul_mbps is Some ==> a.ul_mbps->0@ == b.ul_mbps->0@,
        a.latency_ms is Some && b.latency_ms is Some ==> a.latency_ms->0@ == b.latency_ms->0@,
        a.loss_pct is Some && b.loss_pct is Some ==> a.loss_pct->0@ == b.loss_pct->0@,
{
    law_details_are_the_ues_own(id, a, rfsim);
    law_details_are_the_ues_own(id, b, rfsim);
    let x = dash::detail_lines(id, a, rfsim);
    let y = dash::detail_lines(id, b, rfsim);
    if a.dl_mbps is Some && b.dl_mbps is Some {
        lemma_same_front(a.dl_mbps->0@, b.dl_mbps->0@, " Mbps"@, x[5][1].text, y[5][1].text);
    }
    if a.ul_mbps is Some && b.ul_mbps is Some {
        lemma_same_front(a.ul_mbps->0@, b.ul_mbps->0@, " Mbps"@, x[6][1].text, y[6][1].text);
    }
    if a.latency_ms is Some && b.latency_ms is Some {
        lemma_same_front(a.latency_ms->0@, b.latency_ms->0@, " ms"@, x[7][1].text, y[7][1].text);
    }
    if a.loss_pct is Some && b.loss_pct is Some {
        lemma_same_front(a.loss_pct->0@, b.loss_pct->0@, "%"@, x[8][1].text, y[8][1].text);
    }
}

proof fn lemma_same_front(a: Seq<char>, b: Seq<char>, unit: Seq<char>, x: Seq<char>, y: Seq<char>)
    requires
        x == y,
        x == a + unit,
        y == b + unit,
    ensures
        a == b,
{
    assert(x.len() == y.len());
    assert(a =~= x.take(a.len() as int));
    assert(b =~= y.take(b.len() as int));
}

/// A UE's log is asked for by its number, whatever the mode.
pub proof fn law_named_log_of_a_ue(i: usize, scripts: Seq<char>, rfsim: bool)
    ensures
        dash::named_log("ue"@ + text::dec(i as nat), scripts, rfsim) == scripts + "/logs/ue"@
            + text::dec(i as nat) + "_nue.log"@,
{
    reveal_strlit("ue");
    reveal_strlit("/logs");
    reveal_strlit("/ue");
    reveal_strlit("/logs/ue");
    let name = "ue"@ + text::dec(i as nat);
    text::lemma_written(i as nat, 10);
    text::law_number_of_dec(i as nat, usize::MAX as nat);
    assert(name.subrange(0, 2) =~= "ue"@);
    assert(name.skip(2) =~= text::dec(i as nat));
    assert(paths::ue_log(scripts, i as nat) =~= scripts + "/logs/ue"@ + text::dec(i as nat)
        + "_nue.log"@);
}

/// Scrolling back undoes scrolling, as long as the scroll does not run against its end, and the
/// end of the log is at scroll zero.
pub proof fn law_scrolling_is_undone(s: DashState, ctrl: bool)
    ensures
        s.log_scroll <= usize::MAX - 10 ==> dash::key_step(
            dash::key_step(s, Key::PageUp, ctrl).0,
            Key::PageDown,
            ctrl,
        ).0 == s,
        dash::key_step(s, Key::End, ctrl).0.log_scroll == 0,
        s.log_scroll <= usize::MAX - 10 ==> dash::key_step(s, Key::PageUp, ctrl).0.log_scroll
            == s.log_scroll + 10,
        s.log_scroll > usize::MAX - 10 ==> dash::key_step(s, Key::PageUp, ctrl).0.log_scroll
            == usize::MAX,
        s.log_scroll >= 10 ==> dash::key_step(s, Key::PageDown, ctrl).0.log_scroll == s.log_scroll
            - 10,
        s.log_scroll < 10 ==> dash::key_step(s, Key::PageDown, ctrl).0.log_scroll == 0,
{
}

/// A log at its end shows its last lines; scrolled up, it shows lines further up, by exactly as
/// many lines as there are to scroll.
pub proof fn law_log_window_moves(total: nat, height: nat, scroll: nat)
    ensures
        dash::window_offset(total, height, 0) == 0,
        scroll + height <= total ==> dash::window_offset(total, height, scroll) == scroll,
        scroll + height > total && height <= total ==> dash::window_offset(total, height, scroll)
            + height == total,
        height >= total ==> dash::window_offset(total, height, scroll) == 0,
{
}

proof fn lemma_padded_contains(before: Seq<char>, value: Seq<char>, width: nat, after: Seq<char>)
    ensures
        text::contains(before + text::pad_right(value, width) + after, value),
{
    let line = before + text::pad_right(value, width) + after;
    let n = before.len() as int;
    assert(line.subrange(n, n + value.len()) =~= value);
    assert(text::occurs_at(line, value, n));
    text::lemma_find_from(line, value, 0);
}

#[verifier::spinoff_prover]
#[verifier::rlimit(50)]
proof fn lemma_row_contains(c: Seq<Seq<char>>)
    ensures
        forall|k: int| 0 <= k < 7 ==> text::contains(dash::report_row(c), #[trigger] c[k]),
{
    let line = dash::report_row(c);
    let sp = " "@;
    let p0 = text::pad_right(c[0], 4);
    let p1 = text::pad_right(c[1], 17);
    let p2 = text::pad_right(c[2], 15);
    let p3 = text::pad_right(c[3], 10);
    let p4 = text::pad_right(c[4], 9);
    let p5 = text::pad_right(c[5], 9);
    let p6 = text::pad_right(c[6], 10);
    let none = Seq::<char>::empty();
    let a5 = sp + p6;
    let a4 = sp + p5 + a5;
    let a3 = sp + p4 + a4;
    let a2 = sp + p3 + a3;
    let a1 = sp + p2 + a2;
    let a0 = sp + p1 + a1;
    let b1 = p0 + sp;
    let b2 = b1 + p1 + sp;
    let b3 = b2 + p2 + sp;
    let b4 = b3 + p3 + sp;
    let b5 = b4 + p4 + sp;
    let b6 = b5 + p5 + sp;
    assert(line =~= none + p0 + a0);
    lemma_padded_contains(none, c[0], 4, a0);
    assert(line =~= b1 + p1 + a1);
    lemma_padded_contains(b1, c[1], 17, a1);
    assert(line =~= b2 + p2 + a2);
    lemma_padded_contains(b2, c[2], 15, a2);
    assert(line =~= b3 + p3 + a3);
    lemma_padded_contains(b3, c[3], 10, a3);
    assert(line =~= b4 + p4 + a4);
    lemma_padded_contains(b4, c[4], 9, a4);
    assert(line =~= b5 + p5 + a5);
    lemma_padded_contains(b5, c[5], 9, a5);
    assert(line =~= b6 + p6 + none);
    lemma_padded_contains(b6, c[6], 10, none);
}

/// No value is cut in the report, however long it is.
#[verifier::spinoff_prover]
#[verifier::rlimit(50)]
pub proof fn law_report_cuts_nothing(
    rfsim: bool,
    gnb_running: bool,
    ps: ProxyStatus,
    ts: TrafficStatus,
    i: int,
    id: usize,
) -> (row: int)
    requires
        ts.ues is Some,
        0 <= i < ts.ues->0@.len(),
        ts.ues->0@[i].0@ == text::dec(id as nat),
        forall|j: int| 0 <= j < i ==> (#[trigger] ts.ues->0@[j]).0@ != ts.ues->0@[i].0@,
    ensures
        4 <= row < dash::report_lines(rfsim, gnb_running, ps, ts).len(),
        ({
            let line = dash::report_lines(rfsim, gnb_running, ps, ts)[row];
            let m = ts.ues->0@[i].1;
            &&& text::contains(line, text::dec(id as nat))
            &&& text::contains(line, told(m.ip, "—"@))
            &&& text::contains(line, told(m.status, "—"@))
            &&& text::contains(line, told(m.pattern, "idle"@))
            &&& text::contains(line, told(m.dl_mbps, "—"@))
            &&& text::contains(line, told(m.ul_mbps, "—"@))
            &&& text::contains(line, told(m.latency_ms, "—"@))
        }),
{
    let ues = ts.ues->0@;
    let m = ues[i].1;
    let listed = dash::report_ids(ues, ues.len() as int);
    let ids = order::sorted(listed);
    lemma_id_listed(ues, ues.len() as int, i, id);
    order::law_sorted(listed);
    assert(listed.to_set().contains(id));
    assert(ids.to_set().contains(id));
    let k = choose|k: int| 0 <= k < ids.len() && ids[k] == id;
    lemma_first_of_name(ues, i);
    let r = lemma_row_there(ues, ids, ids.len() as int, k, m);
    let c = seq![
        text::dec(id as nat),
        told(m.ip, "—"@),
        told(m.status, "—"@),
        told(m.pattern, "idle"@),
        told(m.dl_mbps, "—"@),
        told(m.ul_mbps, "—"@),
        told(m.latency_ms, "—"@),
    ];
    lemma_row_contains(c);
    assert(text::contains(dash::report_row(c), c[0]));
    assert(text::contains(dash::report_row(c), c[1]));
    assert(text::contains(dash::report_row(c), c[2]));
    assert(text::contains(dash::report_row(c), c[3]));
    assert(text::contains(dash::report_row(c), c[4]));
    assert(text::contains(dash::report_row(c), c[5]));
    assert(text::contains(dash::report_row(c), c[6]));
    assert(dash::metrics_row(id, m) == dash::report_row(c));
    r + 4
}

/// Without data of UEs the report and the table say so.
pub proof fn law_missing_data_is_said(
    rfsim: bool,
    gnb_running: bool,
    ps: ProxyStatus,
    ts: TrafficStatus,
)
    requires
        ts.ues is None,
    ensures
        dash::report_lines(rfsim, gnb_running, ps, ts).len() == 5,
        text::starts_with(
            dash::report_lines(rfsim, gnb_running, ps, ts)[4],
            "(no UE data"@,
        ),
        dash::ue_table(ts).len() == 1,
        dash::ue_table(ts)[0].cells[1].text == "waiting for traffic engine..."@,
{
    reveal_strlit("(no UE data — traffic engine not running)");
    reveal_strlit("(no UE data");
    let t = "(no UE data — traffic engine not running)"@;
    assert(t.subrange(0, 11) =~= "(no UE data"@);
}

/// The details of a UE name its interface, and say what is missing where nothing was measured.
pub proof fn law_details_say_what_is_missing(id: usize, m: UeMetrics)
    ensures
        ({
            let d = dash::detail_lines(id, m, true);
            let e = dash::detail_lines(id, m, false);
            &&& d.len() == 9
            &&& d[0][1].text == "oaitun_ue1 (in uesim"@ + text::dec(id as nat) + ")"@
            &&& e[0][1].text == "oaitun_ue"@ + text::dec(id as nat)
            &&& d.skip(1) == e.skip(1)
            &&& m.ip is None ==> d[1][1].text == "— (waiting for registration)"@
            &&& d[3][1].text == told(m.pattern, "idle"@)
            &&& m.dl_mbps is None ==> d[5][1].text == "—"@
            &&& m.ul_mbps is None ==> d[6][1].text == "—"@
            &&& m.latency_ms is None ==> d[7][1].text == "—"@
            &&& m.loss_pct is None ==> d[8][1].text == "0.0%"@
        }),
{
    assert(dash::detail_lines(id, m, true).skip(1) =~= dash::detail_lines(id, m, false).skip(1));
}

} // verus!
