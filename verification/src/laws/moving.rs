//! What the page of handovers orders and shows.

use vstd::prelude::*;

use crate::advanced;
use crate::advanced::{ActionView, AdvancedView};
use crate::handover;
use crate::handover::EventLog;
use crate::keys::Key;
use crate::laws::commands;
use crate::laws::texts;
use crate::reading;
use crate::slice;
use crate::slice::SliceMapEntry;
use crate::text;
use crate::text::CharClass;
use crate::ui::Color;

verus! {

/// The key of a handover orders one for the selected UE exactly where there is such a UE, its
/// identifier is known and it sits on another cell; the order's words are the identities of the
/// two cells, each one more than the cell's place, and the identifier.
#[verifier::spinoff_prover]
#[verifier::rlimit(50)]
pub proof fn law_handover_is_ordered(
    v: AdvancedView,
    ids: Seq<usize>,
    map: Map<usize, SliceMapEntry>,
    found: Option<Seq<char>>,
)
    requires
        v.well_formed(),
        reading::unbroken(v.rnti),
        v.rnti.len() > 0,
        v.sel_ue_idx < ids.len(),
    ensures
        ({
            let step = advanced::key_step(v, Key::Char('h'), ids, map, found);
            let ue = ids[v.sel_ue_idx as int];
            let source = advanced::cell_of(map, ue);
            &&& step == advanced::key_step(v, Key::Enter, ids, map, found)
            &&& step.action is Some <==> source != v.target_cell
            &&& step.action is Some ==> step.action->0 is Handover && {
                let o = step.action->0->Handover_0;
                let words = text::tokens(o.command, CharClass::NonWhite);
                &&& o.ue == ue && o.source == source && o.target == v.target_cell
                &&& words.len() == 4 && words[0] == "ho"@
                &&& text::number(words[1], 10, u16::MAX as nat) == Some((source + 1) as nat)
                &&& words[2] == v.rnti
                &&& text::number(words[3], 10, u16::MAX as nat) == Some((v.target_cell + 1) as nat)
                &&& o.line == o.command + "\n"@
            }
        }),
{
    let ue = ids[v.sel_ue_idx as int];
    let source = advanced::cell_of(map, ue);
    assert(source <= 25) by {
        if map.dom().contains(ue) {
            assert(source == slice::at_most(map[ue].spec_cell(), 7));
        }
    }
    commands::law_ho_command_read_back((source + 1) as nat, v.rnti, (v.target_cell + 1) as nat);
}

/// Without a known identifier the one that the logs name is taken; without any, nothing is ordered.
pub proof fn law_handover_takes_found_identifier(
    v: AdvancedView,
    ids: Seq<usize>,
    map: Map<usize, SliceMapEntry>,
    found: Seq<char>,
)
    requires
        v.rnti.len() == 0,
        found.len() > 0,
    ensures
        advanced::key_step(v, Key::Char('h'), ids, map, None).action is None,
        ({
            let known = AdvancedView { rnti: found, ..v };
            let a = advanced::key_step(v, Key::Char('h'), ids, map, Some(found));
            let b = advanced::key_step(known, Key::Char('h'), ids, map, None);
            &&& a.action == b.action
            &&& v.sel_ue_idx < ids.len() ==> a.state == b.state
        }),
        advanced::key_step(v, Key::Char('R'), ids, map, Some(found)).state.rnti == found,
        advanced::key_step(v, Key::Char('R'), ids, map, None).state.rnti.len() == 0,
{
}

/// The page shows the command that the key would send.
#[verifier::spinoff_prover]
#[verifier::rlimit(50)]
pub proof fn law_order_is_shown(
    v: AdvancedView,
    ids: Seq<usize>,
    map: Map<usize, SliceMapEntry>,
)
    requires
        advanced::key_step(v, Key::Char('h'), ids, map, None).action is Some,
    ensures
        ({
            let o = advanced::key_step(v, Key::Char('h'), ids, map, None).action->0->Handover_0;
            let lines = advanced::order_lines(v, ids, map);
            &&& lines[3][1].text == o.command
            &&& lines[2][1].text == v.rnti
            &&& lines[0][1].text == "UE"@ + text::dec(o.ue as nat)
            &&& lines[0][3].text == seq![slice::letter_of(o.source as nat)]
            &&& lines[1][1].text[0] == slice::letter_of(o.target as nat)
        }),
{
}

/// Choosing the next cell and the one before undo each other, between the first and the last.
pub proof fn law_target_steps_undo_each_other(
    v: AdvancedView,
    ids: Seq<usize>,
    map: Map<usize, SliceMapEntry>,
)
    requires
        v.well_formed(),
    ensures
        ({
            let on = advanced::key_step(v, Key::Char('>'), ids, map, None).state;
            let back = advanced::key_step(v, Key::Char('<'), ids, map, None).state;
            &&& v.target_cell < 7 ==> on.target_cell == v.target_cell + 1 && advanced::key_step(
                on,
                Key::Char('<'),
                ids,
                map,
                None,
            ).state == v
            &&& v.target_cell > 0 ==> back.target_cell == v.target_cell - 1 && advanced::key_step(
                back,
                Key::Char('>'),
                ids,
                map,
                None,
            ).state == v
            &&& v.target_cell == 7 ==> on == v
            &&& v.target_cell == 0 ==> back == v
        }),
{
}

/// Every UE of the list is shown with its number, its slice and its cell, and the selected one is
/// marked.
#[verifier::spinoff_prover]
#[verifier::rlimit(50)]
pub proof fn law_picker_shows_each_ue(
    v: AdvancedView,
    ids: Seq<usize>,
    map: Map<usize, SliceMapEntry>,
    i: int,
)
    requires
        0 <= i < ids.len(),
        map.dom().contains(ids[i]),
    ensures
        ({
            let line = advanced::picker_lines(v, ids, map)[i];
            &&& advanced::picker_lines(v, ids, map).len() == ids.len()
            &&& text::contains(line[0].text, " UE"@ + text::dec(ids[i] as nat) + " "@)
            &&& line[1].text == slice::slice_label(map[ids[i]].spec_slice()) + " "@
            &&& line[2].text == "on cell "@ + seq![
                slice::letter_of(advanced::cell_of(map, ids[i]) as nat),
            ]
            &&& line[0].style.bold <==> i == v.sel_ue_idx
        }),
{
    let line = advanced::picker_lines(v, ids, map)[i];
    let pat = " UE"@ + text::dec(ids[i] as nat) + " "@;
    let s = line[0].text;
    let mark = if i == v.sel_ue_idx {
        "►"@
    } else {
        " "@
    };
    let n = (" "@ + mark).len() as int;
    assert(s =~= " "@ + mark + pat);
    assert(s.subrange(n, n + pat.len()) =~= pat);
    assert(text::occurs_at(s, pat, n));
    text::lemma_find_from(s, pat, 0);
}

// ---------------------------------------------------------------------------
// Events
// ---------------------------------------------------------------------------

/// A line about a handover or its admission, in whatever letters, is the last event of the CU's log
/// where it is the last line; a line about none leaves the events as they were.
pub proof fn law_cu_events_follow_lines(
    lines: Seq<Seq<char>>,
    before: Seq<char>,
    word: Seq<char>,
    after: Seq<char>,
    plain: Seq<char>,
)
    requires
        text::ascii_lower(word) == "handover"@ || text::ascii_lower(word) == "g8"@
            || text::ascii_lower(word) == "reconfigurationwithsync"@ || text::ascii_lower(word)
            == "rrc reconfiguration"@,
        !text::contains(text::ascii_lower(plain), "handover"@),
        !text::contains(text::ascii_lower(plain), "g8"@),
        !text::contains(text::ascii_lower(plain), "reconfigurationwithsync"@),
        !text::contains(text::ascii_lower(plain), "rrc reconfiguration"@),
        !text::contains(text::ascii_lower(plain), "sync"@),
    ensures
        ({
            let line = before + word + after;
            handover::events_of(lines.push(line), EventLog::Cu) == handover::events_of(
                lines,
                EventLog::Cu,
            ).push(text::after_last(line, "] "@))
        }),
        handover::events_of(lines.push(plain), EventLog::Cu) == handover::events_of(
            lines,
            EventLog::Cu,
        ),
{
    let line = before + word + after;
    texts::law_found_in_any_letters(before, word, after);
    assert(lines.push(line).drop_last() =~= lines);
    assert(lines.push(plain).drop_last() =~= lines);
}

/// No more events are shown than asked for, and they are the last ones of the log, each the
/// message of a line about an event.
pub proof fn law_events_are_the_last(content: Seq<char>, log: EventLog, max: nat, k: int)
    requires
        0 <= k < handover::recent_events(content, log, max).len(),
    ensures
        handover::recent_events(content, log, max).len() <= max,
        ({
            let all = handover::events_of(text::lines_of(content), log);
            let shown = handover::recent_events(content, log, max);
            &&& shown[k] == all[all.len() - shown.len() + k]
            &&& shown.len() == all.len() || shown.len() == max
        }),
        exists|i: int|
            0 <= i < text::lines_of(content).len() && handover::is_event(
                log,
                #[trigger] text::lines_of(content)[i],
            ) && handover::recent_events(content, log, max)[k] == text::after_last(
                text::lines_of(content)[i],
                "] "@,
            ),
{
    let lines = text::lines_of(content);
    let all = handover::events_of(lines, log);
    let shown = handover::recent_events(content, log, max);
    let j = all.len() - shown.len() + k;
    assert(shown[k] == all[j]);
    lemma_event_of_line(lines, log, j);
}

proof fn lemma_event_of_line(lines: Seq<Seq<char>>, log: EventLog, j: int)
    requires
        0 <= j < handover::events_of(lines, log).len(),
    ensures
        exists|i: int|
            0 <= i < lines.len() && handover::is_event(log, #[trigger] lines[i])
                && handover::events_of(lines, log)[j] == text::after_last(lines[i], "] "@),
    decreases lines.len(),
{
    if lines.len() > 0 {
        let rest = lines.drop_last();
        if handover::is_event(log, lines.last()) && j == handover::events_of(rest, log).len() {
            assert(handover::is_event(log, lines[lines.len() - 1]));
        } else {
            lemma_event_of_line(rest, log, j);
            let i = choose|i: int|
                0 <= i < rest.len() && handover::is_event(log, #[trigger] rest[i])
                    && handover::events_of(rest, log)[j] == text::after_last(rest[i], "] "@);
            assert(lines[i] == rest[i]);
        }
    }
}

/// What the CU writes of a reconfiguration counts wherever it stands behind the old end of the
/// log, in whatever letters.
pub proof fn law_reconfig_is_seen(
    old_log: Seq<char>,
    before: Seq<char>,
    word: Seq<char>,
    after: Seq<char>,
)
    requires
        text::ascii_lower(word) == "reconfigurationwithsync"@ || text::ascii_lower(word)
            == "handover reconfiguration"@ || text::ascii_lower(word) == "intra cu handover"@,
    ensures
        handover::shows_reconfig(
            handover::appended(
                old_log + (before + word + after),
                handover::bytes_upto(old_log, old_log.len() as int),
            ),
        ),
{
    handover::law_only_appended_counts(old_log, before + word + after);
    texts::law_found_in_any_letters(before, word, after);
}

/// A failure is shown as one among the CU's events, whatever else the line says.
pub proof fn law_failures_stand_out(before: Seq<char>, word: Seq<char>, after: Seq<char>)
    requires
        text::ascii_lower(word) == "fail"@,
    ensures
        advanced::event_tint(EventLog::Cu, before + word + after) == Color::Bad,
{
    texts::law_found_in_any_letters(before, word, after);
}

// ---------------------------------------------------------------------------
// Identifiers
// ---------------------------------------------------------------------------

/// The identifier of the last line that names one counts, and of several logs the first that names
/// one among its last lines.
pub proof fn law_last_identifier(lines: Seq<Seq<char>>, i: int)
    requires
        0 <= i < lines.len(),
        handover::rnti_of_line(lines[i]) is Some,
        forall|j: int|
            i < j < lines.len() ==> handover::rnti_of_line(#[trigger] lines[j]) is None,
    ensures
        handover::last_rnti(lines) == handover::rnti_of_line(lines[i]),
    decreases lines.len(),
{
    if i < lines.len() - 1 {
        let rest = lines.drop_last();
        assert(rest[i] == lines[i]);
        assert(handover::rnti_of_line(lines[lines.len() - 1]) is None);
        assert forall|j: int| i < j < rest.len() implies handover::rnti_of_line(
            #[trigger] rest[j],
        ) is None by {
            assert(rest[j] == lines[j]);
        }
        law_last_identifier(rest, i);
    }
}

/// A log whose last line names an identifier settles it for itself and for all logs behind it.
pub proof fn law_first_log_settles(logs: Seq<Seq<char>>, k: int)
    requires
        0 <= k < logs.len(),
        text::lines_of(logs[k]).len() > 0,
        handover::rnti_of_line(text::lines_of(logs[k]).last()) is Some,
    ensures
        handover::discovered_from(logs, k) == handover::rnti_of_line(
            text::lines_of(logs[k]).last(),
        ),
{
    let lines = text::lines_of(logs[k]);
    let t = slice::tail(lines, handover::RNTI_TAIL as nat);
    assert(t.last() == lines.last());
}

/// A log is searched through its last four thousand lines: the last identifier among them counts,
/// wherever it stands.
pub proof fn law_search_reaches_back(logs: Seq<Seq<char>>, k: int, i: int)
    requires
        0 <= k < logs.len(),
        0 <= i < text::lines_of(logs[k]).len(),
        i >= text::lines_of(logs[k]).len() - 4000,
        handover::rnti_of_line(text::lines_of(logs[k])[i]) is Some,
        forall|j: int|
            i < j < text::lines_of(logs[k]).len() ==> handover::rnti_of_line(
                #[trigger] text::lines_of(logs[k])[j],
            ) is None,
    ensures
        handover::discovered_from(logs, k) == handover::rnti_of_line(text::lines_of(logs[k])[i]),
{
    let lines = text::lines_of(logs[k]);
    let t = slice::tail(lines, handover::RNTI_TAIL as nat);
    let at = i - (lines.len() - t.len());
    assert(t[at] == lines[i]);
    assert forall|j: int| at < j < t.len() implies handover::rnti_of_line(#[trigger] t[j]) is None by {
        assert(t[j] == lines[lines.len() - t.len() + j]);
    }
    law_last_identifier(t, at);
}

/// A log that names no identifier among its last four thousand lines leaves the search to the next
/// one.
pub proof fn law_next_log_is_searched(logs: Seq<Seq<char>>, k: int)
    requires
        0 <= k < logs.len(),
        forall|j: int|
            0 <= j < text::lines_of(logs[k]).len() && j >= text::lines_of(logs[k]).len() - 4000
                ==> handover::rnti_of_line(#[trigger] text::lines_of(logs[k])[j]) is None,
    ensures
        handover::discovered_from(logs, k) == handover::discovered_from(logs, k + 1),
{
    let lines = text::lines_of(logs[k]);
    let t = slice::tail(lines, handover::RNTI_TAIL as nat);
    assert forall|j: int| 0 <= j < t.len() implies handover::rnti_of_line(#[trigger] t[j]) is None by {
        assert(t[j] == lines[lines.len() - t.len() + j]);
    }
    lemma_no_identifier(t);
}

proof fn lemma_no_identifier(lines: Seq<Seq<char>>)
    requires
        forall|j: int| 0 <= j < lines.len() ==> handover::rnti_of_line(#[trigger] lines[j]) is None,
    ensures
        handover::last_rnti(lines) is None,
    decreases lines.len(),
{
    if lines.len() > 0 {
        let rest = lines.drop_last();
        assert(handover::rnti_of_line(lines[lines.len() - 1]) is None);
        assert forall|j: int| 0 <= j < rest.len() implies handover::rnti_of_line(
            #[trigger] rest[j],
        ) is None by {
            assert(rest[j] == lines[j]);
        }
        lemma_no_identifier(rest);
    }
}

/// A path of few components stays, and a longer one keeps its last four.
#[verifier::spinoff_prover]
#[verifier::rlimit(50)]
pub proof fn law_path_keeps_its_end(p: Seq<char>)
    ensures
        ({
            let parts = text::tokens(p, CharClass::NonSlash);
            let n = parts.len();
            &&& n <= 4 ==> advanced::compacted(p) == p
            &&& n > 4 ==> advanced::compacted(p) == "…/"@ + parts[n - 4] + "/"@ + parts[n - 3]
                + "/"@ + parts[n - 2] + "/"@ + parts[n - 1]
        }),
{
    let parts = text::tokens(p, CharClass::NonSlash);
    if parts.len() > 4 {
        let last = parts.skip(parts.len() - 4);
        reveal_with_fuel(text::joined_upto, 5);
        assert(text::joined(last, "/"@) == last[0] + "/"@ + last[1] + "/"@ + last[2] + "/"@
            + last[3]);
        assert(advanced::compacted(p) =~= "…/"@ + last[0] + "/"@ + last[1] + "/"@ + last[2]
            + "/"@ + last[3]);
    }
}

/// A UE sits on the cell whose letter, or place, the slice map gives it; on the first where it gives
/// none.
pub proof fn law_cell_of_ue(map: Map<usize, SliceMapEntry>, ue: usize, c: nat)
    requires
        c <= 7,
    ensures
        !map.dom().contains(ue) ==> advanced::cell_of(map, ue) == 0,
        map.dom().contains(ue) && map[ue].cell is None ==> advanced::cell_of(map, ue) == 0,
        map.dom().contains(ue) && map[ue].cell is Some && (map[ue].cell->0@ == seq![
            slice::letter_of(c),
        ] || map[ue].cell->0@ == text::dec(c)) ==> advanced::cell_of(map, ue) == c,
{
    slice::law_cell_letter_or_number(c);
}

/// A DU line about a UE's random access is an event, in whatever letters, unless it is a fragment of
/// a message, the scheduler's echo, a metric or configuration.
#[verifier::spinoff_prover]
#[verifier::rlimit(50)]
pub proof fn law_du_events_follow_lines(
    lines: Seq<Seq<char>>,
    before: Seq<char>,
    word: Seq<char>,
    after: Seq<char>,
)
    requires
        text::ascii_lower(word) == "prach"@ || text::ascii_lower(word) == "msg3"@
            || text::ascii_lower(word) == "ra-rnti"@ || text::ascii_lower(word) == "rar("@
            || text::ascii_lower(word) == "ue creation"@,
        !text::starts_with(text::trim_start(before + word + after), "\""@),
    ensures
        ({
            let line = before + word + after;
            let low = text::ascii_lower(line);
            let left_out = text::contains(low, "slot decisions"@) || text::contains(low, "metrics"@)
                || text::contains(low, "rach-config"@) || text::contains(low, "prach-config"@);
            let events = handover::events_of(lines, EventLog::Du);
            &&& !left_out ==> handover::events_of(lines.push(line), EventLog::Du) == events.push(
                text::after_last(line, "] "@),
            )
            &&& left_out ==> handover::events_of(lines.push(line), EventLog::Du) == events
        }),
{
    texts::law_found_in_any_letters(before, word, after);
    assert(lines.push(before + word + after).drop_last() =~= lines);
}

/// Going down and up the list of UEs undo each other inside it.
pub proof fn law_picking_is_undone(
    v: AdvancedView,
    ids: Seq<usize>,
    map: Map<usize, SliceMapEntry>,
)
    requires
        ids.len() <= usize::MAX,
    ensures
        v.sel_ue_idx + 1 < ids.len() ==> advanced::key_step(
            advanced::key_step(v, Key::Down, ids, map, None).state,
            Key::Up,
            ids,
            map,
            None,
        ).state == v,
        0 < v.sel_ue_idx < ids.len() ==> advanced::key_step(
            advanced::key_step(v, Key::Up, ids, map, None).state,
            Key::Down,
            ids,
            map,
            None,
        ).state == v,
        v.sel_ue_idx + 1 < ids.len() ==> advanced::key_step(
            v,
            Key::Down,
            ids,
            map,
            None,
        ).state.sel_ue_idx == v.sel_ue_idx + 1,
{
}

/// The logs are searched for an identifier exactly where the key then uses what they name.
pub proof fn law_logs_are_searched_when_needed(
    v: AdvancedView,
    key: Key,
    ids: Seq<usize>,
    map: Map<usize, SliceMapEntry>,
    found: Seq<char>,
)
    ensures
        !advanced::key_needs_rnti(v, key, ids) ==> advanced::key_step(v, key, ids, map, Some(found))
            == advanced::key_step(v, key, ids, map, None),
        advanced::key_needs_rnti(v, key, ids) ==> advanced::key_step(
            v,
            key,
            ids,
            map,
            Some(found),
        ).state.rnti == found,
{
}

/// What is said of a handover that is ordered names the UE and the letters of its two cells.
#[verifier::spinoff_prover]
#[verifier::rlimit(50)]
pub proof fn law_order_is_said(
    v: AdvancedView,
    ids: Seq<usize>,
    map: Map<usize, SliceMapEntry>,
)
    requires
        advanced::key_step(v, Key::Char('h'), ids, map, None).action is Some,
    ensures
        ({
            let step = advanced::key_step(v, Key::Char('h'), ids, map, None);
            let o = step.action->0->Handover_0;
            &&& text::starts_with(
                step.state.status,
                "UE"@ + text::dec(o.ue as nat) + ": cell "@ + seq![
                    slice::letter_of(o.source as nat),
                ] + " → "@ + seq![slice::letter_of(o.target as nat)] + " "@,
            )
            &&& step.state.ho_status == o.sending
            &&& o.sending == "sending: "@ + o.command + " …"@
        }),
{
    reveal_strlit(" ");
    reveal_strlit("   ");
    let step = advanced::key_step(v, Key::Char('h'), ids, map, None);
    let o = step.action->0->Handover_0;
    let front = "UE"@ + text::dec(o.ue as nat) + ": cell "@ + seq![
        slice::letter_of(o.source as nat),
    ] + " → "@ + seq![slice::letter_of(o.target as nat)] + " "@;
    assert(step.state.status.subrange(0, front.len() as int) =~= front);
}

/// The pane of a log shows its events, each by itself and in its own colour, as many as fit.
pub proof fn law_pane_shows_events(log: EventLog, content: Seq<char>, height: u16, k: int)
    requires
        height > 2,
        0 <= k < handover::recent_events(content, log, (height - 2) as nat).len(),
    ensures
        ({
            let e = handover::recent_events(content, log, (height - 2) as nat);
            let lines = advanced::log_lines(log, content, height);
            &&& lines.len() == e.len()
            &&& lines[k].len() == 1
            &&& lines[k][0].text == e[k]
            &&& lines[k][0].style.fg == Some(advanced::event_tint(log, e[k]))
        }),
{
}

/// The title of a pane names the log's file where it was found.
pub proof fn law_pane_names_log(path: Seq<char>)
    requires
        text::tokens(path, CharClass::NonSlash).len() <= 4,
    ensures
        advanced::log_title(EventLog::Cu, Some(path)) == "CU handover  ·  "@ + path,
        advanced::log_title(EventLog::Du, Some(path)) == "DU radio  ·  "@ + path,
{
}

/// The page is drawn with its selection on a running UE, where there is one.
pub proof fn law_selection_is_drawn_on_a_ue(v: AdvancedView, n: nat)
    requires
        n <= usize::MAX,
    ensures
        ({
            let s = advanced::shown(v, n);
            &&& n > 0 ==> s.sel_ue_idx < n
            &&& v.sel_ue_idx < n ==> s == v
            &&& s.target_cell == v.target_cell && s.rnti == v.rnti
        }),
{
}

/// What a UE does on the radio stands out among the DU's events; what fails stands out where
/// nothing of the kind is said.
pub proof fn law_du_events_stand_out(e: Seq<char>)
    ensures
        text::contains(text::ascii_lower(e), "prach"@) ==> advanced::event_tint(EventLog::Du, e)
            == Color::Accent,
        advanced::event_tint(EventLog::Du, e) == Color::Bad ==> text::contains(
            text::ascii_lower(e),
            "fail"@,
        ) || text::contains(text::ascii_lower(e), "nok"@),
        advanced::event_tint(EventLog::Cu, e) == Color::Good ==> !text::contains(
            text::ascii_lower(e),
            "fail"@,
        ) && !text::contains(text::ascii_lower(e), "suppress"@),
{
}

/// A DU line that says nothing of a UE's arrival is no event.
pub proof fn law_other_du_lines_are_left_out(lines: Seq<Seq<char>>, line: Seq<char>)
    requires
        ({
            let low = text::ascii_lower(line);
            &&& !text::contains(low, "prach"@)
            &&& !text::contains(low, "rar("@)
            &&& !text::contains(low, "ra-rnti"@)
            &&& !text::contains(low, "msg3"@)
            &&& !text::contains(low, "c-rnti=0x"@)
            &&& !text::contains(low, "crnti=0x"@)
            &&& !text::contains(low, "ue configuration"@)
            &&& !text::contains(low, "ue creation"@)
            &&& !text::contains(low, "uecontextsetup"@)
            &&& !text::contains(low, "rrcreconfiguration"@)
        }),
    ensures
        handover::events_of(lines.push(line), EventLog::Du) == handover::events_of(
            lines,
            EventLog::Du,
        ),
{
    assert(lines.push(line).drop_last() =~= lines);
}

/// A reconfiguration is seen only where the CU writes of one.
pub proof fn law_reconfig_is_seen_only_where_written(s: Seq<char>)
    requires
        handover::shows_reconfig(s),
    ensures
        text::contains(text::ascii_lower(s), "reconfigurationwithsync"@) || text::contains(
            text::ascii_lower(s),
            "handover reconfiguration"@,
        ) || text::contains(text::ascii_lower(s), "intra cu handover"@),
{
}

/// The keys that stand for one another do the same, and any other key is left to the others.
pub proof fn law_handover_keys(
    v: AdvancedView,
    ids: Seq<usize>,
    map: Map<usize, SliceMapEntry>,
    found: Option<Seq<char>>,
    c: char,
)
    ensures
        ({
            let step = |k: char| advanced::key_step(v, Key::Char(k), ids, map, found);
            &&& step('.') == step('>')
            &&& step(',') == step('<')
            &&& step('r') == step('R')
            &&& step('C') == step('c')
            &&& step('c').action == Some(ActionView::LaunchCu)
            &&& c != '.' && c != '>' && c != ',' && c != '<' && c != 'r' && c != 'R' && c != 'c'
                && c != 'C' && c != 'h' ==> step(c).state == v && !step(c).handled
                && step(c).action is None
        }),
{
}

/// The page of handovers starts at the first UE, towards the second cell, with no identifier; so a
/// handover waits for one.
pub proof fn law_page_starts_without_identifier(ids: Seq<usize>, map: Map<usize, SliceMapEntry>)
    ensures
        advanced::fresh().sel_ue_idx == 0,
        advanced::fresh().target_cell == 1,
        advanced::fresh().well_formed(),
        advanced::key_step(advanced::fresh(), Key::Char('h'), ids, map, None).action is None,
        ids.len() > 0 ==> advanced::key_needs_rnti(advanced::fresh(), Key::Char('h'), ids),
{
}

} // verus!
