//! The Advanced page: pick a UE and a target cell, order the handover, and watch it land in the
//! logs of the CU and of the target DU.

use std::collections::HashMap;

use vstd::prelude::*;

use crate::configure;
use crate::configure::LAST_CELL;
use crate::handover;
use crate::handover::{EventLog, HoRequest};
use crate::keys::Key;
use crate::slice;
use crate::slice::{PageCtx, SliceId, SliceMapEntry};
use crate::text;
use crate::text::CharClass;
use crate::ui;
use crate::ui::{Color, Panel, Span, SpanView, Style};

verus! {

// ---------------------------------------------------------------------------
// The page
// ---------------------------------------------------------------------------

/// The Advanced page.
pub struct AdvancedState {
    /// Index into the running UEs.
    pub sel_ue_idx: usize,
    /// The cell to move to: 0 is A.
    pub target_cell: usize,
    pub rnti: String,
    pub status: String,
    /// What became of the last order.
    pub ho_status: String,
}

/// What the Advanced page holds.
#[verifier::ext_equal]
pub struct AdvancedView {
    pub sel_ue_idx: usize,
    pub target_cell: usize,
    pub rnti: Seq<char>,
    pub status: Seq<char>,
    pub ho_status: Seq<char>,
}

impl View for AdvancedState {
    type V = AdvancedView;

    open spec fn view(&self) -> AdvancedView {
        AdvancedView {
            sel_ue_idx: self.sel_ue_idx,
            target_cell: self.target_cell,
            rnti: self.rnti@,
            status: self.status@,
            ho_status: self.ho_status@,
        }
    }
}

impl AdvancedView {
    /// The target is one of the eight cells that the proxy can bridge.
    pub open spec fn well_formed(self) -> bool {
        self.target_cell <= LAST_CELL
    }
}

/// The page as it starts.
pub open spec fn fresh() -> AdvancedView {
    AdvancedView {
        sel_ue_idx: 0,
        target_cell: 1,
        rnti: seq![],
        status: "c start CU   ↑↓ pick UE   </> target cell   R detect rnti   h handover"@,
        ho_status: "idle — pick a UE and a target cell, then h"@,
    }
}

/// The cell that a UE sits on, as the slice map says; A where it says nothing.
pub open spec fn cell_of(map: Map<usize, SliceMapEntry>, ue: usize) -> usize {
    if map.dom().contains(ue) {
        configure::plan_cell(map[ue])
    } else {
        0
    }
}

/// A handover that was ordered.
pub struct OrderView {
    pub ue: usize,
    pub source: usize,
    pub target: usize,
    pub command: Seq<char>,
    /// The line for the CU's console.
    pub line: Seq<char>,
    /// What is said while it is sent.
    pub sending: Seq<char>,
}

/// What is to be done outside the page.
pub enum ActionView {
    LaunchCu,
    Handover(OrderView),
}

/// What a key does: the page after it, whether the page took the key, and what is to be done.
pub struct KeyStep {
    pub state: AdvancedView,
    pub handled: bool,
    pub action: Option<ActionView>,
}

pub open spec fn took(state: AdvancedView) -> KeyStep {
    KeyStep { state, handled: true, action: None }
}

pub open spec fn text_or_empty(found: Option<Seq<char>>) -> Seq<char> {
    match found {
        Some(t) => t,
        None => seq![],
    }
}

/// Detecting the identifier.
pub open spec fn detected(v: AdvancedView, found: Option<Seq<char>>) -> AdvancedView {
    let rnti = text_or_empty(found);
    AdvancedView {
        rnti,
        ho_status: if rnti.len() == 0 {
            "no RNTI found — is a UE attached? (check Monitor)"@
        } else {
            "detected rnti="@ + rnti
        },
        ..v
    }
}

pub open spec fn moving_status(
    ue: usize,
    source: usize,
    target: usize,
    rnti: Seq<char>,
) -> Seq<char> {
    "UE"@ + text::dec(ue as nat) + ": cell "@ + seq![slice::letter_of(source as nat)] + " → "@
        + seq![slice::letter_of(target as nat)] + "   "@ + handover::ho_command(
        (source + 1) as nat,
        rnti,
        (target + 1) as nat,
    )
}

/// Ordering the handover. It is refused without a UE, without an identifier, and towards the cell
/// that the UE sits on.
pub open spec fn ordered(
    v: AdvancedView,
    ids: Seq<usize>,
    map: Map<usize, SliceMapEntry>,
    found: Option<Seq<char>>,
) -> KeyStep {
    if v.sel_ue_idx >= ids.len() {
        took(AdvancedView { status: "no UE selected"@, ..v })
    } else {
        let ue = ids[v.sel_ue_idx as int];
        let rnti = if v.rnti.len() == 0 {
            text_or_empty(found)
        } else {
            v.rnti
        };
        let source = cell_of(map, ue);
        if rnti.len() == 0 {
            took(
                AdvancedView { rnti, ho_status: "no RNTI — press R / attach the UE first"@, ..v },
            )
        } else if v.target_cell == source {
            took(
                AdvancedView {
                    rnti,
                    status: "UE"@ + text::dec(ue as nat) + " already on cell "@ + seq![
                        slice::letter_of(source as nat),
                    ] + " — pick a different target (</>)"@,
                    ..v
                },
            )
        } else {
            let command = handover::ho_command(
                (source + 1) as nat,
                rnti,
                (v.target_cell + 1) as nat,
            );
            KeyStep {
                state: AdvancedView {
                    rnti,
                    status: moving_status(ue, source, v.target_cell, rnti),
                    ho_status: "sending: "@ + command + " …"@,
                    ..v
                },
                handled: true,
                action: Some(
                    ActionView::Handover(
                        OrderView {
                            ue,
                            source,
                            target: v.target_cell,
                            command,
                            line: command + "\n"@,
                            sending: "sending: "@ + command + " …"@,
                        },
                    ),
                ),
            }
        }
    }
}

/// What a key does, with `found` for the identifier that the logs name.
pub open spec fn key_step(
    v: AdvancedView,
    key: Key,
    ids: Seq<usize>,
    map: Map<usize, SliceMapEntry>,
    found: Option<Seq<char>>,
) -> KeyStep {
    match key {
        Key::Up => took(
            AdvancedView {
                sel_ue_idx: if v.sel_ue_idx > 0 {
                    (v.sel_ue_idx - 1) as usize
                } else {
                    0
                },
                ..v
            },
        ),
        Key::Down => took(
            AdvancedView {
                sel_ue_idx: if v.sel_ue_idx + 1 < ids.len() {
                    (v.sel_ue_idx + 1) as usize
                } else {
                    v.sel_ue_idx
                },
                ..v
            },
        ),
        Key::Enter => ordered(v, ids, map, found),
        Key::Char(c) => if c == '>' || c == '.' {
            took(
                AdvancedView {
                    target_cell: if v.target_cell < LAST_CELL {
                        (v.target_cell + 1) as usize
                    } else {
                        LAST_CELL
                    },
                    ..v
                },
            )
        } else if c == '<' || c == ',' {
            took(
                AdvancedView {
                    target_cell: if v.target_cell > 0 {
                        (v.target_cell - 1) as usize
                    } else {
                        0
                    },
                    ..v
                },
            )
        } else if c == 'R' || c == 'r' {
            took(detected(v, found))
        } else if c == 'c' || c == 'C' {
            KeyStep { state: v, handled: true, action: Some(ActionView::LaunchCu) }
        } else if c == 'h' {
            ordered(v, ids, map, found)
        } else {
            KeyStep { state: v, handled: false, action: None }
        },
        _ => KeyStep { state: v, handled: false, action: None },
    }
}

/// The logs have to be searched for an identifier before the key is acted on.
pub open spec fn key_needs_rnti(v: AdvancedView, key: Key, ids: Seq<usize>) -> bool {
    match key {
        Key::Enter => v.sel_ue_idx < ids.len() && v.rnti.len() == 0,
        Key::Char(c) => c == 'R' || c == 'r' || (c == 'h' && v.sel_ue_idx < ids.len()
            && v.rnti.len() == 0),
        _ => false,
    }
}

/// A handover to carry out: write the command into the CU's pipe, and switch the UE over once the
/// CU has reconfigured it.
pub struct HandoverOrder {
    pub ue: usize,
    pub source: usize,
    pub target: usize,
    pub request: HoRequest,
}

/// What is to be done outside the page.
pub enum Action {
    LaunchCu,
    Handover(HandoverOrder),
}

impl View for Action {
    type V = ActionView;

    open spec fn view(&self) -> ActionView {
        match *self {
            Action::LaunchCu => ActionView::LaunchCu,
            Action::Handover(o) => ActionView::Handover(
                OrderView {
                    ue: o.ue,
                    source: o.source,
                    target: o.target,
                    command: o.request.command@,
                    line: o.request.line@,
                    sending: o.request.status@,
                },
            ),
        }
    }
}

pub open spec fn opt_action(a: Option<Action>) -> Option<ActionView> {
    match a {
        Some(x) => Some(x@),
        None => None,
    }
}

/// What the page did with a key.
pub struct KeyOutcome {
    /// The page took the key.
    pub handled: bool,
    pub action: Option<Action>,
}

fn handled() -> (r: KeyOutcome)
    ensures
        r.handled,
        r.action is None,
{
    KeyOutcome { handled: true, action: None }
}

/// The running UEs, in the order of the snapshot.
fn ue_ids(ctx: &PageCtx) -> (r: Vec<usize>)
    ensures
        r@ == slice::health_ids(ctx.ue_health@),
{
    let mut ids: Vec<usize> = Vec::new();
    let mut i: usize = 0;
    while i < ctx.ue_health.len()
        invariant
            i <= ctx.ue_health.len(),
            ids@ == slice::health_ids(ctx.ue_health@).take(i as int),
        decreases ctx.ue_health.len() - i,
    {
        ids.push(ctx.ue_health[i].id);
        i = i + 1;
        assert(ids@ == slice::health_ids(ctx.ue_health@).take(i as int));
    }
    assert(ids@ == slice::health_ids(ctx.ue_health@));
    ids
}

fn letter_text(cell: usize) -> (r: String)
    requires
        cell <= LAST_CELL,
    ensures
        r@ == seq![slice::letter_of(cell as nat)],
{
    slice::char_text(slice::cell_letter(cell))
}

impl AdvancedState {
    pub fn new() -> (r: Self)
        ensures
            r@ == fresh(),
            r@.well_formed(),
    {
        let r = AdvancedState {
            sel_ue_idx: 0,
            target_cell: 1,
            rnti: String::new(),
            status: text::owned(
                "c start CU   ↑↓ pick UE   </> target cell   R detect rnti   h handover",
            ),
            ho_status: text::owned("idle — pick a UE and a target cell, then h"),
        };
        assert(r@ =~= fresh());
        r
    }

    /// The cell that a UE sits on, as the slice map says.
    pub fn ue_cell(map: &HashMap<usize, SliceMapEntry>, ue: usize) -> (r: usize)
        ensures
            r == cell_of(map@, ue),
            r <= LAST_CELL,
    {
        broadcast use vstd::std_specs::hash::group_hash_axioms;

        match map.get(&ue) {
            Some(e) => configure::cell_in_plan(e),
            None => 0,
        }
    }

    /// Takes over what became of an order.
    pub fn set_ho_status(&mut self, text: String)
        ensures
            final(self)@ == (AdvancedView { ho_status: text@, ..old(self)@ }),
    {
        self.ho_status = text;
    }

    /// The logs have to be searched for an identifier before the key is acted on.
    pub fn needs_rnti(&self, key: Key, ctx: &PageCtx) -> (r: bool)
        ensures
            r == key_needs_rnti(self@, key, slice::health_ids(ctx.ue_health@)),
    {
        let open = self.sel_ue_idx < ctx.ue_health.len() && self.rnti.as_str().unicode_len() == 0;
        match key {
            Key::Enter => open,
            Key::Char(c) => c == 'R' || c == 'r' || (c == 'h' && open),
            _ => false,
        }
    }

    /// Orders the handover of the selected UE, or says why not.
    fn do_handover(&mut self, ctx: &PageCtx, found: Option<&str>) -> (r: Option<Action>)
        requires
            old(self)@.well_formed(),
        ensures
            ({
                let step = ordered(
                    old(self)@,
                    slice::health_ids(ctx.ue_health@),
                    ctx.slice_map@,
                    slice::opt_text(found),
                );
                &&& final(self)@ == step.state
                &&& opt_action(r) == step.action
            }),
    {
        let ghost before = self@;
        let ghost ids = slice::health_ids(ctx.ue_health@);
        if self.sel_ue_idx >= ctx.ue_health.len() {
            self.status = text::owned("no UE selected");
            return None;
        }
        let ue = ctx.ue_health[self.sel_ue_idx].id;
        assert(ue == ids[self.sel_ue_idx as int]);
        if self.rnti.as_str().unicode_len() == 0 {
            self.rnti = match found {
                Some(t) => text::owned(t),
                None => String::new(),
            };
        }
        if self.rnti.as_str().unicode_len() == 0 {
            self.ho_status = text::owned("no RNTI — press R / attach the UE first");
            return None;
        }
        let source = Self::ue_cell(ctx.slice_map, ue);
        if self.target_cell == source {
            let mut msg = text::owned("UE");
            text::push_dec(&mut msg, ue as u64);
            msg.append(" already on cell ");
            msg.append(letter_text(source).as_str());
            msg.append(" — pick a different target (</>)");
            self.status = msg;
            return None;
        }
        let request = handover::send_ho(
            (source + 1) as u16,
            self.rnti.as_str(),
            (self.target_cell + 1) as u16,
        );
        let mut msg = text::owned("UE");
        text::push_dec(&mut msg, ue as u64);
        msg.append(": cell ");
        msg.append(letter_text(source).as_str());
        msg.append(" → ");
        msg.append(letter_text(self.target_cell).as_str());
        msg.append("   ");
        msg.append(request.command.as_str());
        self.status = msg;
        self.ho_status = request.status.clone();
        Some(Action::Handover(HandoverOrder { ue, source, target: self.target_cell, request }))
    }

    /// Acts on a key. `found` is the identifier that the logs name, which matters only where the
    /// page asked for it. What cannot be done here is handed back.
    pub fn handle_key(&mut self, key: Key, ctx: &PageCtx, found: Option<&str>) -> (r: KeyOutcome)
        requires
            old(self)@.well_formed(),
        ensures
            ({
                let step = key_step(
                    old(self)@,
                    key,
                    slice::health_ids(ctx.ue_health@),
                    ctx.slice_map@,
                    slice::opt_text(found),
                );
                &&& final(self)@ == step.state
                &&& r.handled == step.handled
                &&& opt_action(r.action) == step.action
            }),
            final(self)@.well_formed(),
    {
        let ghost before = self@;
        match key {
            Key::Up => {
                if self.sel_ue_idx > 0 {
                    self.sel_ue_idx = self.sel_ue_idx - 1;
                }
                handled()
            },
            Key::Down => {
                let n = ctx.ue_health.len();
                if n > 0 && self.sel_ue_idx < n - 1 {
                    self.sel_ue_idx = self.sel_ue_idx + 1;
                }
                handled()
            },
            Key::Enter => KeyOutcome { handled: true, action: self.do_handover(ctx, found) },
            Key::Char(c) => if c == '>' || c == '.' {
                if self.target_cell < LAST_CELL {
                    self.target_cell = self.target_cell + 1;
                }
                handled()
            } else if c == '<' || c == ',' {
                if self.target_cell > 0 {
                    self.target_cell = self.target_cell - 1;
                }
                handled()
            } else if c == 'R' || c == 'r' {
                self.rnti = match found {
                    Some(t) => text::owned(t),
                    None => String::new(),
                };
                let mut msg = text::owned("no RNTI found — is a UE attached? (check Monitor)");
                if self.rnti.as_str().unicode_len() != 0 {
                    msg = text::owned("detected rnti=");
                    msg.append(self.rnti.as_str());
                }
                self.ho_status = msg;
                assert(self@ =~= detected(before, slice::opt_text(found)));
                handled()
            } else if c == 'c' || c == 'C' {
                KeyOutcome { handled: true, action: Some(Action::LaunchCu) }
            } else if c == 'h' {
                KeyOutcome { handled: true, action: self.do_handover(ctx, found) }
            } else {
                KeyOutcome { handled: false, action: None }
            },
            _ => KeyOutcome { handled: false, action: None },
        }
    }
}

/// No handover is ordered without a running UE, without an identifier, or towards the cell that
/// the UE sits on; one that is ordered names the two cells and the identifier.
pub proof fn law_handover_orders(
    v: AdvancedView,
    key: Key,
    ids: Seq<usize>,
    map: Map<usize, SliceMapEntry>,
    found: Option<Seq<char>>,
)
    requires
        v.well_formed(),
    ensures
        key_step(v, key, ids, map, found).state.well_formed(),
        key_step(v, key, ids, map, found).action matches Some(ActionView::Handover(o)) ==> {
            &&& ids.contains(o.ue)
            &&& o.source == cell_of(map, o.ue)
            &&& o.source != o.target
            &&& o.target == v.target_cell
            &&& key_step(v, key, ids, map, found).state.rnti.len() > 0
            &&& o.command == handover::ho_command(
                (o.source + 1) as nat,
                key_step(v, key, ids, map, found).state.rnti,
                (o.target + 1) as nat,
            )
        },
{
}

// ---------------------------------------------------------------------------
// What the page shows
// ---------------------------------------------------------------------------

/// A path cut down to its last four components, so that it fits a narrow title.
pub open spec fn compacted(p: Seq<char>) -> Seq<char> {
    let parts = text::tokens(p, CharClass::NonSlash);
    if parts.len() <= 4 {
        p
    } else {
        "…/"@ + text::joined(parts.skip(parts.len() - 4), "/"@)
    }
}

/// The last `n` of some character vectors, as strings.
fn last_pieces(v: &Vec<Vec<char>>, n: usize) -> (r: Vec<String>)
    requires
        n <= v@.len(),
    ensures
        text::texts(r@) == text::char_texts(v@).skip(v@.len() - n),
{
    let start = v.len() - n;
    let mut out: Vec<String> = Vec::new();
    let mut i: usize = start;
    while i < v.len()
        invariant
            start <= i <= v.len(),
            start == v@.len() - n,
            out@.len() == i - start,
            forall|k: int| 0 <= k < out@.len() ==> #[trigger] out@[k]@ == v@[start + k]@,
        decreases v.len() - i,
    {
        out.push(text::string_of(v[i].as_slice()));
        i = i + 1;
    }
    assert(text::texts(out@) == text::char_texts(v@).skip(v@.len() - n));
    out
}

/// A path cut down to its last four components.
pub fn compact_path(p: &str) -> (r: String)
    ensures
        r@ == compacted(p@),
{
    let chars = text::chars_of(p);
    let parts = text::split_tokens(chars.as_slice(), CharClass::NonSlash);
    if parts.len() <= 4 {
        return text::owned(p);
    }
    let last = last_pieces(&parts, 4);
    let mut out = text::owned("…/");
    let joined = text::join(&last, "/");
    out.append(joined.as_str());
    out
}

/// The colour of a CU event.
pub open spec fn cu_tint(e: Seq<char>) -> Color {
    let low = text::ascii_lower(e);
    if text::contains(low, "suppress"@) || text::contains(low, "fail"@) {
        Color::Bad
    } else if text::contains(low, "complete"@) || text::contains(low, "finished successfully"@)
        || text::contains(low, "g8"@) {
        Color::Good
    } else {
        Color::Subtle
    }
}

/// The colour of a DU event.
pub open spec fn du_tint(e: Seq<char>) -> Color {
    let low = text::ascii_lower(e);
    if text::contains(low, "prach"@) || text::contains(low, "rar"@) {
        Color::Accent
    } else if text::contains(low, "crnti=0x"@) || text::contains(low, "c-rnti=0x"@)
        || text::contains(low, "finished successfully"@) {
        Color::Good
    } else if text::contains(low, "fail"@) || text::contains(low, "nok"@) {
        Color::Bad
    } else {
        Color::Subtle
    }
}

pub open spec fn event_tint(log: EventLog, e: Seq<char>) -> Color {
    match log {
        EventLog::Cu => cu_tint(e),
        EventLog::Du => du_tint(e),
    }
}

/// The colour of an event.
pub fn event_color(log: EventLog, e: &str) -> (r: Color)
    ensures
        r == event_tint(log, e@),
{
    let chars = text::chars_of(e);
    let lowered = text::lowered(chars.as_slice());
    let low = lowered.as_slice();
    match log {
        EventLog::Cu => if text::has(low, "suppress") || text::has(low, "fail") {
            Color::Bad
        } else if text::has(low, "complete") || text::has(low, "finished successfully")
            || text::has(low, "g8") {
            Color::Good
        } else {
            Color::Subtle
        },
        EventLog::Du => if text::has(low, "prach") || text::has(low, "rar") {
            Color::Accent
        } else if text::has(low, "crnti=0x") || text::has(low, "c-rnti=0x") || text::has(
            low,
            "finished successfully",
        ) {
            Color::Good
        } else if text::has(low, "fail") || text::has(low, "nok") {
            Color::Bad
        } else {
            Color::Subtle
        },
    }
}

/// How many lines fit into a panel of that height, its border left out.
pub open spec fn inner_height(height: u16) -> nat {
    if height > 2 {
        (height - 2) as nat
    } else {
        0
    }
}

/// The pane of a log: its last events, as many as fit, or a word that there are none.
pub open spec fn log_lines(log: EventLog, content: Seq<char>, height: u16) -> Seq<Seq<SpanView>> {
    let events = handover::recent_events(content, log, inner_height(height));
    if events.len() == 0 {
        seq![
            seq![
                ui::tinted(
                    match log {
                        EventLog::Cu => " (no handover lines yet — fire one with h)"@,
                        EventLog::Du => " (no radio handover lines yet)"@,
                    },
                    Color::Muted,
                ),
            ],
        ]
    } else {
        Seq::new(
            events.len(),
            |i: int| seq![ui::tinted(events[i], event_tint(log, events[i]))],
        )
    }
}

/// The pane of a log.
pub fn render_log(log: EventLog, content: &str, height: u16) -> (r: Vec<Vec<Span>>)
    ensures
        ui::lines(r@) == log_lines(log, content@, height),
{
    let h: usize = if height > 2 {
        height as usize - 2
    } else {
        0
    };
    let events = match log {
        EventLog::Cu => handover::cu_ho_events(content, h),
        EventLog::Du => handover::du_ho_events(content, h),
    };
    let ghost all = handover::recent_events(content@, log, inner_height(height));
    assert(text::texts(events@) == all);
    let mut out = ui::no_lines();
    if events.len() == 0 {
        let none = match log {
            EventLog::Cu => " (no handover lines yet — fire one with h)",
            EventLog::Du => " (no radio handover lines yet)",
        };
        ui::put_line(&mut out, ui::one_span(none, Style::fg(Color::Muted)));
        assert(ui::lines(out@) =~= log_lines(log, content@, height));
        return out;
    }
    let mut i: usize = 0;
    while i < events.len()
        invariant
            i <= events.len(),
            events@.len() > 0,
            text::texts(events@) == all,
            all == handover::recent_events(content@, log, inner_height(height)),
            ui::lines(out@) == log_lines(log, content@, height).take(i as int),
        decreases events.len() - i,
    {
        let e = events[i].as_str();
        ui::put_line(&mut out, ui::one_span(e, Style::fg(event_color(log, e))));
        proof {
            assert(e@ == all[i as int]);
            let want = log_lines(log, content@, height);
            assert(want[i as int] == seq![ui::tinted(all[i as int], event_tint(log, all[i as int]))]);
            assert(want.take(i + 1) == want.take(i as int).push(want[i as int]));
        }
        i = i + 1;
    }
    assert(log_lines(log, content@, height).take(i as int) == log_lines(log, content@, height));
    out
}

/// The title of a log's pane; where the log was not found, its usual name stands for it.
pub open spec fn log_title(log: EventLog, path: Option<Seq<char>>) -> Seq<char> {
    match log {
        EventLog::Cu => "CU handover  ·  "@ + compacted(
            match path {
                Some(p) => p,
                None => "cu.log"@,
            },
        ),
        EventLog::Du => "DU radio  ·  "@ + compacted(
            match path {
                Some(p) => p,
                None => "du2.log"@,
            },
        ),
    }
}

fn title_of(log: EventLog, path: Option<&str>) -> (r: String)
    ensures
        r@ == log_title(log, slice::opt_text(path)),
{
    match log {
        EventLog::Cu => {
            let short = compact_path(
                match path {
                    Some(p) => p,
                    None => "cu.log",
                },
            );
            slice::concat_texts("CU handover  ·  ", short.as_str())
        },
        EventLog::Du => {
            let short = compact_path(
                match path {
                    Some(p) => p,
                    None => "du2.log",
                },
            );
            slice::concat_texts("DU radio  ·  ", short.as_str())
        },
    }
}

pub open spec fn shown_slice(map: Map<usize, SliceMapEntry>, ue: usize) -> SliceId {
    match slice::ue_slice(map, ue) {
        Some(s) => s,
        None => SliceId { sst: 0, sd: None },
    }
}

/// The line of one UE in the list of UEs.
pub open spec fn picker_line(
    map: Map<usize, SliceMapEntry>,
    id: usize,
    on: bool,
) -> Seq<SpanView> {
    let sid = shown_slice(map, id);
    seq![
        ui::styled(
            " "@ + if on {
                "►"@
            } else {
                " "@
            } + " UE"@ + text::dec(id as nat) + " "@,
            if on {
                Style { bg: Some(Color::SelBg), ..ui::bold(Color::Text) }
            } else {
                ui::colored(Color::Subtle)
            },
        ),
        ui::tinted(slice::slice_label(sid) + " "@, configure::slice_tint(sid)),
        ui::tinted(
            "on cell "@ + seq![slice::letter_of(cell_of(map, id) as nat)],
            Color::Muted,
        ),
    ]
}

/// The list of UEs to pick from.
pub open spec fn picker_lines(
    v: AdvancedView,
    ids: Seq<usize>,
    map: Map<usize, SliceMapEntry>,
) -> Seq<Seq<SpanView>> {
    if ids.len() == 0 {
        seq![
            seq![ui::tinted("  no UEs running"@, Color::Muted)],
            seq![ui::tinted("  launch from the Configure page (2)"@, Color::Muted)],
        ]
    } else {
        Seq::new(ids.len(), |i: int| picker_line(map, ids[i], i == v.sel_ue_idx))
    }
}

/// The cell of the selected UE; A where none is selected.
pub open spec fn source_cell(
    v: AdvancedView,
    ids: Seq<usize>,
    map: Map<usize, SliceMapEntry>,
) -> usize {
    if v.sel_ue_idx < ids.len() {
        cell_of(map, ids[v.sel_ue_idx as int])
    } else {
        0
    }
}

/// The handover as it would be ordered.
pub open spec fn order_lines(
    v: AdvancedView,
    ids: Seq<usize>,
    map: Map<usize, SliceMapEntry>,
) -> Seq<Seq<SpanView>> {
    let src = source_cell(v, ids, map);
    seq![
        ui::kv_spans(
            "  move    : "@,
            if v.sel_ue_idx < ids.len() {
                "UE"@ + text::dec(ids[v.sel_ue_idx as int] as nat)
            } else {
                "—"@
            },
            Color::Text,
        ) + ui::kv_spans("   from cell "@, seq![slice::letter_of(src as nat)], Color::Good),
        ui::kv_spans(
            "  to cell : "@,
            seq![slice::letter_of(v.target_cell as nat)] + "  (pci "@ + text::dec(
                (v.target_cell + 1) as nat,
            ) + ")   "@,
            Color::Accent,
        ).push(ui::tinted("</> to change"@, Color::Muted)),
        ui::kv_spans(
            "  rnti    : "@,
            if v.rnti.len() == 0 {
                "— (R to detect)"@
            } else {
                v.rnti
            },
            Color::Accent2,
        ),
        ui::kv_spans(
            "  command : "@,
            handover::ho_command(
                (src + 1) as nat,
                if v.rnti.len() == 0 {
                    "<rnti>"@
                } else {
                    v.rnti
                },
                (v.target_cell + 1) as nat,
            ),
            Color::Warn,
        ),
        seq![],
        ui::keyhint_spans("c"@, "start CU"@) + ui::keyhint_spans("h"@, "handover"@)
            + ui::keyhint_spans("R"@, "detect rnti"@) + ui::keyhint_spans("</>"@, "target"@),
        seq![ui::tinted("  "@ + v.ho_status, Color::Subtle)],
    ]
}

/// The page as it is drawn: the selection lies on a running UE.
pub open spec fn shown(v: AdvancedView, n: nat) -> AdvancedView {
    AdvancedView {
        sel_ue_idx: if n > 0 && v.sel_ue_idx >= n {
            (n - 1) as usize
        } else {
            v.sel_ue_idx
        },
        ..v
    }
}

/// A log and the height of its pane.
pub struct LogPane<'a> {
    pub path: Option<&'a str>,
    pub content: &'a str,
    pub height: u16,
}

/// What the Advanced page shows.
pub struct AdvancedScreen {
    pub picker_panel: Panel,
    pub picker: Vec<Vec<Span>>,
    pub order_panel: Panel,
    pub order: Vec<Vec<Span>>,
    pub cu_panel: Panel,
    pub cu_log: Vec<Vec<Span>>,
    pub du_panel: Panel,
    pub du_log: Vec<Vec<Span>>,
    pub status: Span,
}

impl AdvancedState {
    fn picker_row(map: &HashMap<usize, SliceMapEntry>, id: usize, on: bool) -> (r: Vec<Span>)
        ensures
            ui::spans(r@) == picker_line(map@, id, on),
    {
        broadcast use vstd::std_specs::hash::group_hash_axioms;

        let sid = match map.get(&id) {
            Some(e) => e.slice_id(),
            None => SliceId::new(0, None),
        };
        let mut name = text::owned(" ");
        name.append(
            if on {
                "►"
            } else {
                " "
            },
        );
        name.append(" UE");
        text::push_dec(&mut name, id as u64);
        name.append(" ");
        let style = if on {
            Style::strong(Color::Text).on(Color::SelBg)
        } else {
            Style::fg(Color::Subtle)
        };
        let label = slice::concat_texts(sid.short().as_str(), " ");
        let place = slice::concat_texts("on cell ", letter_text(Self::ue_cell(map, id)).as_str());
        let mut line = ui::no_spans();
        ui::put(&mut line, name.as_str(), style);
        ui::put(&mut line, label.as_str(), Style::fg(configure::slice_color(sid)));
        ui::put(&mut line, place.as_str(), Style::fg(Color::Muted));
        assert(ui::spans(line@) =~= picker_line(map@, id, on));
        line
    }

    /// The list of UEs to pick from.
    pub fn render_picker(&self, ctx: &PageCtx) -> (r: Vec<Vec<Span>>)
        ensures
            ui::lines(r@) == picker_lines(
                self@,
                slice::health_ids(ctx.ue_health@),
                ctx.slice_map@,
            ),
    {
        let ids = ue_ids(ctx);
        let mut out = ui::no_lines();
        if ids.len() == 0 {
            ui::put_line(&mut out, ui::one_span("  no UEs running", Style::fg(Color::Muted)));
            ui::put_line(
                &mut out,
                ui::one_span("  launch from the Configure page (2)", Style::fg(Color::Muted)),
            );
            return out;
        }
        let ghost want = picker_lines(self@, ids@, ctx.slice_map@);
        let mut i: usize = 0;
        while i < ids.len()
            invariant
                i <= ids.len(),
                ids@.len() > 0,
                want == picker_lines(self@, ids@, ctx.slice_map@),
                ui::lines(out@) == want.take(i as int),
            decreases ids.len() - i,
        {
            ui::put_line(&mut out, Self::picker_row(ctx.slice_map, ids[i], i == self.sel_ue_idx));
            proof {
                assert(want[i as int] == picker_line(
                    ctx.slice_map@,
                    ids@[i as int],
                    i == self.sel_ue_idx,
                ));
                assert(want.take(i + 1) == want.take(i as int).push(want[i as int]));
            }
            i = i + 1;
        }
        assert(want.take(i as int) == want);
        out
    }

    /// The handover as it would be ordered.
    pub fn render_order(&self, ctx: &PageCtx) -> (r: Vec<Vec<Span>>)
        requires
            self@.well_formed(),
        ensures
            ui::lines(r@) == order_lines(self@, slice::health_ids(ctx.ue_health@), ctx.slice_map@),
    {
        let ghost ids = slice::health_ids(ctx.ue_health@);
        let mut moved = text::owned("—");
        let mut src: usize = 0;
        if self.sel_ue_idx < ctx.ue_health.len() {
            let ue = ctx.ue_health[self.sel_ue_idx].id;
            assert(ue == ids[self.sel_ue_idx as int]);
            moved = text::owned("UE");
            text::push_dec(&mut moved, ue as u64);
            src = Self::ue_cell(ctx.slice_map, ue);
        }
        let mut line = ui::kv("  move    : ", moved.as_str(), Color::Text);
        ui::put_all(
            &mut line,
            ui::kv("   from cell ", letter_text(src).as_str(), Color::Good),
        );
        let mut out = ui::no_lines();
        ui::put_line(&mut out, line);
        let mut target = letter_text(self.target_cell);
        target.append("  (pci ");
        text::push_dec(&mut target, self.target_cell as u64 + 1);
        target.append(")   ");
        let mut line = ui::kv("  to cell : ", target.as_str(), Color::Accent);
        ui::put(&mut line, "</> to change", Style::fg(Color::Muted));
        ui::put_line(&mut out, line);
        let unknown = self.rnti.as_str().unicode_len() == 0;
        ui::put_line(
            &mut out,
            ui::kv(
                "  rnti    : ",
                if unknown {
                    "— (R to detect)"
                } else {
                    self.rnti.as_str()
                },
                Color::Accent2,
            ),
        );
        let mut command = text::owned("ho ");
        text::push_dec(&mut command, src as u64 + 1);
        command.append(" ");
        command.append(
            if unknown {
                "<rnti>"
            } else {
                self.rnti.as_str()
            },
        );
        command.append(" ");
        text::push_dec(&mut command, self.target_cell as u64 + 1);
        ui::put_line(&mut out, ui::kv("  command : ", command.as_str(), Color::Warn));
        ui::put_line(&mut out, ui::no_spans());
        let mut keys = ui::keyhint("c", "start CU");
        ui::put_all(&mut keys, ui::keyhint("h", "handover"));
        ui::put_all(&mut keys, ui::keyhint("R", "detect rnti"));
        ui::put_all(&mut keys, ui::keyhint("</>", "target"));
        ui::put_line(&mut out, keys);
        let last = slice::concat_texts("  ", self.ho_status.as_str());
        ui::put_line(&mut out, ui::one_span(last.as_str(), Style::fg(Color::Subtle)));
        assert(ui::lines(out@) =~= order_lines(self@, ids, ctx.slice_map@));
        out
    }

    /// Puts the selection on a running UE and says what the page shows.
    pub fn render(&mut self, ctx: &PageCtx, cu: &LogPane, du: &LogPane) -> (r: AdvancedScreen)
        requires
            old(self)@.well_formed(),
        ensures
            final(self)@ == shown(old(self)@, ctx.ue_health@.len()),
            final(self)@.well_formed(),
            r.picker_panel.title@ == ui::strong(" "@ + "UE  (↑↓)"@ + " "@, Color::Accent),
            r.picker_panel.border == Color::Accent,
            ui::lines(r.picker@) == picker_lines(
                final(self)@,
                slice::health_ids(ctx.ue_health@),
                ctx.slice_map@,
            ),
            r.order_panel.title@ == ui::strong(" "@ + "Handover"@ + " "@, Color::Subtle),
            r.order_panel.border == Color::Border,
            ui::lines(r.order@) == order_lines(
                final(self)@,
                slice::health_ids(ctx.ue_health@),
                ctx.slice_map@,
            ),
            r.cu_panel.title@ == ui::strong(
                " "@ + log_title(EventLog::Cu, slice::opt_text(cu.path)) + " "@,
                Color::Subtle,
            ),
            r.cu_panel.border == Color::Border,
            ui::lines(r.cu_log@) == log_lines(EventLog::Cu, cu.content@, cu.height),
            r.du_panel.title@ == ui::strong(
                " "@ + log_title(EventLog::Du, slice::opt_text(du.path)) + " "@,
                Color::Subtle,
            ),
            r.du_panel.border == Color::Border,
            ui::lines(r.du_log@) == log_lines(EventLog::Du, du.content@, du.height),
            r.status@ == ui::tinted(" "@ + final(self)@.status, Color::Muted),
    {
        let n = ctx.ue_health.len();
        if n > 0 && self.sel_ue_idx >= n {
            self.sel_ue_idx = n - 1;
        }
        let line = slice::concat_texts(" ", self.status.as_str());
        AdvancedScreen {
            picker_panel: ui::panel("UE  (↑↓)", true),
            picker: self.render_picker(ctx),
            order_panel: ui::panel("Handover", false),
            order: self.render_order(ctx),
            cu_panel: ui::panel(title_of(EventLog::Cu, cu.path).as_str(), false),
            cu_log: render_log(EventLog::Cu, cu.content, cu.height),
            du_panel: ui::panel(title_of(EventLog::Du, du.path).as_str(), false),
            du_log: render_log(EventLog::Du, du.content, du.height),
            status: ui::s(line.as_str(), Color::Muted),
        }
    }
}

} // verus!
