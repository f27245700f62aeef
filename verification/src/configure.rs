//! The Configure page: a plan of slice, data network and cell for each UE, the command that
//! launches the planned UEs, and the health of the selected one.

use std::collections::HashMap;

use vstd::prelude::*;

use crate::keys::Key;
use crate::order;
use crate::slice;
use crate::slice::{PageCtx, SliceId, SliceMapEntry, UeHealth};
use crate::text;
use crate::text::CharClass;
use crate::ui;
use crate::ui::{Color, Panel, Span, SpanView, Style, TableRow};

verus! {

// ---------------------------------------------------------------------------
// The plan
// ---------------------------------------------------------------------------

/// The column of the plan that keys act on.
#[derive(Clone, Copy, PartialEq, Eq, Debug, Structural)]
pub enum Field {
    Sst,
    Sd,
    Dnn,
    Cell,
}

pub open spec fn next_field(f: Field) -> Field {
    match f {
        Field::Sst => Field::Sd,
        Field::Sd => Field::Dnn,
        Field::Dnn => Field::Cell,
        Field::Cell => Field::Sst,
    }
}

pub open spec fn prev_field(f: Field) -> Field {
    match f {
        Field::Sst => Field::Cell,
        Field::Sd => Field::Sst,
        Field::Dnn => Field::Sd,
        Field::Cell => Field::Dnn,
    }
}

impl Field {
    pub fn next(self) -> (r: Field)
        ensures
            r == next_field(self),
    {
        match self {
            Field::Sst => Field::Sd,
            Field::Sd => Field::Dnn,
            Field::Dnn => Field::Cell,
            Field::Cell => Field::Sst,
        }
    }

    pub fn prev(self) -> (r: Field)
        ensures
            r == prev_field(self),
    {
        match self {
            Field::Sst => Field::Cell,
            Field::Sd => Field::Sst,
            Field::Dnn => Field::Sd,
            Field::Cell => Field::Dnn,
        }
    }
}

/// Going one field on and one back undo each other, and four steps lead round.
pub proof fn law_fields_form_a_ring(f: Field)
    ensures
        prev_field(next_field(f)) == f,
        next_field(prev_field(f)) == f,
        next_field(next_field(next_field(next_field(f)))) == f,
{
}

/// The plan for one UE.
pub struct PlanRow {
    pub ue_id: usize,
    pub sst: u8,
    pub sd: Option<u32>,
    pub dnn: String,
    /// The cell: 0 is A, the primary one.
    pub cell: usize,
}

/// What a row of the plan says.
#[verifier::ext_equal]
pub struct RowView {
    pub ue_id: usize,
    pub sst: u8,
    pub sd: Option<u32>,
    pub dnn: Seq<char>,
    pub cell: usize,
}

impl View for PlanRow {
    type V = RowView;

    open spec fn view(&self) -> RowView {
        RowView { ue_id: self.ue_id, sst: self.sst, sd: self.sd, dnn: self.dnn@, cell: self.cell }
    }
}

pub open spec fn row_views(rows: Seq<PlanRow>) -> Seq<RowView> {
    Seq::new(rows.len(), |i: int| rows[i]@)
}

/// The data network that goes with a slice differentiator.
pub open spec fn dnn_for(sd: Option<u32>) -> Seq<char> {
    match sd {
        None => "oai"@,
        Some(n) => if n == 1 {
            "oai"@
        } else {
            "oai"@ + text::dec(n as nat)
        },
    }
}

impl PlanRow {
    pub fn suggested_dnn(sd: Option<u32>) -> (r: String)
        ensures
            r@ == dnn_for(sd),
    {
        match sd {
            None => text::owned("oai"),
            Some(n) => {
                let mut out = text::owned("oai");
                if n != 1 {
                    text::push_dec(&mut out, n as u64);
                }
                out
            },
        }
    }
}

/// The last cell that a plan can use.
pub const LAST_CELL: usize = 7;

/// The Configure page.
pub struct ConfigureState {
    pub rows: Vec<PlanRow>,
    pub sel: usize,
    pub field: Field,
    pub status: String,
    pub initialised: bool,
    pub last_running: Vec<usize>,
    pub reflecting: bool,
}

/// What the Configure page holds.
#[verifier::ext_equal]
pub struct ConfigureView {
    pub rows: Seq<RowView>,
    pub sel: usize,
    pub field: Field,
    pub status: Seq<char>,
    pub initialised: bool,
    pub last_running: Seq<usize>,
    pub reflecting: bool,
}

impl View for ConfigureState {
    type V = ConfigureView;

    open spec fn view(&self) -> ConfigureView {
        ConfigureView {
            rows: row_views(self.rows@),
            sel: self.sel,
            field: self.field,
            status: self.status@,
            initialised: self.initialised,
            last_running: self.last_running@,
            reflecting: self.reflecting,
        }
    }
}

impl ConfigureView {
    /// Every planned cell is one of the eight that the proxy can bridge.
    pub open spec fn well_formed(self) -> bool {
        forall|i: int| 0 <= i < self.rows.len() ==> (#[trigger] self.rows[i]).cell <= LAST_CELL
    }
}

pub open spec fn row(ue_id: usize, sst: u8, sd: Option<u32>, dnn: Seq<char>, cell: usize) -> RowView {
    RowView { ue_id, sst, sd, dnn, cell }
}

/// The plan where nothing is known: two UEs on two slices and two cells.
pub open spec fn default_rows() -> Seq<RowView> {
    seq![row(1, 1, Some(1), "oai"@, 0), row(2, 1, Some(2), "oai2"@, 1)]
}

/// A planned cell that the slice map gives.
pub open spec fn plan_cell(e: SliceMapEntry) -> usize {
    slice::at_most(e.spec_cell(), LAST_CELL as nat) as usize
}

/// The row that a slice map entry gives.
pub open spec fn entry_row(id: usize, e: SliceMapEntry) -> RowView {
    row(
        id,
        e.sst,
        e.spec_sd(),
        match e.dnn {
            Some(d) => d@,
            None => dnn_for(e.spec_sd()),
        },
        plan_cell(e),
    )
}

/// The plan that a slice map gives: its UEs in ascending order, or the default where it is empty.
pub open spec fn planned_rows(map: Map<usize, SliceMapEntry>) -> Seq<RowView> {
    if map.dom().len() == 0 {
        default_rows()
    } else {
        let ids = order::in_order(map.dom());
        Seq::new(ids.len(), |i: int| entry_row(ids[i], map[ids[i]]))
    }
}

/// The page with its plan, made from the slice map the first time.
pub open spec fn with_plan(v: ConfigureView, map: Map<usize, SliceMapEntry>) -> ConfigureView {
    if v.initialised {
        v
    } else {
        ConfigureView { rows: planned_rows(map), initialised: true, ..v }
    }
}

/// Making the plan a second time, from whatever slice map, changes nothing. Made from a map with
/// UEs, it has a row for each of them and no other, in ascending order, with the slice, the network
/// and the cell that the map gives; and nothing but the rows changes.
pub proof fn law_plan_is_made_once(
    v: ConfigureView,
    map: Map<usize, SliceMapEntry>,
    later: Map<usize, SliceMapEntry>,
)
    requires
        map.dom().finite(),
    ensures
        with_plan(v, map).initialised,
        with_plan(with_plan(v, map), later) == with_plan(v, map),
        with_plan(v, map) == (ConfigureView {
            rows: with_plan(v, map).rows,
            initialised: true,
            ..v
        }),
        v.initialised ==> with_plan(v, map) == v,
        !v.initialised && map.dom().len() == 0 ==> with_plan(v, map).rows == default_rows(),
        !v.initialised && map.dom().len() > 0 ==> ({
            let rows = with_plan(v, map).rows;
            &&& forall|i: int, j: int|
                0 <= i < j < rows.len() ==> (#[trigger] rows[i]).ue_id < (#[trigger] rows[j]).ue_id
            &&& forall|i: int|
                0 <= i < rows.len() ==> map.dom().contains((#[trigger] rows[i]).ue_id)
                    && rows[i] == entry_row(rows[i].ue_id, map[rows[i].ue_id])
            &&& forall|id: usize| #[trigger]
                map.dom().contains(id) ==> exists|i: int|
                    0 <= i < rows.len() && (#[trigger] rows[i]).ue_id == id
        }),
{
    if !v.initialised && map.dom().len() > 0 {
        let ids = order::in_order(map.dom());
        let rows = with_plan(v, map).rows;
        order::lemma_in_order_of(map.dom());
        assert forall|i: int| 0 <= i < rows.len() implies map.dom().contains(
            (#[trigger] rows[i]).ue_id,
        ) by {
            assert(ids.to_set().contains(ids[i]));
        }
        assert forall|id: usize| #[trigger] map.dom().contains(id) implies exists|i: int|
            0 <= i < rows.len() && (#[trigger] rows[i]).ue_id == id by {
            assert(ids.to_set().contains(id));
            let i = choose|i: int| 0 <= i < ids.len() && ids[i] == id;
            assert(rows[i].ue_id == id);
        }
    }
}

/// The slice that was detected for a UE; the default slice where none was.
pub open spec fn detected_slice(
    detected: Map<usize, (u8, Option<u32>)>,
    id: usize,
) -> (u8, Option<u32>) {
    if detected.dom().contains(id) {
        detected[id]
    } else {
        (1, None)
    }
}

/// The row that reflects a running UE.
pub open spec fn running_row(
    id: usize,
    map: Map<usize, SliceMapEntry>,
    detected: Map<usize, (u8, Option<u32>)>,
) -> RowView {
    let (sst, sd) = detected_slice(detected, id);
    row(
        id,
        sst,
        sd,
        dnn_for(sd),
        if map.dom().contains(id) {
            plan_cell(map[id])
        } else {
            0
        },
    )
}

/// The page brought up to date with the running UEs. While UEs run their rows are shown, made
/// anew only when the set of UEs changes; when none runs the plan is shown again.
pub open spec fn synced(
    v: ConfigureView,
    ids: Seq<usize>,
    map: Map<usize, SliceMapEntry>,
    detected: Map<usize, (u8, Option<u32>)>,
) -> ConfigureView {
    let running = order::sorted(ids);
    if running.len() == 0 {
        with_plan(
            ConfigureView {
                initialised: v.initialised && !v.reflecting,
                reflecting: false,
                last_running: seq![],
                ..v
            },
            map,
        )
    } else if running == v.last_running && v.rows.len() > 0 {
        ConfigureView { reflecting: true, ..v }
    } else {
        ConfigureView {
            rows: Seq::new(running.len(), |i: int| running_row(running[i], map, detected)),
            sel: if v.sel >= running.len() {
                (running.len() - 1) as usize
            } else {
                v.sel
            },
            initialised: true,
            last_running: running,
            reflecting: true,
            ..v
        }
    }
}

/// When other UEs run than before, a row stands for each of them in their order; and as long as the
/// same UEs run, whatever else is read of them, the rows and the selection stay as they are.
pub proof fn law_running_ues_are_shown(
    v: ConfigureView,
    ids: Seq<usize>,
    map: Map<usize, SliceMapEntry>,
    detected: Map<usize, (u8, Option<u32>)>,
    later_map: Map<usize, SliceMapEntry>,
    later: Map<usize, (u8, Option<u32>)>,
)
    requires
        ids.len() > 0,
    ensures
        ({
            let s = synced(v, ids, map, detected);
            &&& s.reflecting
            &&& order::sorted(ids) != v.last_running ==> s.rows.len() == ids.len() && forall|i: int|
                0 <= i < ids.len() ==> (#[trigger] s.rows[i]).ue_id == order::sorted(ids)[i]
            &&& order::sorted(ids) == v.last_running && v.rows.len() > 0 ==> s.rows == v.rows
                && s.sel == v.sel
            &&& synced(s, ids, later_map, later) == s
        }),
{
    order::law_sorted(ids);
}

fn plan_row(ue_id: usize, sst: u8, sd: Option<u32>, dnn: String, cell: usize) -> (r: PlanRow)
    ensures
        r@ == row(ue_id, sst, sd, dnn@, cell),
{
    PlanRow { ue_id, sst, sd, dnn, cell }
}

/// The planned cell that a slice map entry gives.
pub fn cell_in_plan(e: &SliceMapEntry) -> (r: usize)
    ensures
        r == plan_cell(*e),
        r <= LAST_CELL,
{
    let c = e.cell_index();
    if c < LAST_CELL {
        c
    } else {
        LAST_CELL
    }
}

fn row_of_entry(id: usize, e: &SliceMapEntry) -> (r: PlanRow)
    ensures
        r@ == entry_row(id, *e),
{
    let dnn = match &e.dnn {
        Some(d) => d.clone(),
        None => PlanRow::suggested_dnn(e.sd_num()),
    };
    plan_row(id, e.sst, e.sd_num(), dnn, cell_in_plan(e))
}

/// The keys of a slice map in ascending order.
fn map_ids(map: &HashMap<usize, SliceMapEntry>) -> (r: Vec<usize>)
    ensures
        r@ == order::in_order(map@.dom()),
        order::ascending(r@),
        r@.to_set() == map@.dom(),
{
    broadcast use vstd::std_specs::hash::group_hash_axioms;

    let mut ids: Vec<usize> = Vec::new();
    let keys = map.keys();
    let ghost all = vstd::std_specs::iter::IteratorSpec::remaining(&keys);
    for k in it: keys
        invariant
            it.seq() == all,
            ids@ == all.unref().take(it.index() as int),
    {
        ids.push(*k);
    }
    assert(ids@ == all.unref());
    assert(all.unref().to_set() == map@.dom());
    assert(all.no_duplicates());
    assert(ids@.no_duplicates());
    let out = order::sort_ids(&ids);
    proof {
        order::law_sorted(ids@);
        order::lemma_sorted_ascending(ids@);
        order::lemma_in_order(out@);
    }
    out
}

/// The plan that a slice map gives.
fn rows_of_map(map: &HashMap<usize, SliceMapEntry>) -> (r: Vec<PlanRow>)
    ensures
        row_views(r@) == planned_rows(map@),
{
    broadcast use vstd::std_specs::hash::group_hash_axioms;

    let ids = map_ids(map);
    let mut rows: Vec<PlanRow> = Vec::new();
    proof {
        ids@.unique_seq_to_set();
    }
    if ids.len() == 0 {
        rows.push(plan_row(1, 1, Some(1), text::owned("oai"), 0));
        rows.push(plan_row(2, 1, Some(2), text::owned("oai2"), 1));
        assert(row_views(rows@) == default_rows());
        return rows;
    }
    let mut i: usize = 0;
    while i < ids.len()
        invariant
            i <= ids.len(),
            rows@.len() == i,
            ids@.to_set() == map@.dom(),
            forall|k: int| 0 <= k < i ==> (#[trigger] rows@[k])@ == entry_row(ids@[k], map@[ids@[k]]),
        decreases ids.len() - i,
    {
        assert(ids@.to_set().contains(ids@[i as int]));
        match map.get(&ids[i]) {
            Some(e) => {
                rows.push(row_of_entry(ids[i], e));
            },
            None => {},
        }
        i = i + 1;
    }
    assert(row_views(rows@) == planned_rows(map@));
    rows
}

/// The page as it starts.
pub open spec fn fresh() -> ConfigureView {
    ConfigureView {
        rows: seq![],
        sel: 0,
        field: Field::Sd,
        status: "compose each UE's slice + cell, then  r  to launch them"@,
        initialised: false,
        last_running: seq![],
        reflecting: false,
    }
}

proof fn lemma_synced_well_formed(
    v: ConfigureView,
    ids: Seq<usize>,
    map: Map<usize, SliceMapEntry>,
    detected: Map<usize, (u8, Option<u32>)>,
)
    requires
        v.well_formed(),
    ensures
        synced(v, ids, map, detected).well_formed(),
        with_plan(v, map).well_formed(),
{
}

impl ConfigureState {
    pub fn new() -> (r: Self)
        ensures
            r@ == fresh(),
            r@.well_formed(),
    {
        let r = ConfigureState {
            rows: Vec::new(),
            sel: 0,
            field: Field::Sd,
            status: text::owned("compose each UE's slice + cell, then  r  to launch them"),
            initialised: false,
            last_running: Vec::new(),
            reflecting: false,
        };
        assert(r@ =~= fresh());
        r
    }

    /// Makes the plan from the slice map, the first time only.
    pub fn ensure_init(&mut self, ctx: &PageCtx)
        ensures
            final(self)@ == with_plan(old(self)@, ctx.slice_map@),
    {
        if self.initialised {
            return ;
        }
        self.rows = rows_of_map(ctx.slice_map);
        self.initialised = true;
    }

    /// The running UEs in ascending order.
    fn running(ctx: &PageCtx) -> (r: Vec<usize>)
        ensures
            r@ == order::sorted(slice::health_ids(ctx.ue_health@)),
    {
        let mut ids: Vec<usize> = Vec::new();
        let mut i: usize = 0;
        while i < ctx.ue_health.len()
            invariant
                i <= ctx.ue_health.len(),
                ids@ == slice::health_ids(ctx.ue_health@).take(i as int),
            decreases ctx.ue_health.len() - i,
        {
            ids.push(ctx.ue_health[i].id);
            i = i + 1;
            assert(ids@ == slice::health_ids(ctx.ue_health@).take(i as int));
        }
        assert(ids@ == slice::health_ids(ctx.ue_health@));
        order::sort_ids(&ids)
    }

    /// The rows have to be made anew because other UEs run than before. Only then are the
    /// detected slices of the running UEs looked at.
    pub fn running_changed(&self, ctx: &PageCtx) -> (r: bool)
        ensures
            r == (ctx.ue_health@.len() > 0 && !(order::sorted(slice::health_ids(ctx.ue_health@))
                == self@.last_running && self@.rows.len() > 0)),
    {
        proof {
            order::law_sorted(slice::health_ids(ctx.ue_health@));
        }
        if ctx.ue_health.len() == 0 {
            return false;
        }
        let running = Self::running(ctx);
        !(order::same_ids(&running, &self.last_running) && self.rows.len() > 0)
    }

    /// Brings the page up to date with the running UEs; `detected` holds the slices that their
    /// logs name.
    pub fn sync_running(
        &mut self,
        ctx: &PageCtx,
        detected: &HashMap<usize, (u8, Option<u32>)>,
    )
        requires
            old(self)@.well_formed(),
        ensures
            final(self)@ == synced(
                old(self)@,
                slice::health_ids(ctx.ue_health@),
                ctx.slice_map@,
                detected@,
            ),
            final(self)@.well_formed(),
    {
        broadcast use vstd::std_specs::hash::group_hash_axioms;

        let ghost before = self@;
        let ghost ids = slice::health_ids(ctx.ue_health@);
        proof {
            lemma_synced_well_formed(before, ids, ctx.slice_map@, detected@);
        }
        let running = Self::running(ctx);
        if running.len() == 0 {
            if self.reflecting {
                self.initialised = false;
            }
            self.reflecting = false;
            self.last_running = Vec::new();
            proof {
                assert(self@ =~= ConfigureView {
                    initialised: before.initialised && !before.reflecting,
                    reflecting: false,
                    last_running: seq![],
                    ..before
                });
            }
            self.ensure_init(ctx);
            return ;
        }
        self.reflecting = true;
        if order::same_ids(&running, &self.last_running) && self.rows.len() > 0 {
            return ;
        }
        let mut rows: Vec<PlanRow> = Vec::new();
        let mut i: usize = 0;
        while i < running.len()
            invariant
                i <= running.len(),
                rows@.len() == i,
                forall|k: int|
                    0 <= k < i ==> (#[trigger] rows@[k])@ == running_row(
                        running@[k],
                        ctx.slice_map@,
                        detected@,
                    ),
            decreases running.len() - i,
        {
            let id = running[i];
            let (sst, sd) = match detected.get(&id) {
                Some(d) => *d,
                None => (1u8, None),
            };
            let cell = match ctx.slice_map.get(&id) {
                Some(e) => cell_in_plan(e),
                None => 0,
            };
            rows.push(plan_row(id, sst, sd, PlanRow::suggested_dnn(sd), cell));
            i = i + 1;
        }
        assert(row_views(rows@) == Seq::new(
            running@.len(),
            |k: int| running_row(running@[k], ctx.slice_map@, detected@),
        ));
        self.rows = rows;
        self.initialised = true;
        if self.sel >= running.len() {
            self.sel = running.len() - 1;
        }
        self.last_running = running;
    }
}

// ---------------------------------------------------------------------------
// Editing the plan
// ---------------------------------------------------------------------------

pub open spec fn clamp(n: int, low: int, high: int) -> int {
    if n < low {
        low
    } else if n > high {
        high
    } else {
        n
    }
}

/// A number of 32 bits read as a signed one.
pub open spec fn as_signed(n: u32) -> int {
    if n < 0x8000_0000 {
        n as int
    } else {
        n - 0x1_0000_0000
    }
}

pub open spec fn fits_i32(n: int) -> bool {
    -0x8000_0000 <= n < 0x8000_0000
}

pub open spec fn sd_or_zero(sd: Option<u32>) -> u32 {
    match sd {
        Some(n) => n,
        None => 0,
    }
}

/// A text without any repetitions of `pat` at its start.
pub open spec fn without_prefixes(s: Seq<char>, pat: Seq<char>) -> Seq<char>
    decreases s.len(),
{
    if pat.len() > 0 && text::starts_with(s, pat) {
        without_prefixes(s.skip(pat.len() as int), pat)
    } else {
        s
    }
}

/// The number of a data network: 1 for the unnumbered one.
pub open spec fn dnn_number(dnn: Seq<char>) -> u32 {
    match text::number(without_prefixes(dnn, "oai"@), 10, u32::MAX as nat) {
        Some(n) => n as u32,
        None => 1,
    }
}

/// A data network by its number.
pub open spec fn dnn_named(n: nat) -> Seq<char> {
    if n == 1 {
        "oai"@
    } else {
        "oai"@ + text::dec(n)
    }
}

/// A field can be moved up or down without leaving the range of the numbers.
pub open spec fn bump_fits(r: RowView, f: Field, dir: int) -> bool {
    match f {
        Field::Sst => fits_i32(r.sst + dir),
        Field::Sd => fits_i32(as_signed(sd_or_zero(r.sd)) + dir),
        Field::Dnn => fits_i32(as_signed(dnn_number(r.dnn)) - 1) && fits_i32(
            as_signed(dnn_number(r.dnn)) - 1 + dir,
        ),
        Field::Cell => fits_i32(r.cell + dir),
    }
}

/// A slice differentiator by number, 0 standing for none.
pub open spec fn sd_of_number(n: int) -> Option<u32> {
    if n == 0 {
        None
    } else {
        Some(n as u32)
    }
}

/// A row with one field moved up or down. The slice type stays between 1 and 4 and the
/// differentiator between none and 8; the data network and the cell go round.
pub open spec fn bumped(r: RowView, f: Field, dir: int) -> RowView {
    match f {
        Field::Sst => RowView { sst: clamp(r.sst + dir, 1, 4) as u8, ..r },
        Field::Sd => {
            let sd = sd_of_number(clamp(as_signed(sd_or_zero(r.sd)) + dir, 0, 8));
            RowView { sd, dnn: dnn_for(sd), ..r }
        },
        Field::Dnn => RowView {
            dnn: dnn_named(((as_signed(dnn_number(r.dnn)) - 1 + dir) % 4 + 1) as nat),
            ..r
        },
        Field::Cell => RowView { cell: ((r.cell + dir) % 4) as usize, ..r },
    }
}

/// A row with one field set by a digit, and what is said about it; none where the field does not
/// take the digit.
pub open spec fn digit_set(r: RowView, f: Field, d: nat) -> Option<(RowView, Seq<char>)> {
    match f {
        Field::Sst => if 1 <= d <= 4 {
            Some(
                (
                    RowView { sst: d as u8, ..r },
                    "UE"@ + text::dec(r.ue_id as nat) + " SST="@ + text::dec(d),
                ),
            )
        } else {
            None
        },
        Field::Sd => Some(
            (
                RowView { sd: sd_of_number(d as int), dnn: dnn_for(sd_of_number(d as int)), ..r },
                "UE"@ + text::dec(r.ue_id as nat) + " SD="@ + if d == 0 {
                    "none"@
                } else {
                    "sd"@ + text::dec(d)
                },
            ),
        ),
        Field::Dnn => None,
        Field::Cell => if d <= LAST_CELL {
            Some(
                (
                    RowView { cell: d as usize, ..r },
                    "UE"@ + text::dec(r.ue_id as nat) + " cell="@ + seq![slice::letter_of(d)],
                ),
            )
        } else {
            None
        },
    }
}

/// The page with the selected row changed.
pub open spec fn with_row(v: ConfigureView, r: RowView) -> ConfigureView {
    ConfigureView { rows: v.rows.update(v.sel as int, r), ..v }
}

fn dnn_num(dnn: &str) -> (r: u32)
    ensures
        r == dnn_number(dnn@),
{
    let chars = text::chars_of(dnn);
    let mut rest = chars.as_slice();
    proof {
        reveal_strlit("oai");
    }
    loop
        invariant
            "oai"@.len() == 3,
            without_prefixes(rest@, "oai"@) == without_prefixes(dnn@, "oai"@),
        decreases rest.len(),
    {
        match text::strip_prefix(rest, "oai") {
            Some(t) => {
                rest = t;
            },
            None => {
                return match slice::read_u32(rest, 10) {
                    Some(n) => n,
                    None => 1,
                };
            },
        }
    }
}

/// The largest UE number of a plan; 0 for an empty one.
pub open spec fn largest_id(rows: Seq<RowView>) -> nat
    decreases rows.len(),
{
    if rows.len() == 0 {
        0
    } else if rows.last().ue_id > largest_id(rows.drop_last()) {
        rows.last().ue_id as nat
    } else {
        largest_id(rows.drop_last())
    }
}

/// The page with one more UE, which is then selected.
pub open spec fn with_added_ue(v: ConfigureView) -> ConfigureView {
    let id = largest_id(v.rows) + 1;
    ConfigureView {
        rows: v.rows.push(row(id as usize, 1, Some(1), "oai"@, 0)),
        sel: v.rows.len() as usize,
        status: "added UE"@ + text::dec(id),
        ..v
    }
}

/// The selected row, or the last one where the selection lies behind it.
pub open spec fn removed_index(v: ConfigureView) -> int {
    if v.sel < v.rows.len() {
        v.sel as int
    } else {
        v.rows.len() - 1
    }
}

/// The page without the selected UE. The last UE of a plan stays.
pub open spec fn with_removed_ue(v: ConfigureView) -> ConfigureView {
    if v.rows.len() <= 1 {
        v
    } else {
        let k = removed_index(v);
        ConfigureView {
            rows: v.rows.remove(k),
            sel: if v.sel <= v.rows.len() - 2 {
                v.sel
            } else {
                (v.rows.len() - 2) as usize
            },
            status: "removed UE"@ + text::dec(v.rows[k].ue_id as nat),
            ..v
        }
    }
}

// ---------------------------------------------------------------------------
// Launching the plan
// ---------------------------------------------------------------------------

pub open spec fn sst_texts(rows: Seq<RowView>) -> Seq<Seq<char>> {
    Seq::new(rows.len(), |i: int| text::dec(rows[i].sst as nat))
}

pub open spec fn sd_text(sd: Option<u32>) -> Seq<char> {
    match sd {
        Some(n) => text::dec(n as nat),
        None => seq![],
    }
}

pub open spec fn sd_texts(rows: Seq<RowView>) -> Seq<Seq<char>> {
    Seq::new(rows.len(), |i: int| sd_text(rows[i].sd))
}

pub open spec fn dnn_texts(rows: Seq<RowView>) -> Seq<Seq<char>> {
    Seq::new(rows.len(), |i: int| rows[i].dnn)
}

pub open spec fn cell_texts(rows: Seq<RowView>) -> Seq<Seq<char>> {
    Seq::new(rows.len(), |i: int| text::dec(rows[i].cell as nat))
}

/// The cells beyond the primary one that a plan uses.
pub open spec fn extra_cells(rows: Seq<RowView>) -> Set<usize> {
    Set::new(|c: usize| c > 0 && exists|i: int| 0 <= i < rows.len() && (#[trigger] rows[i]).cell == c)
}

/// The setting that lets the proxy bridge an extra cell.
pub open spec fn cell_setting(c: nat) -> Seq<char> {
    " HO_CELL"@ + text::dec(c + 1) + "=\"tcp://127.0.0.1:"@ + text::dec(4556 + 2 * c)
        + ",tcp://127.0.0.1:"@ + text::dec(4557 + 2 * c) + "\""@
}

pub open spec fn cell_settings(cells: Seq<usize>) -> Seq<char>
    decreases cells.len(),
{
    if cells.len() == 0 {
        seq![]
    } else {
        cell_settings(cells.drop_last()) + cell_setting(cells.last() as nat)
    }
}

/// The shell command that launches the planned UEs.
pub open spec fn launch_command(rows: Seq<RowView>, scripts: Seq<char>) -> Seq<char> {
    "SST_LIST="@ + text::joined(sst_texts(rows), ","@) + " SD_LIST="@ + text::joined(
        sd_texts(rows),
        ","@,
    ) + " DNN_LIST="@ + text::joined(dnn_texts(rows), ","@) + " UE_CELL="@ + text::joined(
        cell_texts(rows),
        ","@,
    ) + " N_RB=106"@ + cell_settings(order::in_order(extra_cells(rows))) + " bash "@ + scripts
        + "/run_nue.sh "@ + text::dec(rows.len())
}

pub open spec fn launch_status(rows: Seq<RowView>) -> Seq<char> {
    "launching "@ + text::dec(rows.len()) + " UE(s)  SD_LIST="@ + text::joined(
        sd_texts(rows),
        ","@,
    ) + "  UE_CELL="@ + text::joined(cell_texts(rows), ","@) + "  (watch Monitor page)"@
}

/// What a key does: the page after it, whether the page took the key, and the shell command it
/// starts, if any.
pub struct KeyStep {
    pub state: ConfigureView,
    pub handled: bool,
    pub spawn: Option<Seq<char>>,
}

pub open spec fn took(state: ConfigureView) -> KeyStep {
    KeyStep { state, handled: true, spawn: None }
}

pub open spec fn with_status(v: ConfigureView, status: Seq<char>) -> ConfigureView {
    ConfigureView { status, ..v }
}

/// Launching is refused while the gNB is down.
pub open spec fn launched(v: ConfigureView, gnb_up: bool, scripts: Seq<char>) -> KeyStep {
    if !gnb_up {
        took(with_status(v, "gNB is DOWN — start the CU + DU(s) first, then press r"@))
    } else {
        KeyStep {
            state: with_status(v, launch_status(v.rows)),
            handled: true,
            spawn: Some(launch_command(v.rows, scripts)),
        }
    }
}

/// What a digit does to the selected row.
pub open spec fn digit_step(v: ConfigureView, d: nat) -> KeyStep {
    if v.sel >= v.rows.len() {
        KeyStep { state: v, handled: false, spawn: None }
    } else {
        match digit_set(v.rows[v.sel as int], v.field, d) {
            Some((r, msg)) => took(with_status(with_row(v, r), msg)),
            None => KeyStep { state: v, handled: false, spawn: None },
        }
    }
}

pub open spec fn bump_step(v: ConfigureView, dir: int) -> KeyStep {
    if v.sel >= v.rows.len() {
        took(v)
    } else {
        took(with_row(v, bumped(v.rows[v.sel as int], v.field, dir)))
    }
}

pub open spec fn key_step(v: ConfigureView, key: Key, gnb_up: bool, scripts: Seq<char>) -> KeyStep {
    match key {
        Key::Up => took(
            ConfigureView {
                sel: if v.sel > 0 {
                    (v.sel - 1) as usize
                } else {
                    0
                },
                ..v
            },
        ),
        Key::Down => took(
            ConfigureView {
                sel: if v.sel + 1 < v.rows.len() {
                    (v.sel + 1) as usize
                } else {
                    v.sel
                },
                ..v
            },
        ),
        Key::Left => took(ConfigureView { field: prev_field(v.field), ..v }),
        Key::Right => took(ConfigureView { field: next_field(v.field), ..v }),
        Key::Enter => launched(v, gnb_up, scripts),
        Key::Char(c) => if c == '\t' {
            took(ConfigureView { field: next_field(v.field), ..v })
        } else if c == '+' || c == '=' {
            bump_step(v, 1)
        } else if c == '-' || c == '_' {
            bump_step(v, -1)
        } else if text::is_digit(c) {
            digit_step(v, text::digit_value(c))
        } else if c == 'a' {
            took(with_added_ue(v))
        } else if c == 'd' {
            took(with_removed_ue(v))
        } else if c == 'r' {
            launched(v, gnb_up, scripts)
        } else if c == 'k' {
            KeyStep {
                state: with_status(v, "stopping all UEs + proxy…"@),
                handled: true,
                spawn: Some("bash "@ + scripts + "/dash_ctl.sh stop"@),
            }
        } else {
            KeyStep { state: v, handled: false, spawn: None }
        },
        _ => KeyStep { state: v, handled: false, spawn: None },
    }
}

/// The numbers that a key would reach can be held.
pub open spec fn key_fits(v: ConfigureView, key: Key) -> bool {
    match key {
        Key::Char(c) => if c == '+' || c == '=' {
            v.sel < v.rows.len() ==> bump_fits(v.rows[v.sel as int], v.field, 1)
        } else if c == '-' || c == '_' {
            v.sel < v.rows.len() ==> bump_fits(v.rows[v.sel as int], v.field, -1)
        } else if c == 'a' {
            largest_id(v.rows) < usize::MAX
        } else {
            true
        },
        _ => true,
    }
}

/// What the page did with a key.
pub struct KeyOutcome {
    /// The page took the key.
    pub handled: bool,
    /// The shell command to start in the background, if any.
    pub spawn: Option<String>,
}

fn handled() -> (r: KeyOutcome)
    ensures
        r.handled,
        r.spawn is None,
{
    KeyOutcome { handled: true, spawn: None }
}

fn ignored() -> (r: KeyOutcome)
    ensures
        !r.handled,
        r.spawn is None,
{
    KeyOutcome { handled: false, spawn: None }
}

fn signed(n: u32) -> (r: i64)
    ensures
        r == as_signed(n),
{
    if n < 0x8000_0000 {
        n as i64
    } else {
        n as i64 - 0x1_0000_0000
    }
}

fn number_of_sd(sd: Option<u32>) -> (r: u32)
    ensures
        r == sd_or_zero(sd),
{
    match sd {
        Some(n) => n,
        None => 0,
    }
}

/// The columns of a plan as the launch script takes them.
pub enum Column {
    Sst,
    Sd,
    Dnn,
    Cell,
}

pub open spec fn column_text(r: RowView, c: Column) -> Seq<char> {
    match c {
        Column::Sst => text::dec(r.sst as nat),
        Column::Sd => sd_text(r.sd),
        Column::Dnn => r.dnn,
        Column::Cell => text::dec(r.cell as nat),
    }
}

fn column_of(rows: &Vec<PlanRow>, c: Column) -> (r: String)
    ensures
        r@ == text::joined(
            Seq::new(rows@.len(), |i: int| column_text(rows@[i]@, c)),
            ","@,
        ),
{
    let mut parts: Vec<String> = Vec::new();
    let mut i: usize = 0;
    while i < rows.len()
        invariant
            i <= rows.len(),
            parts@.len() == i,
            forall|k: int| 0 <= k < i ==> (#[trigger] parts@[k])@ == column_text(rows@[k]@, c),
        decreases rows.len() - i,
    {
        let r = &rows[i];
        let t = match c {
            Column::Sst => text::dec_text(r.sst as u64),
            Column::Sd => match r.sd {
                Some(n) => text::dec_text(n as u64),
                None => String::new(),
            },
            Column::Dnn => r.dnn.clone(),
            Column::Cell => text::dec_text(r.cell as u64),
        };
        assert(t@ == column_text(rows@[i as int]@, c));
        parts.push(t);
        i = i + 1;
    }
    assert(text::texts(parts@) == Seq::new(rows@.len(), |i: int| column_text(rows@[i]@, c)));
    text::join(&parts, ",")
}

fn uses_cell(rows: &Vec<PlanRow>, c: usize) -> (r: bool)
    ensures
        r == exists|i: int| 0 <= i < rows@.len() && (#[trigger] row_views(rows@)[i]).cell == c,
{
    let mut i: usize = 0;
    while i < rows.len()
        invariant
            i <= rows.len(),
            forall|k: int| 0 <= k < i ==> (#[trigger] row_views(rows@)[k]).cell != c,
        decreases rows.len() - i,
    {
        if rows[i].cell == c {
            assert(row_views(rows@)[i as int].cell == c);
            return true;
        }
        i = i + 1;
    }
    false
}

/// The settings for the extra cells that a plan uses.
fn extra_settings(rows: &Vec<PlanRow>) -> (r: String)
    requires
        forall|i: int| 0 <= i < rows@.len() ==> (#[trigger] row_views(rows@)[i]).cell <= LAST_CELL,
    ensures
        r@ == cell_settings(order::in_order(extra_cells(row_views(rows@)))),
{
    let ghost views = row_views(rows@);
    let mut out = String::new();
    let ghost mut cells: Seq<usize> = seq![];
    let mut c: usize = 1;
    while c <= LAST_CELL
        invariant
            1 <= c <= LAST_CELL + 1,
            views == row_views(rows@),
            out@ == cell_settings(cells),
            order::ascending(cells),
            forall|k: int| 0 <= k < cells.len() ==> 0 < #[trigger] cells[k] < c,
            forall|x: usize| 0 < x < c ==> (cells.contains(x) <==> extra_cells(views).contains(x)),
        decreases LAST_CELL + 1 - c,
    {
        let ghost before = cells;
        if uses_cell(rows, c) {
            out.append(" HO_CELL");
            text::push_dec(&mut out, c as u64 + 1);
            out.append("=\"tcp://127.0.0.1:");
            text::push_dec(&mut out, 4556 + 2 * c as u64);
            out.append(",tcp://127.0.0.1:");
            text::push_dec(&mut out, 4557 + 2 * c as u64);
            out.append("\"");
            proof {
                cells = cells.push(c);
                assert(cells.drop_last() == before);
                assert(out@ == cell_settings(before) + cell_setting(c as nat));
                assert(cells[before.len() as int] == c);
                assert(extra_cells(views).contains(c));
            }
        }
        proof {
            assert forall|x: usize| 0 < x < c + 1 implies (cells.contains(x) <==> extra_cells(
                views,
            ).contains(x)) by {
                if before.contains(x) {
                    let k = choose|k: int| 0 <= k < before.len() && before[k] == x;
                    assert(cells[k] == x);
                }
                if cells.contains(x) && x != c {
                    let k = choose|k: int| 0 <= k < cells.len() && cells[k] == x;
                    assert(before[k] == x);
                }
            }
        }
        c = c + 1;
    }
    proof {
        assert(cells.to_set() =~= extra_cells(views)) by {
            assert forall|x: usize| cells.to_set().contains(x) == extra_cells(views).contains(
                x,
            ) by {
                if cells.contains(x) {
                    let k = choose|k: int| 0 <= k < cells.len() && cells[k] == x;
                    assert(0 < cells[k] < c);
                }
                if extra_cells(views).contains(x) {
                    let i = choose|i: int| 0 <= i < views.len() && (#[trigger] views[i]).cell == x;
                    assert(views[i].cell <= LAST_CELL);
                }
            }
        }
        order::lemma_in_order(cells);
    }
    out
}

proof fn lemma_columns(rows: Seq<PlanRow>)
    ensures
        Seq::new(rows.len(), |i: int| column_text(rows[i]@, Column::Sst)) == sst_texts(
            row_views(rows),
        ),
        Seq::new(rows.len(), |i: int| column_text(rows[i]@, Column::Sd)) == sd_texts(
            row_views(rows),
        ),
        Seq::new(rows.len(), |i: int| column_text(rows[i]@, Column::Dnn)) == dnn_texts(
            row_views(rows),
        ),
        Seq::new(rows.len(), |i: int| column_text(rows[i]@, Column::Cell)) == cell_texts(
            row_views(rows),
        ),
{
}

fn largest(rows: &Vec<PlanRow>) -> (r: usize)
    ensures
        r == largest_id(row_views(rows@)),
{
    let mut best: usize = 0;
    let mut i: usize = 0;
    assert(row_views(rows@).take(0) == Seq::<RowView>::empty());
    while i < rows.len()
        invariant
            i <= rows.len(),
            best == largest_id(row_views(rows@).take(i as int)),
        decreases rows.len() - i,
    {
        assert(row_views(rows@).take(i + 1).drop_last() == row_views(rows@).take(i as int));
        assert(row_views(rows@).take(i + 1).last() == rows@[i as int]@);
        if rows[i].ue_id > best {
            best = rows[i].ue_id;
        }
        i = i + 1;
    }
    assert(row_views(rows@).take(i as int) == row_views(rows@));
    best
}

/// A text that names a UE.
fn ue_text(before: &str, id: usize, behind: &str) -> (r: String)
    ensures
        r@ == before@ + text::dec(id as nat) + behind@,
{
    let mut m = text::owned(before);
    text::push_dec(&mut m, id as u64);
    m.append(behind);
    m
}

/// The remainder of a division by 4, never negative.
fn rest_of_four(n: i64) -> (r: u64)
    requires
        fits_i32(n as int),
    ensures
        r == n as int % 4,
        r < 4,
{
    (n + 0x1_0000_0000) as u64 % 4
}

/// A row with one field moved up or down.
fn moved_row(row: &PlanRow, field: Field, dir: i32) -> (r: PlanRow)
    requires
        row.cell <= LAST_CELL,
        bump_fits(row@, field, dir as int),
    ensures
        r@ == bumped(row@, field, dir as int),
        r.cell <= LAST_CELL,
{
    let by: i64 = dir as i64;
    match field {
        Field::Sst => {
            let v: i64 = row.sst as i64 + by;
            let sst: u8 = if v < 1 {
                1
            } else if v > 4 {
                4
            } else {
                v as u8
            };
            plan_row(row.ue_id, sst, row.sd, row.dnn.clone(), row.cell)
        },
        Field::Sd => {
            let v: i64 = signed(number_of_sd(row.sd)) + by;
            let sd: Option<u32> = if v <= 0 {
                None
            } else if v > 8 {
                Some(8)
            } else {
                Some(v as u32)
            };
            plan_row(row.ue_id, row.sst, sd, PlanRow::suggested_dnn(sd), row.cell)
        },
        Field::Dnn => {
            let n = rest_of_four(signed(dnn_num(row.dnn.as_str())) - 1 + by) + 1;
            let mut name = text::owned("oai");
            if n != 1 {
                text::push_dec(&mut name, n);
            }
            plan_row(row.ue_id, row.sst, row.sd, name, row.cell)
        },
        Field::Cell => {
            let cell = rest_of_four(row.cell as i64 + by) as usize;
            plan_row(row.ue_id, row.sst, row.sd, row.dnn.clone(), cell)
        },
    }
}

fn in_i32(n: i64) -> (r: bool)
    ensures
        r == fits_i32(n as int),
{
    -0x8000_0000 <= n && n < 0x8000_0000
}

impl ConfigureState {
    /// Puts a row in the place of the selected one.
    fn put_row(&mut self, r: PlanRow)
        requires
            old(self).sel < old(self).rows@.len(),
        ensures
            final(self)@ == with_row(old(self)@, r@),
    {
        let ghost before = self@;
        let ghost shown = r@;
        self.rows.set(self.sel, r);
        assert(self@ =~= with_row(before, shown));
    }

    /// Sets the selected field by a digit; the field may not take it.
    pub fn set_digit(&mut self, d: u32) -> (r: bool)
        ensures
            final(self)@ == digit_step(old(self)@, d as nat).state,
            r == digit_step(old(self)@, d as nat).handled,
    {
        if self.sel >= self.rows.len() {
            return false;
        }
        let ghost before = self@;
        let row = &self.rows[self.sel];
        assert(row@ == before.rows[self.sel as int]);
        match self.field {
            Field::Sst => {
                if d < 1 || d > 4 {
                    return false;
                }
                let mut msg = ue_text("UE", row.ue_id, " SST=");
                text::push_dec(&mut msg, d as u64);
                let new = plan_row(row.ue_id, d as u8, row.sd, row.dnn.clone(), row.cell);
                self.put_row(new);
                self.status = msg;
            },
            Field::Sd => {
                let sd = if d == 0 {
                    None
                } else {
                    Some(d)
                };
                let mut msg = ue_text("UE", row.ue_id, " SD=");
                let mut named = text::owned("none");
                if d != 0 {
                    named = text::owned("sd");
                    text::push_dec(&mut named, d as u64);
                }
                msg.append(named.as_str());
                let new = plan_row(row.ue_id, row.sst, sd, PlanRow::suggested_dnn(sd), row.cell);
                self.put_row(new);
                self.status = msg;
            },
            Field::Dnn => {
                return false;
            },
            Field::Cell => {
                if d as usize > LAST_CELL {
                    return false;
                }
                let mut msg = ue_text("UE", row.ue_id, " cell=");
                let letter = slice::char_text(slice::cell_letter(d as usize));
                msg.append(letter.as_str());
                let new = plan_row(row.ue_id, row.sst, row.sd, row.dnn.clone(), d as usize);
                self.put_row(new);
                self.status = msg;
            },
        }
        assert(self@ =~= digit_step(before, d as nat).state);
        true
    }

    /// The selected field can be moved up or down by `dir`.
    pub fn can_bump(&self, dir: i32) -> (r: bool)
        ensures
            r == (self@.sel < self@.rows.len() ==> bump_fits(
                self@.rows[self.sel as int],
                self.field,
                dir as int,
            )),
    {
        if self.sel >= self.rows.len() {
            return true;
        }
        let row = &self.rows[self.sel];
        let by: i64 = dir as i64;
        assert(row@ == self@.rows[self.sel as int]);
        match self.field {
            Field::Sst => in_i32(row.sst as i64 + by),
            Field::Sd => in_i32(signed(number_of_sd(row.sd)) + by),
            Field::Dnn => {
                let v: i64 = signed(dnn_num(row.dnn.as_str())) - 1;
                in_i32(v) && in_i32(v + by)
            },
            Field::Cell => row.cell <= 0xffff_ffff && in_i32(row.cell as i64 + by),
        }
    }

    /// Moves the selected field up or down by `dir`.
    pub fn bump(&mut self, dir: i32)
        requires
            old(self)@.well_formed(),
            old(self)@.sel < old(self)@.rows.len() ==> bump_fits(
                old(self)@.rows[old(self).sel as int],
                old(self).field,
                dir as int,
            ),
        ensures
            final(self)@ == bump_step(old(self)@, dir as int).state,
            final(self)@.well_formed(),
    {
        if self.sel >= self.rows.len() {
            return ;
        }
        let ghost before = self@;
        assert(self.rows@[self.sel as int]@ == before.rows[self.sel as int]);
        let new = moved_row(&self.rows[self.sel], self.field, dir);
        self.put_row(new);
    }

    /// The numbers that a key would reach can be held.
    pub fn accepts(&self, key: Key) -> (r: bool)
        ensures
            r == key_fits(self@, key),
    {
        match key {
            Key::Char(c) => if c == '+' || c == '=' {
                self.can_bump(1)
            } else if c == '-' || c == '_' {
                self.can_bump(-1)
            } else if c == 'a' {
                largest(&self.rows) < usize::MAX
            } else {
                true
            },
            _ => true,
        }
    }

    /// Composes the launch script's settings from the plan, and the command that runs it.
    fn launch(&mut self, ctx: &PageCtx) -> (r: Option<String>)
        requires
            old(self)@.well_formed(),
        ensures
            ({
                let step = launched(old(self)@, ctx.gnb_up, ctx.scripts_dir@);
                &&& final(self)@ == step.state
                &&& slice::opt_string(r) == step.spawn
            }),
    {
        let ghost before = self@;
        if !ctx.gnb_up {
            self.status = text::owned("gNB is DOWN — start the CU + DU(s) first, then press r");
            assert(self@ =~= launched(before, ctx.gnb_up, ctx.scripts_dir@).state);
            return None;
        }
        proof {
            lemma_columns(self.rows@);
        }
        let n = self.rows.len();
        let sst = column_of(&self.rows, Column::Sst);
        let sd = column_of(&self.rows, Column::Sd);
        let dnn = column_of(&self.rows, Column::Dnn);
        let cells = column_of(&self.rows, Column::Cell);
        let ho = extra_settings(&self.rows);
        let mut command = text::owned("SST_LIST=");
        command.append(sst.as_str());
        command.append(" SD_LIST=");
        command.append(sd.as_str());
        command.append(" DNN_LIST=");
        command.append(dnn.as_str());
        command.append(" UE_CELL=");
        command.append(cells.as_str());
        command.append(" N_RB=106");
        command.append(ho.as_str());
        command.append(" bash ");
        command.append(ctx.scripts_dir);
        command.append("/run_nue.sh ");
        text::push_dec(&mut command, n as u64);
        let mut msg = text::owned("launching ");
        text::push_dec(&mut msg, n as u64);
        msg.append(" UE(s)  SD_LIST=");
        msg.append(sd.as_str());
        msg.append("  UE_CELL=");
        msg.append(cells.as_str());
        msg.append("  (watch Monitor page)");
        self.status = msg;
        assert(self@ =~= launched(before, ctx.gnb_up, ctx.scripts_dir@).state);
        Some(command)
    }

    fn add_ue(&mut self)
        requires
            largest_id(old(self)@.rows) < usize::MAX,
        ensures
            final(self)@ == with_added_ue(old(self)@),
    {
        let ghost before = self@;
        let id: usize = largest(&self.rows) + 1;
        self.sel = self.rows.len();
        self.rows.push(plan_row(id, 1, Some(1), text::owned("oai"), 0));
        self.status = ue_text("added UE", id, "");
        proof {
            reveal_strlit("");
            assert(self.status@ == "added UE"@ + text::dec(id as nat));
            assert(self@ =~= with_added_ue(before));
        }
    }

    fn remove_ue(&mut self)
        ensures
            final(self)@ == with_removed_ue(old(self)@),
    {
        let ghost before = self@;
        let n = self.rows.len();
        if n <= 1 {
            return ;
        }
        let k = if self.sel < n {
            self.sel
        } else {
            n - 1
        };
        let gone = self.rows.remove(k);
        assert(gone@ == before.rows[k as int]);
        if self.sel > n - 2 {
            self.sel = n - 2;
        }
        self.status = ue_text("removed UE", gone.ue_id, "");
        proof {
            reveal_strlit("");
            assert(self.status@ == "removed UE"@ + text::dec(gone.ue_id as nat));
            assert(self@ =~= with_removed_ue(before));
        }
    }

    /// Acts on a key. What cannot be done here, running a shell command in the background, is
    /// handed back.
    pub fn handle_key(&mut self, key: Key, ctx: &PageCtx) -> (r: KeyOutcome)
        requires
            old(self)@.well_formed(),
            key_fits(old(self)@, key),
        ensures
            final(self)@ == key_step(old(self)@, key, ctx.gnb_up, ctx.scripts_dir@).state,
            final(self)@.well_formed(),
            r.handled == key_step(old(self)@, key, ctx.gnb_up, ctx.scripts_dir@).handled,
            slice::opt_string(r.spawn) == key_step(
                old(self)@,
                key,
                ctx.gnb_up,
                ctx.scripts_dir@,
            ).spawn,
    {
        let ghost before = self@;
        proof {
            law_key_keeps_plan(before, key, ctx.gnb_up, ctx.scripts_dir@);
        }
        match key {
            Key::Up => {
                if self.sel > 0 {
                    self.sel = self.sel - 1;
                }
                handled()
            },
            Key::Down => {
                let n = self.rows.len();
                if n > 0 && self.sel < n - 1 {
                    self.sel = self.sel + 1;
                }
                handled()
            },
            Key::Left => {
                self.field = self.field.prev();
                handled()
            },
            Key::Right => {
                self.field = self.field.next();
                handled()
            },
            Key::Enter => KeyOutcome { handled: true, spawn: self.launch(ctx) },
            Key::Char(c) => if c == '\t' {
                self.field = self.field.next();
                handled()
            } else if c == '+' || c == '=' {
                self.bump(1);
                handled()
            } else if c == '-' || c == '_' {
                self.bump(-1);
                handled()
            } else if c >= '0' && c <= '9' {
                let took = self.set_digit(c as u32 - 48);
                KeyOutcome { handled: took, spawn: None }
            } else if c == 'a' {
                self.add_ue();
                handled()
            } else if c == 'd' {
                self.remove_ue();
                handled()
            } else if c == 'r' {
                KeyOutcome { handled: true, spawn: self.launch(ctx) }
            } else if c == 'k' {
                let mut command = text::owned("bash ");
                command.append(ctx.scripts_dir);
                command.append("/dash_ctl.sh stop");
                self.status = text::owned("stopping all UEs + proxy…");
                KeyOutcome { handled: true, spawn: Some(command) }
            } else {
                ignored()
            },
            _ => ignored(),
        }
    }
}

/// Whatever key is pressed, every planned cell stays one of the eight that the proxy can bridge.
pub proof fn law_key_keeps_plan(v: ConfigureView, key: Key, gnb_up: bool, scripts: Seq<char>)
    requires
        v.well_formed(),
    ensures
        key_step(v, key, gnb_up, scripts).state.well_formed(),
{
}

/// While the gNB is down, only stopping runs a command: a launch is refused and keeps the plan.
pub proof fn law_no_launch_without_gnb(v: ConfigureView, key: Key, scripts: Seq<char>)
    ensures
        key != Key::Char('k') ==> key_step(v, key, false, scripts).spawn is None,
        key == Key::Enter || key == Key::Char('r') ==> key_step(v, key, false, scripts).state.rows
            == v.rows,
{
}

/// One step up and one step down, or the other way round, lead back to the same cell.
pub proof fn law_cell_steps_undo_each_other(r: RowView, dir: int)
    requires
        dir == 1 || dir == -1,
        r.cell < 4,
    ensures
        bumped(bumped(r, Field::Cell, dir), Field::Cell, -dir) == r,
{
}

/// The network behind another one.
pub open spec fn dnn_behind(n: nat, dir: int) -> nat {
    ((n - 1 + dir) % 4 + 1) as nat
}

proof fn lemma_dnn_step(r: RowView, n: nat, dir: int)
    requires
        dir == 1 || dir == -1,
        1 <= n <= 4,
        r.dnn == dnn_named(n),
    ensures
        bumped(r, Field::Dnn, dir) == (RowView { dnn: dnn_named(dnn_behind(n, dir)), ..r }),
{
    law_dnn_named(n as u32);
}

/// One step up and one step down, or the other way round, lead back to the same data network,
/// where it is one of the four that the steps run through.
pub proof fn law_dnn_steps_undo_each_other(r: RowView, n: nat, dir: int)
    requires
        dir == 1 || dir == -1,
        1 <= n <= 4,
        r.dnn == dnn_named(n),
    ensures
        bumped(bumped(r, Field::Dnn, dir), Field::Dnn, -dir) == r,
{
    let m = dnn_behind(n, dir);
    lemma_dnn_step(r, n, dir);
    lemma_dnn_step(bumped(r, Field::Dnn, dir), m, -dir);
    assert(dnn_behind(m, -dir) == n);
}

/// A step up and a step down, or the other way round, leave the whole page as it was, where the
/// selected field is a cell or a data network of those that the steps run through.
pub proof fn law_bumps_undo_each_other(v: ConfigureView, dir: int, gnb_up: bool, scripts: Seq<char>)
    requires
        dir == 1 || dir == -1,
        v.sel < v.rows.len(),
        ({
            let r = v.rows[v.sel as int];
            ||| v.field == Field::Cell && r.cell < 4
            ||| v.field == Field::Dnn && (r.dnn == dnn_named(1) || r.dnn == dnn_named(2) || r.dnn
                == dnn_named(3) || r.dnn == dnn_named(4))
        }),
    ensures
        bump_step(bump_step(v, dir).state, -dir).state == v,
        ({
            let plus = key_step(v, Key::Char('+'), gnb_up, scripts).state;
            key_step(plus, Key::Char('-'), gnb_up, scripts).state == v
        }),
        ({
            let minus = key_step(v, Key::Char('-'), gnb_up, scripts).state;
            key_step(minus, Key::Char('+'), gnb_up, scripts).state == v
        }),
{
    lemma_bumps_undo(v, dir);
    lemma_bumps_undo(v, 1);
    lemma_bumps_undo(v, -1);
}

proof fn lemma_bumps_undo(v: ConfigureView, dir: int)
    requires
        dir == 1 || dir == -1,
        v.sel < v.rows.len(),
        ({
            let r = v.rows[v.sel as int];
            ||| v.field == Field::Cell && r.cell < 4
            ||| v.field == Field::Dnn && (r.dnn == dnn_named(1) || r.dnn == dnn_named(2) || r.dnn
                == dnn_named(3) || r.dnn == dnn_named(4))
        }),
    ensures
        bump_step(bump_step(v, dir).state, -dir).state == v,
{
    let r = v.rows[v.sel as int];
    if v.field == Field::Cell {
        law_cell_steps_undo_each_other(r, dir);
    } else {
        let n: nat = if r.dnn == dnn_named(1) {
            1
        } else if r.dnn == dnn_named(2) {
            2
        } else if r.dnn == dnn_named(3) {
            3
        } else {
            4
        };
        law_dnn_steps_undo_each_other(r, n, dir);
    }
    assert(bump_step(bump_step(v, dir).state, -dir).state =~= v);
}

/// The number of a data network is read back from its name.
pub proof fn law_dnn_named(n: u32)
    ensures
        dnn_number(dnn_named(n as nat)) == n,
        dnn_for(Some(n)) == dnn_named(n as nat),
{
    reveal_strlit("oai");
    let oai = "oai"@;
    let s = dnn_named(n as nat);
    text::lemma_written(n as nat, 10);
    let digits = text::dec(n as nat);
    if n == 1 {
        assert(s.skip(3) == Seq::<char>::empty());
        assert(text::starts_with(s, oai)) by {
            assert(s.subrange(0, 3) == oai);
        }
        assert(without_prefixes(s, oai) == without_prefixes(s.skip(3), oai));
        assert(without_prefixes(Seq::<char>::empty(), oai) == Seq::<char>::empty());
    } else {
        assert(s.skip(3) == digits);
        assert(text::starts_with(s, oai)) by {
            assert(s.subrange(0, 3) == oai);
        }
        assert(!text::starts_with(digits, oai)) by {
            if text::starts_with(digits, oai) {
                assert(digits.subrange(0, 3)[0] == digits[0]);
                assert(text::is_digit_of(digits[0], 10));
            }
        }
        assert(without_prefixes(digits, oai) == digits);
        assert(without_prefixes(s, oai) == digits);
        assert(text::is_digit_of(digits[0], 10));
        assert(text::without_plus(digits) == digits);
    }
}

// ---------------------------------------------------------------------------
// What the page shows
// ---------------------------------------------------------------------------

/// A colour by which a slice is told apart in tables.
pub open spec fn slice_tint(s: SliceId) -> Color {
    let k = (s.sst + sd_or_zero(s.sd)) % 6;
    if k == 0 {
        Color::Rgb(125, 207, 255)
    } else if k == 1 {
        Color::Rgb(224, 175, 104)
    } else if k == 2 {
        Color::Rgb(158, 206, 106)
    } else if k == 3 {
        Color::Rgb(187, 154, 247)
    } else if k == 4 {
        Color::Rgb(115, 218, 202)
    } else {
        Color::Rgb(247, 118, 142)
    }
}

/// Stable per-slice colour for tables and charts.
pub fn slice_color(s: SliceId) -> (r: Color)
    ensures
        r == slice_tint(s),
{
    let k: u64 = (s.sst as u64 + number_of_sd(s.sd) as u64) % 6;
    if k == 0 {
        Color::Rgb(125, 207, 255)
    } else if k == 1 {
        Color::Rgb(224, 175, 104)
    } else if k == 2 {
        Color::Rgb(158, 206, 106)
    } else if k == 3 {
        Color::Rgb(187, 154, 247)
    } else if k == 4 {
        Color::Rgb(115, 218, 202)
    } else {
        Color::Rgb(247, 118, 142)
    }
}

pub open spec fn slice_of_row(r: RowView) -> SliceId {
    SliceId { sst: r.sst, sd: r.sd }
}

/// A cell of the plan, marked where it has the focus.
pub open spec fn field_cell(t: Seq<char>, focused: bool) -> SpanView {
    if focused {
        ui::styled(t, Style { bg: Some(Color::FocusBg), ..ui::bold(Color::Text) })
    } else {
        ui::raw(t)
    }
}

/// The row of the table for a row of the plan.
pub open spec fn plan_cells(r: RowView, on: bool, f: Field) -> ui::TableRowView {
    ui::TableRowView {
        cells: seq![
            ui::tinted("UE"@ + text::dec(r.ue_id as nat), Color::Text),
            field_cell(text::dec(r.sst as nat), on && f == Field::Sst),
            field_cell(
                match r.sd {
                    Some(n) => "sd"@ + text::dec(n as nat),
                    None => "—"@,
                },
                on && f == Field::Sd,
            ),
            field_cell(r.dnn, on && f == Field::Dnn),
            field_cell(seq![slice::letter_of(r.cell as nat)], on && f == Field::Cell),
            ui::tinted(
                slice::slice_label(slice_of_row(r)) + " "@ + slice::service_name(r.sst),
                slice_tint(slice_of_row(r)),
            ),
        ],
        style: if on {
            Style { bg: Some(Color::SelBg), ..ui::unstyled() }
        } else {
            ui::unstyled()
        },
    }
}

pub open spec fn plan_table(v: ConfigureView) -> Seq<ui::TableRowView> {
    Seq::new(v.rows.len(), |i: int| plan_cells(v.rows[i], i == v.sel, v.field))
}

pub open spec fn plan_title(reflecting: bool) -> Seq<char> {
    if reflecting {
        "Running UEs  ·  ↑↓ select  (SST/SD detected from each UE log)"@
    } else {
        "Plan  ·  ↑↓ row   ←→ field   0-9 / +- set   a add   d del"@
    }
}

pub open spec fn letter_texts(rows: Seq<RowView>) -> Seq<Seq<char>> {
    Seq::new(rows.len(), |i: int| seq![slice::letter_of(rows[i].cell as nat)])
}

/// The bar below the plan: the state of the gNB, the plan in short, and the keys.
pub open spec fn launch_lines(rows: Seq<RowView>, gnb_up: bool) -> Seq<Seq<SpanView>> {
    let state = seq![
        ui::raw(" "@),
        ui::dot_span(gnb_up),
        if gnb_up {
            ui::strong(" gNB "@ + "up"@ + "   "@, Color::Good)
        } else {
            ui::strong(" gNB "@ + "down"@ + "   "@, Color::Bad)
        },
        ui::tinted(
            "plan: "@ + text::dec(rows.len()) + " UE   SD=["@ + text::joined(sd_texts(rows), ","@)
                + "]   cells=["@ + text::joined(letter_texts(rows), ","@) + "]"@,
            Color::Subtle,
        ),
    ];
    let keys = ui::keyhint_spans("r"@, "launch UEs"@) + ui::keyhint_spans("k"@, "stop"@)
        + ui::keyhint_spans("3"@, "handover →"@);
    if gnb_up {
        seq![state, keys]
    } else {
        seq![state, keys, seq![ui::tinted("  start the CU + DU(s) first"@, Color::Warn)]]
    }
}

/// The first UE of that number in a snapshot.
pub open spec fn health_of(h: Seq<UeHealth>, id: usize) -> Option<UeHealth>
    decreases h.len(),
{
    if h.len() == 0 {
        None
    } else if h[0].id == id {
        Some(h[0])
    } else {
        health_of(h.skip(1), id)
    }
}

pub open spec fn live_lines(h: Option<UeHealth>) -> Seq<Seq<SpanView>> {
    match h {
        Some(h) => {
            let c = if h.has_tun {
                Color::Good
            } else {
                Color::Warn
            };
            seq![
                ui::kv_spans("  stage : "@, h.stage@, c),
                ui::kv_spans("  ip    : "@, h.ip@, c),
                ui::kv_spans(
                    "  rtt   : "@,
                    match h.last_rtt {
                        Some(t) => t@ + " ms"@,
                        None => "—"@,
                    },
                    Color::Warn,
                ),
                ui::kv_spans(
                    "  dl/ul : "@,
                    h.dl_mbps@ + " / "@ + h.ul_mbps@ + " Mbps"@,
                    Color::Accent,
                ),
            ]
        },
        None => seq![seq![ui::tinted("  (planned — not running yet)"@, Color::Muted)]],
    }
}

pub open spec fn imsi_lines(
    map: Map<usize, SliceMapEntry>,
    id: usize,
) -> Seq<Seq<SpanView>> {
    if map.dom().contains(id) {
        match map[id].imsi {
            Some(t) => seq![ui::kv_spans("  imsi  : "@, t@, Color::Muted)],
            None => seq![],
        }
    } else {
        seq![]
    }
}

/// The pane for one row of the plan.
pub open spec fn row_lines(
    r: RowView,
    map: Map<usize, SliceMapEntry>,
    h: Option<UeHealth>,
) -> Seq<Seq<SpanView>> {
    seq![
        seq![ui::strong(" UE "@ + text::dec(r.ue_id as nat), Color::Text)],
        ui::kv_spans(
            "  slice : "@,
            slice::slice_label(slice_of_row(r)) + " ("@ + slice::service_name(r.sst) + ")"@,
            slice_tint(slice_of_row(r)),
        ),
        ui::kv_spans(
            "  cell  : "@,
            seq![slice::letter_of(r.cell as nat)] + "  (pci "@ + text::dec((r.cell + 1) as nat)
                + ")"@,
            Color::Accent2,
        ),
        ui::kv_spans("  dnn   : "@, r.dnn, Color::Text),
    ] + imsi_lines(map, r.ue_id) + seq![Seq::<SpanView>::empty()] + live_lines(h)
}

/// The pane beside the plan: what is known of the selected UE.
pub open spec fn health_lines(
    v: ConfigureView,
    map: Map<usize, SliceMapEntry>,
    h: Seq<UeHealth>,
) -> Seq<Seq<SpanView>> {
    if v.sel < v.rows.len() {
        let r = v.rows[v.sel as int];
        row_lines(r, map, health_of(h, r.ue_id))
    } else {
        seq![seq![ui::tinted("  (no UE selected)"@, Color::Muted)]]
    }
}

/// The page after it was brought up to date for drawing: the selection lies on a row.
pub open spec fn shown(
    v: ConfigureView,
    ids: Seq<usize>,
    map: Map<usize, SliceMapEntry>,
    detected: Map<usize, (u8, Option<u32>)>,
) -> ConfigureView {
    let s = synced(v, ids, map, detected);
    ConfigureView {
        sel: if s.rows.len() > 0 && s.sel >= s.rows.len() {
            (s.rows.len() - 1) as usize
        } else {
            s.sel
        },
        ..s
    }
}

/// What the Configure page shows.
pub struct ConfigureScreen {
    pub plan_panel: Panel,
    pub plan: Vec<TableRow>,
    pub launch_panel: Panel,
    pub launch: Vec<Vec<Span>>,
    pub status: Span,
    pub health_panel: Panel,
    pub health: Vec<Vec<Span>>,
}

fn cell_span(t: &str, focused: bool) -> (r: Span)
    ensures
        r@ == field_cell(t@, focused),
{
    let style = if focused {
        Style::strong(Color::Text).on(Color::FocusBg)
    } else {
        Style::plain()
    };
    Span { text: text::owned(t), style }
}

impl ConfigureState {
    fn plan_row_cells(&self, i: usize) -> (r: Vec<Span>)
        requires
            i < self.rows@.len(),
            self@.well_formed(),
        ensures
            ui::spans(r@) == plan_cells(self@.rows[i as int], i == self.sel, self.field).cells,
    {
        let row = &self.rows[i];
        assert(row@ == self@.rows[i as int]);
        let on = i == self.sel;
        let id = SliceId::new(row.sst, row.sd);
        let mut sd = text::owned("—");
        match row.sd {
            Some(n) => {
                sd = text::owned("sd");
                text::push_dec(&mut sd, n as u64);
            },
            None => {},
        }
        let mut ue = text::owned("UE");
        text::push_dec(&mut ue, row.ue_id as u64);
        let mut named = id.short();
        named.append(" ");
        named.append(id.service());
        let letter = slice::char_text(slice::cell_letter(row.cell));
        let sst = text::dec_text(row.sst as u64);
        let mut cells: Vec<Span> = Vec::new();
        cells.push(ui::s(ue.as_str(), Color::Text));
        cells.push(cell_span(sst.as_str(), on && self.field == Field::Sst));
        cells.push(cell_span(sd.as_str(), on && self.field == Field::Sd));
        cells.push(cell_span(row.dnn.as_str(), on && self.field == Field::Dnn));
        cells.push(cell_span(letter.as_str(), on && self.field == Field::Cell));
        cells.push(ui::s(named.as_str(), slice_color(id)));
        assert(ui::spans(cells@) =~= plan_cells(self@.rows[i as int], on, self.field).cells);
        cells
    }

    /// The table of the plan.
    pub fn render_plan(&self) -> (r: Vec<TableRow>)
        requires
            self@.well_formed(),
        ensures
            ui::table(r@) == plan_table(self@),
    {
        let mut out = ui::no_rows();
        let mut i: usize = 0;
        while i < self.rows.len()
            invariant
                i <= self.rows.len(),
                self@.well_formed(),
                ui::table(out@) == plan_table(self@).take(i as int),
            decreases self.rows.len() - i,
        {
            let cells = self.plan_row_cells(i);
            let style = if i == self.sel {
                Style::plain().on(Color::SelBg)
            } else {
                Style::plain()
            };
            ui::put_row(&mut out, cells, style);
            proof {
                assert(ui::TableRowView { cells: ui::spans(cells@), style }
                    =~= plan_table(self@)[i as int]);
                assert(plan_table(self@).take(i + 1) == plan_table(self@).take(i as int).push(
                    plan_table(self@)[i as int],
                ));
            }
            i = i + 1;
        }
        assert(plan_table(self@).take(i as int) == plan_table(self@));
        out
    }

    fn letters(&self) -> (r: String)
        requires
            self@.well_formed(),
        ensures
            r@ == text::joined(letter_texts(self@.rows), ","@),
    {
        let mut parts: Vec<String> = Vec::new();
        let mut i: usize = 0;
        while i < self.rows.len()
            invariant
                i <= self.rows.len(),
                self@.well_formed(),
                parts@.len() == i,
                forall|k: int|
                    0 <= k < i ==> (#[trigger] parts@[k])@ == letter_texts(self@.rows)[k],
            decreases self.rows.len() - i,
        {
            assert(self@.rows[i as int].cell <= LAST_CELL);
            parts.push(slice::char_text(slice::cell_letter(self.rows[i].cell)));
            i = i + 1;
        }
        assert(text::texts(parts@) == letter_texts(self@.rows));
        text::join(&parts, ",")
    }

    /// The bar below the plan.
    pub fn render_launch_bar(&self, gnb_up: bool) -> (r: Vec<Vec<Span>>)
        requires
            self@.well_formed(),
        ensures
            ui::lines(r@) == launch_lines(self@.rows, gnb_up),
    {
        proof {
            lemma_columns(self.rows@);
        }
        let sd = column_of(&self.rows, Column::Sd);
        let cells = self.letters();
        let mut plan = text::owned("plan: ");
        text::push_dec(&mut plan, self.rows.len() as u64);
        plan.append(" UE   SD=[");
        plan.append(sd.as_str());
        plan.append("]   cells=[");
        plan.append(cells.as_str());
        plan.append("]");
        let mut gnb = text::owned(" gNB ");
        gnb.append(if gnb_up {
            "up"
        } else {
            "down"
        });
        gnb.append("   ");
        let mut state = ui::no_spans();
        ui::put(&mut state, " ", Style::plain());
        let dot = ui::dot(gnb_up);
        ui::put(&mut state, dot.text.as_str(), dot.style);
        ui::put(
            &mut state,
            gnb.as_str(),
            Style::strong(
                if gnb_up {
                    Color::Good
                } else {
                    Color::Bad
                },
            ),
        );
        ui::put(&mut state, plan.as_str(), Style::fg(Color::Subtle));
        let mut keys = ui::keyhint("r", "launch UEs");
        ui::put_all(&mut keys, ui::keyhint("k", "stop"));
        ui::put_all(&mut keys, ui::keyhint("3", "handover →"));
        assert(ui::spans(state@) =~= launch_lines(self@.rows, gnb_up)[0]);
        assert(ui::spans(keys@) =~= launch_lines(self@.rows, gnb_up)[1]);
        let mut out = ui::no_lines();
        ui::put_line(&mut out, state);
        ui::put_line(&mut out, keys);
        if !gnb_up {
            ui::put_line(
                &mut out,
                ui::one_span("  start the CU + DU(s) first", Style::fg(Color::Warn)),
            );
        }
        assert(ui::lines(out@) =~= launch_lines(self@.rows, gnb_up));
        out
    }

    /// What the page last said.
    pub fn render_status(&self) -> (r: Span)
        ensures
            r@ == ui::tinted(" "@ + self@.status, Color::Accent),
    {
        let mut t = text::owned(" ");
        t.append(self.status.as_str());
        ui::s(t.as_str(), Color::Accent)
    }

    /// The pane for the selected UE.
    pub fn render_health(&self, ctx: &PageCtx) -> (r: Vec<Vec<Span>>)
        requires
            self@.well_formed(),
        ensures
            ui::lines(r@) == health_lines(self@, ctx.slice_map@, ctx.ue_health@),
    {
        broadcast use vstd::std_specs::hash::group_hash_axioms;

        let mut out = ui::no_lines();
        if self.sel >= self.rows.len() {
            ui::put_line(&mut out, ui::one_span("  (no UE selected)", Style::fg(Color::Muted)));
            return out;
        }
        let row = &self.rows[self.sel];
        assert(row@ == self@.rows[self.sel as int]);
        let id = SliceId::new(row.sst, row.sd);
        let mut head = text::owned(" UE ");
        text::push_dec(&mut head, row.ue_id as u64);
        ui::put_line(&mut out, ui::one_span(head.as_str(), Style::strong(Color::Text)));
        let mut named = id.short();
        named.append(" (");
        named.append(id.service());
        named.append(")");
        ui::put_line(&mut out, ui::kv("  slice : ", named.as_str(), slice_color(id)));
        let mut cell = slice::char_text(slice::cell_letter(row.cell));
        cell.append("  (pci ");
        text::push_dec(&mut cell, row.cell as u64 + 1);
        cell.append(")");
        ui::put_line(&mut out, ui::kv("  cell  : ", cell.as_str(), Color::Accent2));
        ui::put_line(&mut out, ui::kv("  dnn   : ", row.dnn.as_str(), Color::Text));
        let ghost first = ui::lines(out@);
        match ctx.slice_map.get(&row.ue_id) {
            Some(e) => match &e.imsi {
                Some(t) => {
                    ui::put_line(&mut out, ui::kv("  imsi  : ", t.as_str(), Color::Muted));
                },
                None => {},
            },
            None => {},
        }
        assert(ui::lines(out@) =~= first + imsi_lines(ctx.slice_map@, row.ue_id));
        ui::put_line(&mut out, ui::no_spans());
        let ghost second = ui::lines(out@);
        let h = find_health(ctx.ue_health, row.ue_id);
        match h {
            Some(h) => {
                let c = if h.has_tun {
                    Color::Good
                } else {
                    Color::Warn
                };
                let mut rtt = text::owned("—");
                match &h.last_rtt {
                    Some(t) => {
                        rtt = t.clone();
                        rtt.append(" ms");
                    },
                    None => {},
                }
                let mut rate = h.dl_mbps.clone();
                rate.append(" / ");
                rate.append(h.ul_mbps.as_str());
                rate.append(" Mbps");
                ui::put_line(&mut out, ui::kv("  stage : ", h.stage.as_str(), c));
                ui::put_line(&mut out, ui::kv("  ip    : ", h.ip.as_str(), c));
                ui::put_line(&mut out, ui::kv("  rtt   : ", rtt.as_str(), Color::Warn));
                ui::put_line(&mut out, ui::kv("  dl/ul : ", rate.as_str(), Color::Accent));
                assert(ui::lines(out@) =~= second + live_lines(Some(*h)));
            },
            None => {
                ui::put_line(
                    &mut out,
                    ui::one_span("  (planned — not running yet)", Style::fg(Color::Muted)),
                );
                assert(ui::lines(out@) =~= second + live_lines(None));
            },
        }
        assert(ui::lines(out@) =~= health_lines(self@, ctx.slice_map@, ctx.ue_health@));
        out
    }

    /// Brings the page up to date and says what it shows; `detected` holds the slices that the
    /// logs of the running UEs name.
    pub fn render(
        &mut self,
        ctx: &PageCtx,
        detected: &HashMap<usize, (u8, Option<u32>)>,
    ) -> (r: ConfigureScreen)
        requires
            old(self)@.well_formed(),
        ensures
            final(self)@ == shown(
                old(self)@,
                slice::health_ids(ctx.ue_health@),
                ctx.slice_map@,
                detected@,
            ),
            final(self)@.well_formed(),
            r.plan_panel.title@ == ui::strong(
                " "@ + plan_title(final(self)@.reflecting) + " "@,
                Color::Accent,
            ),
            r.plan_panel.border == Color::Accent,
            ui::table(r.plan@) == plan_table(final(self)@),
            r.launch_panel.title@ == ui::strong(" "@ + "Launch"@ + " "@, Color::Subtle),
            r.launch_panel.border == Color::Border,
            ui::lines(r.launch@) == launch_lines(final(self)@.rows, ctx.gnb_up),
            r.status@ == ui::tinted(" "@ + final(self)@.status, Color::Accent),
            r.health_panel.title@ == ui::strong(" "@ + "Health"@ + " "@, Color::Subtle),
            r.health_panel.border == Color::Border,
            ui::lines(r.health@) == health_lines(final(self)@, ctx.slice_map@, ctx.ue_health@),
    {
        self.sync_running(ctx, detected);
        let n = self.rows.len();
        if n > 0 && self.sel >= n {
            self.sel = n - 1;
        }
        let title = if self.reflecting {
            "Running UEs  ·  ↑↓ select  (SST/SD detected from each UE log)"
        } else {
            "Plan  ·  ↑↓ row   ←→ field   0-9 / +- set   a add   d del"
        };
        ConfigureScreen {
            plan_panel: ui::panel(title, true),
            plan: self.render_plan(),
            launch_panel: ui::panel("Launch", false),
            launch: self.render_launch_bar(ctx.gnb_up),
            status: self.render_status(),
            health_panel: ui::panel("Health", false),
            health: self.render_health(ctx),
        }
    }
}

fn find_health<'a>(h: &'a [UeHealth], id: usize) -> (r: Option<&'a UeHealth>)
    ensures
        match r {
            Some(x) => health_of(h@, id) == Some(*x),
            None => health_of(h@, id) is None,
        },
{
    let mut i: usize = 0;
    assert(h@.skip(0) == h@);
    while i < h.len()
        invariant
            i <= h.len(),
            health_of(h@, id) == health_of(h@.skip(i as int), id),
        decreases h.len() - i,
    {
        assert(h@.skip(i as int)[0] == h@[i as int]);
        assert(h@.skip(i as int).skip(1) == h@.skip(i + 1));
        if h[i].id == id {
            return Some(&h[i]);
        }
        i = i + 1;
    }
    None
}

// ---------------------------------------------------------------------------
// The slice that a UE's log names
// ---------------------------------------------------------------------------

/// The first number behind the first `key`.
pub open spec fn number_behind(s: Seq<char>, key: Seq<char>) -> Option<u32> {
    match text::after_first(s, key) {
        Some(rest) => {
            let start = text::run_end(rest, 0, CharClass::Digit, false);
            slice::as_u32(
                text::number(
                    text::leading(rest.skip(start), CharClass::Digit),
                    10,
                    u32::MAX as nat,
                ),
            )
        },
        None => None,
    }
}

/// The slice that the command line in a UE's log names: the type, which is 1 where only the
/// differentiator is named, and the differentiator. None where neither is named.
pub open spec fn slice_in_log(log: Seq<char>) -> Option<(u8, Option<u32>)> {
    let sst = number_behind(log, "nssai_sst"@);
    let sd = number_behind(log, "nssai_sd"@);
    if sst is None && sd is None {
        None
    } else {
        Some(
            (
                match sst {
                    Some(n) => (n % 256) as u8,
                    None => 1,
                },
                sd,
            ),
        )
    }
}

/// The first number behind the first `key`.
fn num_after(haystack: &[char], key: &str) -> (r: Option<u32>)
    ensures
        r == number_behind(haystack@, key@),
{
    match text::text_after(haystack, key) {
        Some(rest) => {
            let start = text::scan(rest, 0, CharClass::Digit, false);
            let digits = text::take_leading(text::from_index(rest, start), CharClass::Digit);
            slice::read_u32(digits, 10)
        },
        None => None,
    }
}

/// Detects a running UE's slice from its launch log, in which the UE echoes its command line.
/// None where the log is missing or names no slice.
pub fn detect_ue_snssai(log: Option<&str>) -> (r: Option<(u8, Option<u32>)>)
    ensures
        r == match log {
            Some(t) => slice_in_log(t@),
            None => None,
        },
{
    match log {
        Some(t) => {
            let chars = text::chars_of(t);
            let sst = num_after(chars.as_slice(), "nssai_sst");
            let sd = num_after(chars.as_slice(), "nssai_sd");
            match sst {
                Some(n) => Some(((n % 256) as u8, sd)),
                None => match sd {
                    Some(_) => Some((1, sd)),
                    None => None,
                },
            }
        },
        None => None,
    }
}

/// The first number behind the first `key` is read back, whatever stands before the key, between
/// the two or behind the number.
pub proof fn law_number_behind(
    before: Seq<char>,
    key: Seq<char>,
    gap: Seq<char>,
    n: u32,
    rest: Seq<char>,
)
    requires
        text::find_from(before + key, key, 0) == Some(before.len() as int),
        forall|i: int| 0 <= i < gap.len() ==> !text::is_digit(#[trigger] gap[i]),
        rest.len() > 0 ==> !text::is_digit(rest[0]),
    ensures
        number_behind(before + key + gap + text::dec(n as nat) + rest, key) == Some(n),
{
    let digits = text::dec(n as nat);
    let s = before + key + gap + digits + rest;
    let head = before + key;
    text::lemma_find_from(head, key, 0);
    assert forall|k: int| 0 <= k < before.len() implies !text::occurs_at(s, key, k) by {
        assert(!text::occurs_at(head, key, k));
        assert(s.subrange(k, k + key.len()) == head.subrange(k, k + key.len()));
    }
    assert(text::occurs_at(s, key, before.len() as int)) by {
        assert(s.subrange(before.len() as int, (before.len() + key.len()) as int) == key);
    }
    text::lemma_find_is(s, key, 0, before.len() as int);
    let tail = s.skip((before.len() + key.len()) as int);
    assert(tail == gap + digits + rest);
    text::lemma_written(n as nat, 10);
    assert(text::is_digit_of(digits[0], 10));
    assert(tail[gap.len() as int] == digits[0]);
    text::lemma_run_is(tail, 0, gap.len() as int, CharClass::Digit, false);
    let run = tail.skip(gap.len() as int);
    assert(run == digits + rest);
    assert forall|k: int| 0 <= k < digits.len() implies CharClass::Digit.has(#[trigger] run[k]) by {
        assert(text::is_digit_of(digits[k], 10));
    }
    text::lemma_run_is(run, 0, digits.len() as int, CharClass::Digit, true);
    assert(run.take(digits.len() as int) == digits);
    text::law_number_of_dec(n as nat, u32::MAX as nat);
}

} // verus!
