//! The slice model that all pages share: S-NSSAI identities, the UE to slice map, the slice
//! metrics of a DU log, the admission rule, and the snapshot that pages read.

use std::collections::HashMap;

use vstd::prelude::*;

use crate::text;
use crate::text::CharClass;

verus! {

/// Where the launch scripts write the UE to slice map.
pub const SLICE_MAP_PATH: &'static str = "/tmp/multi_ue_slice_map.json";

/// An S-NSSAI: a slice/service type and an optional slice differentiator, compared by value.
#[derive(Clone, Copy, PartialEq, Eq, Hash, Debug, Structural)]
pub struct SliceId {
    pub sst: u8,
    pub sd: Option<u32>,
}

/// The label of a slice in tables: `S1/sd2`, or `S1` without a differentiator.
pub open spec fn slice_label(id: SliceId) -> Seq<char> {
    match id.sd {
        Some(sd) => "S"@ + text::dec(id.sst as nat) + "/sd"@ + text::dec(sd as nat),
        None => "S"@ + text::dec(id.sst as nat),
    }
}

/// The service name of a standardised slice/service type.
pub open spec fn service_name(sst: u8) -> Seq<char> {
    if sst == 1 {
        "eMBB"@
    } else if sst == 2 {
        "URLLC"@
    } else if sst == 3 {
        "mMTC"@
    } else if sst == 4 {
        "V2X"@
    } else {
        "slice"@
    }
}

impl SliceId {
    pub fn new(sst: u8, sd: Option<u32>) -> (r: Self)
        ensures
            r == (SliceId { sst, sd }),
    {
        SliceId { sst, sd }
    }

    /// Short label for tables, such as `S1/sd1` or `S2`.
    pub fn short(&self) -> (r: String)
        ensures
            r@ == slice_label(*self),
    {
        let mut out = text::owned("S");
        text::push_dec(&mut out, self.sst as u64);
        match self.sd {
            Some(sd) => {
                out.append("/sd");
                text::push_dec(&mut out, sd as u64);
            },
            None => {},
        }
        out
    }

    /// The conventional service name of the slice/service type.
    pub fn service(&self) -> (r: &'static str)
        ensures
            r@ == service_name(self.sst),
    {
        if self.sst == 1 {
            "eMBB"
        } else if self.sst == 2 {
            "URLLC"
        } else if self.sst == 3 {
            "mMTC"
        } else if self.sst == 4 {
            "V2X"
        } else {
            "slice"
        }
    }
}

/// A number in the range of `u32`.
pub open spec fn as_u32(n: Option<nat>) -> Option<u32> {
    match n {
        Some(v) => Some(v as u32),
        None => None,
    }
}

/// The digits behind a `0x` or `0X` prefix.
pub open spec fn hex_body(s: Seq<char>) -> Option<Seq<char>> {
    match text::without_prefix(s, "0x"@) {
        Some(h) => Some(h),
        None => text::without_prefix(s, "0X"@),
    }
}

/// The slice differentiator that a text stands for: hexadecimal behind `0x` or `0X`, else
/// decimal, with white space around it ignored.
pub open spec fn sd_value(s: Seq<char>) -> Option<u32> {
    let t = text::trim(s);
    match hex_body(t) {
        Some(h) => as_u32(text::number(h, 16, u32::MAX as nat)),
        None => as_u32(text::number(t, 10, u32::MAX as nat)),
    }
}

/// The digits behind a `0x` or `0X` prefix.
pub fn hex_digits<'a>(s: &'a [char]) -> (r: Option<&'a [char]>)
    ensures
        match r {
            Some(h) => hex_body(s@) == Some(h@),
            None => hex_body(s@) is None,
        },
{
    match text::strip_prefix(s, "0x") {
        Some(h) => Some(h),
        None => text::strip_prefix(s, "0X"),
    }
}

/// Reads a number to the base 10 or 16 in the range of `u32`.
pub fn read_u32(s: &[char], radix: u64) -> (r: Option<u32>)
    requires
        radix == 10 || radix == 16,
    ensures
        r == as_u32(text::number(s@, radix as nat, u32::MAX as nat)),
{
    match text::read_number(s, radix, u32::MAX as u64) {
        Some(v) => Some(v as u32),
        None => None,
    }
}

fn sd_of_chars(s: &[char]) -> (r: Option<u32>)
    ensures
        r == sd_value(s@),
{
    let t = text::trimmed(s);
    match hex_digits(t) {
        Some(h) => read_u32(h, 16),
        None => read_u32(t, 10),
    }
}

/// Parses a slice differentiator that may be decimal (`2`) or hexadecimal (`0x2`), in either case.
pub fn parse_sd(s: &str) -> (r: Option<u32>)
    ensures
        r == sd_value(s@),
{
    let c = text::chars_of(s);
    sd_of_chars(c.as_slice())
}

/// The decimal and the hexadecimal spelling of a slice differentiator name the same slice.
pub proof fn law_sd_spellings_agree(n: u32)
    ensures
        sd_value(text::dec(n as nat)) == Some(n),
        sd_value("0x"@ + text::hex(n as nat)) == Some(n),
        sd_value("0X"@ + text::hex(n as nat)) == Some(n),
{
    reveal_strlit("0x");
    reveal_strlit("0X");
    let d = text::dec(n as nat);
    let h = text::hex(n as nat);
    text::lemma_written(n as nat, 10);
    text::lemma_written(n as nat, 16);
    lemma_trim_plain(d);
    assert(d.len() >= 2 ==> text::is_digit_of(d[1], 10));
    assert(!text::starts_with(d, "0x"@)) by {
        if text::starts_with(d, "0x"@) {
            assert(d.subrange(0, 2)[1] == d[1]);
        }
    }
    assert(!text::starts_with(d, "0X"@)) by {
        if text::starts_with(d, "0X"@) {
            assert(d.subrange(0, 2)[1] == d[1]);
        }
    }
    let a = "0x"@ + h;
    let b = "0X"@ + h;
    assert(a.last() == h.last() && b.last() == h.last());
    lemma_trim_plain(a);
    lemma_trim_plain(b);
    assert(a.subrange(0, 2) == "0x"@);
    assert(a.skip(2) == h);
    assert(b.subrange(0, 2) == "0X"@);
    assert(b.skip(2) == h);
    assert(!text::starts_with(b, "0x"@)) by {
        assert(b.subrange(0, 2)[1] == 'X');
    }
}

/// Trimming leaves a text alone that neither starts nor ends with white space.
pub proof fn lemma_trim_plain(s: Seq<char>)
    requires
        s.len() > 0,
        !text::is_white(s[0]),
        !text::is_white(s.last()),
    ensures
        text::trim(s) == s,
{
    assert(text::trim_start(s) == s);
}

// ---------------------------------------------------------------------------
// The UE to slice map
// ---------------------------------------------------------------------------

/// One UE's slice and cell identity, as the launch scripts record it.
#[derive(Clone, Debug)]
pub struct SliceMapEntry {
    pub sst: u8,
    /// The slice differentiator as text, decimal or hexadecimal.
    pub sd: Option<String>,
    pub dnn: Option<String>,
    /// The cell as a letter (`A`, `B`) or as a numeric index (`0`, `1`).
    pub cell: Option<String>,
    pub imsi: Option<String>,
}

pub open spec fn ascii_upper_char(c: char) -> char {
    if 'a' <= c <= 'z' {
        ((c as u32) - 32) as char
    } else {
        c
    }
}

/// How far a character's low byte lies behind `A`, counted modulo 256.
pub open spec fn letter_offset(c: char) -> nat {
    ((ascii_upper_char(c) as u32 % 256 + 256 - 65) % 256) as nat
}

pub open spec fn at_most(n: nat, max: nat) -> nat {
    if n < max {
        n
    } else {
        max
    }
}

/// The index of the cell that a text names by number or by letter; 0 is cell A, and 25 the last.
pub open spec fn cell_of_text(s: Seq<char>) -> nat {
    let t = text::trim(s);
    match text::number(t, 10, usize::MAX as nat) {
        Some(n) => at_most(n, 25),
        None => if t.len() == 0 {
            0
        } else {
            at_most(letter_offset(t[0]), 25)
        },
    }
}

/// The letter of a cell index.
pub open spec fn letter_of(idx: nat) -> char {
    (65 + idx % 256) as char
}

/// The letter of a cell index: `A` for 0.
pub fn cell_letter(idx: usize) -> (r: char)
    requires
        idx % 256 <= 190,
    ensures
        r == letter_of(idx as nat),
{
    let low: u8 = (idx % 256) as u8;
    (65 + low) as char
}

fn offset_of_letter(c: char) -> (r: usize)
    ensures
        r == letter_offset(c),
{
    let up: u32 = if c >= 'a' && c <= 'z' {
        c as u32 - 32
    } else {
        c as u32
    };
    ((up % 256 + 256 - 65) % 256) as usize
}

/// The string that holds one character.
pub fn char_text(c: char) -> (r: String)
    ensures
        r@ == seq![c],
{
    let mut out = String::new();
    out.push(c);
    assert(out@ == seq![c]);
    out
}

impl SliceMapEntry {
    pub open spec fn spec_sd(self) -> Option<u32> {
        match self.sd {
            Some(s) => sd_value(s@),
            None => None,
        }
    }

    pub open spec fn spec_slice(self) -> SliceId {
        SliceId { sst: self.sst, sd: self.spec_sd() }
    }

    pub open spec fn spec_cell(self) -> nat {
        match self.cell {
            Some(c) => cell_of_text(c@),
            None => 0,
        }
    }

    /// The slice differentiator as a number, if there is one.
    pub fn sd_num(&self) -> (r: Option<u32>)
        ensures
            r == self.spec_sd(),
    {
        match &self.sd {
            Some(s) => parse_sd(s.as_str()),
            None => None,
        }
    }

    pub fn slice_id(&self) -> (r: SliceId)
        ensures
            r == self.spec_slice(),
    {
        SliceId::new(self.sst, self.sd_num())
    }

    /// The cell index, whether the cell was recorded as a letter or as a number; 0 when absent.
    pub fn cell_index(&self) -> (r: usize)
        ensures
            r == self.spec_cell(),
            r <= 25,
    {
        match &self.cell {
            Some(c) => {
                let chars = text::chars_of(c.as_str());
                let t = text::trimmed(chars.as_slice());
                match text::read_number(t, 10, usize::MAX as u64) {
                    Some(n) => if n < 25 {
                        n as usize
                    } else {
                        25
                    },
                    None => if t.len() == 0 {
                        0
                    } else {
                        let n = offset_of_letter(t[0]);
                        if n < 25 {
                            n
                        } else {
                            25
                        }
                    },
                }
            },
            None => 0,
        }
    }

    /// The cell's letter, however the cell was recorded.
    pub fn cell_label(&self) -> (r: String)
        ensures
            r@ == seq![letter_of(self.spec_cell())],
    {
        char_text(cell_letter(self.cell_index()))
    }
}

/// A cell recorded by its letter, in either case, or by its index names the same cell.
pub proof fn law_cell_letter_or_number(idx: nat)
    requires
        idx <= 25,
    ensures
        cell_of_text(seq![letter_of(idx)]) == idx,
        cell_of_text(seq![text::ascii_lower_char(letter_of(idx))]) == idx,
        cell_of_text(text::dec(idx)) == idx,
{
    let up = seq![letter_of(idx)];
    let low = seq![text::ascii_lower_char(letter_of(idx))];
    lemma_trim_plain(up);
    lemma_trim_plain(low);
    assert(!text::all_digits(up, 10)) by {
        assert(!text::is_digit_of(up[0], 10));
    }
    assert(!text::all_digits(low, 10)) by {
        assert(!text::is_digit_of(low[0], 10));
    }
    text::lemma_written(idx, 10);
    let d = text::dec(idx);
    assert(text::is_digit_of(d[0], 10) && text::is_digit_of(d.last(), 10));
    lemma_trim_plain(d);
}

/// The entries whose key is a UE number, by that number; of two with the same number the later
/// one counts.
pub open spec fn slice_map_of(entries: Seq<(String, SliceMapEntry)>) -> Map<usize, SliceMapEntry>
    decreases entries.len(),
{
    if entries.len() == 0 {
        Map::empty()
    } else {
        let rest = slice_map_of(entries.drop_last());
        match text::number(entries.last().0@, 10, usize::MAX as nat) {
            Some(id) => rest.insert(id as usize, entries.last().1),
            None => rest,
        }
    }
}

/// Builds the UE to slice map from the members of the map file; keys that are no number are left
/// out.
pub fn read_slice_map(entries: Vec<(String, SliceMapEntry)>) -> (r: HashMap<usize, SliceMapEntry>)
    ensures
        r@ == slice_map_of(entries@),
{
    broadcast use vstd::std_specs::hash::group_hash_axioms;

    let ghost all = entries@;
    let mut left = entries;
    let mut out: HashMap<usize, SliceMapEntry> = HashMap::new();
    assert(slice_map_of(left@).union_prefer_right(out@) == slice_map_of(all));
    while left.len() > 0
        invariant
            slice_map_of(left@).union_prefer_right(out@) == slice_map_of(all),
        decreases left.len(),
    {
        let ghost before = left@;
        let ghost seen = out@;
        match left.pop() {
            Some((key, entry)) => {
                let k = text::chars_of(key.as_str());
                assert(before.drop_last() == left@);
                match text::read_number(k.as_slice(), 10, usize::MAX as u64) {
                    Some(id) => {
                        if !out.contains_key(&(id as usize)) {
                            out.insert(id as usize, entry);
                        }
                        assert(slice_map_of(left@).union_prefer_right(out@) == slice_map_of(
                            before,
                        ).union_prefer_right(seen));
                    },
                    None => {},
                }
            },
            None => {},
        }
    }
    assert(out@ == slice_map_of(all));
    out
}

// ---------------------------------------------------------------------------
// Slice metrics from a DU log
// ---------------------------------------------------------------------------

/// One configured slice's resource picture, read from a "Scheduler slice" line of a DU log. The
/// four averages and ratios are kept as the text of the log, empty where it has none; a text that is
/// no number, the empty one too, counts as 0.
#[derive(Clone, Debug, PartialEq)]
pub struct SliceMetric {
    pub pci: u16,
    pub sst: u8,
    pub sd: Option<u32>,
    pub nof_ues: u32,
    pub dl_min_prbs: u32,
    pub dl_max_prbs: u32,
    pub dl_ded_prbs: u32,
    pub avg_dl_rbs_per_slot: String,
    pub avg_ul_rbs_per_slot: String,
    /// Percent of the cell's resource blocks that the slice uses downlink.
    pub dl_prb_ratio: String,
    pub ul_prb_ratio: String,
}

/// What a slice metric says.
#[verifier::ext_equal]
pub struct MetricView {
    pub pci: nat,
    pub sst: nat,
    pub sd: Option<u32>,
    pub nof_ues: nat,
    pub dl_min_prbs: nat,
    pub dl_max_prbs: nat,
    pub dl_ded_prbs: nat,
    pub avg_dl: Seq<char>,
    pub avg_ul: Seq<char>,
    pub dl_ratio: Seq<char>,
    pub ul_ratio: Seq<char>,
}

impl View for SliceMetric {
    type V = MetricView;

    open spec fn view(&self) -> MetricView {
        MetricView {
            pci: self.pci as nat,
            sst: self.sst as nat,
            sd: self.sd,
            nof_ues: self.nof_ues as nat,
            dl_min_prbs: self.dl_min_prbs as nat,
            dl_max_prbs: self.dl_max_prbs as nat,
            dl_ded_prbs: self.dl_ded_prbs as nat,
            avg_dl: self.avg_dl_rbs_per_slot@,
            avg_ul: self.avg_ul_rbs_per_slot@,
            dl_ratio: self.dl_prb_ratio@,
            ul_ratio: self.ul_prb_ratio@,
        }
    }
}

impl Default for SliceMetric {
    fn default() -> (r: Self)
        ensures
            r@ == (MetricView {
                pci: 0,
                sst: 0,
                sd: None,
                nof_ues: 0,
                dl_min_prbs: 0,
                dl_max_prbs: 0,
                dl_ded_prbs: 0,
                avg_dl: seq![],
                avg_ul: seq![],
                dl_ratio: seq![],
                ul_ratio: seq![],
            }),
    {
        SliceMetric {
            pci: 0,
            sst: 0,
            sd: None,
            nof_ues: 0,
            dl_min_prbs: 0,
            dl_max_prbs: 0,
            dl_ded_prbs: 0,
            avg_dl_rbs_per_slot: String::new(),
            avg_ul_rbs_per_slot: String::new(),
            dl_prb_ratio: String::new(),
            ul_prb_ratio: String::new(),
        }
    }
}

impl SliceMetric {
    pub open spec fn spec_slice(self) -> SliceId {
        SliceId { sst: self.sst, sd: self.sd }
    }

    pub fn slice_id(&self) -> (r: SliceId)
        ensures
            r == self.spec_slice(),
    {
        SliceId::new(self.sst, self.sd)
    }
}

impl MetricView {
    pub open spec fn slice(self) -> SliceId {
        SliceId { sst: self.sst as u8, sd: self.sd }
    }
}

/// The value token behind the first `key` of a text; no token where it is empty.
pub open spec fn field_of(s: Seq<char>, key: Seq<char>) -> Option<Seq<char>> {
    match text::after_first(s, key) {
        Some(rest) => if text::leading(rest, CharClass::FieldValue).len() == 0 {
            None
        } else {
            Some(text::leading(rest, CharClass::FieldValue))
        },
        None => None,
    }
}

/// The value token behind the first `key` of a text.
pub fn field<'a>(s: &'a [char], key: &str) -> (r: Option<&'a [char]>)
    ensures
        match r {
            Some(t) => field_of(s@, key@) == Some(t@),
            None => field_of(s@, key@) is None,
        },
{
    match text::text_after(s, key) {
        Some(rest) => {
            let v = text::take_leading(rest, CharClass::FieldValue);
            if v.len() == 0 {
                None
            } else {
                Some(v)
            }
        },
        None => None,
    }
}

/// The number in the field `key`, if there is one of at most `max`.
pub open spec fn field_number(s: Seq<char>, key: Seq<char>, max: nat) -> Option<nat> {
    match field_of(s, key) {
        Some(t) => text::number(t, 10, max),
        None => None,
    }
}

/// The number in the field `key` in the range of `u32`, and 0 where there is none.
pub open spec fn field_u32(s: Seq<char>, key: Seq<char>) -> nat {
    match field_number(s, key, u32::MAX as nat) {
        Some(n) => n,
        None => 0,
    }
}

/// The text in the field `key`, and no text where there is none.
pub open spec fn field_text(s: Seq<char>, key: Seq<char>) -> Seq<char> {
    match field_of(s, key) {
        Some(t) => t,
        None => seq![],
    }
}

/// The bracketed downlink group of a metrics line; all of the line where it has none.
pub open spec fn dl_group(s: Seq<char>) -> Seq<char> {
    match text::find_from(s, "dl["@, 0) {
        Some(i) => match text::find_from(s, "]"@, i) {
            Some(j) => s.subrange(i, j + 1),
            None => s.skip(i),
        },
        None => s,
    }
}

/// The metric that the text from the marker on states.
pub open spec fn metric_of_body(s: Seq<char>) -> Option<MetricView> {
    match (field_number(s, "pci="@, u16::MAX as nat), field_number(s, "sst="@, u8::MAX as nat)) {
        (Some(pci), Some(sst)) => Some(
            MetricView {
                pci,
                sst,
                sd: match field_of(s, "sd="@) {
                    Some(t) => sd_value(t),
                    None => None,
                },
                nof_ues: field_u32(s, "nof_ues="@),
                dl_min_prbs: field_u32(dl_group(s), "min_prbs="@),
                dl_max_prbs: field_u32(dl_group(s), "max_prbs="@),
                dl_ded_prbs: field_u32(dl_group(s), "ded_prbs="@),
                avg_dl: field_text(s, "avg_dl_rbs_per_slot="@),
                avg_ul: field_text(s, "avg_ul_rbs_per_slot="@),
                dl_ratio: field_text(s, "dl_prb_ratio="@),
                ul_ratio: field_text(s, "ul_prb_ratio="@),
            },
        ),
        _ => None,
    }
}

/// The metric that a log line states; none where it is no "Scheduler slice" line, or has no
/// readable cell identity or slice type.
pub open spec fn metric_of_line(line: Seq<char>) -> Option<MetricView> {
    match text::find_from(line, "Scheduler slice "@, 0) {
        Some(p) => metric_of_body(line.skip(p)),
        None => None,
    }
}

fn number_in_field(s: &[char], key: &str, max: u64) -> (r: Option<u64>)
    ensures
        match r {
            Some(n) => field_number(s@, key@, max as nat) == Some(n as nat) && n <= max,
            None => field_number(s@, key@, max as nat) is None,
        },
{
    match field(s, key) {
        Some(t) => text::read_number(t, 10, max),
        None => None,
    }
}

fn u32_in_field(s: &[char], key: &str) -> (r: u32)
    ensures
        r == field_u32(s@, key@),
{
    match number_in_field(s, key, u32::MAX as u64) {
        Some(n) => n as u32,
        None => 0,
    }
}

fn text_in_field(s: &[char], key: &str) -> (r: String)
    ensures
        r@ == field_text(s@, key@),
{
    match field(s, key) {
        Some(t) => text::string_of(t),
        None => String::new(),
    }
}

fn dl_group_of<'a>(s: &'a [char]) -> (r: &'a [char])
    ensures
        r@ == dl_group(s@),
{
    match text::find(s, "dl[") {
        Some(i) => {
            let close = text::chars_of("]");
            proof {
                reveal_strlit("]");
            }
            match text::find_pat(s, close.as_slice(), i) {
                Some(j) => vstd::slice::slice_subrange(s, i, j + 1),
                None => text::from_index(s, i),
            }
        },
        None => s,
    }
}

/// Parses one DU log line, whatever prefix the log puts before the metrics.
pub fn parse_slice_line(line: &str) -> (r: Option<SliceMetric>)
    ensures
        match r {
            Some(m) => metric_of_line(line@) == Some(m@),
            None => metric_of_line(line@) is None,
        },
{
    let chars = text::chars_of(line);
    parse_slice_chars(chars.as_slice())
}

fn parse_slice_chars(line: &[char]) -> (r: Option<SliceMetric>)
    ensures
        match r {
            Some(m) => metric_of_line(line@) == Some(m@),
            None => metric_of_line(line@) is None,
        },
{
    let s = match text::find(line, "Scheduler slice ") {
        Some(p) => text::from_index(line, p),
        None => {
            return None;
        },
    };
    let pci = match number_in_field(s, "pci=", u16::MAX as u64) {
        Some(n) => n as u16,
        None => {
            return None;
        },
    };
    let sst = match number_in_field(s, "sst=", u8::MAX as u64) {
        Some(n) => n as u8,
        None => {
            return None;
        },
    };
    let sd = match field(s, "sd=") {
        Some(t) => sd_of_chars(t),
        None => None,
    };
    let dl = dl_group_of(s);
    Some(
        SliceMetric {
            pci,
            sst,
            sd,
            nof_ues: u32_in_field(s, "nof_ues="),
            dl_min_prbs: u32_in_field(dl, "min_prbs="),
            dl_max_prbs: u32_in_field(dl, "max_prbs="),
            dl_ded_prbs: u32_in_field(dl, "ded_prbs="),
            avg_dl_rbs_per_slot: text_in_field(s, "avg_dl_rbs_per_slot="),
            avg_ul_rbs_per_slot: text_in_field(s, "avg_ul_rbs_per_slot="),
            dl_prb_ratio: text_in_field(s, "dl_prb_ratio="),
            ul_prb_ratio: text_in_field(s, "ul_prb_ratio="),
        },
    )
}

/// The last `n` lines of a log.
pub open spec fn tail(lines: Seq<Seq<char>>, n: nat) -> Seq<Seq<char>> {
    if lines.len() <= n {
        lines
    } else {
        lines.skip(lines.len() - n)
    }
}

/// How many lines at the end of a DU log are looked at.
pub const METRIC_TAIL: usize = 4000;

/// The metric of the last line about each slice.
pub open spec fn latest_metrics(lines: Seq<Seq<char>>) -> Map<SliceId, MetricView>
    decreases lines.len(),
{
    if lines.len() == 0 {
        Map::empty()
    } else {
        match metric_of_line(lines.last()) {
            Some(m) => latest_metrics(lines.drop_last()).insert(m.slice(), m),
            None => latest_metrics(lines.drop_last()),
        }
    }
}

/// `v` lists the members of `m`, each slice once.
pub open spec fn lists_metrics(v: Seq<SliceMetric>, m: Map<SliceId, MetricView>) -> bool {
    &&& forall|i: int, j: int|
        0 <= i < j < v.len() ==> #[trigger] v[i].spec_slice() != #[trigger] v[j].spec_slice()
    &&& forall|i: int|
        0 <= i < v.len() ==> m.dom().contains(#[trigger] v[i].spec_slice())
            && m[v[i].spec_slice()] == v[i]@
    &&& forall|id: SliceId| #[trigger]
        m.dom().contains(id) ==> exists|i: int|
            0 <= i < v.len() && #[trigger] v[i].spec_slice() == id
}

fn position_of(v: &Vec<SliceMetric>, id: SliceId) -> (r: Option<usize>)
    ensures
        match r {
            Some(i) => i < v.len() && v@[i as int].spec_slice() == id,
            None => forall|i: int| 0 <= i < v.len() ==> #[trigger] v@[i].spec_slice() != id,
        },
{
    let mut i: usize = 0;
    while i < v.len()
        invariant
            i <= v.len(),
            forall|k: int| 0 <= k < i ==> #[trigger] v@[k].spec_slice() != id,
        decreases v.len() - i,
    {
        if v[i].slice_id() == id {
            return Some(i);
        }
        i = i + 1;
    }
    None
}

/// The metric of the last line about each slice, among the last lines of a log.
pub open spec fn metrics_in(content: Seq<char>) -> Map<SliceId, MetricView> {
    latest_metrics(tail(text::lines_of(content), METRIC_TAIL as nat))
}

/// Reads the most recent metric of each slice from the end of a DU log.
pub fn read_slice_metrics(content: &str) -> (r: Vec<SliceMetric>)
    ensures
        lists_metrics(r@, metrics_in(content@)),
{
    let chars = text::chars_of(content);
    let lines = text::split_lines(chars.as_slice());
    let ghost all = text::lines_of(content@);
    let start: usize = if lines.len() > METRIC_TAIL {
        lines.len() - METRIC_TAIL
    } else {
        0
    };
    let ghost part = tail(all, METRIC_TAIL as nat);
    assert(part == all.skip(start as int));
    let mut out: Vec<SliceMetric> = Vec::new();
    let mut i: usize = start;
    while i < lines.len()
        invariant
            start <= i <= lines.len(),
            text::char_texts(lines@) == all,
            part == all.skip(start as int),
            lists_metrics(out@, latest_metrics(part.take(i - start))),
        decreases lines.len() - i,
    {
        let ghost before = out@;
        let ghost m0 = latest_metrics(part.take(i - start));
        let ghost m1 = latest_metrics(part.take(i + 1 - start));
        proof {
            assert(part.take(i + 1 - start).drop_last() == part.take(i - start));
            assert(part.take(i + 1 - start).last() == lines@[i as int]@);
        }
        match parse_slice_chars(lines[i].as_slice()) {
            Some(m) => {
                let ghost id = m.spec_slice();
                assert(m@.slice() == id);
                assert(m1 == m0.insert(id, m@));
                match position_of(&out, m.slice_id()) {
                    Some(k) => {
                        let ghost mv = m@;
                        out.set(k, m);
                        proof {
                            assert(out@ =~= before.update(k as int, out@[k as int]));
                            assert forall|a: int| 0 <= a < out@.len() implies #[trigger] out@[a].spec_slice()
                                == before[a].spec_slice() by {}
                            assert forall|a: int| 0 <= a < out@.len() implies m1.dom().contains(
                                #[trigger] out@[a].spec_slice(),
                            ) && m1[out@[a].spec_slice()] == out@[a]@ by {
                                assert(before[a].spec_slice() == out@[a].spec_slice());
                                if a != k {
                                    assert(out@[a].spec_slice() != id);
                                }
                            }
                            assert forall|x: SliceId| #[trigger]
                                m1.dom().contains(x) implies exists|a: int|
                                0 <= a < out@.len() && #[trigger] out@[a].spec_slice() == x by {
                                if x == id {
                                    assert(out@[k as int].spec_slice() == x);
                                } else {
                                    assert(m0.dom().contains(x));
                                    let a = choose|a: int|
                                        0 <= a < before.len() && #[trigger] before[a].spec_slice()
                                            == x;
                                    assert(out@[a].spec_slice() == x);
                                }
                            }
                        }
                    },
                    None => {
                        out.push(m);
                        proof {
                            assert forall|a: int| 0 <= a < before.len() implies #[trigger] out@[a]
                                == before[a] by {}
                            assert forall|a: int, b: int| 0 <= a < b < out@.len() implies #[trigger] out@[a].spec_slice()
                                != #[trigger] out@[b].spec_slice() by {
                                assert(out@[a] == before[a]);
                                assert(before[a].spec_slice() != id);
                                if b < before.len() {
                                    assert(out@[b] == before[b]);
                                    assert(before[a].spec_slice() != before[b].spec_slice());
                                }
                            }
                            assert forall|a: int| 0 <= a < out@.len() implies m1.dom().contains(
                                #[trigger] out@[a].spec_slice(),
                            ) && m1[out@[a].spec_slice()] == out@[a]@ by {
                                if a < before.len() {
                                    assert(out@[a] == before[a]);
                                    assert(before[a].spec_slice() != id);
                                }
                            }
                            assert forall|x: SliceId| #[trigger]
                                m1.dom().contains(x) implies exists|a: int|
                                0 <= a < out@.len() && #[trigger] out@[a].spec_slice() == x by {
                                if x == id {
                                    assert(out@[before.len() as int].spec_slice() == x);
                                } else {
                                    assert(m0.dom().contains(x));
                                    let a = choose|a: int|
                                        0 <= a < before.len() && #[trigger] before[a].spec_slice()
                                            == x;
                                    assert(out@[a].spec_slice() == x);
                                }
                            }
                        }
                    },
                }
            },
            None => {
                assert(m1 == m0);
            },
        }
        i = i + 1;
    }
    assert(part.take(i - start) == part);
    out
}

// ---------------------------------------------------------------------------
// Log files
// ---------------------------------------------------------------------------

/// Where a log may lie: at the override, at three places below the source tree, and in the
/// working directory. An empty override or tree counts as none.
pub open spec fn candidates(
    over: Option<Seq<char>>,
    tree: Option<Seq<char>>,
    places: (Seq<char>, Seq<char>, Seq<char>),
    plain: Seq<char>,
) -> Seq<Seq<char>> {
    let first = match over {
        Some(p) => if p.len() == 0 {
            seq![]
        } else {
            seq![p]
        },
        None => seq![],
    };
    let below = match tree {
        Some(t) => if t.len() == 0 {
            seq![]
        } else {
            seq![t + places.0, t + places.1, t + places.2]
        },
        None => seq![],
    };
    first + below + seq![plain]
}

pub open spec fn opt_text(s: Option<&str>) -> Option<Seq<char>> {
    match s {
        Some(t) => Some(t@),
        None => None,
    }
}

/// Two texts one after the other.
pub fn concat_texts(a: &str, b: &str) -> (r: String)
    ensures
        r@ == a@ + b@,
{
    let mut out = a.to_owned();
    out.append(b);
    out
}

pub fn log_candidates(
    over: Option<&str>,
    tree: Option<&str>,
    places: (&str, &str, &str),
    plain: &str,
) -> (r: Vec<String>)
    ensures
        text::texts(r@) == candidates(
            opt_text(over),
            opt_text(tree),
            (places.0@, places.1@, places.2@),
            plain@,
        ),
{
    let mut v: Vec<String> = Vec::new();
    match over {
        Some(p) => {
            if !p.is_empty() {
                v.push(text::owned(p));
            }
        },
        None => {},
    }
    match tree {
        Some(t) => {
            if !t.is_empty() {
                v.push(concat_texts(t, places.0));
                v.push(concat_texts(t, places.1));
                v.push(concat_texts(t, places.2));
            }
        },
        None => {},
    }
    v.push(text::owned(plain));
    assert(text::texts(v@) == candidates(
        opt_text(over),
        opt_text(tree),
        (places.0@, places.1@, places.2@),
        plain@,
    ));
    v
}

/// The places below the source tree where the DU's log may lie.
pub open spec fn du_places() -> (Seq<char>, Seq<char>, Seq<char>) {
    ("/build/apps/du.log"@, "/build/apps/du/du.log"@, "/du.log"@)
}

/// Candidate DU log locations in priority order, from the values of `DU_LOG` and `OCUDU_TREE`.
pub fn du_log_candidates(du_log: Option<&str>, tree: Option<&str>) -> (r: Vec<String>)
    ensures
        text::texts(r@) == candidates(opt_text(du_log), opt_text(tree), du_places(), "du.log"@),
{
    log_candidates(
        du_log,
        tree,
        ("/build/apps/du.log", "/build/apps/du/du.log", "/du.log"),
        "du.log",
    )
}

/// What the file system says about a candidate log.
pub struct LogFile {
    pub path: String,
    /// It exists and is a regular file.
    pub is_file: bool,
    /// Its length in bytes.
    pub len: u64,
    /// When it was last written, on any one scale, if the file system can tell.
    pub modified: Option<i128>,
}

impl LogFile {
    /// A regular file that holds something and says when it was written.
    pub open spec fn usable(self) -> bool {
        self.is_file && self.len > 0 && self.modified is Some
    }

    pub open spec fn mtime(self) -> int {
        self.modified->0 as int
    }
}

/// The `i`th file is usable, no usable file was written later, and those written at the same
/// time come before it.
pub open spec fn is_newest(files: Seq<LogFile>, i: int) -> bool {
    &&& 0 <= i < files.len()
    &&& files[i].usable()
    &&& forall|j: int|
        0 <= j < files.len() && (#[trigger] files[j]).usable() ==> files[j].mtime()
            <= files[i].mtime()
    &&& forall|j: int|
        i < j < files.len() && (#[trigger] files[j]).usable() ==> files[j].mtime()
            < files[i].mtime()
}

/// The path of the newest usable file, and none exactly where no file is usable.
pub open spec fn newest_path(files: Seq<LogFile>, r: Option<Seq<char>>) -> bool {
    match r {
        Some(p) => exists|i: int| is_newest(files, i) && p == (#[trigger] files[i]).path@,
        None => forall|i: int| 0 <= i < files.len() ==> !(#[trigger] files[i]).usable(),
    }
}

pub open spec fn opt_string(s: Option<String>) -> Option<Seq<char>> {
    match s {
        Some(t) => Some(t@),
        None => None,
    }
}

/// Among candidate files, the path of the existing, non-empty one that was written last; a stale
/// log in an earlier place never hides the one that is being written.
pub fn newest_nonempty(files: &Vec<LogFile>) -> (r: Option<String>)
    ensures
        newest_path(files@, opt_string(r)),
{
    let mut best: Option<usize> = None;
    let mut i: usize = 0;
    while i < files.len()
        invariant
            i <= files.len(),
            match best {
                Some(b) => b < i && is_newest(files@.take(i as int), b as int),
                None => forall|k: int| 0 <= k < i ==> !(#[trigger] files@[k]).usable(),
            },
        decreases files.len() - i,
    {
        let ghost old_best = best;
        let f = &files[i];
        assert(forall|k: int| 0 <= k < i ==> files@.take(i as int)[k] == #[trigger] files@[k]);
        assert(forall|k: int| 0 <= k < i + 1 ==> files@.take(i + 1)[k] == #[trigger] files@[k]);
        if f.is_file && f.len > 0 {
            match f.modified {
                Some(t) => {
                    let take = match best {
                        Some(b) => match files[b].modified {
                            Some(bt) => t >= bt,
                            None => true,
                        },
                        None => true,
                    };
                    if take {
                        best = Some(i);
                    }
                },
                None => {},
            }
        }
        proof {
            if best is Some {
                let b = best->0 as int;
                let part = files@.take(i + 1);
                let prev = files@.take(i as int);
                assert(part[b].usable());
                assert forall|j: int|
                    0 <= j < part.len() && (#[trigger] part[j]).usable() implies part[j].mtime()
                    <= part[b].mtime() by {
                    if j < i {
                        assert(prev[j] == part[j]);
                        if old_best is Some {
                            assert(prev[old_best->0 as int] == files@[old_best->0 as int]);
                        }
                    }
                }
                assert forall|j: int|
                    b < j < part.len() && (#[trigger] part[j]).usable() implies part[j].mtime()
                    < part[b].mtime() by {
                    if j < i {
                        assert(prev[j] == part[j]);
                    }
                }
            }
        }
        i = i + 1;
    }
    assert(files@.take(i as int) == files@);
    match best {
        Some(b) => Some(files[b].path.clone()),
        None => None,
    }
}

/// The DU log that is being written: the newest usable one of the candidates.
pub fn du_log_path(files: &Vec<LogFile>) -> (r: Option<String>)
    ensures
        newest_path(files@, opt_string(r)),
{
    newest_nonempty(files)
}

/// Which file is the newest is settled by the files alone.
pub proof fn law_newest_is_one(files: Seq<LogFile>, i: int, j: int)
    requires
        is_newest(files, i),
        is_newest(files, j),
    ensures
        i == j,
{
    if i < j {
        assert(files[j].mtime() < files[i].mtime());
    } else if j < i {
        assert(files[i].mtime() < files[j].mtime());
    }
}

// ---------------------------------------------------------------------------
// Admission
// ---------------------------------------------------------------------------

pub open spec fn sum_of(v: Seq<u32>) -> nat
    decreases v.len(),
{
    if v.len() == 0 {
        0
    } else {
        sum_of(v.drop_last()) + v.last() as nat
    }
}

proof fn lemma_sum_of_take(v: Seq<u32>, n: int)
    requires
        0 <= n <= v.len(),
    ensures
        sum_of(v.take(n)) <= sum_of(v),
    decreases v.len() - n,
{
    if n < v.len() {
        lemma_sum_of_take(v, n + 1);
        assert(v.take(n + 1).drop_last() == v.take(n));
    } else {
        assert(v.take(n) == v);
    }
}

fn sums_to_at_most_100(v: &[u32]) -> (r: bool)
    ensures
        r == (sum_of(v@) <= 100),
{
    let mut total: u32 = 0;
    let mut i: usize = 0;
    assert(v@.take(0) == Seq::<u32>::empty());
    while i < v.len()
        invariant
            i <= v.len(),
            total <= 100,
            total == sum_of(v@.take(i as int)),
        decreases v.len() - i,
    {
        proof {
            assert(v@.take(i + 1).drop_last() == v@.take(i as int));
            lemma_sum_of_take(v@, i + 1);
        }
        if v[i] > 100 - total {
            return false;
        }
        total = total + v[i];
        i = i + 1;
    }
    assert(v@.take(i as int) == v@);
    true
}

/// The ratios of all slices fit into the whole.
pub open spec fn ratios_fit(min: Seq<u32>, ded: Seq<u32>) -> bool {
    sum_of(min) <= 100 && sum_of(ded) <= 100
}

/// The cross-slice admission rule: the minimum ratios add up to at most 100, and so do the
/// dedicated ratios. A slice configuration that breaks it is refused by the DU at startup.
pub fn g2_ok(min_ratios: &[u32], ded_ratios: &[u32]) -> (r: bool)
    ensures
        r == ratios_fit(min_ratios@, ded_ratios@),
{
    sums_to_at_most_100(min_ratios) && sums_to_at_most_100(ded_ratios)
}

// ---------------------------------------------------------------------------
// The snapshot that pages read
// ---------------------------------------------------------------------------

/// A health snapshot of one running UE. The round-trip time (in milliseconds) and the two rates
/// (in Mbps) are decimal texts, ready to be shown.
#[derive(Clone, Debug)]
pub struct UeHealth {
    pub id: usize,
    pub stage: String,
    pub ip: String,
    pub has_tun: bool,
    pub last_rtt: Option<String>,
    pub dl_mbps: String,
    pub ul_mbps: String,
}

/// Read-only data that is handed to a page each frame.
pub struct PageCtx<'a> {
    pub ue_health: &'a [UeHealth],
    pub slice_map: &'a HashMap<usize, SliceMapEntry>,
    pub slice_metrics: &'a [SliceMetric],
    pub srv: &'a Option<String>,
    pub gnb_up: bool,
    /// The directory of the launch scripts.
    pub scripts_dir: &'a str,
}

/// The slice that the map gives a UE.
pub open spec fn ue_slice(map: Map<usize, SliceMapEntry>, ue: usize) -> Option<SliceId> {
    if map.dom().contains(ue) {
        Some(map[ue].spec_slice())
    } else {
        None
    }
}

/// The running UEs, in the order of the snapshot.
pub open spec fn health_ids(h: Seq<UeHealth>) -> Seq<usize> {
    Seq::new(h.len(), |i: int| h[i].id)
}

/// The running UEs that the map puts into a slice.
pub open spec fn members(
    ids: Seq<usize>,
    map: Map<usize, SliceMapEntry>,
    slice: SliceId,
) -> Seq<usize> {
    ids.filter(|id: usize| ue_slice(map, id) == Some(slice))
}

/// The slice differentiator by which slices of one type are ordered; slices without one come last.
pub open spec fn sd_rank(s: SliceId) -> nat {
    match s.sd {
        Some(sd) => sd as nat,
        None => u32::MAX as nat,
    }
}

/// `a` ranks below `b` by type and differentiator.
pub open spec fn ranks_below(a: SliceId, b: SliceId) -> bool {
    a.sst < b.sst || (a.sst == b.sst && sd_rank(a) < sd_rank(b))
}

/// A UE of slice `a` is listed before any UE of slice `b`.
pub open spec fn seen_before(
    ids: Seq<usize>,
    map: Map<usize, SliceMapEntry>,
    a: SliceId,
    b: SliceId,
) -> bool {
    exists|k: int|
        0 <= k < ids.len() && #[trigger] ue_slice(map, ids[k]) == Some(a) && forall|m: int|
            0 <= m <= k ==> #[trigger] ue_slice(map, ids[m]) != Some(b)
}

/// `a` is shown before `b`: it ranks below, or ranks the same and was seen first.
pub open spec fn shown_before(
    ids: Seq<usize>,
    map: Map<usize, SliceMapEntry>,
    a: SliceId,
    b: SliceId,
) -> bool {
    ranks_below(a, b) || (!ranks_below(b, a) && seen_before(ids, map, a, b))
}

/// One of the first `n` UEs belongs to the slice.
pub open spec fn present(
    ids: Seq<usize>,
    map: Map<usize, SliceMapEntry>,
    slice: SliceId,
    n: int,
) -> bool {
    exists|k: int| 0 <= k < n && #[trigger] ue_slice(map, ids[k]) == Some(slice)
}

/// `v` holds exactly the slices that running UEs belong to, each once, in the order in which
/// they are shown.
pub open spec fn lists_slices(
    v: Seq<SliceId>,
    ids: Seq<usize>,
    map: Map<usize, SliceMapEntry>,
) -> bool {
    &&& forall|i: int|
        0 <= i < v.len() ==> present(ids, map, #[trigger] v[i], ids.len() as int)
    &&& forall|k: int|
        0 <= k < ids.len() && (#[trigger] ue_slice(map, ids[k])) is Some ==> v.contains(
            ue_slice(map, ids[k])->0,
        )
    &&& forall|i: int, j: int|
        0 <= i < j < v.len() ==> shown_before(ids, map, #[trigger] v[i], #[trigger] v[j])
}

fn rank(s: SliceId) -> (r: u32)
    ensures
        r == sd_rank(s),
{
    match s.sd {
        Some(sd) => sd,
        None => u32::MAX,
    }
}

impl<'a> PageCtx<'a> {
    /// The slice a UE belongs to, none if the map does not know the UE.
    pub fn slice_of(&self, ue: usize) -> (r: Option<SliceId>)
        ensures
            r == ue_slice(self.slice_map@, ue),
    {
        broadcast use vstd::std_specs::hash::group_hash_axioms;

        match self.slice_map.get(&ue) {
            Some(e) => Some(e.slice_id()),
            None => None,
        }
    }

    /// All running UEs that belong to a given slice.
    pub fn ues_in_slice(&self, slice: SliceId) -> (r: Vec<usize>)
        ensures
            r@ == members(health_ids(self.ue_health@), self.slice_map@, slice),
    {
        let mut out: Vec<usize> = Vec::new();
        let ghost ids = health_ids(self.ue_health@);
        let mut i: usize = 0;
        assert(ids.take(0) == Seq::<usize>::empty());
        proof {
            reveal(Seq::filter);
        }
        while i < self.ue_health.len()
            invariant
                i <= self.ue_health.len(),
                ids == health_ids(self.ue_health@),
                out@ == members(ids.take(i as int), self.slice_map@, slice),
            decreases self.ue_health.len() - i,
        {
            let id = self.ue_health[i].id;
            let here = match self.slice_of(id) {
                Some(s) => s == slice,
                None => false,
            };
            proof {
                reveal(Seq::filter);
                assert(ids.take(i + 1).drop_last() == ids.take(i as int));
                assert(ids.take(i + 1).last() == id);
            }
            if here {
                out.push(id);
            }
            i = i + 1;
        }
        assert(ids.take(i as int) == ids);
        out
    }

    /// The slices that running UEs belong to, in a stable order for display.
    pub fn distinct_slices(&self) -> (r: Vec<SliceId>)
        ensures
            lists_slices(r@, health_ids(self.ue_health@), self.slice_map@),
    {
        let ghost ids = health_ids(self.ue_health@);
        let ghost map = self.slice_map@;
        let mut v: Vec<SliceId> = Vec::new();
        let mut i: usize = 0;
        while i < self.ue_health.len()
            invariant
                i <= self.ue_health.len(),
                ids == health_ids(self.ue_health@),
                map == self.slice_map@,
                forall|a: int| 0 <= a < v.len() ==> present(ids, map, #[trigger] v@[a], i as int),
                forall|k: int|
                    0 <= k < i && (#[trigger] ue_slice(map, ids[k])) is Some ==> v@.contains(
                        ue_slice(map, ids[k])->0,
                    ),
                forall|a: int, b: int|
                    0 <= a < b < v.len() ==> shown_before(
                        ids,
                        map,
                        #[trigger] v@[a],
                        #[trigger] v@[b],
                    ),
            decreases self.ue_health.len() - i,
        {
            let ghost before = v@;
            assert(ids[i as int] == self.ue_health@[i as int].id);
            match self.slice_of(self.ue_health[i].id) {
                Some(s) => {
                    insert_slice(&mut v, s);
                    proof {
                        lemma_inserted_slice(before, v@, s, ids, map, i as int);
                    }
                },
                None => {},
            }
            i = i + 1;
        }
        assert(i == ids.len());
        v
    }
}

/// What inserting a slice into a ranked list gives: the list itself where it holds the slice,
/// else the list with the slice behind all that do not rank above it.
pub open spec fn slice_inserted(before: Seq<SliceId>, after: Seq<SliceId>, s: SliceId) -> bool {
    if before.contains(s) {
        after == before
    } else {
        exists|p: int|
            0 <= p <= before.len() && after == #[trigger] before.insert(p, s) && (forall|a: int|
                0 <= a < p ==> !ranks_below(s, #[trigger] before[a])) && (p < before.len()
                ==> ranks_below(s, before[p]))
    }
}

fn insert_slice(v: &mut Vec<SliceId>, s: SliceId)
    ensures
        slice_inserted(old(v)@, final(v)@, s),
{
    let mut i: usize = 0;
    while i < v.len()
        invariant
            i <= v.len(),
            v@ == old(v)@,
            forall|a: int| 0 <= a < i ==> v@[a] != s,
        decreases v.len() - i,
    {
        if v[i] == s {
            assert(v@.contains(s));
            return ;
        }
        i = i + 1;
    }
    assert(!v@.contains(s));
    let mut p: usize = 0;
    while p < v.len() && !(s.sst < v[p].sst || (s.sst == v[p].sst && rank(s) < rank(v[p])))
        invariant
            p <= v.len(),
            v@ == old(v)@,
            forall|a: int| 0 <= a < p ==> !ranks_below(s, #[trigger] v@[a]),
        decreases v.len() - p,
    {
        p = p + 1;
    }
    v.insert(p, s);
}

proof fn lemma_inserted_slice(
    before: Seq<SliceId>,
    after: Seq<SliceId>,
    s: SliceId,
    ids: Seq<usize>,
    map: Map<usize, SliceMapEntry>,
    n: int,
)
    requires
        slice_inserted(before, after, s),
        0 <= n < ids.len(),
        ue_slice(map, ids[n]) == Some(s),
        forall|a: int| 0 <= a < before.len() ==> present(ids, map, #[trigger] before[a], n),
        forall|k: int|
            0 <= k < n && (#[trigger] ue_slice(map, ids[k])) is Some ==> before.contains(
                ue_slice(map, ids[k])->0,
            ),
        forall|a: int, b: int|
            0 <= a < b < before.len() ==> shown_before(
                ids,
                map,
                #[trigger] before[a],
                #[trigger] before[b],
            ),
    ensures
        forall|a: int| 0 <= a < after.len() ==> present(ids, map, #[trigger] after[a], n + 1),
        forall|k: int|
            0 <= k < n + 1 && (#[trigger] ue_slice(map, ids[k])) is Some ==> after.contains(
                ue_slice(map, ids[k])->0,
            ),
        forall|a: int, b: int|
            0 <= a < b < after.len() ==> shown_before(
                ids,
                map,
                #[trigger] after[a],
                #[trigger] after[b],
            ),
{
    if !before.contains(s) {
        let p = choose|p: int|
            0 <= p <= before.len() && after == #[trigger] before.insert(p, s) && (forall|a: int|
                0 <= a < p ==> !ranks_below(s, #[trigger] before[a])) && (p < before.len()
                ==> ranks_below(s, before[p]));
        assert forall|a: int| 0 <= a < after.len() implies present(
            ids,
            map,
            #[trigger] after[a],
            n + 1,
        ) by {
            if a == p {
                assert(ue_slice(map, ids[n]) == Some(after[a]));
            } else {
                let old_a = if a < p {
                    a
                } else {
                    a - 1
                };
                assert(after[a] == before[old_a]);
                let k = choose|k: int|
                    0 <= k < n && #[trigger] ue_slice(map, ids[k]) == Some(before[old_a]);
                assert(ue_slice(map, ids[k]) == Some(after[a]));
            }
        }
        assert forall|k: int|
            0 <= k < n + 1 && (#[trigger] ue_slice(map, ids[k])) is Some implies after.contains(
            ue_slice(map, ids[k])->0,
        ) by {
            if k == n {
                assert(after[p] == s);
            } else {
                let x = ue_slice(map, ids[k])->0;
                let a = choose|a: int| 0 <= a < before.len() && before[a] == x;
                if a < p {
                    assert(after[a] == x);
                } else {
                    assert(after[a + 1] == x);
                }
            }
        }
        assert forall|a: int| 0 <= a < before.len() implies seen_before(
            ids,
            map,
            #[trigger] before[a],
            s,
        ) by {
            let k = choose|k: int|
                0 <= k < n && #[trigger] ue_slice(map, ids[k]) == Some(before[a]);
            assert forall|m: int| 0 <= m <= k implies #[trigger] ue_slice(map, ids[m]) != Some(
                s,
            ) by {
                if ue_slice(map, ids[m]) == Some(s) {
                    assert(before.contains(s));
                }
            }
        }
        assert forall|a: int, b: int| 0 <= a < b < after.len() implies shown_before(
            ids,
            map,
            #[trigger] after[a],
            #[trigger] after[b],
        ) by {
            let oa = if a < p {
                a
            } else {
                a - 1
            };
            let ob = if b < p {
                b
            } else {
                b - 1
            };
            if b == p {
                assert(after[a] == before[a]);
                assert(after[b] == s);
                assert(!ranks_below(s, before[a]));
                assert(seen_before(ids, map, before[a], s));
            } else if a == p {
                assert(after[b] == before[ob]);
                assert(ranks_below(s, before[p]));
                if ob > p {
                    assert(shown_before(ids, map, before[p], before[ob]));
                }
                assert(ranks_below(s, before[ob]));
            } else {
                assert(after[a] == before[oa]);
                assert(after[b] == before[ob]);
                assert(shown_before(ids, map, before[oa], before[ob]));
            }
        }
    }
}

/// The slices that are listed are those that have members among the running UEs, and no slice is
/// listed twice.
pub proof fn law_listed_slices_have_members(
    v: Seq<SliceId>,
    ids: Seq<usize>,
    map: Map<usize, SliceMapEntry>,
    slice: SliceId,
)
    requires
        lists_slices(v, ids, map),
    ensures
        v.contains(slice) <==> members(ids, map, slice).len() > 0,
        v.no_duplicates(),
{
    let pred = |id: usize| ue_slice(map, id) == Some(slice);
    if v.contains(slice) {
        let i = choose|i: int| 0 <= i < v.len() && v[i] == slice;
        let k = choose|k: int|
            0 <= k < ids.len() && #[trigger] ue_slice(map, ids[k]) == Some(v[i]);
        assert(pred(ids[k]));
        ids.lemma_filter_contains(pred, k);
    }
    if members(ids, map, slice).len() > 0 {
        let x = members(ids, map, slice)[0];
        ids.lemma_filter_pred(pred, 0);
        assert(ids.filter(pred).contains(x));
        ids.lemma_filter_contains_rev(pred, x);
        let k = choose|k: int| 0 <= k < ids.len() && ids[k] == x;
        assert(ue_slice(map, ids[k]) == Some(slice));
    }
    assert forall|i: int, j: int| 0 <= i < j < v.len() implies v[i] != v[j] by {
        assert(shown_before(ids, map, v[i], v[j]));
        if v[i] == v[j] {
            assert(seen_before(ids, map, v[i], v[i]));
        }
    }
}

/// Every running UE of a mapped slice is a member of that slice and of no other.
pub proof fn law_member_of_its_slice(
    ids: Seq<usize>,
    map: Map<usize, SliceMapEntry>,
    ue: usize,
    slice: SliceId,
)
    requires
        ids.contains(ue),
    ensures
        members(ids, map, slice).contains(ue) <==> ue_slice(map, ue) == Some(slice),
{
    let pred = |id: usize| ue_slice(map, id) == Some(slice);
    let k = choose|k: int| 0 <= k < ids.len() && ids[k] == ue;
    if ue_slice(map, ue) == Some(slice) {
        assert(pred(ids[k]));
        ids.lemma_filter_contains(pred, k);
    }
    if members(ids, map, slice).contains(ue) {
        let f = ids.filter(pred);
        let i = choose|i: int| 0 <= i < f.len() && f[i] == ue;
        ids.lemma_filter_pred(pred, i);
    }
}

} // verus!
