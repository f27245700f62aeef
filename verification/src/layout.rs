//! The layout of the slice metric lines that a DU writes, and that they are read back.

use vstd::prelude::*;

use crate::slice;
use crate::slice::MetricView;
use crate::text;
use crate::text::CharClass;

verus! {

/// Labels with their values one after another, and what ends the line.
pub open spec fn labelled(fields: Seq<(Seq<char>, Seq<char>)>, end: Seq<char>) -> Seq<char>
    decreases fields.len(),
{
    if fields.len() == 0 {
        end
    } else {
        fields[0].0 + fields[0].1 + labelled(fields.skip(1), end)
    }
}

pub open spec fn ends_with(s: Seq<char>, key: Seq<char>) -> bool {
    key.len() <= s.len() && forall|j: int|
        0 <= j < key.len() ==> s[s.len() - key.len() + j] == #[trigger] key[j]
}

/// A key as it stands in front of a value.
pub open spec fn is_key(key: Seq<char>) -> bool {
    &&& key.len() > 0
    &&& key.last() == '='
    &&& forall|j: int| 0 <= j < key.len() ==> CharClass::FieldValue.has(#[trigger] key[j])
}

/// A label ends in its only equals sign.
pub open spec fn is_label(s: Seq<char>) -> bool {
    &&& s.len() > 0
    &&& s.last() == '='
    &&& forall|j: int| 0 <= j < s.len() - 1 ==> #[trigger] s[j] != '='
}

/// A value is neither empty nor holds what ends a value.
pub open spec fn is_value(s: Seq<char>) -> bool {
    &&& s.len() > 0
    &&& forall|j: int|
        0 <= j < s.len() ==> CharClass::FieldValue.has(#[trigger] s[j]) && s[j] != '='
}

/// What follows a value ends it.
pub open spec fn is_break(s: Seq<char>) -> bool {
    s.len() > 0 && !CharClass::FieldValue.has(s[0])
}

/// A row of labels and values in which every label ends the value before it.
pub open spec fn well_laid(fields: Seq<(Seq<char>, Seq<char>)>) -> bool {
    &&& forall|i: int|
        0 <= i < fields.len() ==> is_label((#[trigger] fields[i]).0) && is_value(fields[i].1)
    &&& forall|i: int| 0 < i < fields.len() ==> is_break((#[trigger] fields[i]).0)
}

/// The first value whose label ends with `key`.
pub open spec fn first_value(
    fields: Seq<(Seq<char>, Seq<char>)>,
    key: Seq<char>,
) -> Option<Seq<char>>
    decreases fields.len(),
{
    if fields.len() == 0 {
        None
    } else if ends_with(fields[0].0, key) {
        Some(fields[0].1)
    } else {
        first_value(fields.skip(1), key)
    }
}

proof fn lemma_hit(label: Seq<char>, value: Seq<char>, rest: Seq<char>, key: Seq<char>)
    requires
        is_key(key),
        is_label(label),
        is_value(value),
        is_break(rest),
        ends_with(label, key),
    ensures
        slice::field_of(label + value + rest, key) == Some(value),
{
    let s = label + value + rest;
    let at = label.len() - key.len();
    assert(s.subrange(at, at + key.len()) =~= key);
    assert forall|k: int| 0 <= k < at implies !text::occurs_at(s, key, k) by {
        if text::occurs_at(s, key, k) {
            assert(s.subrange(k, k + key.len())[key.len() - 1] == s[k + key.len() - 1]);
            assert(label[k + key.len() - 1] == '=');
        }
    }
    text::lemma_find_is(s, key, 0, at);
    let tail = s.skip(at + key.len());
    assert(tail =~= value + rest);
    assert(tail[value.len() as int] == rest[0]);
    assert forall|k: int| 0 <= k < value.len() implies CharClass::FieldValue.has(
        #[trigger] tail[k],
    ) by {
        assert(tail[k] == value[k]);
    }
    text::lemma_run_is(tail, 0, value.len() as int, CharClass::FieldValue, true);
    assert(tail.take(value.len() as int) =~= value);
}

proof fn lemma_miss(label: Seq<char>, value: Seq<char>, rest: Seq<char>, key: Seq<char>)
    requires
        is_key(key),
        is_label(label),
        is_value(value),
        is_break(rest),
        !ends_with(label, key),
    ensures
        slice::field_of(label + value + rest, key) == slice::field_of(rest, key),
{
    let s = label + value + rest;
    let n = (label.len() + value.len()) as int;
    assert forall|k: int| text::occurs_at(s, key, k) implies k > n && text::occurs_at(
        rest,
        key,
        k - n,
    ) by {
        let sub = s.subrange(k, k + key.len());
        let e = k + key.len() - 1;
        assert(sub[key.len() - 1] == s[e]);
        assert(s[e] == '=');
        if e < label.len() {
            assert(label[e] == '=');
            assert(e == label.len() - 1);
            assert forall|j: int| 0 <= j < key.len() implies label[label.len() - key.len() + j]
                == #[trigger] key[j] by {
                assert(sub[j] == s[k + j]);
            }
            assert(ends_with(label, key));
        } else if e < n {
            assert(value[e - label.len()] == '=');
        } else if k <= n {
            assert(sub[n - k] == s[n]);
            assert(s[n] == rest[0]);
            assert(CharClass::FieldValue.has(key[n - k]));
        } else {
            assert(rest.subrange(k - n, k - n + key.len()) =~= sub);
        }
    }
    text::lemma_find_from(rest, key, 0);
    text::lemma_find_from(s, key, 0);
    match text::find_from(rest, key, 0) {
        Some(j) => {
            assert(s.subrange(j + n, j + n + key.len()) =~= rest.subrange(j, j + key.len()));
            assert(text::occurs_at(s, key, j + n));
            assert forall|k: int| 0 <= k < j + n implies !text::occurs_at(s, key, k) by {
                if text::occurs_at(s, key, k) {
                    assert(text::occurs_at(rest, key, k - n));
                }
            }
            text::lemma_find_is(s, key, 0, j + n);
            assert(s.skip(j + n + key.len()) =~= rest.skip(j + key.len()));
        },
        None => {
            if text::find_from(s, key, 0) is Some {
                let k = text::find_from(s, key, 0)->0;
                assert(text::occurs_at(rest, key, k - n));
            }
        },
    }
}

/// The field of a key is the first value whose label ends with it.
proof fn lemma_field_of_labelled(
    fields: Seq<(Seq<char>, Seq<char>)>,
    end: Seq<char>,
    key: Seq<char>,
)
    requires
        is_key(key),
        well_laid(fields),
        is_break(end),
    ensures
        slice::field_of(labelled(fields, end), key) == match first_value(fields, key) {
            Some(v) => Some(v),
            None => slice::field_of(end, key),
        },
        fields.len() > 0 ==> labelled(fields, end).len() > 0 && labelled(fields, end)[0]
            == fields[0].0[0],
    decreases fields.len(),
{
    if fields.len() > 0 {
        let rest = fields.skip(1);
        assert forall|i: int| 0 <= i < rest.len() implies is_label((#[trigger] rest[i]).0)
            && is_value(rest[i].1) by {
            assert(rest[i] == fields[i + 1]);
        }
        assert forall|i: int| 0 < i < rest.len() implies is_break((#[trigger] rest[i]).0) by {
            assert(rest[i] == fields[i + 1]);
        }
        lemma_field_of_labelled(rest, end, key);
        let tail = labelled(rest, end);
        assert(is_break(tail)) by {
            if rest.len() > 0 {
                assert(rest[0] == fields[1]);
                assert(is_break(fields[1].0));
            }
        }
        assert(is_label(fields[0].0) && is_value(fields[0].1));
        if ends_with(fields[0].0, key) {
            lemma_hit(fields[0].0, fields[0].1, tail, key);
        } else {
            lemma_miss(fields[0].0, fields[0].1, tail, key);
        }
    }
}

/// The first value whose label ends with a key is where it is shown to be.
proof fn lemma_first_value(fields: Seq<(Seq<char>, Seq<char>)>, key: Seq<char>, i: int)
    requires
        0 <= i <= fields.len(),
        forall|k: int| 0 <= k < i ==> !ends_with((#[trigger] fields[k]).0, key),
        i < fields.len() ==> ends_with(fields[i].0, key),
    ensures
        first_value(fields, key) == if i < fields.len() {
            Some(fields[i].1)
        } else {
            None
        },
    decreases fields.len(),
{
    if fields.len() > 0 && i > 0 {
        let rest = fields.skip(1);
        assert(!ends_with(fields[0].0, key));
        assert forall|k: int| 0 <= k < i - 1 implies !ends_with((#[trigger] rest[k]).0, key) by {
            assert(rest[k] == fields[k + 1]);
        }
        lemma_first_value(rest, key, i - 1);
    }
}

/// The slice differentiator as a metrics line shows it; nothing where there is none.
pub open spec fn sd_field(sd: Option<u32>) -> Seq<(Seq<char>, Seq<char>)> {
    match sd {
        Some(n) => seq![(" sd="@, "0x"@ + text::hex(n as nat))],
        None => seq![],
    }
}

/// The labels and values of a metrics line; `ul` holds the limits of the uplink.
pub open spec fn metric_fields(m: MetricView, ul: (nat, nat, nat)) -> Seq<(Seq<char>, Seq<char>)> {
    seq![("Scheduler slice pci="@, text::dec(m.pci)), (" sst="@, text::dec(m.sst))] + sd_field(m.sd)
        + seq![
        (" metrics: nof_ues="@, text::dec(m.nof_ues)),
        (" dl[min_prbs="@, text::dec(m.dl_min_prbs)),
        (" max_prbs="@, text::dec(m.dl_max_prbs)),
        (" ded_prbs="@, text::dec(m.dl_ded_prbs)),
        ("] ul[min_prbs="@, text::dec(ul.0)),
        (" max_prbs="@, text::dec(ul.1)),
        (" ded_prbs="@, text::dec(ul.2)),
        ("] avg_dl_rbs_per_slot="@, m.avg_dl),
        (" avg_ul_rbs_per_slot="@, m.avg_ul),
        (" dl_prb_ratio="@, m.dl_ratio),
        ("% ul_prb_ratio="@, m.ul_ratio),
    ]
}

/// The metrics line that a DU writes.
pub open spec fn metric_line(m: MetricView, ul: (nat, nat, nat)) -> Seq<char> {
    labelled(metric_fields(m, ul), "%"@)
}

/// A number with decimals, as the averages and ratios are written.
pub open spec fn is_decimal(s: Seq<char>) -> bool {
    s.len() > 0 && forall|i: int|
        0 <= i < s.len() ==> CharClass::DigitOrDot.has(#[trigger] s[i])
}

/// The numbers of a metric lie in their ranges, and its averages and ratios are decimal numbers.
pub open spec fn writable(m: MetricView) -> bool {
    &&& m.pci <= u16::MAX
    &&& m.sst <= u8::MAX
    &&& m.nof_ues <= u32::MAX
    &&& m.dl_min_prbs <= u32::MAX
    &&& m.dl_max_prbs <= u32::MAX
    &&& m.dl_ded_prbs <= u32::MAX
    &&& is_decimal(m.avg_dl)
    &&& is_decimal(m.avg_ul)
    &&& is_decimal(m.dl_ratio)
    &&& is_decimal(m.ul_ratio)
}

proof fn lemma_written_value(n: nat, radix: nat)
    requires
        radix == 10 || radix == 16,
    ensures
        is_value(text::written(n, radix)),
        forall|j: int|
            0 <= j < text::written(n, radix).len() ==> #[trigger] text::written(n, radix)[j] != '['
                && text::written(n, radix)[j] != ']',
{
    text::lemma_written(n, radix);
    let w = text::written(n, radix);
    assert forall|j: int| 0 <= j < w.len() implies CharClass::FieldValue.has(#[trigger] w[j])
        && w[j] != '=' && w[j] != '[' && w[j] != ']' by {
        assert(text::is_digit_of(w[j], radix));
    }
}

proof fn lemma_decimal_value(s: Seq<char>)
    requires
        is_decimal(s),
    ensures
        is_value(s),
{
    assert forall|j: int| 0 <= j < s.len() implies CharClass::FieldValue.has(#[trigger] s[j])
        && s[j] != '=' by {
        assert(CharClass::DigitOrDot.has(s[j]));
    }
}

proof fn lemma_labels()
    ensures
        is_label("Scheduler slice pci="@),
        is_label(" sst="@),
        is_label(" sd="@),
        is_label(" metrics: nof_ues="@),
        is_label(" dl[min_prbs="@),
        is_label(" max_prbs="@),
        is_label(" ded_prbs="@),
        is_label("] ul[min_prbs="@),
        is_label("] avg_dl_rbs_per_slot="@),
        is_label(" avg_ul_rbs_per_slot="@),
        is_label(" dl_prb_ratio="@),
        is_label("% ul_prb_ratio="@),
        is_label("dl[min_prbs="@),
        is_break(" sst="@),
        is_break(" sd="@),
        is_break(" metrics: nof_ues="@),
        is_break(" dl[min_prbs="@),
        is_break(" max_prbs="@),
        is_break(" ded_prbs="@),
        is_break("] ul[min_prbs="@),
        is_break("] avg_dl_rbs_per_slot="@),
        is_break(" avg_ul_rbs_per_slot="@),
        is_break(" dl_prb_ratio="@),
        is_break("% ul_prb_ratio="@),
        is_break("%"@),
        is_break("]"@),
{
    reveal_strlit("Scheduler slice pci=");
    reveal_strlit(" sst=");
    reveal_strlit(" sd=");
    reveal_strlit(" metrics: nof_ues=");
    reveal_strlit(" dl[min_prbs=");
    reveal_strlit(" max_prbs=");
    reveal_strlit(" ded_prbs=");
    reveal_strlit("] ul[min_prbs=");
    reveal_strlit("] avg_dl_rbs_per_slot=");
    reveal_strlit(" avg_ul_rbs_per_slot=");
    reveal_strlit(" dl_prb_ratio=");
    reveal_strlit("% ul_prb_ratio=");
    reveal_strlit("dl[min_prbs=");
    reveal_strlit("%");
    reveal_strlit("]");
}

proof fn lemma_key_pci()
    ensures
        is_key("pci="@),
        ends_with("Scheduler slice pci="@, "pci="@),
        !ends_with(" sst="@, "pci="@),
        !ends_with(" sd="@, "pci="@),
        !ends_with(" metrics: nof_ues="@, "pci="@),
        !ends_with(" dl[min_prbs="@, "pci="@),
        !ends_with(" max_prbs="@, "pci="@),
        !ends_with(" ded_prbs="@, "pci="@),
        !ends_with("] ul[min_prbs="@, "pci="@),
        !ends_with("] avg_dl_rbs_per_slot="@, "pci="@),
        !ends_with(" avg_ul_rbs_per_slot="@, "pci="@),
        !ends_with(" dl_prb_ratio="@, "pci="@),
        !ends_with("% ul_prb_ratio="@, "pci="@),
{
    reveal_strlit("pci=");
    reveal_strlit("Scheduler slice pci=");
    reveal_strlit(" sst=");
    reveal_strlit(" sd=");
    reveal_strlit(" metrics: nof_ues=");
    reveal_strlit(" dl[min_prbs=");
    reveal_strlit(" max_prbs=");
    reveal_strlit(" ded_prbs=");
    reveal_strlit("] ul[min_prbs=");
    reveal_strlit("] avg_dl_rbs_per_slot=");
    reveal_strlit(" avg_ul_rbs_per_slot=");
    reveal_strlit(" dl_prb_ratio=");
    reveal_strlit("% ul_prb_ratio=");
    assert(" sst="@[" sst="@.len() - "pci="@.len() + 2] != "pci="@[2]);
    assert(" sd="@[" sd="@.len() - "pci="@.len() + 2] != "pci="@[2]);
    assert(" metrics: nof_ues="@[" metrics: nof_ues="@.len() - "pci="@.len() + 2] != "pci="@[2]);
    assert(" dl[min_prbs="@[" dl[min_prbs="@.len() - "pci="@.len() + 2] != "pci="@[2]);
    assert(" max_prbs="@[" max_prbs="@.len() - "pci="@.len() + 2] != "pci="@[2]);
    assert(" ded_prbs="@[" ded_prbs="@.len() - "pci="@.len() + 2] != "pci="@[2]);
    assert("] ul[min_prbs="@["] ul[min_prbs="@.len() - "pci="@.len() + 2] != "pci="@[2]);
    assert("] avg_dl_rbs_per_slot="@["] avg_dl_rbs_per_slot="@.len() - "pci="@.len() + 2] != "pci="@[2]);
    assert(" avg_ul_rbs_per_slot="@[" avg_ul_rbs_per_slot="@.len() - "pci="@.len() + 2] != "pci="@[2]);
    assert(" dl_prb_ratio="@[" dl_prb_ratio="@.len() - "pci="@.len() + 2] != "pci="@[2]);
    assert("% ul_prb_ratio="@["% ul_prb_ratio="@.len() - "pci="@.len() + 2] != "pci="@[2]);
}

proof fn lemma_key_sst()
    ensures
        is_key("sst="@),
        !ends_with("Scheduler slice pci="@, "sst="@),
        ends_with(" sst="@, "sst="@),
        !ends_with(" sd="@, "sst="@),
        !ends_with(" metrics: nof_ues="@, "sst="@),
        !ends_with(" dl[min_prbs="@, "sst="@),
        !ends_with(" max_prbs="@, "sst="@),
        !ends_with(" ded_prbs="@, "sst="@),
        !ends_with("] ul[min_prbs="@, "sst="@),
        !ends_with("] avg_dl_rbs_per_slot="@, "sst="@),
        !ends_with(" avg_ul_rbs_per_slot="@, "sst="@),
        !ends_with(" dl_prb_ratio="@, "sst="@),
        !ends_with("% ul_prb_ratio="@, "sst="@),
{
    reveal_strlit("sst=");
    reveal_strlit("Scheduler slice pci=");
    reveal_strlit(" sst=");
    reveal_strlit(" sd=");
    reveal_strlit(" metrics: nof_ues=");
    reveal_strlit(" dl[min_prbs=");
    reveal_strlit(" max_prbs=");
    reveal_strlit(" ded_prbs=");
    reveal_strlit("] ul[min_prbs=");
    reveal_strlit("] avg_dl_rbs_per_slot=");
    reveal_strlit(" avg_ul_rbs_per_slot=");
    reveal_strlit(" dl_prb_ratio=");
    reveal_strlit("% ul_prb_ratio=");
    assert("Scheduler slice pci="@["Scheduler slice pci="@.len() - "sst="@.len() + 2] != "sst="@[2]);
    assert(" sd="@[" sd="@.len() - "sst="@.len() + 2] != "sst="@[2]);
    assert(" metrics: nof_ues="@[" metrics: nof_ues="@.len() - "sst="@.len() + 2] != "sst="@[2]);
    assert(" dl[min_prbs="@[" dl[min_prbs="@.len() - "sst="@.len() + 2] != "sst="@[2]);
    assert(" max_prbs="@[" max_prbs="@.len() - "sst="@.len() + 2] != "sst="@[2]);
    assert(" ded_prbs="@[" ded_prbs="@.len() - "sst="@.len() + 2] != "sst="@[2]);
    assert("] ul[min_prbs="@["] ul[min_prbs="@.len() - "sst="@.len() + 2] != "sst="@[2]);
    assert("] avg_dl_rbs_per_slot="@["] avg_dl_rbs_per_slot="@.len() - "sst="@.len() + 1] != "sst="@[1]);
    assert(" avg_ul_rbs_per_slot="@[" avg_ul_rbs_per_slot="@.len() - "sst="@.len() + 1] != "sst="@[1]);
    assert(" dl_prb_ratio="@[" dl_prb_ratio="@.len() - "sst="@.len() + 2] != "sst="@[2]);
    assert("% ul_prb_ratio="@["% ul_prb_ratio="@.len() - "sst="@.len() + 2] != "sst="@[2]);
}

proof fn lemma_key_sd()
    ensures
        is_key("sd="@),
        !ends_with("Scheduler slice pci="@, "sd="@),
        !ends_with(" sst="@, "sd="@),
        ends_with(" sd="@, "sd="@),
        !ends_with(" metrics: nof_ues="@, "sd="@),
        !ends_with(" dl[min_prbs="@, "sd="@),
        !ends_with(" max_prbs="@, "sd="@),
        !ends_with(" ded_prbs="@, "sd="@),
        !ends_with("] ul[min_prbs="@, "sd="@),
        !ends_with("] avg_dl_rbs_per_slot="@, "sd="@),
        !ends_with(" avg_ul_rbs_per_slot="@, "sd="@),
        !ends_with(" dl_prb_ratio="@, "sd="@),
        !ends_with("% ul_prb_ratio="@, "sd="@),
{
    reveal_strlit("sd=");
    reveal_strlit("Scheduler slice pci=");
    reveal_strlit(" sst=");
    reveal_strlit(" sd=");
    reveal_strlit(" metrics: nof_ues=");
    reveal_strlit(" dl[min_prbs=");
    reveal_strlit(" max_prbs=");
    reveal_strlit(" ded_prbs=");
    reveal_strlit("] ul[min_prbs=");
    reveal_strlit("] avg_dl_rbs_per_slot=");
    reveal_strlit(" avg_ul_rbs_per_slot=");
    reveal_strlit(" dl_prb_ratio=");
    reveal_strlit("% ul_prb_ratio=");
    assert("Scheduler slice pci="@["Scheduler slice pci="@.len() - "sd="@.len() + 1] != "sd="@[1]);
    assert(" sst="@[" sst="@.len() - "sd="@.len() + 1] != "sd="@[1]);
    assert(" metrics: nof_ues="@[" metrics: nof_ues="@.len() - "sd="@.len() + 1] != "sd="@[1]);
    assert(" dl[min_prbs="@[" dl[min_prbs="@.len() - "sd="@.len() + 1] != "sd="@[1]);
    assert(" max_prbs="@[" max_prbs="@.len() - "sd="@.len() + 1] != "sd="@[1]);
    assert(" ded_prbs="@[" ded_prbs="@.len() - "sd="@.len() + 1] != "sd="@[1]);
    assert("] ul[min_prbs="@["] ul[min_prbs="@.len() - "sd="@.len() + 1] != "sd="@[1]);
    assert("] avg_dl_rbs_per_slot="@["] avg_dl_rbs_per_slot="@.len() - "sd="@.len() + 1] != "sd="@[1]);
    assert(" avg_ul_rbs_per_slot="@[" avg_ul_rbs_per_slot="@.len() - "sd="@.len() + 1] != "sd="@[1]);
    assert(" dl_prb_ratio="@[" dl_prb_ratio="@.len() - "sd="@.len() + 1] != "sd="@[1]);
    assert("% ul_prb_ratio="@["% ul_prb_ratio="@.len() - "sd="@.len() + 1] != "sd="@[1]);
}

proof fn lemma_key_nof_ues()
    ensures
        is_key("nof_ues="@),
        !ends_with("Scheduler slice pci="@, "nof_ues="@),
        !ends_with(" sst="@, "nof_ues="@),
        !ends_with(" sd="@, "nof_ues="@),
        ends_with(" metrics: nof_ues="@, "nof_ues="@),
        !ends_with(" dl[min_prbs="@, "nof_ues="@),
        !ends_with(" max_prbs="@, "nof_ues="@),
        !ends_with(" ded_prbs="@, "nof_ues="@),
        !ends_with("] ul[min_prbs="@, "nof_ues="@),
        !ends_with("] avg_dl_rbs_per_slot="@, "nof_ues="@),
        !ends_with(" avg_ul_rbs_per_slot="@, "nof_ues="@),
        !ends_with(" dl_prb_ratio="@, "nof_ues="@),
        !ends_with("% ul_prb_ratio="@, "nof_ues="@),
{
    reveal_strlit("nof_ues=");
    reveal_strlit("Scheduler slice pci=");
    reveal_strlit(" sst=");
    reveal_strlit(" sd=");
    reveal_strlit(" metrics: nof_ues=");
    reveal_strlit(" dl[min_prbs=");
    reveal_strlit(" max_prbs=");
    reveal_strlit(" ded_prbs=");
    reveal_strlit("] ul[min_prbs=");
    reveal_strlit("] avg_dl_rbs_per_slot=");
    reveal_strlit(" avg_ul_rbs_per_slot=");
    reveal_strlit(" dl_prb_ratio=");
    reveal_strlit("% ul_prb_ratio=");
    assert("Scheduler slice pci="@["Scheduler slice pci="@.len() - "nof_ues="@.len() + 6] != "nof_ues="@[6]);
    assert(" dl[min_prbs="@[" dl[min_prbs="@.len() - "nof_ues="@.len() + 5] != "nof_ues="@[5]);
    assert(" max_prbs="@[" max_prbs="@.len() - "nof_ues="@.len() + 5] != "nof_ues="@[5]);
    assert(" ded_prbs="@[" ded_prbs="@.len() - "nof_ues="@.len() + 5] != "nof_ues="@[5]);
    assert("] ul[min_prbs="@["] ul[min_prbs="@.len() - "nof_ues="@.len() + 5] != "nof_ues="@[5]);
    assert("] avg_dl_rbs_per_slot="@["] avg_dl_rbs_per_slot="@.len() - "nof_ues="@.len() + 6] != "nof_ues="@[6]);
    assert(" avg_ul_rbs_per_slot="@[" avg_ul_rbs_per_slot="@.len() - "nof_ues="@.len() + 6] != "nof_ues="@[6]);
    assert(" dl_prb_ratio="@[" dl_prb_ratio="@.len() - "nof_ues="@.len() + 6] != "nof_ues="@[6]);
    assert("% ul_prb_ratio="@["% ul_prb_ratio="@.len() - "nof_ues="@.len() + 6] != "nof_ues="@[6]);
}

proof fn lemma_key_avg_dl_rbs_per_slot()
    ensures
        is_key("avg_dl_rbs_per_slot="@),
        !ends_with("Scheduler slice pci="@, "avg_dl_rbs_per_slot="@),
        !ends_with(" sst="@, "avg_dl_rbs_per_slot="@),
        !ends_with(" sd="@, "avg_dl_rbs_per_slot="@),
        !ends_with(" metrics: nof_ues="@, "avg_dl_rbs_per_slot="@),
        !ends_with(" dl[min_prbs="@, "avg_dl_rbs_per_slot="@),
        !ends_with(" max_prbs="@, "avg_dl_rbs_per_slot="@),
        !ends_with(" ded_prbs="@, "avg_dl_rbs_per_slot="@),
        !ends_with("] ul[min_prbs="@, "avg_dl_rbs_per_slot="@),
        ends_with("] avg_dl_rbs_per_slot="@, "avg_dl_rbs_per_slot="@),
        !ends_with(" avg_ul_rbs_per_slot="@, "avg_dl_rbs_per_slot="@),
        !ends_with(" dl_prb_ratio="@, "avg_dl_rbs_per_slot="@),
        !ends_with("% ul_prb_ratio="@, "avg_dl_rbs_per_slot="@),
{
    reveal_strlit("avg_dl_rbs_per_slot=");
    reveal_strlit("Scheduler slice pci=");
    reveal_strlit(" sst=");
    reveal_strlit(" sd=");
    reveal_strlit(" metrics: nof_ues=");
    reveal_strlit(" dl[min_prbs=");
    reveal_strlit(" max_prbs=");
    reveal_strlit(" ded_prbs=");
    reveal_strlit("] ul[min_prbs=");
    reveal_strlit("] avg_dl_rbs_per_slot=");
    reveal_strlit(" avg_ul_rbs_per_slot=");
    reveal_strlit(" dl_prb_ratio=");
    reveal_strlit("% ul_prb_ratio=");
    assert("Scheduler slice pci="@["Scheduler slice pci="@.len() - "avg_dl_rbs_per_slot="@.len() + 18] != "avg_dl_rbs_per_slot="@[18]);
    assert(" avg_ul_rbs_per_slot="@[" avg_ul_rbs_per_slot="@.len() - "avg_dl_rbs_per_slot="@.len() + 4] != "avg_dl_rbs_per_slot="@[4]);
}

proof fn lemma_key_avg_ul_rbs_per_slot()
    ensures
        is_key("avg_ul_rbs_per_slot="@),
        !ends_with("Scheduler slice pci="@, "avg_ul_rbs_per_slot="@),
        !ends_with(" sst="@, "avg_ul_rbs_per_slot="@),
        !ends_with(" sd="@, "avg_ul_rbs_per_slot="@),
        !ends_with(" metrics: nof_ues="@, "avg_ul_rbs_per_slot="@),
        !ends_with(" dl[min_prbs="@, "avg_ul_rbs_per_slot="@),
        !ends_with(" max_prbs="@, "avg_ul_rbs_per_slot="@),
        !ends_with(" ded_prbs="@, "avg_ul_rbs_per_slot="@),
        !ends_with("] ul[min_prbs="@, "avg_ul_rbs_per_slot="@),
        !ends_with("] avg_dl_rbs_per_slot="@, "avg_ul_rbs_per_slot="@),
        ends_with(" avg_ul_rbs_per_slot="@, "avg_ul_rbs_per_slot="@),
        !ends_with(" dl_prb_ratio="@, "avg_ul_rbs_per_slot="@),
        !ends_with("% ul_prb_ratio="@, "avg_ul_rbs_per_slot="@),
{
    reveal_strlit("avg_ul_rbs_per_slot=");
    reveal_strlit("Scheduler slice pci=");
    reveal_strlit(" sst=");
    reveal_strlit(" sd=");
    reveal_strlit(" metrics: nof_ues=");
    reveal_strlit(" dl[min_prbs=");
    reveal_strlit(" max_prbs=");
    reveal_strlit(" ded_prbs=");
    reveal_strlit("] ul[min_prbs=");
    reveal_strlit("] avg_dl_rbs_per_slot=");
    reveal_strlit(" avg_ul_rbs_per_slot=");
    reveal_strlit(" dl_prb_ratio=");
    reveal_strlit("% ul_prb_ratio=");
    assert("Scheduler slice pci="@["Scheduler slice pci="@.len() - "avg_ul_rbs_per_slot="@.len() + 18] != "avg_ul_rbs_per_slot="@[18]);
    assert("] avg_dl_rbs_per_slot="@["] avg_dl_rbs_per_slot="@.len() - "avg_ul_rbs_per_slot="@.len() + 4] != "avg_ul_rbs_per_slot="@[4]);
}

proof fn lemma_key_dl_prb_ratio()
    ensures
        is_key("dl_prb_ratio="@),
        !ends_with("Scheduler slice pci="@, "dl_prb_ratio="@),
        !ends_with(" sst="@, "dl_prb_ratio="@),
        !ends_with(" sd="@, "dl_prb_ratio="@),
        !ends_with(" metrics: nof_ues="@, "dl_prb_ratio="@),
        !ends_with(" dl[min_prbs="@, "dl_prb_ratio="@),
        !ends_with(" max_prbs="@, "dl_prb_ratio="@),
        !ends_with(" ded_prbs="@, "dl_prb_ratio="@),
        !ends_with("] ul[min_prbs="@, "dl_prb_ratio="@),
        !ends_with("] avg_dl_rbs_per_slot="@, "dl_prb_ratio="@),
        !ends_with(" avg_ul_rbs_per_slot="@, "dl_prb_ratio="@),
        ends_with(" dl_prb_ratio="@, "dl_prb_ratio="@),
        !ends_with("% ul_prb_ratio="@, "dl_prb_ratio="@),
{
    reveal_strlit("dl_prb_ratio=");
    reveal_strlit("Scheduler slice pci=");
    reveal_strlit(" sst=");
    reveal_strlit(" sd=");
    reveal_strlit(" metrics: nof_ues=");
    reveal_strlit(" dl[min_prbs=");
    reveal_strlit(" max_prbs=");
    reveal_strlit(" ded_prbs=");
    reveal_strlit("] ul[min_prbs=");
    reveal_strlit("] avg_dl_rbs_per_slot=");
    reveal_strlit(" avg_ul_rbs_per_slot=");
    reveal_strlit(" dl_prb_ratio=");
    reveal_strlit("% ul_prb_ratio=");
    assert("Scheduler slice pci="@["Scheduler slice pci="@.len() - "dl_prb_ratio="@.len() + 11] != "dl_prb_ratio="@[11]);
    assert(" metrics: nof_ues="@[" metrics: nof_ues="@.len() - "dl_prb_ratio="@.len() + 11] != "dl_prb_ratio="@[11]);
    assert(" dl[min_prbs="@[" dl[min_prbs="@.len() - "dl_prb_ratio="@.len() + 11] != "dl_prb_ratio="@[11]);
    assert("] ul[min_prbs="@["] ul[min_prbs="@.len() - "dl_prb_ratio="@.len() + 11] != "dl_prb_ratio="@[11]);
    assert("] avg_dl_rbs_per_slot="@["] avg_dl_rbs_per_slot="@.len() - "dl_prb_ratio="@.len() + 11] != "dl_prb_ratio="@[11]);
    assert(" avg_ul_rbs_per_slot="@[" avg_ul_rbs_per_slot="@.len() - "dl_prb_ratio="@.len() + 11] != "dl_prb_ratio="@[11]);
    assert("% ul_prb_ratio="@["% ul_prb_ratio="@.len() - "dl_prb_ratio="@.len() + 0] != "dl_prb_ratio="@[0]);
}

proof fn lemma_key_ul_prb_ratio()
    ensures
        is_key("ul_prb_ratio="@),
        !ends_with("Scheduler slice pci="@, "ul_prb_ratio="@),
        !ends_with(" sst="@, "ul_prb_ratio="@),
        !ends_with(" sd="@, "ul_prb_ratio="@),
        !ends_with(" metrics: nof_ues="@, "ul_prb_ratio="@),
        !ends_with(" dl[min_prbs="@, "ul_prb_ratio="@),
        !ends_with(" max_prbs="@, "ul_prb_ratio="@),
        !ends_with(" ded_prbs="@, "ul_prb_ratio="@),
        !ends_with("] ul[min_prbs="@, "ul_prb_ratio="@),
        !ends_with("] avg_dl_rbs_per_slot="@, "ul_prb_ratio="@),
        !ends_with(" avg_ul_rbs_per_slot="@, "ul_prb_ratio="@),
        !ends_with(" dl_prb_ratio="@, "ul_prb_ratio="@),
        ends_with("% ul_prb_ratio="@, "ul_prb_ratio="@),
{
    reveal_strlit("ul_prb_ratio=");
    reveal_strlit("Scheduler slice pci=");
    reveal_strlit(" sst=");
    reveal_strlit(" sd=");
    reveal_strlit(" metrics: nof_ues=");
    reveal_strlit(" dl[min_prbs=");
    reveal_strlit(" max_prbs=");
    reveal_strlit(" ded_prbs=");
    reveal_strlit("] ul[min_prbs=");
    reveal_strlit("] avg_dl_rbs_per_slot=");
    reveal_strlit(" avg_ul_rbs_per_slot=");
    reveal_strlit(" dl_prb_ratio=");
    reveal_strlit("% ul_prb_ratio=");
    assert("Scheduler slice pci="@["Scheduler slice pci="@.len() - "ul_prb_ratio="@.len() + 11] != "ul_prb_ratio="@[11]);
    assert(" metrics: nof_ues="@[" metrics: nof_ues="@.len() - "ul_prb_ratio="@.len() + 11] != "ul_prb_ratio="@[11]);
    assert(" dl[min_prbs="@[" dl[min_prbs="@.len() - "ul_prb_ratio="@.len() + 11] != "ul_prb_ratio="@[11]);
    assert("] ul[min_prbs="@["] ul[min_prbs="@.len() - "ul_prb_ratio="@.len() + 11] != "ul_prb_ratio="@[11]);
    assert("] avg_dl_rbs_per_slot="@["] avg_dl_rbs_per_slot="@.len() - "ul_prb_ratio="@.len() + 11] != "ul_prb_ratio="@[11]);
    assert(" avg_ul_rbs_per_slot="@[" avg_ul_rbs_per_slot="@.len() - "ul_prb_ratio="@.len() + 11] != "ul_prb_ratio="@[11]);
    assert(" dl_prb_ratio="@[" dl_prb_ratio="@.len() - "ul_prb_ratio="@.len() + 0] != "ul_prb_ratio="@[0]);
}

proof fn lemma_key_min_prbs()
    ensures
        is_key("min_prbs="@),
        ends_with("dl[min_prbs="@, "min_prbs="@),
        !ends_with(" max_prbs="@, "min_prbs="@),
        !ends_with(" ded_prbs="@, "min_prbs="@),
{
    reveal_strlit("min_prbs=");
    reveal_strlit("dl[min_prbs=");
    reveal_strlit(" max_prbs=");
    reveal_strlit(" ded_prbs=");
    assert(" max_prbs="@[" max_prbs="@.len() - "min_prbs="@.len() + 2] != "min_prbs="@[2]);
    assert(" ded_prbs="@[" ded_prbs="@.len() - "min_prbs="@.len() + 2] != "min_prbs="@[2]);
}

proof fn lemma_key_max_prbs()
    ensures
        is_key("max_prbs="@),
        !ends_with("dl[min_prbs="@, "max_prbs="@),
        ends_with(" max_prbs="@, "max_prbs="@),
        !ends_with(" ded_prbs="@, "max_prbs="@),
{
    reveal_strlit("max_prbs=");
    reveal_strlit("dl[min_prbs=");
    reveal_strlit(" max_prbs=");
    reveal_strlit(" ded_prbs=");
    assert("dl[min_prbs="@["dl[min_prbs="@.len() - "max_prbs="@.len() + 2] != "max_prbs="@[2]);
    assert(" ded_prbs="@[" ded_prbs="@.len() - "max_prbs="@.len() + 2] != "max_prbs="@[2]);
}

proof fn lemma_key_ded_prbs()
    ensures
        is_key("ded_prbs="@),
        !ends_with("dl[min_prbs="@, "ded_prbs="@),
        !ends_with(" max_prbs="@, "ded_prbs="@),
        ends_with(" ded_prbs="@, "ded_prbs="@),
{
    reveal_strlit("ded_prbs=");
    reveal_strlit("dl[min_prbs=");
    reveal_strlit(" max_prbs=");
    reveal_strlit(" ded_prbs=");
    assert("dl[min_prbs="@["dl[min_prbs="@.len() - "ded_prbs="@.len() + 2] != "ded_prbs="@[2]);
    assert(" max_prbs="@[" max_prbs="@.len() - "ded_prbs="@.len() + 2] != "ded_prbs="@[2]);
}

proof fn lemma_fields_laid(m: MetricView, ul: (nat, nat, nat))
    requires
        writable(m),
    ensures
        well_laid(metric_fields(m, ul)),
{
    let fs = metric_fields(m, ul);
    lemma_labels();
    lemma_written_value(m.pci, 10);
    lemma_written_value(m.sst, 10);
    lemma_written_value(m.nof_ues, 10);
    lemma_written_value(m.dl_min_prbs, 10);
    lemma_written_value(m.dl_max_prbs, 10);
    lemma_written_value(m.dl_ded_prbs, 10);
    lemma_written_value(ul.0, 10);
    lemma_written_value(ul.1, 10);
    lemma_written_value(ul.2, 10);
    lemma_decimal_value(m.avg_dl);
    lemma_decimal_value(m.avg_ul);
    lemma_decimal_value(m.dl_ratio);
    lemma_decimal_value(m.ul_ratio);
    match m.sd {
        Some(n) => {
            lemma_written_value(n as nat, 16);
            reveal_strlit("0x");
            let v = "0x"@ + text::hex(n as nat);
            assert forall|j: int| 0 <= j < v.len() implies CharClass::FieldValue.has(
                #[trigger] v[j],
            ) && v[j] != '=' by {
                if j >= 2 {
                    assert(v[j] == text::hex(n as nat)[j - 2]);
                }
            }
            assert(is_value(v));
        },
        None => {},
    }
}

/// The field of a key in a metrics line.
proof fn lemma_line_field(m: MetricView, ul: (nat, nat, nat), key: Seq<char>, i: int)
    requires
        writable(m),
        is_key(key),
        0 <= i < metric_fields(m, ul).len(),
        forall|k: int| 0 <= k < i ==> !ends_with((#[trigger] metric_fields(m, ul)[k]).0, key),
        ends_with(metric_fields(m, ul)[i].0, key),
    ensures
        slice::field_of(metric_line(m, ul), key) == Some(metric_fields(m, ul)[i].1),
{
    lemma_fields_laid(m, ul);
    lemma_labels();
    lemma_field_of_labelled(metric_fields(m, ul), "%"@, key);
    lemma_first_value(metric_fields(m, ul), key, i);
}

proof fn lemma_numbers(m: MetricView, ul: (nat, nat, nat))
    requires
        writable(m),
    ensures
        slice::field_of(metric_line(m, ul), "pci="@) == Some(text::dec(m.pci)),
        slice::field_of(metric_line(m, ul), "sst="@) == Some(text::dec(m.sst)),
        slice::field_of(metric_line(m, ul), "nof_ues="@) == Some(text::dec(m.nof_ues)),
{
    let off: int = if m.sd is Some {
        1
    } else {
        0
    };
    lemma_key_pci();
    lemma_line_field(m, ul, "pci="@, 0);
    lemma_key_sst();
    lemma_line_field(m, ul, "sst="@, 1);
    lemma_key_nof_ues();
    lemma_line_field(m, ul, "nof_ues="@, 2 + off);
}

proof fn lemma_texts(m: MetricView, ul: (nat, nat, nat))
    requires
        writable(m),
    ensures
        slice::field_of(metric_line(m, ul), "avg_dl_rbs_per_slot="@) == Some(m.avg_dl),
        slice::field_of(metric_line(m, ul), "avg_ul_rbs_per_slot="@) == Some(m.avg_ul),
        slice::field_of(metric_line(m, ul), "dl_prb_ratio="@) == Some(m.dl_ratio),
        slice::field_of(metric_line(m, ul), "ul_prb_ratio="@) == Some(m.ul_ratio),
{
    let off: int = if m.sd is Some {
        1
    } else {
        0
    };
    lemma_key_avg_dl_rbs_per_slot();
    lemma_line_field(m, ul, "avg_dl_rbs_per_slot="@, 9 + off);
    lemma_key_avg_ul_rbs_per_slot();
    lemma_line_field(m, ul, "avg_ul_rbs_per_slot="@, 10 + off);
    lemma_key_dl_prb_ratio();
    lemma_line_field(m, ul, "dl_prb_ratio="@, 11 + off);
    lemma_key_ul_prb_ratio();
    lemma_line_field(m, ul, "ul_prb_ratio="@, 12 + off);
}

proof fn lemma_sd(m: MetricView, ul: (nat, nat, nat))
    requires
        writable(m),
    ensures
        match m.sd {
            Some(n) => slice::field_of(metric_line(m, ul), "sd="@) == Some(
                "0x"@ + text::hex(n as nat),
            ),
            None => slice::field_of(metric_line(m, ul), "sd="@) is None,
        },
{
    lemma_key_sd();
    match m.sd {
        Some(n) => {
            lemma_line_field(m, ul, "sd="@, 2);
        },
        None => {
            let fs = metric_fields(m, ul);
            lemma_fields_laid(m, ul);
            lemma_labels();
            lemma_field_of_labelled(fs, "%"@, "sd="@);
            lemma_first_value(fs, "sd="@, fs.len() as int);
            reveal_strlit("%");
            reveal_strlit("sd=");
        },
    }
}

proof fn lemma_split(
    a: Seq<(Seq<char>, Seq<char>)>,
    b: Seq<(Seq<char>, Seq<char>)>,
    end: Seq<char>,
)
    ensures
        labelled(a + b, end) == labelled(a, Seq::empty()) + labelled(b, end),
    decreases a.len(),
{
    if a.len() == 0 {
        assert(a + b == b);
        assert(labelled(a, Seq::empty()) + labelled(b, end) == labelled(b, end));
    } else {
        lemma_split(a.skip(1), b, end);
        assert((a + b).skip(1) == a.skip(1) + b);
        assert((a + b)[0] == a[0]);
        assert(labelled(a + b, end) == labelled(a, Seq::empty()) + labelled(b, end));
    }
}

proof fn lemma_without(fields: Seq<(Seq<char>, Seq<char>)>, c: char)
    requires
        forall|i: int|
            0 <= i < fields.len() ==> !(#[trigger] fields[i]).0.contains(c) && !fields[i].1.contains(
                c,
            ),
    ensures
        !labelled(fields, Seq::empty()).contains(c),
    decreases fields.len(),
{
    if fields.len() > 0 {
        let rest = fields.skip(1);
        assert forall|i: int| 0 <= i < rest.len() implies !(#[trigger] rest[i]).0.contains(c)
            && !rest[i].1.contains(c) by {
            assert(rest[i] == fields[i + 1]);
        }
        lemma_without(rest, c);
        let s = labelled(fields, Seq::empty());
        let (l, v) = fields[0];
        assert(!fields[0].0.contains(c) && !fields[0].1.contains(c));
        assert forall|k: int| 0 <= k < s.len() implies s[k] != c by {
            if k < l.len() {
                assert(l.contains(l[k]));
            } else if k < l.len() + v.len() {
                assert(v.contains(v[k - l.len()]));
            } else {
                let t = labelled(rest, Seq::empty());
                assert(s[k] == t[k - l.len() - v.len()]);
                assert(t.contains(t[k - l.len() - v.len()]));
            }
        }
    }
}

/// The labels and values of the bracketed downlink group.
pub open spec fn group_fields(m: MetricView) -> Seq<(Seq<char>, Seq<char>)> {
    seq![
        ("dl[min_prbs="@, text::dec(m.dl_min_prbs)),
        (" max_prbs="@, text::dec(m.dl_max_prbs)),
        (" ded_prbs="@, text::dec(m.dl_ded_prbs)),
    ]
}

/// What stands before the downlink group holds no bracket.
proof fn lemma_head(m: MetricView)
    ensures
        !labelled(
            seq![("Scheduler slice pci="@, text::dec(m.pci)), (" sst="@, text::dec(m.sst))]
                + sd_field(m.sd) + seq![(" metrics: nof_ues="@, text::dec(m.nof_ues))],
            Seq::empty(),
        ).contains('['),
{
    let a = seq![("Scheduler slice pci="@, text::dec(m.pci)), (" sst="@, text::dec(m.sst))]
        + sd_field(m.sd) + seq![(" metrics: nof_ues="@, text::dec(m.nof_ues))];
    reveal_strlit("Scheduler slice pci=");
    reveal_strlit(" sst=");
    reveal_strlit(" sd=");
    reveal_strlit(" metrics: nof_ues=");
    lemma_written_value(m.pci, 10);
    lemma_written_value(m.sst, 10);
    lemma_written_value(m.nof_ues, 10);
    match m.sd {
        Some(n) => {
            lemma_written_value(n as nat, 16);
            reveal_strlit("0x");
            let v = "0x"@ + text::hex(n as nat);
            assert forall|j: int| 0 <= j < v.len() implies v[j] != '[' by {
                if j >= 2 {
                    assert(v[j] == text::hex(n as nat)[j - 2]);
                }
            }
        },
        None => {},
    }
    lemma_without(a, '[');
}

/// The downlink group as it stands in a line, and as it is cut out of it.
proof fn lemma_group_text(m: MetricView)
    ensures
        ({
            let mid = labelled(
                seq![
                    (" dl[min_prbs="@, text::dec(m.dl_min_prbs)),
                    (" max_prbs="@, text::dec(m.dl_max_prbs)),
                    (" ded_prbs="@, text::dec(m.dl_ded_prbs)),
                ],
                Seq::empty(),
            );
            &&& mid.len() > 4
            &&& mid[0] == ' ' && mid[1] == 'd' && mid[2] == 'l' && mid[3] == '['
            &&& !mid.contains(']')
            &&& labelled(group_fields(m), "]"@) == mid.skip(1) + seq![']']
        }),
{
    let d1 = text::dec(m.dl_min_prbs);
    let d2 = text::dec(m.dl_max_prbs);
    let d3 = text::dec(m.dl_ded_prbs);
    let g = seq![(" dl[min_prbs="@, d1), (" max_prbs="@, d2), (" ded_prbs="@, d3)];
    let h = group_fields(m);
    let rest = g.skip(1);
    assert(rest =~= h.skip(1));
    assert(labelled(g, Seq::empty()) == g[0].0 + g[0].1 + labelled(rest, Seq::empty()));
    assert(labelled(h, "]"@) == h[0].0 + h[0].1 + labelled(rest, "]"@));
    lemma_split(rest, Seq::empty(), "]"@);
    assert(rest + Seq::<(Seq<char>, Seq<char>)>::empty() =~= rest);
    let x = labelled(rest, Seq::empty());
    reveal_strlit(" dl[min_prbs=");
    reveal_strlit("dl[min_prbs=");
    reveal_strlit(" max_prbs=");
    reveal_strlit(" ded_prbs=");
    reveal_strlit("]");
    let mid = labelled(g, Seq::empty());
    assert(mid == " dl[min_prbs="@ + d1 + x);
    assert(" dl[min_prbs="@.skip(1) =~= "dl[min_prbs="@);
    assert("]"@ =~= seq![']']);
    assert(mid.skip(1) + seq![']'] =~= "dl[min_prbs="@ + d1 + (x + "]"@));
    lemma_written_value(m.dl_min_prbs, 10);
    lemma_written_value(m.dl_max_prbs, 10);
    lemma_written_value(m.dl_ded_prbs, 10);
    lemma_without(g, ']');
}

/// The first bracketed group that starts with `dl[` is found.
proof fn lemma_find_group(flat: Seq<char>, mid: Seq<char>, z: Seq<char>)
    requires
        !flat.contains('['),
        mid.len() > 4,
        mid[0] == ' ' && mid[1] == 'd' && mid[2] == 'l' && mid[3] == '[',
        !mid.contains(']'),
        z.len() > 0 && z[0] == ']',
    ensures
        slice::dl_group(flat + (mid + z)) == mid.skip(1) + seq![']'],
{
    let s = flat + (mid + z);
    reveal_strlit("]");
    reveal_strlit("dl[");
    let i: int = flat.len() as int + 1;
    assert forall|k: int| 0 <= k < i implies !text::occurs_at(s, "dl["@, k) by {
        if text::occurs_at(s, "dl["@, k) {
            assert(s.subrange(k, k + 3)[2] == s[k + 2]);
            if k + 2 < flat.len() {
                assert(flat.contains(flat[k + 2]));
            } else {
                assert(s[k + 2] == mid[k + 2 - flat.len()]);
            }
        }
    }
    assert(text::occurs_at(s, "dl["@, i)) by {
        assert(s[i] == mid[1] && s[i + 1] == mid[2] && s[i + 2] == mid[3]);
        assert(s.subrange(i, i + 3) =~= "dl["@);
    }
    text::lemma_find_is(s, "dl["@, 0, i);
    let j: int = flat.len() as int + mid.len() as int;
    assert forall|k: int| i <= k < j implies !text::occurs_at(s, "]"@, k) by {
        if text::occurs_at(s, "]"@, k) {
            assert(s.subrange(k, k + 1)[0] == s[k]);
            assert(mid.contains(mid[k - flat.len()]));
        }
    }
    assert(text::occurs_at(s, "]"@, j)) by {
        assert(s[j] == z[0]);
        assert(s.subrange(j, j + 1) =~= "]"@);
    }
    text::lemma_find_is(s, "]"@, i, j);
    assert(s.subrange(i, j + 1) =~= mid.skip(1) + seq![']']);
}

proof fn lemma_group(m: MetricView, ul: (nat, nat, nat))
    requires
        writable(m),
    ensures
        slice::dl_group(metric_line(m, ul)) == labelled(group_fields(m), "]"@),
{
    let a = seq![("Scheduler slice pci="@, text::dec(m.pci)), (" sst="@, text::dec(m.sst))]
        + sd_field(m.sd) + seq![(" metrics: nof_ues="@, text::dec(m.nof_ues))];
    let g = seq![
        (" dl[min_prbs="@, text::dec(m.dl_min_prbs)),
        (" max_prbs="@, text::dec(m.dl_max_prbs)),
        (" ded_prbs="@, text::dec(m.dl_ded_prbs)),
    ];
    let c = seq![
        ("] ul[min_prbs="@, text::dec(ul.0)),
        (" max_prbs="@, text::dec(ul.1)),
        (" ded_prbs="@, text::dec(ul.2)),
        ("] avg_dl_rbs_per_slot="@, m.avg_dl),
        (" avg_ul_rbs_per_slot="@, m.avg_ul),
        (" dl_prb_ratio="@, m.dl_ratio),
        ("% ul_prb_ratio="@, m.ul_ratio),
    ];
    assert(metric_fields(m, ul) =~= a + (g + c));
    lemma_split(a, g + c, "%"@);
    lemma_split(g, c, "%"@);
    lemma_head(m);
    lemma_group_text(m);
    let z = labelled(c, "%"@);
    reveal_strlit("] ul[min_prbs=");
    assert(z == c[0].0 + c[0].1 + labelled(c.skip(1), "%"@));
    lemma_find_group(labelled(a, Seq::empty()), labelled(g, Seq::empty()), z);
}

proof fn lemma_group_fields(m: MetricView, ul: (nat, nat, nat))
    requires
        writable(m),
    ensures
        slice::field_of(slice::dl_group(metric_line(m, ul)), "min_prbs="@) == Some(
            text::dec(m.dl_min_prbs),
        ),
        slice::field_of(slice::dl_group(metric_line(m, ul)), "max_prbs="@) == Some(
            text::dec(m.dl_max_prbs),
        ),
        slice::field_of(slice::dl_group(metric_line(m, ul)), "ded_prbs="@) == Some(
            text::dec(m.dl_ded_prbs),
        ),
{
    lemma_group(m, ul);
    lemma_labels();
    lemma_written_value(m.dl_min_prbs, 10);
    lemma_written_value(m.dl_max_prbs, 10);
    lemma_written_value(m.dl_ded_prbs, 10);
    let h = group_fields(m);
    lemma_key_min_prbs();
    lemma_field_of_labelled(h, "]"@, "min_prbs="@);
    lemma_first_value(h, "min_prbs="@, 0);
    lemma_key_max_prbs();
    lemma_field_of_labelled(h, "]"@, "max_prbs="@);
    lemma_first_value(h, "max_prbs="@, 1);
    lemma_key_ded_prbs();
    lemma_field_of_labelled(h, "]"@, "ded_prbs="@);
    lemma_first_value(h, "ded_prbs="@, 2);
}

/// A metrics line as the DU writes it is read back, whatever log prefix without another such
/// line stands before it and whatever the uplink limits are.
pub proof fn law_metric_line_read_back(prefix: Seq<char>, m: MetricView, ul: (nat, nat, nat))
    requires
        writable(m),
        text::find_from(prefix + "Scheduler slice "@, "Scheduler slice "@, 0) == Some(
            prefix.len() as int,
        ),
    ensures
        slice::metric_of_line(prefix + metric_line(m, ul)) == Some(m),
{
    let marker = "Scheduler slice "@;
    let body = metric_line(m, ul);
    let line = prefix + body;
    assert(body.len() >= marker.len() && body.take(marker.len() as int) =~= marker) by {
        reveal_strlit("Scheduler slice ");
        reveal_strlit("Scheduler slice pci=");
        assert(metric_fields(m, ul)[0].0 == "Scheduler slice pci="@);
    }
    let head = prefix + marker;
    text::lemma_find_from(head, marker, 0);
    assert forall|k: int| 0 <= k < prefix.len() implies !text::occurs_at(line, marker, k) by {
        assert(!text::occurs_at(head, marker, k));
        assert forall|x: int| 0 <= x < head.len() implies line[x] == head[x] by {
            if x >= prefix.len() {
                assert(head[x] == body.take(marker.len() as int)[x - prefix.len()]);
            }
        }
        assert(line.subrange(k, k + marker.len()) =~= head.subrange(k, k + marker.len()));
    }
    assert(text::occurs_at(line, marker, prefix.len() as int)) by {
        assert(line.subrange(prefix.len() as int, (prefix.len() + marker.len()) as int)
            =~= body.take(marker.len() as int));
    }
    text::lemma_find_is(line, marker, 0, prefix.len() as int);
    assert(line.skip(prefix.len() as int) =~= body);
    lemma_numbers(m, ul);
    lemma_texts(m, ul);
    lemma_sd(m, ul);
    lemma_group_fields(m, ul);
    text::law_number_of_dec(m.pci, u16::MAX as nat);
    text::law_number_of_dec(m.sst, u8::MAX as nat);
    text::law_number_of_dec(m.nof_ues, u32::MAX as nat);
    text::law_number_of_dec(m.dl_min_prbs, u32::MAX as nat);
    text::law_number_of_dec(m.dl_max_prbs, u32::MAX as nat);
    text::law_number_of_dec(m.dl_ded_prbs, u32::MAX as nat);
    match m.sd {
        Some(n) => {
            slice::law_sd_spellings_agree(n);
        },
        None => {},
    }
    assert(slice::metric_of_body(body)->0 =~= m);
}

} // verus!
