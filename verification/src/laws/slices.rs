//! What is told of slices, and what is read of them.

use vstd::prelude::*;

use crate::reading;
use crate::slice;
use crate::slice::{SliceId, SliceMapEntry};
use crate::text;

verus! {

proof fn lemma_number_behind_word(word: Seq<char>, n: nat, m: nat)
    requires
        word + text::dec(n) == word + text::dec(m),
    ensures
        n == m,
{
    let s = word + text::dec(n);
    let t = word + text::dec(m);
    assert(s.len() == t.len());
    assert(text::dec(n) =~= s.skip(word.len() as int));
    assert(text::dec(m) =~= t.skip(word.len() as int));
    text::law_dec_injective(n, m);
}

spec fn label_parts(id: SliceId) -> Seq<Seq<char>> {
    match id.sd {
        Some(sd) => seq!["S"@ + text::dec(id.sst as nat), "sd"@ + text::dec(sd as nat)],
        None => seq!["S"@ + text::dec(id.sst as nat)],
    }
}

proof fn lemma_word_lacks_slash(word: Seq<char>, n: nat)
    requires
        reading::lacks(word, '/'),
    ensures
        reading::lacks(word + text::dec(n), '/'),
{
    reading::lemma_digits(n);
    let d = text::dec(n);
    let s = word + d;
    assert forall|i: int| 0 <= i < s.len() implies #[trigger] s[i] != '/' by {
        if i >= word.len() {
            assert(s[i] == d[i - word.len()]);
        } else {
            assert(s[i] == word[i]);
        }
    }
}

#[verifier::spinoff_prover]
#[verifier::rlimit(50)]
proof fn lemma_label_split(id: SliceId)
    ensures
        reading::split(slice::slice_label(id), '/') == label_parts(id),
{
    reveal_strlit("S");
    reveal_strlit("sd");
    reveal_strlit("/sd");
    let a = "S"@ + text::dec(id.sst as nat);
    lemma_word_lacks_slash("S"@, id.sst as nat);
    reading::lemma_split_plain(a, '/');
    match id.sd {
        Some(sd) => {
            let b = "sd"@ + text::dec(sd as nat);
            lemma_word_lacks_slash("sd"@, sd as nat);
            reading::lemma_split_behind(a, b, '/');
            assert(slice::slice_label(id) =~= a + seq!['/'] + b);
            assert(reading::split(a + seq!['/'] + b, '/') =~= seq![a, b]);
        },
        None => {
            assert(reading::split(a, '/') =~= seq![a]);
        },
    }
}

/// Different slices have different labels.
pub proof fn law_labels_tell_slices_apart(a: SliceId, b: SliceId)
    requires
        slice::slice_label(a) == slice::slice_label(b),
    ensures
        a == b,
{
    lemma_label_split(a);
    lemma_label_split(b);
    let x = label_parts(a);
    let y = label_parts(b);
    assert(x.len() == y.len());
    assert(x[0] == y[0]);
    lemma_number_behind_word("S"@, a.sst as nat, b.sst as nat);
    match (a.sd, b.sd) {
        (Some(m), Some(n)) => {
            assert(x[1] == y[1]);
            lemma_number_behind_word("sd"@, m as nat, n as nat);
        },
        _ => {},
    }
}

/// A slice's label starts with its type.
pub proof fn law_label_names_slice(id: SliceId)
    ensures
        text::starts_with(slice::slice_label(id), "S"@ + text::dec(id.sst as nat)),
        match id.sd {
            Some(sd) => {
                let parts = reading::split(slice::slice_label(id), '/');
                parts.len() == 2 && parts[1] == "sd"@ + text::dec(sd as nat)
            },
            None => reading::split(slice::slice_label(id), '/').len() == 1,
        },
{
    lemma_label_split(id);
    let a = "S"@ + text::dec(id.sst as nat);
    assert(slice::slice_label(id).subrange(0, a.len() as int) =~= a);
}

/// The standardised services have names of their own.
pub proof fn law_services_have_names(a: u8, b: u8)
    requires
        1 <= a <= 4,
        slice::service_name(a) == slice::service_name(b),
    ensures
        a == b,
{
    lemma_service_name(a);
    lemma_service_name(b);
}

proof fn lemma_service_name(a: u8)
    ensures
        ({
            let s = slice::service_name(a);
            &&& a == 1 ==> s.len() == 4 && s[0] == 'e'
            &&& a == 2 ==> s.len() == 5 && s[0] == 'U'
            &&& a == 3 ==> s.len() == 4 && s[0] == 'm'
            &&& a == 4 ==> s.len() == 3
            &&& a < 1 || a > 4 ==> s.len() == 5 && s[0] == 's'
        }),
{
    reveal_strlit("eMBB");
    reveal_strlit("URLLC");
    reveal_strlit("mMTC");
    reveal_strlit("V2X");
    reveal_strlit("slice");
}

/// A slice map holds, for every UE, the last entry under its number, and no other UE.
pub proof fn law_slice_map_keeps_last(entries: Seq<(String, SliceMapEntry)>, i: int, id: usize)
    requires
        0 <= i < entries.len(),
        text::number(entries[i].0@, 10, usize::MAX as nat) == Some(id as nat),
        forall|j: int|
            i < j < entries.len() ==> text::number(
                (#[trigger] entries[j]).0@,
                10,
                usize::MAX as nat,
            ) != Some(id as nat),
    ensures
        slice::slice_map_of(entries).dom().contains(id),
        slice::slice_map_of(entries)[id] == entries[i].1,
    decreases entries.len(),
{
    if i < entries.len() - 1 {
        let rest = entries.drop_last();
        assert(rest[i] == entries[i]);
        assert forall|j: int| i < j < rest.len() implies text::number(
            (#[trigger] rest[j]).0@,
            10,
            usize::MAX as nat,
        ) != Some(id as nat) by {
            assert(rest[j] == entries[j]);
        }
        law_slice_map_keeps_last(rest, i, id);
        assert(text::number(entries[entries.len() - 1].0@, 10, usize::MAX as nat) != Some(
            id as nat,
        ));
    }
}

/// A UE that no entry numbers is in no slice.
pub proof fn law_slice_map_has_no_other(entries: Seq<(String, SliceMapEntry)>, id: usize)
    requires
        forall|j: int|
            0 <= j < entries.len() ==> text::number(
                (#[trigger] entries[j]).0@,
                10,
                usize::MAX as nat,
            ) != Some(id as nat),
    ensures
        !slice::slice_map_of(entries).dom().contains(id),
    decreases entries.len(),
{
    if entries.len() > 0 {
        let rest = entries.drop_last();
        assert forall|j: int| 0 <= j < rest.len() implies text::number(
            (#[trigger] rest[j]).0@,
            10,
            usize::MAX as nat,
        ) != Some(id as nat) by {
            assert(rest[j] == entries[j]);
        }
        law_slice_map_has_no_other(rest, id);
        assert(text::number(entries[entries.len() - 1].0@, 10, usize::MAX as nat) != Some(
            id as nat,
        ));
    }
}

/// Of the lines about a slice the last one counts.
pub proof fn law_latest_metric(lines: Seq<Seq<char>>, i: int, m: slice::MetricView)
    requires
        0 <= i < lines.len(),
        slice::metric_of_line(lines[i]) == Some(m),
        forall|j: int|
            i < j < lines.len() ==> match slice::metric_of_line(#[trigger] lines[j]) {
                Some(o) => o.slice() != m.slice(),
                None => true,
            },
    ensures
        slice::latest_metrics(lines).dom().contains(m.slice()),
        slice::latest_metrics(lines)[m.slice()] == m,
    decreases lines.len(),
{
    if i < lines.len() - 1 {
        let rest = lines.drop_last();
        assert(rest[i] == lines[i]);
        assert forall|j: int| i < j < rest.len() implies match slice::metric_of_line(
            #[trigger] rest[j],
        ) {
            Some(o) => o.slice() != m.slice(),
            None => true,
        } by {
            assert(rest[j] == lines[j]);
        }
        law_latest_metric(rest, i, m);
        assert(match slice::metric_of_line(lines[lines.len() - 1]) {
            Some(o) => o.slice() != m.slice(),
            None => true,
        });
    }
}

/// A log is looked for where the override says first, then below the source tree, and last in the
/// working directory.
#[verifier::spinoff_prover]
#[verifier::rlimit(50)]
pub proof fn law_candidates_in_order(
    over: Seq<char>,
    tree: Seq<char>,
    places: (Seq<char>, Seq<char>, Seq<char>),
    plain: Seq<char>,
)
    requires
        over.len() > 0,
        tree.len() > 0,
    ensures
        slice::candidates(Some(over), Some(tree), places, plain)[0] == over,
        slice::candidates(Some(over), Some(tree), places, plain).len() == 5,
        slice::candidates(Some(over), Some(tree), places, plain).last() == plain,
        forall|k: int|
            1 <= k < 4 ==> text::starts_with(
                #[trigger] slice::candidates(Some(over), Some(tree), places, plain)[k],
                tree,
            ),
        slice::candidates(None, Some(tree), places, plain) == slice::candidates(
            Some(over),
            Some(tree),
            places,
            plain,
        ).skip(1),
        slice::candidates(None, None, places, plain) == seq![plain],
{
    let c = slice::candidates(Some(over), Some(tree), places, plain);
    assert(c =~= seq![over, tree + places.0, tree + places.1, tree + places.2, plain]);
    assert((tree + places.0).subrange(0, tree.len() as int) =~= tree);
    assert((tree + places.1).subrange(0, tree.len() as int) =~= tree);
    assert((tree + places.2).subrange(0, tree.len() as int) =~= tree);
    assert(slice::candidates(None, Some(tree), places, plain) =~= c.skip(1));
    assert(slice::candidates(None, None, places, plain) =~= seq![plain]);
}

/// The slices are listed by their type, and within a type by their differentiator, those without
/// one last.
pub proof fn law_slices_in_order(
    v: Seq<SliceId>,
    ids: Seq<usize>,
    map: Map<usize, SliceMapEntry>,
    i: int,
    j: int,
)
    requires
        slice::lists_slices(v, ids, map),
        0 <= i < j < v.len(),
    ensures
        v[i].sst <= v[j].sst,
        v[i].sst == v[j].sst ==> match (v[i].sd, v[j].sd) {
            (Some(a), Some(b)) => a <= b,
            (Some(_), None) => true,
            (None, Some(b)) => b == u32::MAX,
            (None, None) => false,
        },
{
    assert(slice::shown_before(ids, map, v[i], v[j]));
    slice::law_listed_slices_have_members(v, ids, map, v[i]);
    assert(v[i] != v[j]);
}

/// A share of the resources is added up over all slices, and counts whatever place a slice has.
pub proof fn law_ratios_add_up(a: Seq<u32>, b: Seq<u32>, x: u32)
    ensures
        slice::sum_of(a + b) == slice::sum_of(a) + slice::sum_of(b),
        slice::sum_of(seq![x]) == x,
    decreases b.len(),
{
    if b.len() > 0 {
        law_ratios_add_up(a, b.drop_last(), x);
        assert((a + b).drop_last() =~= a + b.drop_last());
    } else {
        assert(a + b =~= a);
    }
    assert(seq![x].drop_last() =~= Seq::<u32>::empty());
    assert(slice::sum_of(seq![x].drop_last()) == 0);
}

/// Slices that fit still fit when one is left out, and those that take up all of the resources fit
/// with no other that takes any.
pub proof fn law_fitting_ratios(min: Seq<u32>, ded: Seq<u32>, a: u32, b: u32)
    ensures
        slice::ratios_fit(min.push(a), ded.push(b)) ==> slice::ratios_fit(min, ded),
        slice::sum_of(min) == 100 && slice::sum_of(ded) <= 100 ==> slice::ratios_fit(min, ded) && (
        slice::ratios_fit(min.push(a), ded) <==> a == 0),
        slice::sum_of(ded) == 100 && slice::sum_of(min) <= 100 ==> slice::ratios_fit(min, ded) && (
        slice::ratios_fit(min, ded.push(b)) <==> b == 0),
{
    assert(min.push(a).drop_last() =~= min);
    assert(ded.push(b).drop_last() =~= ded);
}

/// The log that is taken was written to last of all that can be read.
pub proof fn law_newest_log_is_taken(files: Seq<slice::LogFile>, p: Seq<char>, j: int)
    requires
        slice::newest_path(files, Some(p)),
        0 <= j < files.len(),
        files[j].is_file,
        files[j].len > 0,
        files[j].modified is Some,
    ensures
        exists|i: int|
            0 <= i < files.len() && (#[trigger] files[i]).path@ == p && files[i].is_file
                && files[i].len > 0 && files[i].modified is Some && files[i].modified->0
                >= files[j].modified->0,
{
    let i = choose|i: int| slice::is_newest(files, i) && p == (#[trigger] files[i]).path@;
    assert(files[j].usable());
    assert(files[i].path@ == p);
}

/// No log is taken only where none can be read.
pub proof fn law_some_log_is_taken(files: Seq<slice::LogFile>, j: int)
    requires
        slice::newest_path(files, None),
        0 <= j < files.len(),
    ensures
        !files[j].is_file || files[j].len == 0 || files[j].modified is None,
{
    assert(!files[j].usable());
}

/// Of the last four thousand lines of a log, the last one about a slice counts.
pub proof fn law_recent_metric(content: Seq<char>, i: int, m: slice::MetricView)
    requires
        0 <= i < text::lines_of(content).len(),
        i >= text::lines_of(content).len() - 4000,
        slice::metric_of_line(text::lines_of(content)[i]) == Some(m),
        forall|j: int|
            i < j < text::lines_of(content).len() ==> match slice::metric_of_line(
                #[trigger] text::lines_of(content)[j],
            ) {
                Some(o) => o.slice() != m.slice(),
                None => true,
            },
    ensures
        slice::metrics_in(content).dom().contains(m.slice()),
        slice::metrics_in(content)[m.slice()] == m,
{
    let lines = text::lines_of(content);
    let t = slice::tail(lines, 4000);
    let at = i - (lines.len() - t.len());
    assert(t[at] == lines[i]);
    assert forall|j: int| at < j < t.len() implies match slice::metric_of_line(#[trigger] t[j]) {
        Some(o) => o.slice() != m.slice(),
        None => true,
    } by {
        assert(t[j] == lines[lines.len() - t.len() + j]);
    }
    law_latest_metric(t, at, m);
}

/// A slice that none of the last four thousand lines is about has no metric.
pub proof fn law_old_metrics_are_left_out(content: Seq<char>, id: SliceId)
    requires
        forall|j: int|
            0 <= j < text::lines_of(content).len() && j >= text::lines_of(content).len() - 4000
                ==> match slice::metric_of_line(#[trigger] text::lines_of(content)[j]) {
                Some(o) => o.slice() != id,
                None => true,
            },
    ensures
        !slice::metrics_in(content).dom().contains(id),
{
    let lines = text::lines_of(content);
    let t = slice::tail(lines, 4000);
    assert forall|j: int| 0 <= j < t.len() implies match slice::metric_of_line(#[trigger] t[j]) {
        Some(o) => o.slice() != id,
        None => true,
    } by {
        assert(t[j] == lines[lines.len() - t.len() + j]);
    }
    lemma_no_metric(t, id);
}

proof fn lemma_no_metric(lines: Seq<Seq<char>>, id: SliceId)
    requires
        forall|j: int|
            0 <= j < lines.len() ==> match slice::metric_of_line(#[trigger] lines[j]) {
                Some(o) => o.slice() != id,
                None => true,
            },
    ensures
        !slice::latest_metrics(lines).dom().contains(id),
    decreases lines.len(),
{
    if lines.len() > 0 {
        let rest = lines.drop_last();
        assert forall|j: int| 0 <= j < rest.len() implies match slice::metric_of_line(
            #[trigger] rest[j],
        ) {
            Some(o) => o.slice() != id,
            None => true,
        } by {
            assert(rest[j] == lines[j]);
        }
        lemma_no_metric(rest, id);
        assert(match slice::metric_of_line(lines[lines.len() - 1]) {
            Some(o) => o.slice() != id,
            None => true,
        });
    }
}

} // verus!
