//! What the page of the plan hands over to the launch script, and what its keys do.

use vstd::prelude::*;

use crate::configure;
use crate::configure::{ConfigureView, Field, RowView};
use crate::keys::Key;
use crate::order;
use crate::reading;
use crate::slice;
use crate::slice::{SliceId, SliceMapEntry, UeHealth};
use crate::text;

verus! {

// ---------------------------------------------------------------------------
// Lists
// ---------------------------------------------------------------------------

proof fn lemma_joined_unbroken(parts: Seq<Seq<char>>, n: int)
    requires
        0 <= n <= parts.len(),
        forall|i: int| 0 <= i < parts.len() ==> reading::unbroken(#[trigger] parts[i]),
    ensures
        reading::unbroken(text::joined_upto(parts, ","@, n)),
    decreases n,
{
    reveal_strlit(",");
    if n > 1 {
        lemma_joined_unbroken(parts, n - 1);
        let a = text::joined_upto(parts, ","@, n - 1);
        let b = parts[n - 1];
        let t = text::joined_upto(parts, ","@, n);
        assert(t == a + ","@ + b);
        assert forall|k: int| 0 <= k < t.len() implies !text::is_white(#[trigger] t[k]) by {
            if k < a.len() {
                assert(t[k] == a[k]);
            } else if k > a.len() {
                assert(t[k] == b[k - a.len() - 1]);
            }
        }
    }
}

proof fn lemma_joined_lacks(parts: Seq<Seq<char>>, n: int, c: char)
    requires
        0 <= n <= parts.len(),
        c != ',',
        forall|i: int| 0 <= i < parts.len() ==> reading::lacks(#[trigger] parts[i], c),
    ensures
        reading::lacks(text::joined_upto(parts, ","@, n), c),
    decreases n,
{
    reveal_strlit(",");
    if n > 1 {
        lemma_joined_lacks(parts, n - 1, c);
        let a = text::joined_upto(parts, ","@, n - 1);
        let b = parts[n - 1];
        let t = text::joined_upto(parts, ","@, n);
        assert(t == a + ","@ + b);
        assert forall|k: int| 0 <= k < t.len() implies #[trigger] t[k] != c by {
            if k < a.len() {
                assert(t[k] == a[k]);
            } else if k > a.len() {
                assert(t[k] == b[k - a.len() - 1]);
            }
        }
    }
}

/// Digits only, or nothing.
spec fn digits(s: Seq<char>) -> bool {
    forall|i: int| 0 <= i < s.len() ==> text::is_digit(#[trigger] s[i])
}

proof fn lemma_digit_list(parts: Seq<Seq<char>>)
    requires
        parts.len() > 0,
        forall|i: int| 0 <= i < parts.len() ==> digits(#[trigger] parts[i]),
    ensures
        reading::unbroken(text::joined(parts, ","@)),
        reading::lacks(text::joined(parts, ","@), '='),
        reading::lacks(text::joined(parts, ","@), 'D'),
        reading::split(text::joined(parts, ","@), ',') == parts,
{
    assert forall|i: int| 0 <= i < parts.len() implies reading::unbroken(#[trigger] parts[i])
        && reading::lacks(parts[i], '=') && reading::lacks(parts[i], 'D') && reading::lacks(
        parts[i],
        ',',
    ) by {
        assert(digits(parts[i]));
    }
    let n = parts.len() as int;
    lemma_joined_unbroken(parts, n);
    lemma_joined_lacks(parts, n, '=');
    lemma_joined_lacks(parts, n, 'D');
    reading::lemma_split_joined(parts, n);
    assert(parts.take(n) =~= parts);
}

proof fn lemma_sst_list(rows: Seq<RowView>)
    requires
        rows.len() > 0,
    ensures
        ({
            let list = text::joined(configure::sst_texts(rows), ","@);
            &&& reading::unbroken(list)
            &&& reading::lacks(list, '=')
            &&& reading::lacks(list, 'D')
            &&& reading::split(list, ',') == configure::sst_texts(rows)
        }),
{
    let parts = configure::sst_texts(rows);
    assert forall|i: int| 0 <= i < parts.len() implies digits(#[trigger] parts[i]) by {
        reading::lemma_digits(rows[i].sst as nat);
    }
    lemma_digit_list(parts);
}

proof fn lemma_sd_list(rows: Seq<RowView>)
    requires
        rows.len() > 0,
    ensures
        ({
            let list = text::joined(configure::sd_texts(rows), ","@);
            &&& reading::unbroken(list)
            &&& reading::lacks(list, '=')
            &&& reading::lacks(list, 'D')
            &&& reading::split(list, ',') == configure::sd_texts(rows)
        }),
{
    let parts = configure::sd_texts(rows);
    assert forall|i: int| 0 <= i < parts.len() implies digits(#[trigger] parts[i]) by {
        match rows[i].sd {
            Some(n) => {
                reading::lemma_digits(n as nat);
            },
            None => {},
        }
    }
    lemma_digit_list(parts);
}

proof fn lemma_cell_list(rows: Seq<RowView>)
    requires
        rows.len() > 0,
    ensures
        ({
            let list = text::joined(configure::cell_texts(rows), ","@);
            &&& reading::unbroken(list)
            &&& reading::split(list, ',') == configure::cell_texts(rows)
        }),
{
    let parts = configure::cell_texts(rows);
    assert forall|i: int| 0 <= i < parts.len() implies digits(#[trigger] parts[i]) by {
        reading::lemma_digits(rows[i].cell as nat);
    }
    lemma_digit_list(parts);
}

/// The names of the data networks can stand in a list on a command line.
pub open spec fn plain_networks(rows: Seq<RowView>) -> bool {
    forall|i: int|
        0 <= i < rows.len() ==> {
            &&& reading::unbroken((#[trigger] rows[i]).dnn)
            &&& reading::lacks(rows[i].dnn, ',')
            &&& reading::lacks(rows[i].dnn, '=')
        }
}

proof fn lemma_dnn_list(rows: Seq<RowView>)
    requires
        rows.len() > 0,
        plain_networks(rows),
    ensures
        ({
            let list = text::joined(configure::dnn_texts(rows), ","@);
            &&& reading::unbroken(list)
            &&& reading::lacks(list, '=')
            &&& reading::split(list, ',') == configure::dnn_texts(rows)
        }),
{
    let parts = configure::dnn_texts(rows);
    let n = parts.len() as int;
    assert forall|i: int| 0 <= i < parts.len() implies reading::unbroken(#[trigger] parts[i])
        && reading::lacks(parts[i], '=') && reading::lacks(parts[i], ',') by {
        assert(parts[i] == rows[i].dnn);
    }
    lemma_joined_unbroken(parts, n);
    lemma_joined_lacks(parts, n, '=');
    reading::lemma_split_joined(parts, n);
    assert(parts.take(n) =~= parts);
}

// ---------------------------------------------------------------------------
// The launch command
// ---------------------------------------------------------------------------

/// A command of four lists and what follows them.
spec fn shape(a: Seq<char>, b: Seq<char>, c: Seq<char>, d: Seq<char>, t: Seq<char>) -> Seq<char> {
    "SST_LIST="@ + a + " SD_LIST="@ + b + " DNN_LIST="@ + c + " UE_CELL="@ + d + t
}

spec fn tail_of(rows: Seq<RowView>, scripts: Seq<char>) -> Seq<char> {
    " N_RB=106"@ + configure::cell_settings(order::in_order(configure::extra_cells(rows)))
        + " bash "@ + scripts + "/run_nue.sh "@ + text::dec(rows.len())
}

#[verifier::spinoff_prover]
#[verifier::rlimit(50)]
proof fn lemma_shape_of_command(rows: Seq<RowView>, scripts: Seq<char>)
    ensures
        configure::launch_command(rows, scripts) == shape(
            text::joined(configure::sst_texts(rows), ","@),
            text::joined(configure::sd_texts(rows), ","@),
            text::joined(configure::dnn_texts(rows), ","@),
            text::joined(configure::cell_texts(rows), ","@),
            tail_of(rows, scripts),
        ),
        tail_of(rows, scripts).len() > 0,
        tail_of(rows, scripts)[0] == ' ',
{
    reveal_strlit(" N_RB=106");
    let a = text::joined(configure::sst_texts(rows), ","@);
    let b = text::joined(configure::sd_texts(rows), ","@);
    let c = text::joined(configure::dnn_texts(rows), ","@);
    let d = text::joined(configure::cell_texts(rows), ","@);
    assert(configure::launch_command(rows, scripts) =~= shape(a, b, c, d, tail_of(rows, scripts)));
}

#[verifier::spinoff_prover]
#[verifier::rlimit(50)]
proof fn lemma_shape_sst(a: Seq<char>, b: Seq<char>, c: Seq<char>, d: Seq<char>, t: Seq<char>)
    requires
        reading::unbroken(a),
    ensures
        reading::setting(shape(a, b, c, d, t), "SST_LIST="@) == Some(a),
{
    reveal_strlit(" SD_LIST=");
    let none = Seq::<char>::empty();
    let after = " SD_LIST="@ + b + " DNN_LIST="@ + c + " UE_CELL="@ + d + t;
    assert(shape(a, b, c, d, t) =~= none + "SST_LIST="@ + a + after);
    reading::lemma_setting(none, "SST_LIST="@, a, after);
}

proof fn lemma_sd_front(a: Seq<char>)
    requires
        reading::lacks(a, 'D'),
    ensures
        reading::lacks("SST_LIST="@ + a + " "@, 'D'),
{
    reveal_strlit(" ");
    reveal_strlit("SST_LIST=");
    let before = "SST_LIST="@ + a + " "@;
    assert forall|q: int| 0 <= q < before.len() implies #[trigger] before[q] != 'D' by {
        if 9 <= q < 9 + a.len() {
            assert(before[q] == a[q - 9]);
        }
    }
}

#[verifier::spinoff_prover]
#[verifier::rlimit(50)]
proof fn lemma_sd_shape(a: Seq<char>, b: Seq<char>, c: Seq<char>, d: Seq<char>, t: Seq<char>)
    ensures
        ({
            let after = " DNN_LIST="@ + c + " UE_CELL="@ + d + t;
            &&& shape(a, b, c, d, t) == "SST_LIST="@ + a + " "@ + "SD_LIST="@ + b + after
            &&& after.len() > 0 && after[0] == ' '
        }),
{
    reveal_strlit(" ");
    reveal_strlit("SD_LIST=");
    reveal_strlit(" SD_LIST=");
    reveal_strlit(" DNN_LIST=");
    let after = " DNN_LIST="@ + c + " UE_CELL="@ + d + t;
    assert(" "@ + "SD_LIST="@ =~= " SD_LIST="@);
    assert(shape(a, b, c, d, t) =~= "SST_LIST="@ + a + " "@ + "SD_LIST="@ + b + after);
}

proof fn lemma_sd_key()
    ensures
        "SD_LIST="@.len() == 8,
        "SD_LIST="@[0] == 'S',
        "SD_LIST="@[1] == 'D',
{
    reveal_strlit("SD_LIST=");
}

#[verifier::spinoff_prover]
#[verifier::rlimit(50)]
proof fn lemma_shape_sd(a: Seq<char>, b: Seq<char>, c: Seq<char>, d: Seq<char>, t: Seq<char>)
    requires
        reading::lacks(a, 'D'),
        reading::unbroken(b),
    ensures
        reading::setting(shape(a, b, c, d, t), "SD_LIST="@) == Some(b),
{
    let before = "SST_LIST="@ + a + " "@;
    let after = " DNN_LIST="@ + c + " UE_CELL="@ + d + t;
    lemma_sd_front(a);
    lemma_sd_shape(a, b, c, d, t);
    lemma_sd_key();
    reading::lemma_setting_fresh(before, "SD_LIST="@, b, after);
}

#[verifier::spinoff_prover]
#[verifier::rlimit(50)]
proof fn lemma_dnn_shape(a: Seq<char>, b: Seq<char>, c: Seq<char>, d: Seq<char>, t: Seq<char>)
    ensures
        ({
            let before = "SST_LIST="@ + a + " SD_LIST="@ + b + " "@;
            let after = " UE_CELL="@ + d + t;
            &&& shape(a, b, c, d, t) == before + "DNN_LIST="@ + c + after
            &&& after.len() > 0 && after[0] == ' '
        }),
{
    reveal_strlit(" ");
    reveal_strlit("DNN_LIST=");
    reveal_strlit(" DNN_LIST=");
    reveal_strlit(" UE_CELL=");
    let before = "SST_LIST="@ + a + " SD_LIST="@ + b + " "@;
    let after = " UE_CELL="@ + d + t;
    assert(" "@ + "DNN_LIST="@ =~= " DNN_LIST="@);
    assert(shape(a, b, c, d, t) =~= before + "DNN_LIST="@ + c + after);
}

#[verifier::spinoff_prover]
#[verifier::rlimit(50)]
proof fn lemma_dnn_front(a: Seq<char>, b: Seq<char>)
    requires
        reading::lacks(a, 'D'),
        reading::lacks(b, 'D'),
    ensures
        ({
            let before = "SST_LIST="@ + a + " SD_LIST="@ + b + " "@;
            forall|q: int|
                0 <= q < before.len() && #[trigger] before[q] == 'D' ==> q + 1 < before.len()
                    && before[q + 1] == '_'
        }),
{
    reveal_strlit(" ");
    reveal_strlit("SST_LIST=");
    reveal_strlit(" SD_LIST=");
    let before = "SST_LIST="@ + a + " SD_LIST="@ + b + " "@;
    let m = 9 + a.len() as int;
    assert forall|q: int| 0 <= q < before.len() && #[trigger] before[q] == 'D' implies q + 1
        < before.len() && before[q + 1] == '_' by {
        if 9 <= q < m {
            assert(before[q] == a[q - 9]);
        } else if m + 9 <= q < m + 9 + b.len() {
            assert(before[q] == b[q - m - 9]);
        }
    }
}

#[verifier::spinoff_prover]
#[verifier::rlimit(50)]
proof fn lemma_shape_dnn(a: Seq<char>, b: Seq<char>, c: Seq<char>, d: Seq<char>, t: Seq<char>)
    requires
        reading::lacks(a, 'D'),
        reading::lacks(b, 'D'),
        reading::unbroken(c),
    ensures
        reading::setting(shape(a, b, c, d, t), "DNN_LIST="@) == Some(c),
{
    let before = "SST_LIST="@ + a + " SD_LIST="@ + b + " "@;
    let after = " UE_CELL="@ + d + t;
    let key = "DNN_LIST="@;
    lemma_dnn_shape(a, b, c, d, t);
    lemma_dnn_front(a, b);
    assert(key.len() == 9 && key[0] == 'D' && key[1] == 'N') by {
        reveal_strlit("DNN_LIST=");
    }
    let s = before + key + c + after;
    assert forall|p: int| 0 <= p < before.len() implies !#[trigger] text::occurs_at(s, key, p) by {
        if text::occurs_at(s, key, p) {
            assert(s.subrange(p, p + 9)[0] == s[p]);
            assert(s.subrange(p, p + 9)[1] == s[p + 1]);
            assert(s[p] == before[p]);
            assert(s[p + 1] == before[p + 1]);
        }
    }
    reading::lemma_setting(before, key, c, after);
}

#[verifier::spinoff_prover]
#[verifier::rlimit(50)]
proof fn lemma_cell_shape(a: Seq<char>, b: Seq<char>, c: Seq<char>, d: Seq<char>, t: Seq<char>)
    ensures
        shape(a, b, c, d, t) == "SST_LIST="@ + a + " SD_LIST="@ + b + " DNN_LIST="@ + c + " "@
            + "UE_CELL="@ + d + t,
{
    reveal_strlit(" ");
    reveal_strlit("UE_CELL=");
    reveal_strlit(" UE_CELL=");
    assert(" "@ + "UE_CELL="@ =~= " UE_CELL="@);
    assert(shape(a, b, c, d, t) =~= "SST_LIST="@ + a + " SD_LIST="@ + b + " DNN_LIST="@ + c
        + " "@ + "UE_CELL="@ + d + t);
}

#[verifier::spinoff_prover]
#[verifier::rlimit(50)]
proof fn lemma_cell_front(a: Seq<char>, b: Seq<char>, c: Seq<char>)
    requires
        reading::lacks(a, '='),
        reading::lacks(b, '='),
        reading::lacks(c, '='),
    ensures
        ({
            let before = "SST_LIST="@ + a + " SD_LIST="@ + b + " DNN_LIST="@ + c + " "@;
            forall|q: int|
                0 <= q < before.len() && #[trigger] before[q] == '=' ==> q > 0 && before[q - 1]
                    == 'T'
        }),
{
    reveal_strlit(" ");
    reveal_strlit("SST_LIST=");
    reveal_strlit(" SD_LIST=");
    reveal_strlit(" DNN_LIST=");
    let before = "SST_LIST="@ + a + " SD_LIST="@ + b + " DNN_LIST="@ + c + " "@;
    let m = 9 + a.len() as int;
    let n = m + 9 + b.len();
    assert forall|q: int| 0 <= q < before.len() && #[trigger] before[q] == '=' implies q > 0
        && before[q - 1] == 'T' by {
        if 9 <= q < m {
            assert(before[q] == a[q - 9]);
        } else if m + 9 <= q < n {
            assert(before[q] == b[q - m - 9]);
        } else if n + 10 <= q < n + 10 + c.len() {
            assert(before[q] == c[q - n - 10]);
        }
    }
}

#[verifier::spinoff_prover]
#[verifier::rlimit(50)]
proof fn lemma_shape_cell(a: Seq<char>, b: Seq<char>, c: Seq<char>, d: Seq<char>, t: Seq<char>)
    requires
        reading::lacks(a, '='),
        reading::lacks(b, '='),
        reading::lacks(c, '='),
        reading::unbroken(d),
        t.len() > 0,
        t[0] == ' ',
    ensures
        reading::setting(shape(a, b, c, d, t), "UE_CELL="@) == Some(d),
{
    let before = "SST_LIST="@ + a + " SD_LIST="@ + b + " DNN_LIST="@ + c + " "@;
    let key = "UE_CELL="@;
    lemma_cell_shape(a, b, c, d, t);
    lemma_cell_front(a, b, c);
    assert(key.len() == 8 && key.last() == '=' && key[6] == 'L' && reading::lacks(
        key.drop_last(),
        '=',
    )) by {
        reveal_strlit("UE_CELL=");
    }
    reading::lemma_setting_behind(before, key, d, t);
}

proof fn lemma_sst_setting(rows: Seq<RowView>, scripts: Seq<char>)
    requires
        rows.len() > 0,
    ensures
        reading::setting(configure::launch_command(rows, scripts), "SST_LIST="@) == Some(
            text::joined(configure::sst_texts(rows), ","@),
        ),
{
    lemma_shape_of_command(rows, scripts);
    lemma_sst_list(rows);
    lemma_shape_sst(
        text::joined(configure::sst_texts(rows), ","@),
        text::joined(configure::sd_texts(rows), ","@),
        text::joined(configure::dnn_texts(rows), ","@),
        text::joined(configure::cell_texts(rows), ","@),
        tail_of(rows, scripts),
    );
}

proof fn lemma_sd_setting(rows: Seq<RowView>, scripts: Seq<char>)
    requires
        rows.len() > 0,
    ensures
        reading::setting(configure::launch_command(rows, scripts), "SD_LIST="@) == Some(
            text::joined(configure::sd_texts(rows), ","@),
        ),
{
    lemma_shape_of_command(rows, scripts);
    lemma_sst_list(rows);
    lemma_sd_list(rows);
    lemma_shape_sd(
        text::joined(configure::sst_texts(rows), ","@),
        text::joined(configure::sd_texts(rows), ","@),
        text::joined(configure::dnn_texts(rows), ","@),
        text::joined(configure::cell_texts(rows), ","@),
        tail_of(rows, scripts),
    );
}

proof fn lemma_dnn_setting(rows: Seq<RowView>, scripts: Seq<char>)
    requires
        rows.len() > 0,
        plain_networks(rows),
    ensures
        reading::setting(configure::launch_command(rows, scripts), "DNN_LIST="@) == Some(
            text::joined(configure::dnn_texts(rows), ","@),
        ),
{
    lemma_shape_of_command(rows, scripts);
    lemma_sst_list(rows);
    lemma_sd_list(rows);
    lemma_dnn_list(rows);
    lemma_shape_dnn(
        text::joined(configure::sst_texts(rows), ","@),
        text::joined(configure::sd_texts(rows), ","@),
        text::joined(configure::dnn_texts(rows), ","@),
        text::joined(configure::cell_texts(rows), ","@),
        tail_of(rows, scripts),
    );
}

proof fn lemma_cell_setting(rows: Seq<RowView>, scripts: Seq<char>)
    requires
        rows.len() > 0,
        plain_networks(rows),
    ensures
        reading::setting(configure::launch_command(rows, scripts), "UE_CELL="@) == Some(
            text::joined(configure::cell_texts(rows), ","@),
        ),
{
    lemma_shape_of_command(rows, scripts);
    lemma_sst_list(rows);
    lemma_sd_list(rows);
    lemma_dnn_list(rows);
    lemma_cell_list(rows);
    lemma_shape_cell(
        text::joined(configure::sst_texts(rows), ","@),
        text::joined(configure::sd_texts(rows), ","@),
        text::joined(configure::dnn_texts(rows), ","@),
        text::joined(configure::cell_texts(rows), ","@),
        tail_of(rows, scripts),
    );
}

/// A key that launches the plan.
pub open spec fn launches(key: Key) -> bool {
    key == Key::Enter || key == Key::Char('r')
}

/// The launch command names, for every row of the plan, its slice type and its differentiator: the
/// lists have one member for each row, in the order of the rows.
#[verifier::spinoff_prover]
#[verifier::rlimit(50)]
pub proof fn law_launch_names_slices(
    v: ConfigureView,
    key: Key,
    scripts: Seq<char>,
    i: int,
)
    requires
        launches(key),
        0 <= i < v.rows.len(),
    ensures
        ({
            let step = configure::key_step(v, key, true, scripts);
            let types = reading::setting(step.spawn->0, "SST_LIST="@);
            let parts = reading::setting(step.spawn->0, "SD_LIST="@);
            &&& step.handled && step.spawn is Some && step.state.rows == v.rows
            &&& types is Some && parts is Some
            &&& reading::split(types->0, ',').len() == v.rows.len()
            &&& text::number(reading::split(types->0, ',')[i], 10, u8::MAX as nat) == Some(
                v.rows[i].sst as nat,
            )
            &&& reading::split(parts->0, ',').len() == v.rows.len()
            &&& match v.rows[i].sd {
                Some(n) => text::number(reading::split(parts->0, ',')[i], 10, u32::MAX as nat)
                    == Some(n as nat),
                None => reading::split(parts->0, ',')[i].len() == 0,
            }
        }),
{
    lemma_sst_setting(v.rows, scripts);
    lemma_sd_setting(v.rows, scripts);
    lemma_sst_list(v.rows);
    lemma_sd_list(v.rows);
    text::law_number_of_dec(v.rows[i].sst as nat, u8::MAX as nat);
    match v.rows[i].sd {
        Some(n) => {
            text::law_number_of_dec(n as nat, u32::MAX as nat);
        },
        None => {},
    }
}

/// The launch command names, for every row of the plan, its data network and its cell, where the
/// networks have plain names.
#[verifier::spinoff_prover]
#[verifier::rlimit(50)]
pub proof fn law_launch_names_networks_and_cells(
    v: ConfigureView,
    key: Key,
    scripts: Seq<char>,
    i: int,
)
    requires
        launches(key),
        0 <= i < v.rows.len(),
        plain_networks(v.rows),
    ensures
        ({
            let command = configure::key_step(v, key, true, scripts).spawn->0;
            let networks = reading::setting(command, "DNN_LIST="@);
            let cells = reading::setting(command, "UE_CELL="@);
            &&& networks is Some && cells is Some
            &&& reading::split(networks->0, ',').len() == v.rows.len()
            &&& reading::split(networks->0, ',')[i] == v.rows[i].dnn
            &&& reading::split(cells->0, ',').len() == v.rows.len()
            &&& text::number(reading::split(cells->0, ',')[i], 10, usize::MAX as nat) == Some(
                v.rows[i].cell as nat,
            )
        }),
{
    lemma_dnn_setting(v.rows, scripts);
    lemma_cell_setting(v.rows, scripts);
    lemma_dnn_list(v.rows);
    lemma_cell_list(v.rows);
    text::law_number_of_dec(v.rows[i].cell as nat, usize::MAX as nat);
}

/// Two plans that differ in a slice are launched by different commands.
#[verifier::spinoff_prover]
#[verifier::rlimit(50)]
pub proof fn law_launch_tells_plans_apart(
    a: Seq<RowView>,
    b: Seq<RowView>,
    scripts: Seq<char>,
    i: int,
)
    requires
        a.len() > 0,
        b.len() > 0,
        configure::launch_command(a, scripts) == configure::launch_command(b, scripts),
        0 <= i < a.len(),
    ensures
        a.len() == b.len(),
        a[i].sst == b[i].sst,
        a[i].sd == b[i].sd,
        plain_networks(a) && plain_networks(b) ==> a[i].dnn == b[i].dnn && a[i].cell == b[i].cell,
{
    lemma_sst_setting(a, scripts);
    lemma_sst_setting(b, scripts);
    lemma_sd_setting(a, scripts);
    lemma_sd_setting(b, scripts);
    lemma_sst_list(a);
    lemma_sst_list(b);
    lemma_sd_list(a);
    lemma_sd_list(b);
    assert(configure::sst_texts(a).len() == configure::sst_texts(b).len());
    assert(configure::sst_texts(a)[i] == configure::sst_texts(b)[i]);
    assert(configure::sd_texts(a)[i] == configure::sd_texts(b)[i]);
    text::law_dec_injective(a[i].sst as nat, b[i].sst as nat);
    match (a[i].sd, b[i].sd) {
        (Some(m), Some(n)) => {
            text::law_dec_injective(m as nat, n as nat);
        },
        (Some(m), None) => {
            text::lemma_written(m as nat, 10);
        },
        (None, Some(n)) => {
            text::lemma_written(n as nat, 10);
        },
        (None, None) => {},
    }
    if plain_networks(a) && plain_networks(b) {
        lemma_dnn_setting(a, scripts);
        lemma_dnn_setting(b, scripts);
        lemma_cell_setting(a, scripts);
        lemma_cell_setting(b, scripts);
        lemma_dnn_list(a);
        lemma_dnn_list(b);
        lemma_cell_list(a);
        lemma_cell_list(b);
        assert(configure::dnn_texts(a)[i] == configure::dnn_texts(b)[i]);
        assert(configure::cell_texts(a)[i] == configure::cell_texts(b)[i]);
        text::law_dec_injective(a[i].cell as nat, b[i].cell as nat);
    }
}

/// The launch command runs the launch script for as many UEs as the plan has rows.
#[verifier::spinoff_prover]
#[verifier::rlimit(50)]
pub proof fn law_launch_counts_rows(rows: Seq<RowView>, scripts: Seq<char>)
    ensures
        ({
            let command = configure::launch_command(rows, scripts);
            let end = " bash "@ + scripts + "/run_nue.sh "@ + text::dec(rows.len());
            &&& command.len() >= end.len()
            &&& command.skip(command.len() - end.len()) == end
        }),
{
    let command = configure::launch_command(rows, scripts);
    let end = " bash "@ + scripts + "/run_nue.sh "@ + text::dec(rows.len());
    assert(command.skip(command.len() - end.len()) =~= end);
}

/// Every cell beyond the first that a row uses is bridged: the command names it by its number, with
/// the two ports that belong to it.
#[verifier::spinoff_prover]
#[verifier::rlimit(50)]
pub proof fn law_launch_bridges_cells(rows: Seq<RowView>, scripts: Seq<char>, i: int)
    requires
        0 <= i < rows.len(),
        rows[i].cell > 0,
    ensures
        ({
            let c = rows[i].cell as nat;
            text::contains(
                configure::launch_command(rows, scripts),
                " HO_CELL"@ + text::dec(c + 1) + "=\"tcp://127.0.0.1:"@ + text::dec(4556 + 2 * c)
                    + ",tcp://127.0.0.1:"@ + text::dec(4557 + 2 * c) + "\""@,
            )
        }),
{
    let extra = configure::extra_cells(rows);
    lemma_extra_finite(rows, rows.len() as int);
    assert(extra =~= cells_upto(rows, rows.len() as int));
    order::lemma_in_order_of(extra);
    let cells = order::in_order(extra);
    let c = rows[i].cell;
    assert(extra.contains(c));
    assert(cells.to_set().contains(c));
    let k = choose|k: int| 0 <= k < cells.len() && cells[k] == c;
    let at = lemma_setting_there(cells, k);
    let all = configure::cell_settings(cells);
    let pat = configure::cell_setting(c as nat);
    let front = "SST_LIST="@ + text::joined(configure::sst_texts(rows), ","@) + " SD_LIST="@
        + text::joined(configure::sd_texts(rows), ","@) + " DNN_LIST="@ + text::joined(
        configure::dnn_texts(rows),
        ","@,
    ) + " UE_CELL="@ + text::joined(configure::cell_texts(rows), ","@) + " N_RB=106"@;
    let s = configure::launch_command(rows, scripts);
    let end = " bash "@ + scripts + "/run_nue.sh "@ + text::dec(rows.len());
    assert(s =~= front + all + end);
    let p = front.len() + at;
    assert(s.subrange(p, p + pat.len()) =~= all.subrange(at, at + pat.len()));
    assert(text::occurs_at(s, pat, p));
    text::lemma_find_from(s, pat, 0);
}

spec fn cells_upto(rows: Seq<RowView>, n: int) -> Set<usize>
    decreases n,
{
    if n <= 0 {
        Set::empty()
    } else if rows[n - 1].cell > 0 {
        cells_upto(rows, n - 1).insert(rows[n - 1].cell)
    } else {
        cells_upto(rows, n - 1)
    }
}

proof fn lemma_extra_finite(rows: Seq<RowView>, n: int)
    requires
        0 <= n <= rows.len(),
    ensures
        cells_upto(rows, n).finite(),
        forall|c: usize| #[trigger]
            cells_upto(rows, n).contains(c) <==> c > 0 && exists|i: int|
                0 <= i < n && (#[trigger] rows[i]).cell == c,
    decreases n,
{
    if n > 0 {
        lemma_extra_finite(rows, n - 1);
        assert forall|c: usize| #[trigger] cells_upto(rows, n).contains(c) <==> c > 0 && exists|
            i: int,
        |
            0 <= i < n && (#[trigger] rows[i]).cell == c by {
            if c > 0 && rows[n - 1].cell == c {
                assert(rows[n - 1].cell == c);
            }
        }
    }
}

proof fn lemma_setting_there(cells: Seq<usize>, k: int) -> (at: int)
    requires
        0 <= k < cells.len(),
    ensures
        text::occurs_at(
            configure::cell_settings(cells),
            configure::cell_setting(cells[k] as nat),
            at,
        ),
    decreases cells.len(),
{
    let all = configure::cell_settings(cells);
    let before = configure::cell_settings(cells.drop_last());
    let pat = configure::cell_setting(cells[k] as nat);
    if k == cells.len() - 1 {
        let at = before.len() as int;
        assert(all.subrange(at, at + pat.len()) =~= pat);
        at
    } else {
        assert(cells.drop_last()[k] == cells[k]);
        let at = lemma_setting_there(cells.drop_last(), k);
        assert(all.subrange(at, at + pat.len()) =~= before.subrange(at, at + pat.len()));
        at
    }
}

/// What is said of a launch names the same differentiators as the command.
#[verifier::spinoff_prover]
#[verifier::rlimit(50)]
pub proof fn law_launch_is_said(v: ConfigureView, key: Key, scripts: Seq<char>)
    requires
        launches(key),
        v.rows.len() > 0,
    ensures
        ({
            let step = configure::key_step(v, key, true, scripts);
            &&& reading::setting(step.state.status, "SD_LIST="@) == reading::setting(
                step.spawn->0,
                "SD_LIST="@,
            )
            &&& text::starts_with(
                step.state.status,
                "launching "@ + text::dec(v.rows.len()) + " UE(s)"@,
            )
        }),
{
    lemma_sd_setting(v.rows, scripts);
    lemma_sd_list(v.rows);
    lemma_status_shape(
        text::dec(v.rows.len()),
        text::joined(configure::sd_texts(v.rows), ","@),
        text::joined(configure::cell_texts(v.rows), ","@),
    );
    lemma_status_front(v.rows.len());
    let before = "launching "@ + text::dec(v.rows.len()) + " UE(s)  "@;
    let after = "  UE_CELL="@ + text::joined(configure::cell_texts(v.rows), ","@)
        + "  (watch Monitor page)"@;
    lemma_sd_key();
    reading::lemma_setting_fresh(
        before,
        "SD_LIST="@,
        text::joined(configure::sd_texts(v.rows), ","@),
        after,
    );
}

#[verifier::spinoff_prover]
#[verifier::rlimit(50)]
proof fn lemma_status_shape(d: Seq<char>, b: Seq<char>, c: Seq<char>)
    ensures
        ({
            let t = "launching "@ + d + " UE(s)  SD_LIST="@ + b + "  UE_CELL="@ + c
                + "  (watch Monitor page)"@;
            let after = "  UE_CELL="@ + c + "  (watch Monitor page)"@;
            &&& t == "launching "@ + d + " UE(s)  "@ + "SD_LIST="@ + b + after
            &&& after.len() > 0 && after[0] == ' '
            &&& text::starts_with(t, "launching "@ + d + " UE(s)"@)
        }),
{
    reveal_strlit(" UE(s)");
    reveal_strlit(" UE(s)  ");
    reveal_strlit("SD_LIST=");
    reveal_strlit(" UE(s)  SD_LIST=");
    reveal_strlit("  UE_CELL=");
    let t = "launching "@ + d + " UE(s)  SD_LIST="@ + b + "  UE_CELL="@ + c
        + "  (watch Monitor page)"@;
    let after = "  UE_CELL="@ + c + "  (watch Monitor page)"@;
    assert(" UE(s)  "@ + "SD_LIST="@ =~= " UE(s)  SD_LIST="@);
    assert(t =~= "launching "@ + d + " UE(s)  "@ + "SD_LIST="@ + b + after);
    let front = "launching "@ + d + " UE(s)"@;
    assert(t.subrange(0, front.len() as int) =~= front);
}

#[verifier::spinoff_prover]
#[verifier::rlimit(50)]
proof fn lemma_status_front(n: nat)
    ensures
        reading::lacks("launching "@ + text::dec(n) + " UE(s)  "@, 'D'),
{
    reveal_strlit("launching ");
    reveal_strlit(" UE(s)  ");
    reading::lemma_digits(n);
    let d = text::dec(n);
    let before = "launching "@ + d + " UE(s)  "@;
    assert forall|q: int| 0 <= q < before.len() implies #[trigger] before[q] != 'D' by {
        if 10 <= q < 10 + d.len() {
            assert(before[q] == d[q - 10]);
        }
    }
}

// ---------------------------------------------------------------------------
// Keys
// ---------------------------------------------------------------------------

/// A UE that is added has a number larger than all others, comes last and is selected; the others
/// stay as they are.
pub proof fn law_added_ue_is_new(v: ConfigureView, gnb_up: bool, scripts: Seq<char>, i: int)
    requires
        configure::key_fits(v, Key::Char('a')),
        v.rows.len() < usize::MAX,
        0 <= i < v.rows.len(),
    ensures
        ({
            let s = configure::key_step(v, Key::Char('a'), gnb_up, scripts).state;
            &&& s.rows.len() == v.rows.len() + 1
            &&& s.rows[i] == v.rows[i]
            &&& s.rows.last().ue_id > v.rows[i].ue_id
            &&& exists|k: int|
                0 <= k < v.rows.len() && (#[trigger] v.rows[k]).ue_id + 1 == s.rows.last().ue_id
            &&& s.sel == v.rows.len()
        }),
        configure::key_step(
            ConfigureView { rows: Seq::empty(), ..v },
            Key::Char('a'),
            gnb_up,
            scripts,
        ).state.rows[0].ue_id == 1,
{
    lemma_largest(v.rows, i);
    lemma_largest_there(v.rows);
    let none = Seq::<RowView>::empty();
    assert(configure::largest_id(none) == 0);
}

proof fn lemma_largest_there(rows: Seq<RowView>)
    requires
        rows.len() > 0,
    ensures
        exists|k: int|
            0 <= k < rows.len() && (#[trigger] rows[k]).ue_id == configure::largest_id(rows),
    decreases rows.len(),
{
    let rest = rows.drop_last();
    if rows.last().ue_id > configure::largest_id(rest) || rest.len() == 0 {
        assert(rows[rows.len() - 1].ue_id == configure::largest_id(rows));
    } else {
        lemma_largest_there(rest);
        let k = choose|k: int|
            0 <= k < rest.len() && (#[trigger] rest[k]).ue_id == configure::largest_id(rest);
        assert(rows[k] == rest[k]);
    }
}

proof fn lemma_largest(rows: Seq<RowView>, i: int)
    requires
        0 <= i < rows.len(),
    ensures
        configure::largest_id(rows) >= rows[i].ue_id,
    decreases rows.len(),
{
    if i < rows.len() - 1 {
        assert(rows.drop_last()[i] == rows[i]);
        lemma_largest(rows.drop_last(), i);
    }
}

/// An added UE is removed again by the next key, which leaves the plan as it was.
pub proof fn law_remove_undoes_add(v: ConfigureView, gnb_up: bool, scripts: Seq<char>)
    requires
        0 < v.rows.len() < usize::MAX,
    ensures
        ({
            let more = configure::key_step(v, Key::Char('a'), gnb_up, scripts).state;
            let back = configure::key_step(more, Key::Char('d'), gnb_up, scripts).state;
            &&& back.rows == v.rows
            &&& back.sel == v.rows.len() - 1
        }),
{
    let more = configure::key_step(v, Key::Char('a'), gnb_up, scripts).state;
    assert(more.rows.remove(v.rows.len() as int) =~= v.rows);
}

/// Removing takes the selected row out and no other, but never the last one; the selection stays on
/// a row.
pub proof fn law_remove_takes_selected(v: ConfigureView, gnb_up: bool, scripts: Seq<char>, i: int)
    requires
        v.sel < v.rows.len(),
        0 <= i < v.rows.len(),
    ensures
        ({
            let s = configure::key_step(v, Key::Char('d'), gnb_up, scripts).state;
            &&& v.rows.len() == 1 ==> s == v
            &&& v.rows.len() > 1 ==> {
                &&& s.rows.len() == v.rows.len() - 1
                &&& s.sel < s.rows.len()
                &&& i < v.sel ==> s.rows[i] == v.rows[i]
                &&& i > v.sel ==> s.rows[i - 1] == v.rows[i]
            }
        }),
{
}

/// A digit sets the selected field of the selected row to its value, where the field takes it, and
/// leaves everything else of the plan; a differentiator brings its data network with it.
#[verifier::spinoff_prover]
#[verifier::rlimit(50)]
pub proof fn law_digit_sets_field(
    v: ConfigureView,
    c: char,
    gnb_up: bool,
    scripts: Seq<char>,
    i: int,
)
    requires
        v.sel < v.rows.len(),
        text::is_digit(c),
        0 <= i < v.rows.len(),
    ensures
        ({
            let d = c as u32 - 48;
            let step = configure::key_step(v, Key::Char(c), gnb_up, scripts);
            let old_row = v.rows[v.sel as int];
            let new_row = step.state.rows[v.sel as int];
            &&& step.spawn is None
            &&& step.state.rows.len() == v.rows.len()
            &&& i != v.sel ==> step.state.rows[i] == v.rows[i]
            &&& new_row.ue_id == old_row.ue_id
            &&& v.field == Field::Sst ==> {
                &&& step.handled <==> 1 <= d <= 4
                &&& step.handled ==> new_row.sst == d
                &&& new_row.sd == old_row.sd && new_row.dnn == old_row.dnn
                &&& new_row.cell == old_row.cell
            }
            &&& v.field == Field::Sd ==> {
                &&& step.handled
                &&& d == 0 ==> new_row.sd is None
                &&& d > 0 ==> new_row.sd == Some(d as u32)
                &&& configure::dnn_number(new_row.dnn) == if d == 0 {
                    1
                } else {
                    d
                }
                &&& new_row.sst == old_row.sst && new_row.cell == old_row.cell
            }
            &&& v.field == Field::Dnn ==> !step.handled && new_row == old_row
            &&& v.field == Field::Cell ==> {
                &&& step.handled <==> d <= 7
                &&& step.handled ==> new_row.cell == d
                &&& new_row.sst == old_row.sst && new_row.sd == old_row.sd
                &&& new_row.dnn == old_row.dnn
            }
        }),
{
    let d = (c as u32 - 48) as u32;
    configure::law_dnn_named(d);
    configure::law_dnn_named(1);
    assert(text::digit_value(c) == d);
}

/// A step up or down moves the slice type by one and keeps it between 1 and 4, and so for the
/// differentiator between none and 8.
#[verifier::spinoff_prover]
#[verifier::rlimit(50)]
pub proof fn law_bump_moves_by_one(
    v: ConfigureView,
    up: bool,
    gnb_up: bool,
    scripts: Seq<char>,
)
    requires
        v.sel < v.rows.len(),
        1 <= v.rows[v.sel as int].sst <= 4,
        configure::sd_or_zero(v.rows[v.sel as int].sd) <= 8,
        v.rows[v.sel as int].cell < 4,
    ensures
        ({
            let key = Key::Char(
                if up {
                    '+'
                } else {
                    '-'
                },
            );
            let s = configure::key_step(v, key, gnb_up, scripts).state;
            let old_row = v.rows[v.sel as int];
            let new_row = s.rows[v.sel as int];
            let was = match old_row.sd {
                Some(n) => n as int,
                None => 0,
            };
            let is = match new_row.sd {
                Some(n) => n as int,
                None => 0,
            };
            &&& s.sel == v.sel && s.rows.len() == v.rows.len()
            &&& v.field == Field::Sst && up ==> new_row.sst == if old_row.sst == 4 {
                4
            } else {
                old_row.sst + 1
            }
            &&& v.field == Field::Sst && !up ==> new_row.sst == if old_row.sst == 1 {
                1
            } else {
                old_row.sst - 1
            }
            &&& v.field == Field::Sd && up ==> is == if was == 8 {
                8
            } else {
                was + 1
            }
            &&& v.field == Field::Sd && !up ==> is == if was == 0 {
                0
            } else {
                was - 1
            }
            &&& v.field == Field::Cell && up ==> new_row.cell == if old_row.cell == 3 {
                0
            } else {
                old_row.cell + 1
            }
            &&& v.field == Field::Cell && !up ==> new_row.cell == if old_row.cell == 0 {
                3
            } else {
                old_row.cell - 1
            }
        }),
{
}

// ---------------------------------------------------------------------------
// What is shown
// ---------------------------------------------------------------------------

/// Every row of the table shows its own row of the plan.
#[verifier::spinoff_prover]
#[verifier::rlimit(50)]
pub proof fn law_plan_rows_shown(v: ConfigureView, i: int)
    requires
        0 <= i < v.rows.len(),
    ensures
        ({
            let row = configure::plan_table(v)[i];
            let r = v.rows[i];
            &&& configure::plan_table(v).len() == v.rows.len()
            &&& row.cells.len() == 6
            &&& row.cells[0].text == "UE"@ + text::dec(r.ue_id as nat)
            &&& text::number(row.cells[1].text, 10, u8::MAX as nat) == Some(r.sst as nat)
            &&& match r.sd {
                Some(n) => row.cells[2].text == "sd"@ + text::dec(n as nat),
                None => row.cells[2].text == "—"@,
            }
            &&& row.cells[3].text == r.dnn
            &&& r.cell <= 25 ==> row.cells[4].text.len() == 1 && slice::cell_of_text(
                row.cells[4].text,
            ) == r.cell
        }),
{
    text::law_number_of_dec(v.rows[i].sst as nat, u8::MAX as nat);
    if v.rows[i].cell <= 25 {
        slice::law_cell_letter_or_number(v.rows[i].cell as nat);
    }
}

/// The pane beside the plan speaks of the selected UE: its number, its data network, its cell, and,
/// where it runs, the stage and the address of the running UE of that number.
#[verifier::spinoff_prover]
#[verifier::rlimit(50)]
pub proof fn law_pane_is_the_ues_own(
    v: ConfigureView,
    map: Map<usize, SliceMapEntry>,
    h: Seq<UeHealth>,
    k: int,
)
    requires
        v.sel < v.rows.len(),
        0 <= k < h.len(),
        h[k].id == v.rows[v.sel as int].ue_id,
        forall|j: int| 0 <= j < k ==> (#[trigger] h[j]).id != h[k].id,
        !map.dom().contains(v.rows[v.sel as int].ue_id),
    ensures
        ({
            let lines = configure::health_lines(v, map, h);
            let r = v.rows[v.sel as int];
            &&& lines[0][0].text == " UE "@ + text::dec(r.ue_id as nat)
            &&& lines[3][1].text == r.dnn
            &&& lines[5][1].text == h[k].stage@
            &&& lines[6][1].text == h[k].ip@
            &&& lines[8][1].text == h[k].dl_mbps@ + " / "@ + h[k].ul_mbps@ + " Mbps"@
        }),
{
    lemma_health_of(h, k);
}

proof fn lemma_health_of(h: Seq<UeHealth>, k: int)
    requires
        0 <= k < h.len(),
        forall|j: int| 0 <= j < k ==> (#[trigger] h[j]).id != h[k].id,
    ensures
        configure::health_of(h, h[k].id) == Some(h[k]),
    decreases h.len(),
{
    if k > 0 {
        let rest = h.skip(1);
        assert(h[0].id != h[k].id);
        assert(rest[k - 1] == h[k]);
        assert forall|j: int| 0 <= j < k - 1 implies (#[trigger] rest[j]).id != rest[k - 1].id by {
            assert(rest[j] == h[j + 1]);
        }
        lemma_health_of(rest, k - 1);
    }
}

/// The bar below the plan lists the differentiators and the cells of its rows.
#[verifier::spinoff_prover]
#[verifier::rlimit(50)]
pub proof fn law_bar_lists_plan(rows: Seq<RowView>, gnb_up: bool)
    ensures
        ({
            let t = configure::launch_lines(rows, gnb_up)[0][3].text;
            let front = "plan: "@ + text::dec(rows.len()) + " UE   SD=["@ + text::joined(
                configure::sd_texts(rows),
                ","@,
            ) + "]   cells=["@;
            let end = text::joined(configure::letter_texts(rows), ","@) + "]"@;
            &&& t == front + end
            &&& rows.len() > 0 ==> reading::split(
                text::joined(configure::sd_texts(rows), ","@),
                ',',
            ).len() == rows.len()
            &&& configure::launch_lines(rows, gnb_up).len() == if gnb_up {
                2
            } else {
                3int
            }
        }),
        forall|i: int|
            0 <= i < rows.len() && rows[i].cell <= 25 ==> slice::cell_of_text(
                #[trigger] configure::letter_texts(rows)[i],
            ) == rows[i].cell,
{
    let t = configure::launch_lines(rows, gnb_up)[0][3].text;
    let front = "plan: "@ + text::dec(rows.len()) + " UE   SD=["@ + text::joined(
        configure::sd_texts(rows),
        ","@,
    ) + "]   cells=["@;
    let end = text::joined(configure::letter_texts(rows), ","@) + "]"@;
    assert(t =~= front + end);
    if rows.len() > 0 {
        lemma_sd_list(rows);
    }
    assert forall|i: int| 0 <= i < rows.len() && rows[i].cell <= 25 implies slice::cell_of_text(
        #[trigger] configure::letter_texts(rows)[i],
    ) == rows[i].cell by {
        slice::law_cell_letter_or_number(rows[i].cell as nat);
    }
}

// ---------------------------------------------------------------------------
// Where the rows come from
// ---------------------------------------------------------------------------

/// What an entry of the slice map says of its UE: the type, the differentiator in either spelling,
/// the cell by letter or by place, and the data network or that of the slice.
pub open spec fn says(e: SliceMapEntry, r: RowView) -> bool {
    &&& r.sst == e.sst
    &&& e.sd is None ==> r.sd is None
    &&& forall|n: u32|
        e.sd is Some && e.sd->0@ == #[trigger] text::dec(n as nat) ==> r.sd == Some(n)
    &&& e.cell is None ==> r.cell == 0
    &&& forall|c: nat|
        c <= 7 && e.cell is Some && e.cell->0@ == seq![#[trigger] slice::letter_of(c)] ==> r.cell
            == c
    &&& e.dnn is Some ==> r.dnn == e.dnn->0@
    &&& e.dnn is None ==> configure::dnn_number(r.dnn) == match r.sd {
        Some(n) => n,
        None => 1,
    }
}

proof fn lemma_says(id: usize, e: SliceMapEntry)
    ensures
        says(e, configure::entry_row(id, e)),
        configure::entry_row(id, e).ue_id == id,
{
    let r = configure::entry_row(id, e);
    assert forall|n: u32|
        e.sd is Some && e.sd->0@ == #[trigger] text::dec(n as nat) implies r.sd == Some(n) by {
        slice::law_sd_spellings_agree(n);
    }
    assert forall|c: nat|
        c <= 7 && e.cell is Some && e.cell->0@ == seq![#[trigger] slice::letter_of(c)] implies r.cell
        == c by {
        slice::law_cell_letter_or_number(c);
    }
    match e.spec_sd() {
        Some(n) => {
            configure::law_dnn_named(n);
        },
        None => {
            configure::law_dnn_named(1);
        },
    }
}

/// A plan that is made from a slice map says of every UE what the map says of it.
pub proof fn law_plan_says_what_map_says(v: ConfigureView, map: Map<usize, SliceMapEntry>, i: int)
    requires
        map.dom().finite(),
        map.dom().len() > 0,
        !v.initialised,
        0 <= i < configure::with_plan(v, map).rows.len(),
    ensures
        ({
            let r = configure::with_plan(v, map).rows[i];
            map.dom().contains(r.ue_id) && says(map[r.ue_id], r)
        }),
{
    configure::law_plan_is_made_once(v, map, map);
    let r = configure::with_plan(v, map).rows[i];
    lemma_says(r.ue_id, map[r.ue_id]);
}

/// The row of a running UE shows the slice that was detected for it, the network of that slice, and
/// the cell that the map gives it.
#[verifier::spinoff_prover]
#[verifier::rlimit(50)]
pub proof fn law_running_rows_are_the_ues_own(
    v: ConfigureView,
    ids: Seq<usize>,
    map: Map<usize, SliceMapEntry>,
    detected: Map<usize, (u8, Option<u32>)>,
    i: int,
)
    requires
        order::sorted(ids) != v.last_running,
        0 <= i < ids.len(),
    ensures
        ({
            let s = configure::synced(v, ids, map, detected);
            let r = s.rows[i];
            &&& s.rows.len() == ids.len()
            &&& ids.contains(r.ue_id)
            &&& detected.dom().contains(r.ue_id) ==> (r.sst, r.sd) == detected[r.ue_id]
            &&& !detected.dom().contains(r.ue_id) ==> r.sst == 1 && r.sd is None
            &&& configure::dnn_number(r.dnn) == match r.sd {
                Some(n) => n,
                None => 1,
            }
            &&& !map.dom().contains(r.ue_id) ==> r.cell == 0
            &&& map.dom().contains(r.ue_id) ==> forall|c: nat|
                c <= 7 && map[r.ue_id].cell is Some && map[r.ue_id].cell->0@ == seq![
                    #[trigger] slice::letter_of(c),
                ] ==> r.cell == c
        }),
{
    order::law_sorted(ids);
    let s = configure::synced(v, ids, map, detected);
    let r = s.rows[i];
    let id = order::sorted(ids)[i];
    assert(r.ue_id == id);
    assert(order::sorted(ids).to_set().contains(id));
    assert(ids.to_set().contains(id));
    match r.sd {
        Some(n) => {
            configure::law_dnn_named(n);
        },
        None => {
            configure::law_dnn_named(1);
        },
    }
    if map.dom().contains(id) {
        assert forall|c: nat|
            c <= 7 && map[id].cell is Some && map[id].cell->0@ == seq![
                #[trigger] slice::letter_of(c),
            ] implies r.cell == c by {
            slice::law_cell_letter_or_number(c);
        }
    }
}

/// Going down and up the rows undo each other inside the plan, and so do the steps between the
/// fields.
pub proof fn law_selecting_is_undone(v: ConfigureView, gnb_up: bool, scripts: Seq<char>)
    requires
        v.rows.len() <= usize::MAX,
    ensures
        v.sel + 1 < v.rows.len() ==> {
            let down = configure::key_step(v, Key::Down, gnb_up, scripts).state;
            down.sel == v.sel + 1 && configure::key_step(down, Key::Up, gnb_up, scripts).state == v
        },
        0 < v.sel < v.rows.len() ==> {
            let up = configure::key_step(v, Key::Up, gnb_up, scripts).state;
            up.sel == v.sel - 1 && configure::key_step(up, Key::Down, gnb_up, scripts).state == v
        },
        ({
            let right = configure::key_step(v, Key::Right, gnb_up, scripts).state;
            right.field != v.field && configure::key_step(right, Key::Left, gnb_up, scripts).state
                == v
        }),
{
}

/// The stop key asks for a stop and leaves the plan.
pub proof fn law_stop_keeps_plan(v: ConfigureView, gnb_up: bool, scripts: Seq<char>)
    ensures
        ({
            let s = configure::key_step(v, Key::Char('k'), gnb_up, scripts);
            s.state.rows == v.rows && s.spawn == Some("bash "@ + scripts + "/dash_ctl.sh stop"@)
        }),
{
}

/// What a key did is said with the number of the UE that it did it to.
#[verifier::spinoff_prover]
#[verifier::rlimit(50)]
pub proof fn law_changes_are_said(
    v: ConfigureView,
    c: char,
    gnb_up: bool,
    scripts: Seq<char>,
)
    requires
        v.sel < v.rows.len(),
        v.rows.len() < usize::MAX,
    ensures
        text::is_digit(c) && configure::key_step(v, Key::Char(c), gnb_up, scripts).handled
            ==> text::starts_with(
            configure::key_step(v, Key::Char(c), gnb_up, scripts).state.status,
            "UE"@ + text::dec(v.rows[v.sel as int].ue_id as nat) + " "@,
        ),
        configure::largest_id(v.rows) < usize::MAX ==> {
            let s = configure::key_step(v, Key::Char('a'), gnb_up, scripts).state;
            s.status == "added UE"@ + text::dec(s.rows.last().ue_id as nat)
        },
        v.rows.len() > 1 ==> configure::key_step(
            v,
            Key::Char('d'),
            gnb_up,
            scripts,
        ).state.status == "removed UE"@ + text::dec(v.rows[v.sel as int].ue_id as nat),
{
    reveal_strlit(" ");
    reveal_strlit(" SST=");
    reveal_strlit(" SD=");
    reveal_strlit(" cell=");
    if text::is_digit(c) && configure::key_step(v, Key::Char(c), gnb_up, scripts).handled {
        let t = configure::key_step(v, Key::Char(c), gnb_up, scripts).state.status;
        let front = "UE"@ + text::dec(v.rows[v.sel as int].ue_id as nat) + " "@;
        assert(t.subrange(0, front.len() as int) =~= front);
    }
}

/// Every step of a type or a cell can be made, and every step of a differentiator or a network that
/// the page itself can have set.
pub proof fn law_usual_steps_fit(r: RowView, dir: int)
    requires
        dir == 1 || dir == -1,
        r.cell <= 7,
    ensures
        configure::bump_fits(r, Field::Sst, dir),
        configure::bump_fits(r, Field::Cell, dir),
        configure::sd_or_zero(r.sd) <= 9 ==> configure::bump_fits(r, Field::Sd, dir),
        configure::dnn_number(r.dnn) <= 9 ==> configure::bump_fits(r, Field::Dnn, dir),
{
}

/// The page is drawn with its selection on a row, where it has one, and with nothing else changed
/// but what the running UEs change.
pub proof fn law_page_is_drawn_on_a_row(
    v: ConfigureView,
    ids: Seq<usize>,
    map: Map<usize, SliceMapEntry>,
    detected: Map<usize, (u8, Option<u32>)>,
)
    ensures
        ({
            let s = configure::shown(v, ids, map, detected);
            let t = configure::synced(v, ids, map, detected);
            &&& s.rows == t.rows && s.field == v.field && s.status == v.status
            &&& s.rows.len() > 0 ==> s.sel < s.rows.len()
            &&& t.sel < t.rows.len() ==> s == t
            &&& s.reflecting <==> ids.len() > 0
        }),
{
    order::law_sorted(ids);
}

/// The identity that the slice map holds for the selected UE is shown, before what is live.
pub proof fn law_identity_is_shown(
    v: ConfigureView,
    map: Map<usize, SliceMapEntry>,
    h: Seq<UeHealth>,
)
    requires
        v.sel < v.rows.len(),
        map.dom().contains(v.rows[v.sel as int].ue_id),
        map[v.rows[v.sel as int].ue_id].imsi is Some,
    ensures
        configure::health_lines(v, map, h)[4][1].text == map[v.rows[v.sel
            as int].ue_id].imsi->0@,
        ({
            let r = v.rows[v.sel as int];
            text::starts_with(
                configure::health_lines(v, map, h)[1][1].text,
                slice::slice_label(SliceId { sst: r.sst, sd: r.sd }),
            )
        }),
{
    let r = v.rows[v.sel as int];
    let t = configure::health_lines(v, map, h)[1][1].text;
    let label = slice::slice_label(SliceId { sst: r.sst, sd: r.sd });
    assert(t.subrange(0, label.len() as int) =~= label);
}

/// Slices one type apart have different colours.
pub proof fn law_neighbours_differ_in_colour(s: SliceId)
    requires
        s.sst < 255,
    ensures
        configure::slice_tint(s) != configure::slice_tint(
            SliceId { sst: (s.sst + 1) as u8, sd: s.sd },
        ),
        configure::slice_tint(SliceId { sst: s.sst, sd: None }) == configure::slice_tint(
            SliceId { sst: s.sst, sd: Some(0) },
        ),
{
    let k = s.sst + configure::sd_or_zero(s.sd);
    assert((k + 1) % 6 == if k % 6 == 5 {
        0
    } else {
        k % 6 + 1
    });
}

/// When no UE runs any more the plan is shown again: a plan that was not covered by running UEs
/// stays, and else it is made from the slice map.
pub proof fn law_plan_is_shown_again(
    v: ConfigureView,
    map: Map<usize, SliceMapEntry>,
    detected: Map<usize, (u8, Option<u32>)>,
)
    ensures
        ({
            let s = configure::synced(v, Seq::empty(), map, detected);
            &&& !s.reflecting && s.last_running.len() == 0 && s.initialised
            &&& v.initialised && !v.reflecting ==> s.rows == v.rows
            &&& !v.initialised || v.reflecting ==> s.rows == configure::with_plan(
                ConfigureView { initialised: false, ..v },
                map,
            ).rows
            &&& s.sel == v.sel && s.field == v.field && s.status == v.status
        }),
{
    assert(order::sorted(Seq::<usize>::empty()).len() == 0);
}

/// The keys that stand for one another do the same, and any other key is left to the others.
pub proof fn law_plan_keys(v: ConfigureView, gnb_up: bool, scripts: Seq<char>, c: char)
    ensures
        ({
            let step = |k: char| configure::key_step(v, Key::Char(k), gnb_up, scripts);
            &&& step('=') == step('+')
            &&& step('_') == step('-')
            &&& step('r') == configure::key_step(v, Key::Enter, gnb_up, scripts)
            &&& step('\t') == configure::key_step(v, Key::Right, gnb_up, scripts)
            &&& c != '=' && c != '+' && c != '_' && c != '-' && c != 'r' && c != '\t' && c != 'a'
                && c != 'd' && c != 'k' && !text::is_digit(c) ==> step(c).state == v
                && !step(c).handled && step(c).spawn is None
        }),
{
}

/// Where nothing is known the plan has two UEs, one behind the other, on slices and cells of their
/// own, each with the network of its slice.
pub proof fn law_plan_where_nothing_is_known(v: ConfigureView, map: Map<usize, SliceMapEntry>, i: int)
    requires
        !v.initialised,
        map.dom().len() == 0,
        0 <= i < configure::with_plan(v, map).rows.len(),
    ensures
        ({
            let rows = configure::with_plan(v, map).rows;
            &&& rows.len() == 2
            &&& rows[i].ue_id == i + 1
            &&& rows[i].sst == 1
            &&& rows[i].sd == Some((i + 1) as u32)
            &&& rows[i].dnn == configure::dnn_named((i + 1) as nat)
            &&& rows[i].cell == i
        }),
{
    reveal_strlit("oai");
    reveal_strlit("oai2");
    reveal_with_fuel(text::written, 2);
    assert("oai"@ + text::dec(2) =~= "oai2"@);
}

} // verus!
