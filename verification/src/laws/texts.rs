//! Lines and ends of texts.

use vstd::prelude::*;

use crate::handover;
use crate::paths;
use crate::reading;
use crate::slice;
use crate::text;
use crate::text::CharClass;

verus! {

#[verifier::spinoff_prover]
#[verifier::rlimit(50)]
pub proof fn lemma_find_shift(a: Seq<char>, b: Seq<char>, pat: Seq<char>, i: int)
    requires
        0 <= i <= b.len(),
    ensures
        text::find_from(a + b, pat, a.len() + i) == match text::find_from(b, pat, i) {
            Some(j) => Some(a.len() + j),
            None => None,
        },
{
    let s = a + b;
    let n = a.len() as int;
    text::lemma_find_from(b, pat, i);
    text::lemma_find_from(s, pat, n + i);
    assert forall|k: int| i <= k implies text::occurs_at(s, pat, n + k) == #[trigger] text::occurs_at(
        b,
        pat,
        k,
    ) by {
        if n + k + pat.len() <= s.len() {
            assert(s.subrange(n + k, n + k + pat.len()) =~= b.subrange(k, k + pat.len()));
        }
    }
    match text::find_from(s, pat, n + i) {
        Some(j) => {
            assert(text::occurs_at(b, pat, j - n));
            match text::find_from(b, pat, i) {
                Some(k) => {
                    assert(text::occurs_at(s, pat, n + k));
                },
                None => {},
            }
        },
        None => {
            match text::find_from(b, pat, i) {
                Some(k) => {
                    assert(text::occurs_at(s, pat, n + k));
                },
                None => {},
            }
        },
    }
}

proof fn lemma_lines_shift(a: Seq<char>, b: Seq<char>, i: int)
    requires
        0 <= i <= b.len(),
    ensures
        text::lines_from(a + b, a.len() + i) == text::lines_from(b, i),
    decreases b.len() - i,
{
    let s = a + b;
    let n = a.len() as int;
    if i < b.len() {
        let nl = seq!['\n'];
        lemma_find_shift(a, b, nl, i);
        text::lemma_find_from(b, nl, i);
        match text::find_from(b, nl, i) {
            Some(j) => {
                assert(s.subrange(n + i, n + j) =~= b.subrange(i, j));
                lemma_lines_shift(a, b, j + 1);
            },
            None => {
                assert(s.skip(n + i) =~= b.skip(i));
            },
        }
    }
}

/// The first line of a text is what stands before its first line feed, and the others are the
/// lines of what follows.
#[verifier::spinoff_prover]
#[verifier::rlimit(50)]
pub proof fn law_first_line(line: Seq<char>, rest: Seq<char>)
    requires
        reading::lacks(line, '\n'),
        line.len() > 0 ==> line.last() != '\r',
    ensures
        text::lines_of(line + "\n"@ + rest) == seq![line] + text::lines_of(rest),
        text::lines_of(line + "\r\n"@ + rest) == seq![line] + text::lines_of(rest),
{
    reveal_strlit("\n");
    reveal_strlit("\r\n");
    let nl = seq!['\n'];
    let s = line + "\n"@ + rest;
    let n = line.len() as int;
    assert(s.subrange(n, n + 1) =~= nl);
    assert(s.take(n) =~= line);
    lemma_no_line_feed(s, line, n);
    text::lemma_find_is(s, nl, 0, n);
    assert(s.subrange(0, n) =~= line);
    assert(s =~= (line + "\n"@) + rest);
    lemma_lines_shift(line + "\n"@, rest, 0);
    let t = line + "\r\n"@ + rest;
    let front = line + seq!['\r'];
    assert(t.subrange(n + 1, n + 2) =~= nl);
    assert(reading::lacks(front, '\n'));
    assert(t.take(n + 1) =~= front);
    lemma_no_line_feed(t, front, n + 1);
    text::lemma_find_is(t, nl, 0, n + 1);
    assert(t.subrange(0, n + 1) =~= front);
    assert(front.drop_last() =~= line);
    assert(t =~= (line + "\r\n"@) + rest);
    lemma_lines_shift(line + "\r\n"@, rest, 0);
}

proof fn lemma_no_line_feed(s: Seq<char>, front: Seq<char>, n: int)
    requires
        n == front.len(),
        n <= s.len(),
        s.take(n) == front,
        reading::lacks(front, '\n'),
    ensures
        forall|k: int| 0 <= k < n ==> !text::occurs_at(s, seq!['\n'], k),
{
    assert forall|k: int| 0 <= k < n implies !text::occurs_at(s, seq!['\n'], k) by {
        if text::occurs_at(s, seq!['\n'], k) {
            assert(s.subrange(k, k + 1)[0] == s[k]);
            assert(s.take(n)[k] == s[k]);
            assert(front[k] == '\n');
        }
    }
}

/// A last line needs no ending, and no text has no line.
pub proof fn law_last_line(line: Seq<char>)
    requires
        reading::lacks(line, '\n'),
    ensures
        line.len() > 0 ==> text::lines_of(line) == seq![line],
        line.len() == 0 ==> text::lines_of(line).len() == 0,
{
    if line.len() > 0 {
        let nl = seq!['\n'];
        text::lemma_find_from(line, nl, 0);
        match text::find_from(line, nl, 0) {
            Some(j) => {
                assert(line.subrange(j, j + 1)[0] == line[j]);
            },
            None => {},
        }
        assert(line.skip(0) =~= line);
    }
}

/// The end of a list of lines: no more than asked for, all where there are fewer, and the last
/// ones in their order.
pub proof fn law_tail_is_the_end(lines: Seq<Seq<char>>, n: nat, k: int)
    ensures
        ({
            let t = slice::tail(lines, n);
            &&& t.len() == if lines.len() < n {
                lines.len()
            } else {
                n
            }
            &&& 0 <= k < t.len() ==> t[k] == lines[lines.len() - t.len() + k]
        }),
{
}

/// Trimming takes away the white space around a text and nothing else.
pub proof fn law_trimmed(before: Seq<char>, s: Seq<char>, after: Seq<char>)
    requires
        s.len() > 0,
        !text::is_white(s[0]),
        !text::is_white(s.last()),
        forall|k: int| 0 <= k < before.len() ==> text::is_white(#[trigger] before[k]),
        forall|k: int| 0 <= k < after.len() ==> text::is_white(#[trigger] after[k]),
    ensures
        text::trim(before + s + after) == s,
{
    let t = before + s + after;
    let n = before.len() as int;
    assert forall|k: int| 0 <= k < n implies CharClass::White.has(#[trigger] t[k]) == true by {
        assert(t[k] == before[k]);
    }
    assert(t[n] == s[0]);
    text::lemma_run_is(t, 0, n, CharClass::White, true);
    assert(t.skip(n) =~= s + after);
    lemma_trim_end(s, after);
}

proof fn lemma_trim_end(s: Seq<char>, after: Seq<char>)
    requires
        s.len() > 0,
        !text::is_white(s.last()),
        forall|k: int| 0 <= k < after.len() ==> text::is_white(#[trigger] after[k]),
    ensures
        text::trim_end(s + after) == s,
    decreases after.len(),
{
    let t = s + after;
    if after.len() == 0 {
        assert(t =~= s);
    } else {
        assert(t.last() == after[after.len() - 1]);
        assert(t.drop_last() =~= s + after.drop_last());
        assert forall|k: int| 0 <= k < after.drop_last().len() implies text::is_white(
            #[trigger] after.drop_last()[k],
        ) by {
            assert(after.drop_last()[k] == after[k]);
        }
        lemma_trim_end(s, after.drop_last());
    }
}

/// A word keeps its place and its letters when it is made small.
pub proof fn law_small_letters(s: Seq<char>, i: int)
    requires
        0 <= i < s.len(),
    ensures
        text::ascii_lower(s).len() == s.len(),
        'A' <= s[i] <= 'Z' ==> text::ascii_lower(s)[i] as u32 == s[i] as u32 + 32,
        !('A' <= s[i] <= 'Z') ==> text::ascii_lower(s)[i] == s[i],
        text::ascii_lower(text::ascii_lower(s)) == text::ascii_lower(s),
{
    assert(text::ascii_lower(text::ascii_lower(s)) =~= text::ascii_lower(s));
}

/// What is made small is found wherever it stood, in whatever letters.
pub proof fn law_found_in_any_letters(before: Seq<char>, word: Seq<char>, after: Seq<char>)
    ensures
        text::contains(text::ascii_lower(before + word + after), text::ascii_lower(word)),
{
    let s = text::ascii_lower(before + word + after);
    let w = text::ascii_lower(word);
    let n = before.len() as int;
    assert(s.subrange(n, n + w.len()) =~= w);
    assert(text::occurs_at(s, w, n));
    text::lemma_find_from(s, w, 0);
}

/// The directory of the scripts is what the environment says, where it says something; else where
/// the program was built; else where it runs.
pub proof fn law_scripts_place(
    env: Seq<char>,
    built: Seq<char>,
    current: Option<Seq<char>>,
    other: Option<Seq<char>>,
)
    requires
        env.len() > 0,
    ensures
        paths::scripts_place(Some(env), other, current) == env,
        paths::scripts_place(None, Some(built), current) == built,
        paths::scripts_place(Some(Seq::empty()), Some(built), current) == built,
        paths::scripts_place(None, None, Some(built)) == built,
{
}

/// The offset behind a text is the number of bytes that it takes in a file.
pub proof fn law_offset_is_byte_length(s: Seq<char>)
    ensures
        handover::bytes_upto(s, s.len() as int) == vstd::utf8::encode_utf8(s).len(),
    decreases s.len(),
{
    if s.len() > 0 {
        law_offset_is_byte_length(s.drop_first());
        lemma_bytes_behind_first(s, s.len() as int);
        vstd::utf8::char_is_scalar(s[0]);
    }
}

proof fn lemma_bytes_behind_first(s: Seq<char>, n: int)
    requires
        1 <= n <= s.len(),
    ensures
        handover::bytes_upto(s, n) == handover::utf8_len(s[0]) + handover::bytes_upto(
            s.drop_first(),
            n - 1,
        ),
    decreases n,
{
    if n > 1 {
        lemma_bytes_behind_first(s, n - 1);
        assert(s.drop_first()[n - 2] == s[n - 1]);
    } else {
        assert(handover::bytes_upto(s, 0) == 0);
        assert(handover::bytes_upto(s.drop_first(), 0) == 0);
    }
}

/// What stands behind the last mark of a text is found, whatever stands before it.
pub proof fn law_behind_last(before: Seq<char>, mark: Seq<char>, rest: Seq<char>)
    requires
        mark.len() > 0,
        forall|k: int|
            before.len() < k ==> !#[trigger] text::occurs_at(before + mark + rest, mark, k),
    ensures
        text::after_last(before + mark + rest, mark) == rest,
{
    let s = before + mark + rest;
    let n = before.len() as int;
    assert(s.subrange(n, n + mark.len()) =~= mark);
    lemma_last_at(s, mark, s.len() - mark.len(), n);
    assert(s.skip(n + mark.len()) =~= rest);
}

proof fn lemma_last_at(s: Seq<char>, mark: Seq<char>, i: int, n: int)
    requires
        0 <= n <= i,
        text::occurs_at(s, mark, n),
        forall|k: int| n < k <= i ==> !#[trigger] text::occurs_at(s, mark, k),
    ensures
        text::rfind_upto(s, mark, i) == Some(n),
    decreases i,
{
    if i > n {
        assert(!text::occurs_at(s, mark, i));
        lemma_last_at(s, mark, i - 1, n);
    }
}

/// A text without the mark stays as it is.
pub proof fn law_nothing_behind(s: Seq<char>, mark: Seq<char>)
    requires
        !text::contains(s, mark),
    ensures
        text::after_last(s, mark) == s,
        text::after_first(s, mark) is None,
{
    text::lemma_find_from(s, mark, 0);
    lemma_never(s, mark, s.len() - mark.len());
}

proof fn lemma_never(s: Seq<char>, mark: Seq<char>, i: int)
    requires
        forall|k: int| 0 <= k ==> !text::occurs_at(s, mark, k),
    ensures
        text::rfind_upto(s, mark, i) is None,
    decreases i + 1,
{
    if i >= 0 {
        lemma_never(s, mark, i - 1);
    }
}

/// A mark that stands in a text so many times over, one behind the other, is counted so often.
pub proof fn law_marks_are_counted(mark: Seq<char>, n: nat)
    requires
        mark.len() > 0,
    ensures
        text::count_from(times(mark, n), mark, 0) == n,
{
    lemma_count_times(mark, n);
}

/// A mark so many times over.
pub open spec fn times(mark: Seq<char>, n: nat) -> Seq<char>
    decreases n,
{
    if n == 0 {
        seq![]
    } else {
        mark + times(mark, (n - 1) as nat)
    }
}

proof fn lemma_count_times(mark: Seq<char>, n: nat)
    requires
        mark.len() > 0,
    ensures
        text::count_from(times(mark, n), mark, 0) == n,
    decreases n,
{
    let s = times(mark, n);
    if n == 0 {
        text::lemma_find_from(s, mark, 0);
    } else {
        let rest = times(mark, (n - 1) as nat);
        assert(s.subrange(0, mark.len() as int) =~= mark);
        text::lemma_find_is(s, mark, 0, 0);
        lemma_count_times(mark, (n - 1) as nat);
        lemma_count_shift(mark, rest, mark, 0);
    }
}

proof fn lemma_count_shift(a: Seq<char>, b: Seq<char>, pat: Seq<char>, i: int)
    requires
        pat.len() > 0,
        0 <= i <= b.len(),
    ensures
        text::count_from(a + b, pat, a.len() + i) == text::count_from(b, pat, i),
    decreases b.len() - i,
{
    lemma_find_shift(a, b, pat, i);
    text::lemma_find_from(b, pat, i);
    match text::find_from(b, pat, i) {
        Some(j) => {
            lemma_count_shift(a, b, pat, j + pat.len());
        },
        None => {},
    }
}

} // verus!
