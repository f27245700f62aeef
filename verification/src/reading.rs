//! Reading texts back: what stands between separators, behind a key, or in a column.

use vstd::prelude::*;

use crate::text;
use crate::text::CharClass;

verus! {

/// The parts of a text between its separators: always one more than there are separators.
pub open spec fn split(s: Seq<char>, sep: char) -> Seq<Seq<char>>
    decreases s.len(),
{
    if s.len() == 0 {
        seq![seq![]]
    } else {
        let before = split(s.drop_last(), sep);
        if s.last() == sep {
            before.push(seq![])
        } else {
            before.drop_last().push(before.last().push(s.last()))
        }
    }
}

/// A text without a character.
pub open spec fn lacks(s: Seq<char>, c: char) -> bool {
    forall|i: int| 0 <= i < s.len() ==> #[trigger] s[i] != c
}

pub proof fn lemma_split_plain(b: Seq<char>, sep: char)
    requires
        lacks(b, sep),
    ensures
        split(b, sep) =~~= seq![b],
    decreases b.len(),
{
    if b.len() > 0 {
        let d = b.drop_last();
        assert forall|i: int| 0 <= i < d.len() implies #[trigger] d[i] != sep by {
            assert(d[i] == b[i]);
        }
        lemma_split_plain(d, sep);
        assert(b[b.len() - 1] != sep);
        assert(split(b, sep) =~~= seq![d.push(b.last())]);
        assert(d.push(b.last()) =~= b);
    }
}

pub proof fn lemma_split_behind(a: Seq<char>, b: Seq<char>, sep: char)
    requires
        lacks(b, sep),
    ensures
        split(a + seq![sep] + b, sep) == split(a, sep).push(b),
    decreases b.len(),
{
    let s = a + seq![sep] + b;
    if b.len() == 0 {
        assert(s.drop_last() =~= a);
        assert(s.last() == sep);
        assert(b =~= Seq::<char>::empty());
    } else {
        let d = b.drop_last();
        assert forall|i: int| 0 <= i < d.len() implies #[trigger] d[i] != sep by {
            assert(d[i] == b[i]);
        }
        lemma_split_behind(a, d, sep);
        assert(s.drop_last() =~= a + seq![sep] + d);
        assert(s.last() == b[b.len() - 1]);
        let before = split(a + seq![sep] + d, sep);
        assert(before.drop_last() =~= split(a, sep));
        assert(before.last() == d);
        assert(d.push(b.last()) =~= b);
    }
}

/// The parts that were joined by a separator, which none of them holds, are split again.
pub proof fn lemma_split_joined(parts: Seq<Seq<char>>, n: int)
    requires
        1 <= n <= parts.len(),
        forall|i: int| 0 <= i < parts.len() ==> lacks(#[trigger] parts[i], ','),
    ensures
        split(text::joined_upto(parts, ","@, n), ',') == parts.take(n),
    decreases n,
{
    reveal_strlit(",");
    if n == 1 {
        lemma_split_plain(parts[0], ',');
        assert(seq![parts[0]] =~= parts.take(1));
    } else {
        lemma_split_joined(parts, n - 1);
        assert(","@ =~= seq![',']);
        lemma_split_behind(text::joined_upto(parts, ","@, n - 1), parts[n - 1], ',');
        assert(parts.take(n - 1).push(parts[n - 1]) =~= parts.take(n));
    }
}

/// What stands behind the first of a key, up to the next white space.
pub open spec fn setting(s: Seq<char>, key: Seq<char>) -> Option<Seq<char>> {
    match text::after_first(s, key) {
        Some(rest) => Some(text::leading(rest, CharClass::NonWhite)),
        None => None,
    }
}

/// Every character is none of white space.
pub open spec fn unbroken(s: Seq<char>) -> bool {
    forall|i: int| 0 <= i < s.len() ==> !text::is_white(#[trigger] s[i])
}

#[verifier::spinoff_prover]
#[verifier::rlimit(50)]
pub proof fn lemma_setting(before: Seq<char>, key: Seq<char>, value: Seq<char>, after: Seq<char>)
    requires
        unbroken(value),
        after.len() > 0 ==> text::is_white(after[0]),
        forall|p: int|
            0 <= p < before.len() ==> !#[trigger] text::occurs_at(
                before + key + value + after,
                key,
                p,
            ),
    ensures
        setting(before + key + value + after, key) == Some(value),
{
    let s = before + key + value + after;
    let n = before.len() as int;
    assert(s.subrange(n, n + key.len()) =~= key);
    assert(text::occurs_at(s, key, n));
    text::lemma_find_is(s, key, 0, n);
    let rest = s.skip(n + key.len());
    assert(rest =~= value + after);
    assert forall|k: int| 0 <= k < value.len() implies CharClass::NonWhite.has(#[trigger] rest[k])
        == true by {
        assert(rest[k] == value[k]);
    }
    if value.len() < rest.len() {
        assert(rest[value.len() as int] == after[0]);
    }
    text::lemma_run_is(rest, 0, value.len() as int, CharClass::NonWhite, true);
    assert(rest.take(value.len() as int) =~= value);
}

proof fn lemma_zeros(n: nat)
    ensures
        text::value_of(text::repeat('0', n), 10) == 0,
        text::all_digits(text::repeat('0', n), 10),
    decreases n,
{
    if n > 0 {
        lemma_zeros((n - 1) as nat);
        assert(text::repeat('0', n).drop_last() =~= text::repeat('0', (n - 1) as nat));
    }
}

proof fn lemma_value_behind_zeros(n: nat, s: Seq<char>)
    ensures
        text::value_of(text::repeat('0', n) + s, 10) == text::value_of(s, 10),
    decreases s.len(),
{
    let z = text::repeat('0', n);
    if s.len() == 0 {
        lemma_zeros(n);
        assert(z + s =~= z);
    } else {
        lemma_value_behind_zeros(n, s.drop_last());
        assert((z + s).drop_last() =~= z + s.drop_last());
        assert((z + s).last() == s.last());
    }
}

/// A number that was filled up with zeros is read back.
pub proof fn law_number_of_padded(n: nat, width: nat, max: nat)
    requires
        n <= max,
    ensures
        text::number(text::pad_left(text::dec(n), '0', width), 10, max) == Some(n),
{
    let d = text::dec(n);
    let p = text::pad_left(d, '0', width);
    text::lemma_written(n, 10);
    text::law_number_of_dec(n, max);
    if d.len() < width {
        let z = (width - d.len()) as nat;
        lemma_value_behind_zeros(z, d);
        assert(p[0] == '0');
        assert forall|i: int| 0 <= i < p.len() implies text::is_digit_of(#[trigger] p[i], 10) by {
            if i >= z {
                assert(p[i] == d[i - z]);
            }
        }
    }
}

/// Digits are neither separators nor white space.
pub proof fn lemma_digits(n: nat)
    ensures
        text::dec(n).len() > 0,
        lacks(text::dec(n), ','),
        lacks(text::dec(n), '='),
        lacks(text::dec(n), ':'),
        unbroken(text::dec(n)),
        forall|i: int| 0 <= i < text::dec(n).len() ==> text::is_digit(#[trigger] text::dec(n)[i]),
{
    text::lemma_written(n, 10);
    let d = text::dec(n);
    assert forall|i: int| 0 <= i < d.len() implies text::is_digit(#[trigger] d[i]) by {
        assert(text::is_digit_of(d[i], 10));
    }
}

/// A line holds a value in the column that starts at `at`: the value and then spaces.
pub open spec fn in_column(line: Seq<char>, at: int, width: int, value: Seq<char>) -> bool {
    &&& 0 <= at
    &&& at + width <= line.len()
    &&& value.len() <= width
    &&& line.subrange(at, at + value.len()) == value
    &&& forall|k: int| at + value.len() <= k < at + width ==> #[trigger] line[k] == ' '
}

pub proof fn lemma_in_column(before: Seq<char>, value: Seq<char>, width: nat, after: Seq<char>)
    requires
        value.len() <= width,
    ensures
        in_column(
            before + text::pad_right(value, width) + after,
            before.len() as int,
            width as int,
            value,
        ),
{
    let line = before + text::pad_right(value, width) + after;
    let at = before.len() as int;
    assert(line.subrange(at, at + value.len()) =~= value);
    assert forall|k: int| at + value.len() <= k < at + width implies #[trigger] line[k] == ' ' by {
        assert(line[k] == text::pad_right(value, width)[k - at]);
    }
}

/// A key that ends in an equals sign is not found in front of where it stands, where every equals
/// sign there follows another character than the key's.
#[verifier::spinoff_prover]
#[verifier::rlimit(50)]
pub proof fn lemma_setting_behind(
    before: Seq<char>,
    key: Seq<char>,
    value: Seq<char>,
    after: Seq<char>,
)
    requires
        unbroken(value),
        after.len() > 0 ==> text::is_white(after[0]),
        key.len() >= 2,
        key.last() == '=',
        lacks(key.drop_last(), '='),
        forall|q: int|
            0 <= q < before.len() && #[trigger] before[q] == '=' ==> q > 0 && before[q - 1]
                != key[key.len() - 2],
    ensures
        setting(before + key + value + after, key) == Some(value),
{
    let s = before + key + value + after;
    let n = key.len() as int;
    assert forall|p: int| 0 <= p < before.len() implies !#[trigger] text::occurs_at(s, key, p) by {
        if text::occurs_at(s, key, p) {
            let e = p + n - 1;
            assert(s.subrange(p, p + n)[n - 1] == s[e]);
            assert(s.subrange(p, p + n)[n - 2] == s[e - 1]);
            assert(s[e] == '=');
            if e < before.len() {
                assert(before[e] == '=');
                assert(s[e - 1] == before[e - 1]);
            } else {
                assert(s[e] == key[e - before.len()]);
                assert(key.drop_last()[e - before.len()] == '=');
            }
        }
    }
    lemma_setting(before, key, value, after);
}

/// A key is not found in front of where it stands, where its second character does not occur
/// there.
#[verifier::spinoff_prover]
#[verifier::rlimit(50)]
pub proof fn lemma_setting_fresh(
    before: Seq<char>,
    key: Seq<char>,
    value: Seq<char>,
    after: Seq<char>,
)
    requires
        unbroken(value),
        after.len() > 0 ==> text::is_white(after[0]),
        key.len() >= 2,
        key[0] != key[1],
        lacks(before, key[1]),
    ensures
        setting(before + key + value + after, key) == Some(value),
{
    let s = before + key + value + after;
    let n = key.len() as int;
    assert forall|p: int| 0 <= p < before.len() implies !#[trigger] text::occurs_at(s, key, p) by {
        if text::occurs_at(s, key, p) {
            assert(s.subrange(p, p + n)[1] == s[p + 1]);
            if p + 1 < before.len() {
                assert(s[p + 1] == before[p + 1]);
            } else {
                assert(s[p + 1] == key[0]);
            }
        }
    }
    lemma_setting(before, key, value, after);
}

// ---------------------------------------------------------------------------
// Words
// ---------------------------------------------------------------------------

proof fn lemma_run_shift(a: Seq<char>, b: Seq<char>, i: int, class: CharClass, inside: bool)
    requires
        0 <= i <= b.len(),
    ensures
        text::run_end(a + b, a.len() + i, class, inside) == a.len() + text::run_end(
            b,
            i,
            class,
            inside,
        ),
    decreases b.len() - i,
{
    if i < b.len() {
        assert((a + b)[a.len() + i] == b[i]);
        if class.has(b[i]) == inside {
            lemma_run_shift(a, b, i + 1, class, inside);
        }
    }
}

#[verifier::spinoff_prover]
#[verifier::rlimit(50)]
proof fn lemma_tokens_shift(a: Seq<char>, b: Seq<char>, i: int, class: CharClass)
    requires
        0 <= i <= b.len(),
    ensures
        text::tokens_from(a + b, a.len() + i, class) == text::tokens_from(b, i, class),
    decreases b.len() - i,
{
    let s = a + b;
    text::lemma_run_end(b, i, class, false);
    let x = text::run_end(b, i, class, false);
    text::lemma_run_end(b, x, class, true);
    let y = text::run_end(b, x, class, true);
    lemma_run_shift(a, b, i, class, false);
    lemma_run_shift(a, b, x, class, true);
    if i <= x < y <= b.len() {
        lemma_tokens_shift(a, b, y, class);
        assert(s.subrange(a.len() + x, a.len() + y) =~= b.subrange(x, y));
    }
}

/// A word at the start of a text is its first one, and the others are those behind it.
#[verifier::spinoff_prover]
#[verifier::rlimit(50)]
pub proof fn lemma_first_word(word: Seq<char>, rest: Seq<char>)
    requires
        word.len() > 0,
        unbroken(word),
        rest.len() > 0 ==> text::is_white(rest[0]),
    ensures
        text::tokens(word + rest, CharClass::NonWhite) == seq![word] + text::tokens(
            rest,
            CharClass::NonWhite,
        ),
{
    let s = word + rest;
    let n = word.len() as int;
    assert(s[0] == word[0]);
    text::lemma_run_is(s, 0, 0, CharClass::NonWhite, false);
    assert forall|k: int| 0 <= k < n implies CharClass::NonWhite.has(#[trigger] s[k]) == true by {
        assert(s[k] == word[k]);
    }
    if n < s.len() {
        assert(s[n] == rest[0]);
    }
    text::lemma_run_is(s, 0, n, CharClass::NonWhite, true);
    assert(s.subrange(0, n) =~= word);
    lemma_tokens_shift(word, rest, 0, CharClass::NonWhite);
}

/// White space at the start of a text is no part of its words.
#[verifier::spinoff_prover]
#[verifier::rlimit(50)]
pub proof fn lemma_words_behind(gap: Seq<char>, rest: Seq<char>)
    requires
        forall|k: int| 0 <= k < gap.len() ==> text::is_white(#[trigger] gap[k]),
    ensures
        text::tokens(gap + rest, CharClass::NonWhite) == text::tokens(rest, CharClass::NonWhite),
{
    let s = gap + rest;
    let n = gap.len() as int;
    let class = CharClass::NonWhite;
    text::lemma_run_end(rest, 0, class, false);
    let x = text::run_end(rest, 0, class, false);
    assert forall|k: int| 0 <= k < n + x implies class.has(#[trigger] s[k]) == false by {
        if k < n {
            assert(s[k] == gap[k]);
        } else {
            assert(s[k] == rest[k - n]);
        }
    }
    if n + x < s.len() {
        assert(s[n + x] == rest[x]);
    }
    text::lemma_run_is(s, 0, n + x, class, false);
    lemma_run_shift(gap, rest, x, class, true);
    text::lemma_run_end(rest, x, class, true);
    let y = text::run_end(rest, x, class, true);
    if x < y {
        assert(s.subrange(n + x, n + y) =~= rest.subrange(x, y));
        lemma_tokens_shift(gap, rest, y, class);
    }
}

/// A text of words with one space between each two has these words.
#[verifier::spinoff_prover]
#[verifier::rlimit(50)]
pub proof fn lemma_words_of(words: Seq<Seq<char>>)
    requires
        words.len() > 0,
        forall|i: int| 0 <= i < words.len() ==> (#[trigger] words[i]).len() > 0 && unbroken(words[i]),
    ensures
        text::tokens(spaced(words), CharClass::NonWhite) == words,
    decreases words.len(),
{
    reveal_strlit(" ");
    let none = Seq::<char>::empty();
    assert(words[0].len() > 0);
    if words.len() == 1 {
        lemma_first_word(words[0], none);
        assert(words[0] + none =~= words[0]);
        assert(text::tokens(none, CharClass::NonWhite) =~= Seq::<Seq<char>>::empty());
        assert(words =~= seq![words[0]]);
    } else {
        let rest = words.skip(1);
        assert forall|i: int| 0 <= i < rest.len() implies (#[trigger] rest[i]).len() > 0
            && unbroken(rest[i]) by {
            assert(rest[i] == words[i + 1]);
        }
        lemma_words_of(rest);
        lemma_words_behind(" "@, spaced(rest));
        lemma_first_word(words[0], " "@ + spaced(rest));
        assert(spaced(words) =~= words[0] + (" "@ + spaced(rest)));
        assert(words =~= seq![words[0]] + rest);
    }
}

/// Words with one space between each two.
pub open spec fn spaced(words: Seq<Seq<char>>) -> Seq<char>
    decreases words.len(),
{
    if words.len() == 0 {
        seq![]
    } else if words.len() == 1 {
        words[0]
    } else {
        words[0] + " "@ + spaced(words.skip(1))
    }
}

} // verus!
