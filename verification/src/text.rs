//! Text as character sequences: searching, splitting, number reading and number writing.

use vstd::prelude::*;

verus! {

/// `String::push` appends one character and leaves the earlier ones as they were.
pub assume_specification[ String::push ](s: &mut String, c: char)
    ensures
        final(s)@ == old(s)@.push(c),
;

/// A class of characters that a scan runs over.
#[derive(Clone, Copy)]
pub enum CharClass {
    /// ASCII decimal digits.
    Digit,
    /// ASCII hexadecimal digits and the `x` of a `0x` prefix.
    HexOrX,
    /// The characters of a dotted address.
    DigitOrDot,
    /// The characters of a decimal number with an exponent.
    NumberText,
    /// Unicode white space.
    White,
    /// Everything but Unicode white space.
    NonWhite,
    /// Everything but `/`.
    NonSlash,
    /// What a `key=value` field of a log line may hold.
    FieldValue,
}

pub open spec fn is_digit(c: char) -> bool {
    '0' <= c <= '9'
}

pub open spec fn is_hex_digit(c: char) -> bool {
    is_digit(c) || 'a' <= c <= 'f' || 'A' <= c <= 'F'
}

/// Unicode's White_Space property.
pub open spec fn is_white(c: char) -> bool {
    let u = c as u32;
    ||| 0x9 <= u <= 0xd
    ||| u == 0x20
    ||| u == 0x85
    ||| u == 0xa0
    ||| u == 0x1680
    ||| 0x2000 <= u <= 0x200a
    ||| u == 0x2028
    ||| u == 0x2029
    ||| u == 0x202f
    ||| u == 0x205f
    ||| u == 0x3000
}

impl CharClass {
    pub open spec fn has(self, c: char) -> bool {
        match self {
            CharClass::Digit => is_digit(c),
            CharClass::HexOrX => is_hex_digit(c) || c == 'x' || c == 'X',
            CharClass::DigitOrDot => is_digit(c) || c == '.',
            CharClass::NumberText => is_digit(c) || c == '.' || c == 'e' || c == 'E' || c == '+' || c == '-',
            CharClass::White => is_white(c),
            CharClass::NonWhite => !is_white(c),
            CharClass::NonSlash => c != '/',
            CharClass::FieldValue => c != ' ' && c != ']' && c != '%' && c != '\t',
        }
    }

    pub fn includes(self, c: char) -> (r: bool)
        ensures
            r == self.has(c),
    {
        let digit = c >= '0' && c <= '9';
        match self {
            CharClass::Digit => digit,
            CharClass::HexOrX => digit || (c >= 'a' && c <= 'f') || (c >= 'A' && c <= 'F')
                || c == 'x' || c == 'X',
            CharClass::DigitOrDot => digit || c == '.',
            CharClass::NumberText => digit || c == '.' || c == 'e' || c == 'E' || c == '+' || c == '-',
            CharClass::White => white(c),
            CharClass::NonWhite => !white(c),
            CharClass::NonSlash => c != '/',
            CharClass::FieldValue => c != ' ' && c != ']' && c != '%' && c != '\t',
        }
    }
}

fn white(c: char) -> (r: bool)
    ensures
        r == is_white(c),
{
    let u: u32 = c as u32;
    (u >= 0x9 && u <= 0xd) || u == 0x20 || u == 0x85 || u == 0xa0 || u == 0x1680
        || (u >= 0x2000 && u <= 0x200a) || u == 0x2028 || u == 0x2029 || u == 0x202f
        || u == 0x205f || u == 0x3000
}

/// The characters of a string, as a vector.
pub fn chars_of(s: &str) -> (r: Vec<char>)
    ensures
        r@ == s@,
{
    let mut v: Vec<char> = Vec::new();
    for c in it: s.chars()
        invariant
            v@ == it.seq().take(it.index() as int),
    {
        v.push(c);
    }
    assert(v@ == s@);
    v
}

/// The string made of some characters.
pub fn string_of(s: &[char]) -> (r: String)
    ensures
        r@ == s@,
{
    let mut out = String::new();
    let mut i: usize = 0;
    while i < s.len()
        invariant
            i <= s.len(),
            out@ == s@.take(i as int),
        decreases s.len() - i,
    {
        out.push(s[i]);
        i = i + 1;
        assert(s@.take(i as int) == s@.take(i - 1).push(s@[i - 1]));
    }
    assert(s@.take(i as int) == s@);
    out
}

// ---------------------------------------------------------------------------
// Searching
// ---------------------------------------------------------------------------

/// `pat` stands in `s` at position `i`.
pub open spec fn occurs_at(s: Seq<char>, pat: Seq<char>, i: int) -> bool {
    0 <= i && i + pat.len() <= s.len() && s.subrange(i, i + pat.len()) == pat
}

/// The first position from `i` on at which `pat` occurs.
pub open spec fn find_from(s: Seq<char>, pat: Seq<char>, i: int) -> Option<int>
    decreases s.len() + 1 - i,
{
    if i < 0 || i + pat.len() > s.len() {
        None
    } else if occurs_at(s, pat, i) {
        Some(i)
    } else {
        find_from(s, pat, i + 1)
    }
}

pub open spec fn contains(s: Seq<char>, pat: Seq<char>) -> bool {
    find_from(s, pat, 0) is Some
}

pub open spec fn starts_with(s: Seq<char>, pat: Seq<char>) -> bool {
    occurs_at(s, pat, 0)
}

/// The last position up to `i` at which `pat` occurs.
pub open spec fn rfind_upto(s: Seq<char>, pat: Seq<char>, i: int) -> Option<int>
    decreases i + 1,
{
    if i < 0 {
        None
    } else if occurs_at(s, pat, i) {
        Some(i)
    } else {
        rfind_upto(s, pat, i - 1)
    }
}

pub open spec fn rfind(s: Seq<char>, pat: Seq<char>) -> Option<int> {
    rfind_upto(s, pat, s.len() - pat.len())
}

/// What stands behind the last `pat`, or all of `s` where there is none.
pub open spec fn after_last(s: Seq<char>, pat: Seq<char>) -> Seq<char> {
    match rfind(s, pat) {
        Some(i) => s.skip(i + pat.len()),
        None => s,
    }
}

/// How often `pat` occurs from `i` on, counting occurrences that do not overlap.
pub open spec fn count_from(s: Seq<char>, pat: Seq<char>, i: int) -> nat
    decreases s.len() - i,
    when 0 <= i && pat.len() > 0
{
    match find_from(s, pat, i) {
        Some(j) => if i <= j && j + pat.len() <= s.len() {
            1 + count_from(s, pat, j + pat.len())
        } else {
            0
        },
        None => 0,
    }
}

/// A found position is the first one that matches; nothing is found exactly where nothing matches.
pub proof fn lemma_find_from(s: Seq<char>, pat: Seq<char>, i: int)
    requires
        0 <= i,
    ensures
        match find_from(s, pat, i) {
            Some(j) => i <= j && occurs_at(s, pat, j) && forall|k: int|
                i <= k < j ==> !occurs_at(s, pat, k),
            None => forall|k: int| i <= k ==> !occurs_at(s, pat, k),
        },
    decreases s.len() + 1 - i,
{
    if i + pat.len() <= s.len() && !occurs_at(s, pat, i) {
        lemma_find_from(s, pat, i + 1);
    }
}

/// The first match is where it is shown to be.
pub proof fn lemma_find_is(s: Seq<char>, pat: Seq<char>, i: int, j: int)
    requires
        0 <= i <= j,
        occurs_at(s, pat, j),
        forall|k: int| i <= k < j ==> !occurs_at(s, pat, k),
    ensures
        find_from(s, pat, i) == Some(j),
{
    lemma_find_from(s, pat, i);
}

/// `pat` stands in `s` at position `i`.
pub fn matches_at(s: &[char], pat: &[char], i: usize) -> (r: bool)
    ensures
        r == occurs_at(s@, pat@, i as int),
{
    if pat.len() > s.len() || i > s.len() - pat.len() {
        return false;
    }
    let mut k: usize = 0;
    while k < pat.len()
        invariant
            k <= pat.len(),
            i + pat.len() <= s.len(),
            forall|j: int| 0 <= j < k ==> s@[i + j] == pat@[j],
        decreases pat.len() - k,
    {
        if s[i + k] != pat[k] {
            assert(s@.subrange(i as int, i + pat.len())[k as int] != pat@[k as int]);
            return false;
        }
        k = k + 1;
    }
    assert(s@.subrange(i as int, i + pat.len()) == pat@);
    true
}

/// The first position from `from` on at which `pat` occurs.
pub fn find_pat(s: &[char], pat: &[char], from: usize) -> (r: Option<usize>)
    ensures
        match r {
            Some(j) => find_from(s@, pat@, from as int) == Some(j as int) && from <= j
                && j + pat.len() <= s.len(),
            None => find_from(s@, pat@, from as int) is None,
        },
{
    if pat.len() > s.len() {
        return None;
    }
    let last: usize = s.len() - pat.len();
    let mut i: usize = from;
    while i <= last
        invariant
            from <= i,
            last == s.len() - pat.len(),
            find_from(s@, pat@, from as int) == find_from(s@, pat@, i as int),
        decreases last + 1 - i,
    {
        if matches_at(s, pat, i) {
            return Some(i);
        }
        if i == last {
            assert(find_from(s@, pat@, last + 1) is None);
            return None;
        }
        i = i + 1;
    }
    None
}

/// The first position at which the text `pat` occurs.
pub fn find(s: &[char], pat: &str) -> (r: Option<usize>)
    ensures
        match r {
            Some(j) => find_from(s@, pat@, 0) == Some(j as int) && j + pat@.len() <= s.len(),
            None => find_from(s@, pat@, 0) is None,
        },
{
    let p = chars_of(pat);
    find_pat(s, p.as_slice(), 0)
}

pub fn has(s: &[char], pat: &str) -> (r: bool)
    ensures
        r == contains(s@, pat@),
{
    match find(s, pat) {
        Some(_) => true,
        None => false,
    }
}

pub fn has_prefix(s: &[char], pat: &str) -> (r: bool)
    ensures
        r == starts_with(s@, pat@),
{
    let p = chars_of(pat);
    matches_at(s, p.as_slice(), 0)
}

/// The characters are those of `pat`.
pub fn is_text(s: &[char], pat: &str) -> (r: bool)
    ensures
        r == (s@ == pat@),
{
    let p = chars_of(pat);
    if p.len() != s.len() {
        return false;
    }
    assert(s@.subrange(0, s@.len() as int) == s@);
    matches_at(s, p.as_slice(), 0)
}

/// Two strings hold the same characters.
pub fn same_text(a: &str, b: &str) -> (r: bool)
    ensures
        r == (a@ == b@),
{
    let s = chars_of(a);
    is_text(s.as_slice(), b)
}

/// What follows the first `pat`, where there is one.
pub open spec fn after_first(s: Seq<char>, pat: Seq<char>) -> Option<Seq<char>> {
    match find_from(s, pat, 0) {
        Some(i) => Some(s.skip(i + pat.len())),
        None => None,
    }
}

/// The characters of `s` from `i` on.
pub fn from_index(s: &[char], i: usize) -> (r: &[char])
    requires
        i <= s.len(),
    ensures
        r@ == s@.skip(i as int),
{
    vstd::slice::slice_subrange(s, i, s.len())
}

/// What follows the first `pat`, where there is one.
pub fn text_after<'a>(s: &'a [char], pat: &str) -> (r: Option<&'a [char]>)
    ensures
        match r {
            Some(t) => after_first(s@, pat@) == Some(t@),
            None => after_first(s@, pat@) is None,
        },
{
    let p = chars_of(pat);
    match find_pat(s, p.as_slice(), 0) {
        Some(i) => Some(from_index(s, i + p.len())),
        None => None,
    }
}

/// The text without the prefix `pat`, where it has it.
pub open spec fn without_prefix(s: Seq<char>, pat: Seq<char>) -> Option<Seq<char>> {
    if starts_with(s, pat) {
        Some(s.skip(pat.len() as int))
    } else {
        None
    }
}

/// The text without the prefix `pat`, where it has it.
pub fn strip_prefix<'a>(s: &'a [char], pat: &str) -> (r: Option<&'a [char]>)
    ensures
        match r {
            Some(t) => without_prefix(s@, pat@) == Some(t@),
            None => without_prefix(s@, pat@) is None,
        },
{
    let p = chars_of(pat);
    if matches_at(s, p.as_slice(), 0) {
        Some(from_index(s, p.len()))
    } else {
        None
    }
}

/// What stands behind the last `pat`, or all of `s` where there is none.
pub fn behind_last<'a>(s: &'a [char], pat: &str) -> (r: &'a [char])
    ensures
        r@ == after_last(s@, pat@),
{
    let p = chars_of(pat);
    if p.len() > s.len() {
        return s;
    }
    let mut i: usize = s.len() - p.len();
    loop
        invariant
            p@ == pat@,
            i + p.len() <= s.len(),
            rfind(s@, pat@) == rfind_upto(s@, pat@, i as int),
        decreases i,
    {
        if matches_at(s, p.as_slice(), i) {
            return from_index(s, i + p.len());
        }
        if i == 0 {
            assert(rfind_upto(s@, pat@, -1) is None);
            return s;
        }
        i = i - 1;
    }
}

/// How often `pat` occurs, counting occurrences that do not overlap.
pub fn count_of(s: &[char], pat: &str) -> (r: usize)
    requires
        pat@.len() > 0,
    ensures
        r == count_from(s@, pat@, 0),
{
    let p = chars_of(pat);
    let mut n: usize = 0;
    let mut i: usize = 0;
    while i < s.len()
        invariant
            p@ == pat@,
            p@.len() > 0,
            n <= i <= s.len(),
            n + count_from(s@, pat@, i as int) == count_from(s@, pat@, 0),
        decreases s.len() - i,
    {
        match find_pat(s, p.as_slice(), i) {
            Some(j) => {
                n = n + 1;
                i = j + p.len();
            },
            None => {
                return n;
            },
        }
    }
    n
}

// ---------------------------------------------------------------------------
// Runs, trimming and splitting
// ---------------------------------------------------------------------------

/// The end of the run that starts at `i`: of characters of `class`, or of characters outside it.
pub open spec fn run_end(s: Seq<char>, i: int, class: CharClass, inside: bool) -> int
    decreases s.len() - i,
{
    if 0 <= i < s.len() && class.has(s[i]) == inside {
        run_end(s, i + 1, class, inside)
    } else {
        i
    }
}

/// The longest prefix that is made of characters of `class`.
pub open spec fn leading(s: Seq<char>, class: CharClass) -> Seq<char> {
    s.take(run_end(s, 0, class, true))
}

pub open spec fn trim_start(s: Seq<char>) -> Seq<char> {
    s.skip(run_end(s, 0, CharClass::White, true))
}

pub open spec fn trim_end(s: Seq<char>) -> Seq<char>
    decreases s.len(),
{
    if s.len() > 0 && is_white(s.last()) {
        trim_end(s.drop_last())
    } else {
        s
    }
}

pub open spec fn trim(s: Seq<char>) -> Seq<char> {
    trim_end(trim_start(s))
}

/// The maximal runs of characters of `class` from `i` on, in order.
pub open spec fn tokens_from(s: Seq<char>, i: int, class: CharClass) -> Seq<Seq<char>>
    decreases s.len() - i,
{
    let a = run_end(s, i, class, false);
    let b = run_end(s, a, class, true);
    if i <= a < b <= s.len() {
        seq![s.subrange(a, b)] + tokens_from(s, b, class)
    } else {
        seq![]
    }
}

pub open spec fn tokens(s: Seq<char>, class: CharClass) -> Seq<Seq<char>> {
    tokens_from(s, 0, class)
}

/// A line without the carriage return at its end.
pub open spec fn without_cr(s: Seq<char>) -> Seq<char> {
    if s.len() > 0 && s.last() == '\r' {
        s.drop_last()
    } else {
        s
    }
}

/// The lines of a text from `i` on. A line feed ends a line, and so does a carriage return
/// followed by a line feed; the last line needs no ending.
pub open spec fn lines_from(s: Seq<char>, i: int) -> Seq<Seq<char>>
    decreases s.len() - i,
{
    if i < 0 || i >= s.len() {
        seq![]
    } else {
        match find_from(s, seq!['\n'], i) {
            Some(j) => if i <= j < s.len() {
                seq![without_cr(s.subrange(i, j))] + lines_from(s, j + 1)
            } else {
                seq![]
            },
            None => seq![s.skip(i)],
        }
    }
}

pub open spec fn lines_of(s: Seq<char>) -> Seq<Seq<char>> {
    lines_from(s, 0)
}

pub open spec fn ascii_lower_char(c: char) -> char {
    if 'A' <= c <= 'Z' {
        ((c as u32) + 32) as char
    } else {
        c
    }
}

pub open spec fn ascii_lower(s: Seq<char>) -> Seq<char> {
    Seq::new(s.len(), |i: int| ascii_lower_char(s[i]))
}

/// The first `n` of some texts, with `sep` between them.
pub open spec fn joined_upto(parts: Seq<Seq<char>>, sep: Seq<char>, n: int) -> Seq<char>
    decreases n,
{
    if n <= 0 {
        seq![]
    } else if n == 1 {
        parts[0]
    } else {
        joined_upto(parts, sep, n - 1) + sep + parts[n - 1]
    }
}

pub open spec fn joined(parts: Seq<Seq<char>>, sep: Seq<char>) -> Seq<char> {
    joined_upto(parts, sep, parts.len() as int)
}

/// The character sequences of some strings.
pub open spec fn texts(v: Seq<String>) -> Seq<Seq<char>> {
    Seq::new(v.len(), |i: int| v[i]@)
}

/// The character sequences of some character vectors.
pub open spec fn char_texts(v: Seq<Vec<char>>) -> Seq<Seq<char>> {
    Seq::new(v.len(), |i: int| v[i]@)
}

pub proof fn lemma_run_end(s: Seq<char>, i: int, class: CharClass, inside: bool)
    requires
        0 <= i <= s.len(),
    ensures
        i <= run_end(s, i, class, inside) <= s.len(),
        forall|k: int| i <= k < run_end(s, i, class, inside) ==> class.has(s[k]) == inside,
        run_end(s, i, class, inside) < s.len() ==> class.has(
            s[run_end(s, i, class, inside)],
        ) != inside,
    decreases s.len() - i,
{
    if i < s.len() && class.has(s[i]) == inside {
        lemma_run_end(s, i + 1, class, inside);
    }
}

/// The run ends where it is shown to.
pub proof fn lemma_run_is(s: Seq<char>, i: int, j: int, class: CharClass, inside: bool)
    requires
        0 <= i <= j <= s.len(),
        forall|k: int| i <= k < j ==> class.has(#[trigger] s[k]) == inside,
        j < s.len() ==> class.has(s[j]) != inside,
    ensures
        run_end(s, i, class, inside) == j,
{
    lemma_run_end(s, i, class, inside);
    let e = run_end(s, i, class, inside);
    if e < j {
        assert(class.has(s[e]) == inside);
    }
}

/// The end of the run that starts at `from`.
pub fn scan(s: &[char], from: usize, class: CharClass, inside: bool) -> (r: usize)
    requires
        from <= s.len(),
    ensures
        r == run_end(s@, from as int, class, inside),
        from <= r <= s.len(),
{
    let mut i: usize = from;
    while i < s.len()
        invariant
            from <= i <= s.len(),
            run_end(s@, i as int, class, inside) == run_end(s@, from as int, class, inside),
        decreases s.len() - i,
    {
        if class.includes(s[i]) != inside {
            return i;
        }
        i = i + 1;
    }
    i
}

/// The longest prefix that is made of characters of `class`.
pub fn take_leading(s: &[char], class: CharClass) -> (r: &[char])
    ensures
        r@ == leading(s@, class),
{
    let e = scan(s, 0, class, true);
    vstd::slice::slice_subrange(s, 0, e)
}

pub fn trimmed_start(s: &[char]) -> (r: &[char])
    ensures
        r@ == trim_start(s@),
{
    let e = scan(s, 0, CharClass::White, true);
    from_index(s, e)
}

pub fn trimmed(s: &[char]) -> (r: &[char])
    ensures
        r@ == trim(s@),
{
    let t = trimmed_start(s);
    let mut n: usize = t.len();
    assert(t@.take(n as int) == t@);
    while n > 0
        invariant
            n <= t.len(),
            t@ == trim_start(s@),
            trim_end(t@) == trim_end(t@.take(n as int)),
        decreases n,
    {
        if !CharClass::White.includes(t[n - 1]) {
            assert(t@.take(n as int).last() == t@[n - 1]);
            return vstd::slice::slice_subrange(t, 0, n);
        }
        assert(t@.take(n as int).drop_last() == t@.take(n - 1));
        n = n - 1;
    }
    vstd::slice::slice_subrange(t, 0, n)
}

/// The maximal runs of characters of `class`, in order.
pub fn split_tokens(s: &[char], class: CharClass) -> (r: Vec<Vec<char>>)
    ensures
        char_texts(r@) == tokens(s@, class),
{
    let mut out: Vec<Vec<char>> = Vec::new();
    let mut i: usize = 0;
    assert(char_texts(out@) + tokens_from(s@, 0, class) == tokens(s@, class));
    loop
        invariant
            i <= s.len(),
            char_texts(out@) + tokens_from(s@, i as int, class) == tokens(s@, class),
        decreases s.len() - i,
    {
        let a = scan(s, i, class, false);
        let b = scan(s, a, class, true);
        if a >= b {
            assert(char_texts(out@) == tokens(s@, class));
            return out;
        }
        let ghost before = out@;
        let piece = copy_chars(vstd::slice::slice_subrange(s, a, b));
        out.push(piece);
        proof {
            assert(char_texts(out@) == char_texts(before) + seq![s@.subrange(a as int, b as int)]);
            assert(char_texts(out@) + tokens_from(s@, b as int, class) == char_texts(before)
                + tokens_from(s@, i as int, class));
        }
        i = b;
    }
}

/// A vector of the same characters.
pub fn copy_chars(s: &[char]) -> (r: Vec<char>)
    ensures
        r@ == s@,
{
    let mut v: Vec<char> = Vec::new();
    let mut i: usize = 0;
    while i < s.len()
        invariant
            i <= s.len(),
            v@ == s@.take(i as int),
        decreases s.len() - i,
    {
        v.push(s[i]);
        i = i + 1;
        assert(s@.take(i as int) == s@.take(i - 1).push(s@[i - 1]));
    }
    assert(s@.take(i as int) == s@);
    v
}

/// The lines of a text.
pub fn split_lines(s: &[char]) -> (r: Vec<Vec<char>>)
    ensures
        char_texts(r@) == lines_of(s@),
{
    let mut out: Vec<Vec<char>> = Vec::new();
    let mut nl: Vec<char> = Vec::new();
    nl.push('\n');
    let mut i: usize = 0;
    assert(char_texts(out@) + lines_from(s@, 0) == lines_of(s@));
    while i < s.len()
        invariant
            i <= s.len(),
            nl@ == seq!['\n'],
            char_texts(out@) + lines_from(s@, i as int) == lines_of(s@),
        decreases s.len() - i,
    {
        let ghost before = out@;
        match find_pat(s, nl.as_slice(), i) {
            Some(j) => {
                let line = vstd::slice::slice_subrange(s, i, j);
                let n = line.len();
                let piece = if n > 0 && line[n - 1] == '\r' {
                    copy_chars(vstd::slice::slice_subrange(line, 0, n - 1))
                } else {
                    copy_chars(line)
                };
                assert(piece@ == without_cr(s@.subrange(i as int, j as int)));
                out.push(piece);
                proof {
                    assert(char_texts(out@) == char_texts(before) + seq![
                        without_cr(s@.subrange(i as int, j as int)),
                    ]);
                    assert(char_texts(out@) + lines_from(s@, j + 1) == char_texts(before)
                        + lines_from(s@, i as int));
                }
                i = j + 1;
            },
            None => {
                out.push(copy_chars(from_index(s, i)));
                assert(char_texts(out@) == char_texts(before) + seq![s@.skip(i as int)]);
                return out;
            },
        }
    }
    assert(char_texts(out@) == lines_of(s@));
    out
}

pub fn lower_char(c: char) -> (r: char)
    ensures
        r == ascii_lower_char(c),
{
    if c >= 'A' && c <= 'Z' {
        let u: u8 = c as u8;
        (u + 32) as char
    } else {
        c
    }
}

/// The text with its ASCII letters in lower case.
pub fn lowered(s: &[char]) -> (r: Vec<char>)
    ensures
        r@ == ascii_lower(s@),
{
    let mut v: Vec<char> = Vec::new();
    let mut i: usize = 0;
    while i < s.len()
        invariant
            i <= s.len(),
            v@.len() == i,
            forall|k: int| 0 <= k < i ==> v@[k] == ascii_lower_char(s@[k]),
        decreases s.len() - i,
    {
        v.push(lower_char(s[i]));
        i = i + 1;
    }
    assert(v@ == ascii_lower(s@));
    v
}

/// The text as a string of its own.
pub fn owned(s: &str) -> (r: String)
    ensures
        r@ == s@,
{
    s.to_owned()
}

/// Some texts with `sep` between them.
pub fn join(parts: &Vec<String>, sep: &str) -> (r: String)
    ensures
        r@ == joined(texts(parts@), sep@),
{
    let mut out = String::new();
    let mut i: usize = 0;
    while i < parts.len()
        invariant
            i <= parts.len(),
            out@ == joined_upto(texts(parts@), sep@, i as int),
        decreases parts.len() - i,
    {
        if i > 0 {
            out.append(sep);
        }
        out.append(parts[i].as_str());
        proof {
            if i == 0 {
                assert(out@ == texts(parts@)[0]);
            }
        }
        i = i + 1;
    }
    out
}

// ---------------------------------------------------------------------------
// Numbers
// ---------------------------------------------------------------------------

/// `c` is a digit to the base 10 or 16.
pub open spec fn is_digit_of(c: char, radix: nat) -> bool {
    if radix == 16 {
        is_hex_digit(c)
    } else {
        is_digit(c)
    }
}

pub open spec fn digit_value(c: char) -> nat {
    if is_digit(c) {
        (c as u32 - 48) as nat
    } else if 'a' <= c <= 'f' {
        (c as u32 - 87) as nat
    } else {
        (c as u32 - 55) as nat
    }
}

/// The number that a row of digits stands for.
pub open spec fn value_of(s: Seq<char>, radix: nat) -> nat
    decreases s.len(),
{
    if s.len() == 0 {
        0
    } else {
        value_of(s.drop_last(), radix) * radix + digit_value(s.last())
    }
}

pub open spec fn all_digits(s: Seq<char>, radix: nat) -> bool {
    forall|i: int| 0 <= i < s.len() ==> is_digit_of(#[trigger] s[i], radix)
}

/// A text without one plus sign at its start.
pub open spec fn without_plus(s: Seq<char>) -> Seq<char> {
    if s.len() > 0 && s[0] == '+' {
        s.skip(1)
    } else {
        s
    }
}

/// The unsigned number that a text stands for: an optional plus sign and one or more digits,
/// with a value of at most `max`.
pub open spec fn number(s: Seq<char>, radix: nat, max: nat) -> Option<nat> {
    let t = without_plus(s);
    if t.len() > 0 && all_digits(t, radix) && value_of(t, radix) <= max {
        Some(value_of(t, radix))
    } else {
        None
    }
}

pub open spec fn digit_char(d: nat) -> char {
    if d < 10 {
        (48 + d) as char
    } else {
        (87 + d) as char
    }
}

/// A number written with the digits of a base, without leading zeros.
pub open spec fn written(n: nat, radix: nat) -> Seq<char>
    decreases n,
{
    if radix < 2 || n < radix {
        seq![digit_char(n)]
    } else {
        proof {
            assert(n / radix < n) by (nonlinear_arith)
                requires
                    n >= radix,
                    radix >= 2,
            ;
        }
        written(n / radix, radix).push(digit_char(n % radix))
    }
}

pub open spec fn dec(n: nat) -> Seq<char> {
    written(n, 10)
}

pub open spec fn hex(n: nat) -> Seq<char> {
    written(n, 16)
}

pub open spec fn repeat(c: char, n: nat) -> Seq<char> {
    Seq::new(n, |i: int| c)
}

/// `s` filled up with `c` on the left to `width` characters.
pub open spec fn pad_left(s: Seq<char>, c: char, width: nat) -> Seq<char> {
    if s.len() >= width {
        s
    } else {
        repeat(c, (width - s.len()) as nat) + s
    }
}

/// `s` filled up with spaces on the right to `width` characters.
pub open spec fn pad_right(s: Seq<char>, width: nat) -> Seq<char> {
    if s.len() >= width {
        s
    } else {
        s + repeat(' ', (width - s.len()) as nat)
    }
}

proof fn lemma_value_of_take(s: Seq<char>, radix: nat, n: int)
    requires
        0 <= n <= s.len(),
        radix >= 1,
    ensures
        value_of(s.take(n), radix) <= value_of(s, radix),
    decreases s.len() - n,
{
    if n < s.len() {
        lemma_value_of_take(s, radix, n + 1);
        assert(s.take(n + 1).drop_last() == s.take(n));
        let v = value_of(s.take(n), radix);
        assert(v <= v * radix) by (nonlinear_arith)
            requires
                radix >= 1,
        ;
    } else {
        assert(s.take(n) == s);
    }
}

fn digit_of(c: char, radix: u64) -> (r: Option<u64>)
    requires
        radix == 10 || radix == 16,
    ensures
        match r {
            Some(d) => is_digit_of(c, radix as nat) && d == digit_value(c) && d < radix,
            None => !is_digit_of(c, radix as nat),
        },
{
    if c >= '0' && c <= '9' {
        Some((c as u32 - 48) as u64)
    } else if radix == 16 && c >= 'a' && c <= 'f' {
        Some((c as u32 - 87) as u64)
    } else if radix == 16 && c >= 'A' && c <= 'F' {
        Some((c as u32 - 55) as u64)
    } else {
        None
    }
}

/// Reads an unsigned number to the base 10 or 16 that is at most `max`.
pub fn read_number(s: &[char], radix: u64, max: u64) -> (r: Option<u64>)
    requires
        radix == 10 || radix == 16,
    ensures
        match r {
            Some(v) => number(s@, radix as nat, max as nat) == Some(v as nat) && v <= max,
            None => number(s@, radix as nat, max as nat) is None,
        },
{
    let t = if s.len() > 0 && s[0] == '+' {
        from_index(s, 1)
    } else {
        s
    };
    assert(t@ == without_plus(s@));
    if t.len() == 0 {
        return None;
    }
    let mut acc: u64 = 0;
    let mut i: usize = 0;
    assert(t@.take(0) == Seq::<char>::empty());
    while i < t.len()
        invariant
            i <= t.len(),
            radix == 10 || radix == 16,
            t@ == without_plus(s@),
            acc <= max,
            acc == value_of(t@.take(i as int), radix as nat),
            forall|k: int| 0 <= k < i ==> is_digit_of(#[trigger] t@[k], radix as nat),
        decreases t.len() - i,
    {
        proof {
            assert(t@.take(i + 1).drop_last() == t@.take(i as int));
            lemma_value_of_take(t@, radix as nat, i + 1);
        }
        match digit_of(t[i], radix) {
            Some(d) => {
                let wide: u128 = acc as u128 * radix as u128 + d as u128;
                if wide > max as u128 {
                    return None;
                }
                acc = wide as u64;
            },
            None => {
                return None;
            },
        }
        i = i + 1;
    }
    assert(t@.take(i as int) == t@);
    Some(acc)
}

fn char_of_digit(d: u64) -> (r: char)
    requires
        d < 16,
    ensures
        r == digit_char(d as nat),
{
    if d < 10 {
        (48 + d as u8) as char
    } else {
        (87 + d as u8) as char
    }
}

/// Appends a number written to the base `radix`.
pub fn push_number(out: &mut String, n: u64, radix: u64)
    requires
        2 <= radix <= 16,
    ensures
        final(out)@ == old(out)@ + written(n as nat, radix as nat),
    decreases n,
{
    let ghost start = out@;
    if n >= radix {
        proof {
            assert(n / radix < n) by (nonlinear_arith)
                requires
                    n >= radix,
                    radix >= 2,
            ;
        }
        push_number(out, n / radix, radix);
        out.push(char_of_digit(n % radix));
        assert(out@ == start + written((n / radix) as nat, radix as nat).push(
            digit_char((n % radix) as nat),
        ));
    } else {
        out.push(char_of_digit(n));
        assert(out@ == start + seq![digit_char(n as nat)]);
    }
}

/// Appends a number in decimal.
pub fn push_dec(out: &mut String, n: u64)
    ensures
        final(out)@ == old(out)@ + dec(n as nat),
{
    push_number(out, n, 10);
}

/// A number in decimal.
pub fn dec_text(n: u64) -> (r: String)
    ensures
        r@ == dec(n as nat),
{
    let mut out = String::new();
    push_number(&mut out, n, 10);
    assert(out@ == dec(n as nat));
    out
}

/// `s` filled up with `c` on the left to `width` characters.
pub fn padded_left(s: &str, c: char, width: usize) -> (r: String)
    ensures
        r@ == pad_left(s@, c, width as nat),
{
    let n: usize = s.unicode_len();
    let mut out = String::new();
    if n < width {
        let mut i: usize = 0;
        while i < width - n
            invariant
                n < width,
                i <= width - n,
                out@ == repeat(c, i as nat),
            decreases width - n - i,
        {
            out.push(c);
            i = i + 1;
            assert(out@ == repeat(c, i as nat));
        }
    }
    out.append(s);
    assert(out@ == pad_left(s@, c, width as nat));
    out
}

/// `s` filled up with spaces on the right to `width` characters.
pub fn padded_right(s: &str, width: usize) -> (r: String)
    ensures
        r@ == pad_right(s@, width as nat),
{
    let n: usize = s.unicode_len();
    let mut out = s.to_owned();
    let mut i: usize = n;
    while i < width
        invariant
            i >= n,
            n < width ==> i <= width,
            n == s@.len(),
            out@ == s@ + repeat(' ', (i - n) as nat),
            n >= width ==> i == n,
        decreases width - i,
    {
        out.push(' ');
        i = i + 1;
        assert(out@ == s@ + repeat(' ', (i - n) as nat));
    }
    assert(out@ == pad_right(s@, width as nat));
    out
}

/// A written number is one or more digits, and their value is the number.
pub proof fn lemma_written(n: nat, radix: nat)
    requires
        radix == 10 || radix == 16,
    ensures
        written(n, radix).len() > 0,
        all_digits(written(n, radix), radix),
        value_of(written(n, radix), radix) == n,
    decreases n,
{
    let w = written(n, radix);
    if n < radix {
        assert(w.drop_last() == Seq::<char>::empty());
        assert(value_of(w.drop_last(), radix) == 0);
    } else {
        assert(n / radix < n) by (nonlinear_arith)
            requires
                n >= radix,
                radix >= 2,
        ;
        lemma_written(n / radix, radix);
        assert(n % radix < radix);
        assert(w.drop_last() == written(n / radix, radix));
        vstd::arithmetic::div_mod::lemma_fundamental_div_mod(n as int, radix as int);
        assert((n / radix) * radix == radix * (n / radix)) by (nonlinear_arith);
        assert forall|i: int| 0 <= i < w.len() implies is_digit_of(#[trigger] w[i], radix) by {
            if i < w.len() - 1 {
                assert(w[i] == w.drop_last()[i]);
            }
        }
    }
}

/// Reading a number in decimal gives back what was written.
pub proof fn law_number_of_dec(n: nat, max: nat)
    requires
        n <= max,
    ensures
        number(dec(n), 10, max) == Some(n),
{
    lemma_written(n, 10);
}

/// Reading a number in hexadecimal gives back what was written.
pub proof fn law_number_of_hex(n: nat, max: nat)
    requires
        n <= max,
    ensures
        number(hex(n), 16, max) == Some(n),
{
    lemma_written(n, 16);
}

/// Different numbers are written differently.
pub proof fn law_dec_injective(m: nat, n: nat)
    requires
        dec(m) == dec(n),
    ensures
        m == n,
{
    lemma_written(m, 10);
    lemma_written(n, 10);
}

} // verus!
