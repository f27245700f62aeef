//! What is read from the output of tools and from logs.

use vstd::prelude::*;

use crate::configure;
use crate::conn;
use crate::laws::texts;
use crate::probes;
use crate::probes::TunnelStep;
use crate::reading;
use crate::slice;
use crate::telnet;
use crate::text;
use crate::text::CharClass;

verus! {

/// A number with its decimals is read from behind the first key, whatever follows it.
#[verifier::spinoff_prover]
#[verifier::rlimit(50)]
proof fn lemma_behind_key(
    before: Seq<char>,
    key: Seq<char>,
    value: Seq<char>,
    rest: Seq<char>,
    class: CharClass,
)
    requires
        text::find_from(before + key, key, 0) == Some(before.len() as int),
        forall|k: int| 0 <= k < value.len() ==> class.has(#[trigger] value[k]),
        rest.len() > 0 ==> !class.has(rest[0]),
    ensures
        text::after_first(before + key + value + rest, key) == Some(value + rest),
        text::leading(value + rest, class) == value,
{
    let s = before + key + value + rest;
    let n = before.len() as int;
    assert(s.subrange(n, n + key.len()) =~= key);
    assert forall|p: int| 0 <= p < n implies !text::occurs_at(s, key, p) by {
        text::lemma_find_from(before + key, key, 0);
        if text::occurs_at(s, key, p) {
            assert((before + key).subrange(p, p + key.len()) =~= s.subrange(p, p + key.len()));
            assert(text::occurs_at(before + key, key, p));
        }
    }
    text::lemma_find_is(s, key, 0, n);
    assert(s.skip(n + key.len()) =~= value + rest);
    lemma_leading(value, rest, class);
}

proof fn lemma_leading(value: Seq<char>, rest: Seq<char>, class: CharClass)
    requires
        forall|k: int| 0 <= k < value.len() ==> class.has(#[trigger] value[k]),
        rest.len() > 0 ==> !class.has(rest[0]),
    ensures
        text::leading(value + rest, class) == value,
{
    let t = value + rest;
    let n = value.len() as int;
    assert forall|k: int| 0 <= k < n implies class.has(#[trigger] t[k]) == true by {
        assert(t[k] == value[k]);
    }
    if n < t.len() {
        assert(t[n] == rest[0]);
    }
    text::lemma_run_is(t, 0, n, class, true);
    assert(t.take(n) =~= value);
}

/// The round-trip time of a ping is read back, whatever stands around it.
pub proof fn law_rtt_read_back(before: Seq<char>, value: Seq<char>, rest: Seq<char>)
    requires
        text::find_from(before + "time="@, "time="@, 0) == Some(before.len() as int),
        forall|k: int| 0 <= k < value.len() ==> CharClass::DigitOrDot.has(#[trigger] value[k]),
        rest.len() > 0 ==> !CharClass::DigitOrDot.has(rest[0]),
    ensures
        probes::rtt_of_line(before + "time="@ + value + rest) == Some(value),
{
    lemma_behind_key(before, "time="@, value, rest, CharClass::DigitOrDot);
}

/// A line without a time says none.
pub proof fn law_no_rtt(line: Seq<char>)
    requires
        !text::contains(line, "time="@),
    ensures
        probes::rtt_of_line(line) is None,
{
}

/// An address of four parts in the core's data network.
pub open spec fn is_data_address(ip: Seq<char>) -> bool {
    &&& forall|k: int| 0 <= k < ip.len() ==> CharClass::DigitOrDot.has(#[trigger] ip[k])
    &&& text::starts_with(ip, "10."@)
    &&& text::count_from(ip, "."@, 0) == 3
}

/// The address that a line says was assigned is read back, whatever stands around it.
#[verifier::spinoff_prover]
#[verifier::rlimit(50)]
pub proof fn law_assigned_address_read_back(before: Seq<char>, ip: Seq<char>, rest: Seq<char>)
    requires
        text::find_from(before + "UE IPv4:"@, "UE IPv4:"@, 0) == Some(before.len() as int),
        is_data_address(ip),
        rest.len() > 0 ==> !CharClass::DigitOrDot.has(rest[0]),
    ensures
        conn::assigned_on_line(before + "UE IPv4:"@ + " "@ + ip + rest) == Some(ip),
        conn::assigned_on_line(before + "UE IPv4:"@ + ip + rest) == Some(ip),
{
    reveal_strlit(" ");
    let key = "UE IPv4:"@;
    lemma_behind_key(before, key, ip, rest, CharClass::DigitOrDot);
    reveal_strlit("10.");
    assert(ip.subrange(0, 3)[0] == '1');
    assert(ip[0] == '1');
    let t = ip + rest;
    assert(t[0] == ip[0]);
    text::lemma_run_is(t, 0, 0, CharClass::White, true);
    assert(text::trim_start(t) =~= t);
    let s = before + key + " "@ + ip + rest;
    lemma_behind_key(before, key, Seq::<char>::empty(), " "@ + ip + rest, CharClass::DigitOrDot);
    assert(s =~= before + key + Seq::<char>::empty() + (" "@ + ip + rest));
    let u = " "@ + ip + rest;
    assert(Seq::<char>::empty() + u =~= u);
    assert(u[1] == ip[0]);
    text::lemma_run_is(u, 0, 1, CharClass::White, true);
    assert(text::trim_start(u) =~= t);
}

/// Of the addresses that lines say were assigned the last one counts; what stands on no such line
/// counts for nothing.
pub proof fn law_last_assigned_address(lines: Seq<Seq<char>>, i: int)
    requires
        0 <= i < lines.len(),
        conn::assigned_on_line(lines[i]) is Some,
        forall|j: int| i < j < lines.len() ==> conn::assigned_on_line(#[trigger] lines[j]) is None,
    ensures
        conn::assigned_address(lines) == conn::assigned_on_line(lines[i])->0,
    decreases lines.len(),
{
    if i < lines.len() - 1 {
        let rest = lines.drop_last();
        assert(conn::assigned_on_line(lines[lines.len() - 1]) is None);
        assert forall|j: int| i < j < rest.len() implies conn::assigned_on_line(
            #[trigger] rest[j],
        ) is None by {
            assert(rest[j] == lines[j]);
        }
        assert(rest[i] == lines[i]);
        law_last_assigned_address(rest, i);
    }
}

/// Trimming takes away the white space before a text that ends in something else.
proof fn lemma_trimmed(gap: Seq<char>, s: Seq<char>)
    requires
        forall|k: int| 0 <= k < gap.len() ==> text::is_white(#[trigger] gap[k]),
        s.len() > 0,
        !text::is_white(s[0]),
        !text::is_white(s.last()),
    ensures
        text::trim(gap + s) == s,
{
    let t = gap + s;
    let n = gap.len() as int;
    assert forall|k: int| 0 <= k < n implies CharClass::White.has(#[trigger] t[k]) == true by {
        assert(t[k] == gap[k]);
    }
    assert(t[n] == s[0]);
    text::lemma_run_is(t, 0, n, CharClass::White, true);
    assert(t.skip(n) =~= s);
}

/// The address of an interface is read back from the line that shows it, up to its slash, whatever
/// follows.
#[verifier::spinoff_prover]
#[verifier::rlimit(50)]
pub proof fn law_interface_address_read_back(
    gap: Seq<char>,
    ip: Seq<char>,
    len: Seq<char>,
    rest: Seq<char>,
)
    requires
        forall|k: int| 0 <= k < gap.len() ==> text::is_white(#[trigger] gap[k]),
        ip.len() > 0,
        reading::unbroken(ip),
        reading::lacks(ip, '/'),
        reading::unbroken(len),
        rest.len() > 0 ==> text::is_white(rest[0]) && !text::is_white(rest.last()),
    ensures
        conn::inet_of_line(gap + "inet "@ + ip + "/"@ + len + rest) == Some(ip),
{
    reveal_strlit("inet ");
    reveal_strlit("inet");
    reveal_strlit(" ");
    reveal_strlit("/");
    let word = ip + "/"@ + len;
    let l = "inet "@ + word + rest;
    assert(gap + "inet "@ + ip + "/"@ + len + rest =~= gap + l);
    assert forall|k: int| 0 <= k < word.len() implies !text::is_white(#[trigger] word[k]) by {
        if k < ip.len() {
            assert(word[k] == ip[k]);
        } else if k > ip.len() {
            assert(word[k] == len[k - ip.len() - 1]);
        }
    }
    if rest.len() > 0 {
        assert(l.last() == rest.last());
    } else {
        assert(l.last() == word[word.len() - 1]);
    }
    lemma_trimmed(gap, l);
    reading::lemma_first_word(word, rest);
    reading::lemma_words_behind(" "@, word + rest);
    reading::lemma_first_word("inet"@, " "@ + (word + rest));
    assert(l =~= "inet"@ + (" "@ + (word + rest)));
    assert(l.subrange(0, 5) =~= "inet "@);
    assert(text::tokens(l, CharClass::NonWhite)[1] == word);
    assert forall|k: int| 0 <= k < ip.len() implies CharClass::NonSlash.has(#[trigger] ip[k]) by {}
    assert(word =~= ip + ("/"@ + len));
    lemma_leading(ip, "/"@ + len, CharClass::NonSlash);
}

/// The first address of the data network among the lines is the tunnel's.
pub proof fn law_tunnel_address(lines: Seq<Seq<char>>, i: int, ip: Seq<char>)
    requires
        0 <= i < lines.len(),
        conn::inet_of_line(lines[i]) == Some(ip),
        text::starts_with(ip, "10."@),
        forall|j: int|
            0 <= j < i ==> match conn::inet_of_line(#[trigger] lines[j]) {
                Some(a) => !text::starts_with(a, "10."@),
                None => true,
            },
    ensures
        conn::tunnel_address(lines) == ip,
    decreases lines.len(),
{
    if i > 0 {
        let rest = lines.skip(1);
        assert(rest[i - 1] == lines[i]);
        assert forall|j: int| 0 <= j < i - 1 implies match conn::inet_of_line(#[trigger] rest[j]) {
            Some(a) => !text::starts_with(a, "10."@),
            None => true,
        } by {
            assert(rest[j] == lines[j + 1]);
        }
        assert(match conn::inet_of_line(lines[0]) {
            Some(a) => !text::starts_with(a, "10."@),
            None => true,
        });
        law_tunnel_address(rest, i - 1, ip);
    }
}

/// A tunnel's address is one of those that the lines show, and of the data network; there is none
/// exactly where no line shows one.
pub proof fn law_tunnel_address_is_shown(lines: Seq<Seq<char>>)
    ensures
        conn::tunnel_address(lines).len() > 0 ==> text::starts_with(
            conn::tunnel_address(lines),
            "10."@,
        ) && exists|i: int|
            0 <= i < lines.len() && conn::inet_of_line(#[trigger] lines[i]) == Some(
                conn::tunnel_address(lines),
            ),
    decreases lines.len(),
{
    if lines.len() > 0 {
        let rest = lines.skip(1);
        law_tunnel_address_is_shown(rest);
        if conn::inet_of_line(lines[0]) == Some(conn::tunnel_address(lines)) {
            assert(conn::inet_of_line(lines[0]) is Some);
        } else if conn::tunnel_address(lines).len() > 0 {
            let i = choose|i: int|
                0 <= i < rest.len() && conn::inet_of_line(#[trigger] rest[i]) == Some(
                    conn::tunnel_address(rest),
                );
            assert(lines[i + 1] == rest[i]);
        }
    }
}

/// The counters of a tunnel are its received and its sent bytes: the first and the ninth number
/// behind its name, whatever the numbers between and behind them are.
#[verifier::spinoff_prover]
#[verifier::rlimit(50)]
pub proof fn law_counters_read_back(gap: Seq<char>, f: Seq<Seq<char>>, rx: u64, tx: u64)
    requires
        forall|k: int| 0 <= k < gap.len() ==> text::is_white(#[trigger] gap[k]),
        f.len() >= 9,
        forall|k: int|
            0 <= k < f.len() ==> (#[trigger] f[k]).len() > 0 && reading::unbroken(f[k]),
        f[0] == text::dec(rx as nat),
        f[8] == text::dec(tx as nat),
    ensures
        probes::counters_of_line(gap + "oaitun_ue1:"@ + " "@ + reading::spaced(f)) == Some((rx, tx)),
{
    reveal_strlit("oaitun_ue1:");
    reveal_strlit(" ");
    let name = "oaitun_ue1:"@;
    let words = reading::spaced(f);
    let l = name + " "@ + words;
    assert(gap + name + " "@ + words =~= gap + l);
    lemma_spaced_end(f);
    assert(l.last() == words.last());
    lemma_trimmed(gap, l);
    assert(l.subrange(0, name.len() as int) =~= name);
    assert(l.skip(name.len() as int) =~= " "@ + words);
    reading::lemma_words_behind(" "@, words);
    reading::lemma_words_of(f);
    text::law_number_of_dec(rx as nat, u64::MAX as nat);
    text::law_number_of_dec(tx as nat, u64::MAX as nat);
}

proof fn lemma_spaced_end(f: Seq<Seq<char>>)
    requires
        f.len() > 0,
        forall|k: int|
            0 <= k < f.len() ==> (#[trigger] f[k]).len() > 0 && reading::unbroken(f[k]),
    ensures
        reading::spaced(f).len() > 0,
        !text::is_white(reading::spaced(f).last()),
    decreases f.len(),
{
    assert(f[0].len() > 0);
    if f.len() == 1 {
        assert(!text::is_white(f[0][f[0].len() - 1]));
    } else {
        let rest = f.skip(1);
        assert forall|k: int| 0 <= k < rest.len() implies (#[trigger] rest[k]).len() > 0
            && reading::unbroken(rest[k]) by {
            assert(rest[k] == f[k + 1]);
        }
        lemma_spaced_end(rest);
        assert(reading::spaced(f).last() == reading::spaced(rest).last());
    }
}

/// Of several lines with counters the last one counts.
pub proof fn law_last_counters(lines: Seq<Seq<char>>, i: int)
    requires
        0 <= i < lines.len(),
        probes::counters_of_line(lines[i]) is Some,
        forall|j: int|
            i < j < lines.len() ==> probes::counters_of_line(#[trigger] lines[j]) is None,
    ensures
        probes::counters_in(lines) == probes::counters_of_line(lines[i]),
    decreases lines.len(),
{
    if i < lines.len() - 1 {
        let rest = lines.drop_last();
        assert(probes::counters_of_line(lines[lines.len() - 1]) is None);
        assert forall|j: int| i < j < rest.len() implies probes::counters_of_line(
            #[trigger] rest[j],
        ) is None by {
            assert(rest[j] == lines[j]);
        }
        assert(rest[i] == lines[i]);
        law_last_counters(rest, i);
    }
}

/// What a counter grew by makes up the difference, and one that was set back did not grow.
pub proof fn law_growth_adds_up(now: u64, before: u64)
    ensures
        now >= before ==> before + probes::grown(now, before) == now,
        now < before ==> probes::grown(now, before) == 0,
{
}

/// Waiting for a tunnel goes on, second by second, exactly as long as there is none, nobody
/// stopped it and it was not tried often enough; with a tunnel the ping starts.
pub proof fn law_tunnel_is_waited_for(tries: nat, stopped: bool, has_tunnel: bool)
    ensures
        has_tunnel <==> probes::tunnel_decision(tries, stopped, has_tunnel) == TunnelStep::Ping,
        !has_tunnel && !stopped && tries < 20 <==> probes::tunnel_decision(
            tries,
            stopped,
            has_tunnel,
        ) is Wait,
        probes::tunnel_decision(tries, stopped, has_tunnel) matches TunnelStep::Wait(ms)
            ==> ms == 1000,
{
}

/// A count on its own line is read back.
pub proof fn law_count_read_back(n: usize, other: usize)
    ensures
        probes::count_in(text::dec(n as nat) + "\n"@, other) == n,
        probes::count_in(text::dec(n as nat), other) == n,
{
    reveal_strlit("\n");
    reading::lemma_digits(n as nat);
    text::law_number_of_dec(n as nat, usize::MAX as nat);
    let d = text::dec(n as nat);
    slice::lemma_trim_plain(d);
    let t = d + "\n"@;
    assert(t[0] == d[0]);
    text::lemma_run_is(t, 0, 0, CharClass::White, true);
    assert(t.skip(0) =~= t);
    assert(t.drop_last() =~= d);
    text::lemma_run_is(d, 0, 0, CharClass::White, true);
    assert(text::trim_start(d) =~= d);
    assert(text::trim_end(d) == d);
    assert(text::trim_end(t) == text::trim_end(t.drop_last()));
}

/// The index of the downlink channel is the first number of the first line that names the gNB's
/// side, whatever the case.
#[verifier::spinoff_prover]
#[verifier::rlimit(50)]
pub proof fn law_channel_index_read_back(before: Seq<char>, n: u32, rest: Seq<char>)
    requires
        forall|k: int| 0 <= k < before.len() ==> !text::is_digit(#[trigger] before[k]),
        rest.len() > 0 ==> !text::is_digit(rest[0]),
        text::contains(text::ascii_lower(before + text::dec(n as nat) + rest), "enb"@),
    ensures
        telnet::index_on_line(before + text::dec(n as nat) + rest) == Some(n),
{
    let d = text::dec(n as nat);
    let s = before + d + rest;
    let a = before.len() as int;
    let b = a + d.len();
    reading::lemma_digits(n as nat);
    text::law_number_of_dec(n as nat, u32::MAX as nat);
    let class = CharClass::Digit;
    assert forall|k: int| 0 <= k < a implies class.has(#[trigger] s[k]) == false by {
        assert(s[k] == before[k]);
    }
    assert(s[a] == d[0]);
    text::lemma_run_is(s, 0, a, class, false);
    assert forall|k: int| a <= k < b implies class.has(#[trigger] s[k]) == true by {
        assert(s[k] == d[k - a]);
    }
    if b < s.len() {
        assert(s[b] == rest[0]);
    }
    text::lemma_run_is(s, a, b, class, true);
    assert(s.subrange(a, b) =~= d);
    assert(text::tokens(s, class)[0] == d);
}

/// A channel that no line names has no index; of several lines the first one with an index counts.
pub proof fn law_first_channel_index(lines: Seq<Seq<char>>, i: int)
    requires
        0 <= i < lines.len(),
        telnet::index_on_line(lines[i]) is Some,
        forall|j: int| 0 <= j < i ==> telnet::index_on_line(#[trigger] lines[j]) is None,
    ensures
        telnet::index_in_lines(lines) == telnet::index_on_line(lines[i]),
    decreases lines.len(),
{
    if i > 0 {
        let rest = lines.skip(1);
        assert(telnet::index_on_line(lines[0]) is None);
        assert(rest[i - 1] == lines[i]);
        assert forall|j: int| 0 <= j < i - 1 implies telnet::index_on_line(
            #[trigger] rest[j],
        ) is None by {
            assert(rest[j] == lines[j + 1]);
        }
        law_first_channel_index(rest, i - 1);
    }
}

proof fn lemma_rates_shift(a: Seq<char>, b: Seq<char>, i: int)
    requires
        0 <= i <= b.len(),
    ensures
        probes::rates_from(a + b, a.len() + i) == probes::rates_from(b, i),
    decreases b.len() - i,
{
    let key = "\"bits_per_second\":"@;
    let s = a + b;
    reveal_strlit("\"bits_per_second\":");
    texts::lemma_find_shift(a, b, key, i);
    text::lemma_find_from(b, key, i);
    match text::find_from(b, key, i) {
        Some(p) => {
            lemma_rates_shift(a, b, p + key.len());
            assert(s.skip(a.len() + p + key.len()) =~= b.skip(p + key.len()));
        },
        None => {},
    }
}

/// The bit rates of a report are the numbers behind their keys, one after the other, whatever white
/// space stands between.
#[verifier::spinoff_prover]
#[verifier::rlimit(50)]
pub proof fn law_rates_read_back(
    before: Seq<char>,
    gap: Seq<char>,
    value: Seq<char>,
    rest: Seq<char>,
)
    requires
        text::find_from(
            before + "\"bits_per_second\":"@,
            "\"bits_per_second\":"@,
            0,
        ) == Some(before.len() as int),
        forall|k: int| 0 <= k < gap.len() ==> text::is_white(#[trigger] gap[k]),
        value.len() > 0,
        forall|k: int| 0 <= k < value.len() ==> CharClass::NumberText.has(#[trigger] value[k]),
        rest.len() > 0 ==> !CharClass::NumberText.has(rest[0]),
    ensures
        probes::rates_from(before + "\"bits_per_second\":"@ + gap + value + rest, 0) == seq![value]
            + probes::rates_from(gap + value + rest, 0),
{
    reveal_strlit("\"bits_per_second\":");
    let key = "\"bits_per_second\":"@;
    let t = gap + value + rest;
    let s = before + key + gap + value + rest;
    let n = before.len() as int;
    assert(s =~= (before + key) + t);
    assert(s.subrange(n, n + key.len()) =~= key);
    assert forall|p: int| 0 <= p < n implies !text::occurs_at(s, key, p) by {
        text::lemma_find_from(before + key, key, 0);
        if text::occurs_at(s, key, p) {
            assert((before + key).subrange(p, p + key.len()) =~= s.subrange(p, p + key.len()));
            assert(text::occurs_at(before + key, key, p));
        }
    }
    text::lemma_find_is(s, key, 0, n);
    assert(s.skip(n + key.len()) =~= t);
    lemma_trim_gap(gap, value, rest);
    lemma_leading(value, rest, CharClass::NumberText);
    lemma_rates_shift(before + key, t, 0);
}

proof fn lemma_trim_gap(gap: Seq<char>, value: Seq<char>, rest: Seq<char>)
    requires
        forall|k: int| 0 <= k < gap.len() ==> text::is_white(#[trigger] gap[k]),
        value.len() > 0,
        CharClass::NumberText.has(value[0]),
    ensures
        text::trim_start(gap + value + rest) == value + rest,
{
    let t = gap + value + rest;
    let n = gap.len() as int;
    assert forall|k: int| 0 <= k < n implies CharClass::White.has(#[trigger] t[k]) == true by {
        assert(t[k] == gap[k]);
    }
    assert(t[n] == value[0]);
    text::lemma_run_is(t, 0, n, CharClass::White, true);
    assert(t.skip(n) =~= value + rest);
}

/// A report without a key has no rates.
pub proof fn law_no_rates(s: Seq<char>)
    requires
        !text::contains(s, "\"bits_per_second\":"@),
    ensures
        probes::rates_from(s, 0).len() == 0,
{
}

/// The slice that a UE's command line names is read back, whatever stands around its two parts;
/// without the type it is the usual one, and without both there is none.
#[verifier::spinoff_prover]
#[verifier::rlimit(50)]
pub proof fn law_slice_in_log_read_back(
    before: Seq<char>,
    gap: Seq<char>,
    sst: u8,
    between: Seq<char>,
    gap2: Seq<char>,
    sd: u32,
    rest: Seq<char>,
)
    requires
        text::find_from(before + "nssai_sst"@, "nssai_sst"@, 0) == Some(before.len() as int),
        text::find_from(
            before + "nssai_sst"@ + gap + text::dec(sst as nat) + between + "nssai_sd"@,
            "nssai_sd"@,
            0,
        ) == Some(
            (before + "nssai_sst"@ + gap + text::dec(sst as nat) + between).len() as int,
        ),
        forall|i: int| 0 <= i < gap.len() ==> !text::is_digit(#[trigger] gap[i]),
        forall|i: int| 0 <= i < gap2.len() ==> !text::is_digit(#[trigger] gap2[i]),
        between.len() > 0,
        !text::is_digit(between[0]),
        rest.len() > 0 ==> !text::is_digit(rest[0]),
    ensures
        configure::slice_in_log(
            before + "nssai_sst"@ + gap + text::dec(sst as nat) + between + "nssai_sd"@ + gap2
                + text::dec(sd as nat) + rest,
        ) == Some((sst, Some(sd))),
{
    let front = before + "nssai_sst"@ + gap + text::dec(sst as nat) + between;
    let s = front + "nssai_sd"@ + gap2 + text::dec(sd as nat) + rest;
    configure::law_number_behind(front, "nssai_sd"@, gap2, sd, rest);
    let after = between + "nssai_sd"@ + gap2 + text::dec(sd as nat) + rest;
    assert(after[0] == between[0]);
    configure::law_number_behind(before, "nssai_sst"@, gap, sst as u32, after);
    assert(s =~= before + "nssai_sst"@ + gap + text::dec(sst as nat) + after);
    assert((sst as u32) % 256 == sst);
}

/// A log that names neither part of a slice has none.
pub proof fn law_no_slice_in_log(log: Seq<char>)
    requires
        !text::contains(log, "nssai_sst"@),
        !text::contains(log, "nssai_sd"@),
    ensures
        configure::slice_in_log(log) is None,
{
}

/// Where only the differentiator is named, the type is the usual one.
pub proof fn law_slice_type_is_usual(
    before: Seq<char>,
    gap: Seq<char>,
    sd: u32,
    rest: Seq<char>,
)
    requires
        text::find_from(before + "nssai_sd"@, "nssai_sd"@, 0) == Some(before.len() as int),
        forall|i: int| 0 <= i < gap.len() ==> !text::is_digit(#[trigger] gap[i]),
        rest.len() > 0 ==> !text::is_digit(rest[0]),
        !text::contains(before + "nssai_sd"@ + gap + text::dec(sd as nat) + rest, "nssai_sst"@),
    ensures
        configure::slice_in_log(before + "nssai_sd"@ + gap + text::dec(sd as nat) + rest) == Some(
            (1u8, Some(sd)),
        ),
{
    configure::law_number_behind(before, "nssai_sd"@, gap, sd, rest);
}

/// A UE that gave no list of channels has no index; one whose list names none has the first.
pub proof fn law_channel_index(listing: Seq<char>)
    ensures
        telnet::channel_index(None) is None,
        telnet::channel_index(Some(listing)) is Some,
        match telnet::index_in_lines(text::lines_of(listing)) {
            Some(n) => telnet::channel_index(Some(listing)) == Some(n),
            None => telnet::channel_index(Some(listing)) == Some(0u32),
        },
{
}

/// How many UEs to start is as given, or as the file says, or four.
pub proof fn law_start_count(n: usize, m: usize, other: Option<Seq<char>>)
    ensures
        probes::start_count(Some(n), other) == n,
        probes::start_count(None, Some(text::dec(m as nat) + "\n"@)) == m,
        probes::start_count(None, None) == 4,
{
    law_count_read_back(m, 4);
}

/// The port of the downlink is the one that is set, or the usual one.
pub proof fn law_downlink_port(port: u16, t: Seq<char>)
    requires
        text::number(t, 10, u16::MAX as nat) is None,
    ensures
        probes::dl_port_of(Some(text::dec(port as nat))) == port,
        probes::dl_port_of(Some(t)) == 4556,
        probes::dl_port_of(None) == 4556,
{
    text::law_number_of_dec(port as nat, u16::MAX as nat);
}

/// What the counters grew by over a row of readings, the first of them being what they are measured
/// from.
pub open spec fn growth_over(readings: Seq<(u64, u64)>) -> (nat, nat)
    decreases readings.len(),
{
    if readings.len() <= 1 {
        (0, 0)
    } else {
        let before = growth_over(readings.drop_last());
        let step = probes::sample_of(
            Some(readings[readings.len() - 2]),
            Some(readings.last()),
        ).0->0;
        (before.0 + step.0 as nat, before.1 + step.1 as nat)
    }
}

/// Over counters that only grow, what was sampled adds up to all that was received and sent.
pub proof fn law_samples_add_up(readings: Seq<(u64, u64)>)
    requires
        readings.len() > 0,
        forall|i: int|
            0 < i < readings.len() ==> (#[trigger] readings[i]).0 >= readings[i - 1].0
                && readings[i].1 >= readings[i - 1].1,
    ensures
        growth_over(readings).0 + readings[0].0 == readings.last().0,
        growth_over(readings).1 + readings[0].1 == readings.last().1,
    decreases readings.len(),
{
    if readings.len() > 1 {
        let rest = readings.drop_last();
        assert forall|i: int| 0 < i < rest.len() implies (#[trigger] rest[i]).0 >= rest[i - 1].0
            && rest[i].1 >= rest[i - 1].1 by {
            assert(rest[i] == readings[i]);
            assert(rest[i - 1] == readings[i - 1]);
        }
        law_samples_add_up(rest);
        assert(readings[readings.len() - 1].0 >= readings[readings.len() - 2].0);
        assert(rest.last() == readings[readings.len() - 2]);
    }
}

/// A reading that fails is left out: the next growth is measured from the one before it.
pub proof fn law_failed_reading_is_left_out(
    prev: Option<(u64, u64)>,
    now: (u64, u64),
)
    ensures
        probes::sample_of(prev, None).0 is None,
        probes::sample_of(prev, None).1 == prev,
        probes::sample_of(prev, Some(now)).1 == Some(now),
        probes::sample_of(None, Some(now)).0 is None,
        prev is Some ==> probes::sample_of(prev, Some(now)).0 is Some,
{
}

/// A history holds the latest samples, two hundred and forty at most, in their order.
pub proof fn law_history_holds_latest(history: Seq<u64>, sample: u64, k: int)
    requires
        history.len() <= 240,
        0 <= k < probes::sampled(history, sample).len(),
    ensures
        ({
            let now = probes::sampled(history, sample);
            &&& now.len() == if history.len() < 240 {
                history.len() + 1
            } else {
                240
            }
            &&& now[k] == history.push(sample)[history.len() + 1 - now.len() + k]
        }),
{
}

} // verus!
