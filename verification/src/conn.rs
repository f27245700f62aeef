//! How far a UE's connection has come, read from its log, and its address, read from the tools of
//! the system.

use vstd::prelude::*;

use crate::slice;
use crate::text;
use crate::text::CharClass;
use crate::ui::Color;

verus! {

// ---------------------------------------------------------------------------
// Stages
// ---------------------------------------------------------------------------

/// How far a UE's connection has come.
#[derive(Clone, Copy, PartialEq, Eq, Debug, Structural)]
pub enum Stage {
    /// The data plane works.
    Data,
    /// Registered with the core: the control plane works.
    Registered,
    Rrc,
    Rar,
    Sib1,
    Sync,
    /// The log shows nothing yet.
    Nothing,
    /// There is no log.
    NoLog,
}

pub open spec fn stage_text(s: Stage) -> Seq<char> {
    match s {
        Stage::Data => "DATA"@,
        Stage::Registered => "REGISTERED"@,
        Stage::Rrc => "RRC"@,
        Stage::Rar => "RAR"@,
        Stage::Sib1 => "SIB1"@,
        Stage::Sync => "SYNC"@,
        Stage::Nothing => "--"@,
        Stage::NoLog => "(no log)"@,
    }
}

pub open spec fn stage_tint(s: Stage) -> Color {
    match s {
        Stage::Data => Color::Rgb(0, 140, 60),
        Stage::Registered => Color::Rgb(20, 115, 20),
        Stage::Rrc => Color::Rgb(0, 95, 175),
        Stage::Rar => Color::Rgb(40, 130, 200),
        Stage::Sib1 => Color::Rgb(155, 95, 0),
        Stage::Sync => Color::Rgb(130, 20, 130),
        _ => Color::Rgb(140, 130, 115),
    }
}

impl Stage {
    /// What the stage is called.
    pub fn name(self) -> (r: &'static str)
        ensures
            r@ == stage_text(self),
    {
        match self {
            Stage::Data => "DATA",
            Stage::Registered => "REGISTERED",
            Stage::Rrc => "RRC",
            Stage::Rar => "RAR",
            Stage::Sib1 => "SIB1",
            Stage::Sync => "SYNC",
            Stage::Nothing => "--",
            Stage::NoLog => "(no log)",
        }
    }
}

/// The colour of a stage.
pub fn stage_color(stage: Stage) -> (r: Color)
    ensures
        r == stage_tint(stage),
{
    match stage {
        Stage::Data => Color::Rgb(0, 140, 60),
        Stage::Registered => Color::Rgb(20, 115, 20),
        Stage::Rrc => Color::Rgb(0, 95, 175),
        Stage::Rar => Color::Rgb(40, 130, 200),
        Stage::Sib1 => Color::Rgb(155, 95, 0),
        Stage::Sync => Color::Rgb(130, 20, 130),
        _ => Color::Rgb(140, 130, 115),
    }
}

// ---------------------------------------------------------------------------
// Addresses
// ---------------------------------------------------------------------------

/// The address on a line about an interface's address: what stands before the slash of its second
/// word; none on any other line.
pub open spec fn inet_of_line(line: Seq<char>) -> Option<Seq<char>> {
    let l = text::trim(line);
    let words = text::tokens(l, CharClass::NonWhite);
    if text::starts_with(l, "inet "@) && words.len() > 1 {
        Some(text::leading(words[1], CharClass::NonSlash))
    } else {
        None
    }
}

/// The first address of the core's data network among some lines.
pub open spec fn tunnel_address(lines: Seq<Seq<char>>) -> Seq<char>
    decreases lines.len(),
{
    if lines.len() == 0 {
        seq![]
    } else {
        match inet_of_line(lines[0]) {
            Some(a) => if text::starts_with(a, "10."@) {
                a
            } else {
                tunnel_address(lines.skip(1))
            },
            None => tunnel_address(lines.skip(1)),
        }
    }
}

fn read_inet(line: &[char]) -> (r: Option<Vec<char>>)
    ensures
        match r {
            Some(a) => inet_of_line(line@) == Some(a@),
            None => inet_of_line(line@) is None,
        },
{
    let l = text::trimmed(line);
    if !text::has_prefix(l, "inet ") {
        return None;
    }
    let words = text::split_tokens(l, CharClass::NonWhite);
    assert(words@.len() == text::tokens(l@, CharClass::NonWhite).len());
    if words.len() <= 1 {
        return None;
    }
    assert(words@[1]@ == text::tokens(l@, CharClass::NonWhite)[1]);
    Some(text::copy_chars(text::take_leading(words[1].as_slice(), CharClass::NonSlash)))
}

/// The address of a UE's tunnel that the interface's state shows; empty where it has none.
pub fn live_tun_ip(output: &str) -> (r: String)
    ensures
        r@ == tunnel_address(text::lines_of(output@)),
{
    let chars = text::chars_of(output);
    let lines = text::split_lines(chars.as_slice());
    let ghost all = text::lines_of(output@);
    let mut i: usize = 0;
    assert(all.skip(0) == all);
    while i < lines.len()
        invariant
            i <= lines.len(),
            text::char_texts(lines@) == all,
            all == text::lines_of(output@),
            tunnel_address(all) == tunnel_address(all.skip(i as int)),
        decreases lines.len() - i,
    {
        assert(all.skip(i as int)[0] == lines@[i as int]@);
        assert(all.skip(i as int).skip(1) == all.skip(i + 1));
        match read_inet(lines[i].as_slice()) {
            Some(a) => {
                if text::has_prefix(a.as_slice(), "10.") {
                    return text::string_of(a.as_slice());
                }
            },
            None => {},
        }
        i = i + 1;
    }
    String::new()
}

/// The first address among some lines, the loopback's left out.
pub open spec fn outer_address(lines: Seq<Seq<char>>) -> Option<Seq<char>>
    decreases lines.len(),
{
    if lines.len() == 0 {
        None
    } else if inet_of_line(lines[0]) is Some && !text::contains(
        text::trim(lines[0]),
        "127.0.0.1"@,
    ) {
        inet_of_line(lines[0])
    } else {
        outer_address(lines.skip(1))
    }
}

/// The address of the data network's far end that its interfaces' state shows.
pub fn discover_ext_dn_ip(output: &str) -> (r: Option<String>)
    ensures
        slice::opt_string(r) == outer_address(text::lines_of(output@)),
{
    let chars = text::chars_of(output);
    let lines = text::split_lines(chars.as_slice());
    let ghost all = text::lines_of(output@);
    let mut i: usize = 0;
    assert(all.skip(0) == all);
    while i < lines.len()
        invariant
            i <= lines.len(),
            text::char_texts(lines@) == all,
            all == text::lines_of(output@),
            outer_address(all) == outer_address(all.skip(i as int)),
        decreases lines.len() - i,
    {
        assert(all.skip(i as int)[0] == lines@[i as int]@);
        assert(all.skip(i as int).skip(1) == all.skip(i + 1));
        let line = lines[i].as_slice();
        match read_inet(line) {
            Some(a) => {
                if !text::has(text::trimmed(line), "127.0.0.1") {
                    return Some(text::string_of(a.as_slice()));
                }
            },
            None => {},
        }
        i = i + 1;
    }
    None
}

/// The value of a setting, or another one where it is not set or empty.
pub open spec fn setting_or(env: Option<Seq<char>>, other: Seq<char>) -> Seq<char> {
    if env is Some && env->0.len() > 0 {
        env->0
    } else {
        other
    }
}

fn set_or(env: Option<&str>, other: &str) -> (r: String)
    ensures
        r@ == setting_or(slice::opt_text(env), other@),
{
    match env {
        Some(v) => {
            if v.unicode_len() > 0 {
                return text::owned(v);
            }
        },
        None => {},
    }
    text::owned(other)
}

/// What the UEs ping.
pub fn ping_target(env: Option<&str>) -> (r: String)
    ensures
        r@ == setting_or(slice::opt_text(env), "8.8.8.8"@),
{
    set_or(env, "8.8.8.8")
}

/// The server of the speed tests: the one that is set, or the far end of the data network.
pub fn iperf_srv(env: Option<&str>, ext_dn_ip: &str) -> (r: Option<String>)
    ensures
        slice::opt_string(r) == Some(setting_or(slice::opt_text(env), ext_dn_ip@)),
{
    Some(set_or(env, ext_dn_ip))
}

/// The far end of the data network where it could not be asked.
pub const USUAL_EXT_DN: &'static str = "192.168.70.135";

// ---------------------------------------------------------------------------
// A UE's log
// ---------------------------------------------------------------------------

/// How often a log shows a marker, in 32 bits.
pub open spec fn marker_count(log: Seq<char>, marker: Seq<char>) -> u32 {
    (text::count_from(log, marker, 0) % 0x1_0000_0000) as u32
}

/// How often a log shows a marker, in 32 bits.
fn count_marker(hay: &[char], needle: &str) -> (r: u32)
    requires
        needle@.len() > 0,
    ensures
        r == marker_count(hay@, needle@),
{
    (text::count_of(hay, needle) as u64 % 0x1_0000_0000) as u32
}

/// The address that the first tag of a line is followed by: digits and dots, one of the core's
/// data network and of four parts.
pub open spec fn address_behind(line: Seq<char>, tag: Seq<char>) -> Option<Seq<char>> {
    match text::after_first(line, tag) {
        Some(rest) => {
            let ip = text::leading(text::trim_start(rest), CharClass::DigitOrDot);
            if text::starts_with(ip, "10."@) && text::count_from(ip, "."@, 0) == 3 {
                Some(ip)
            } else {
                None
            }
        },
        None => None,
    }
}

/// The address that a line of a UE's log says was assigned.
pub open spec fn assigned_on_line(line: Seq<char>) -> Option<Seq<char>> {
    match address_behind(line, "UE IPv4:"@) {
        Some(ip) => Some(ip),
        None => address_behind(line, "IPv4 "@),
    }
}

/// The address that the last line which says one says.
pub open spec fn assigned_address(lines: Seq<Seq<char>>) -> Seq<char>
    decreases lines.len(),
{
    if lines.len() == 0 {
        seq![]
    } else {
        match assigned_on_line(lines.last()) {
            Some(ip) => ip,
            None => assigned_address(lines.drop_last()),
        }
    }
}

fn read_address_behind(line: &[char], tag: &str) -> (r: Option<Vec<char>>)
    ensures
        match r {
            Some(a) => address_behind(line@, tag@) == Some(a@),
            None => address_behind(line@, tag@) is None,
        },
{
    proof {
        reveal_strlit(".");
    }
    match text::text_after(line, tag) {
        Some(rest) => {
            let ip = text::take_leading(text::trimmed_start(rest), CharClass::DigitOrDot);
            if text::has_prefix(ip, "10.") && text::count_of(ip, ".") == 3 {
                Some(text::copy_chars(ip))
            } else {
                None
            }
        },
        None => None,
    }
}

fn read_assigned(line: &[char]) -> (r: Option<Vec<char>>)
    ensures
        match r {
            Some(a) => assigned_on_line(line@) == Some(a@),
            None => assigned_on_line(line@) is None,
        },
{
    match read_address_behind(line, "UE IPv4:") {
        Some(a) => Some(a),
        None => read_address_behind(line, "IPv4 "),
    }
}

fn assigned_in(lines: &Vec<Vec<char>>) -> (r: Vec<char>)
    ensures
        r@ == assigned_address(text::char_texts(lines@)),
{
    let ghost all = text::char_texts(lines@);
    let mut i: usize = lines.len();
    assert(all.take(i as int) == all);
    while i > 0
        invariant
            i <= lines.len(),
            all == text::char_texts(lines@),
            assigned_address(all.take(i as int)) == assigned_address(all),
        decreases i,
    {
        assert(all.take(i as int).last() == lines@[i - 1]@);
        assert(all.take(i as int).drop_last() == all.take(i - 1));
        match read_assigned(lines[i - 1].as_slice()) {
            Some(a) => {
                return a;
            },
            None => {},
        }
        i = i - 1;
    }
    assert(all.take(0) == Seq::<Seq<char>>::empty());
    Vec::new()
}

/// The address that a UE's log says was assigned last; empty where it says none.
pub fn log_assigned_ip(log: &str) -> (r: String)
    ensures
        r@ == assigned_address(text::lines_of(log@)),
{
    let chars = text::chars_of(log);
    let lines = text::split_lines(chars.as_slice());
    let a = assigned_in(&lines);
    text::string_of(a.as_slice())
}

/// A UE's connection.
pub struct UeConn {
    pub id: usize,
    pub sync: u32,
    pub sib1: u32,
    pub rar_ok: u32,
    pub rar_fail: u32,
    pub rrc: u32,
    pub reg: u32,
    pub stage: Stage,
    pub ip: String,
    /// The tunnel has an address: the data plane works.
    pub has_tun: bool,
}

/// What a UE's connection is.
#[verifier::ext_equal]
pub struct ConnView {
    pub id: usize,
    pub sync: u32,
    pub sib1: u32,
    pub rar_ok: u32,
    pub rar_fail: u32,
    pub rrc: u32,
    pub reg: u32,
    pub stage: Stage,
    pub ip: Seq<char>,
    pub has_tun: bool,
}

impl View for UeConn {
    type V = ConnView;

    open spec fn view(&self) -> ConnView {
        ConnView {
            id: self.id,
            sync: self.sync,
            sib1: self.sib1,
            rar_ok: self.rar_ok,
            rar_fail: self.rar_fail,
            rrc: self.rrc,
            reg: self.reg,
            stage: self.stage,
            ip: self.ip@,
            has_tun: self.has_tun,
        }
    }
}

/// How many lines at the end of a log count as recent.
pub const RECENT_LINES: usize = 250;

/// The end of a log that counts as recent.
pub open spec fn recent(log: Seq<char>) -> Seq<char> {
    text::joined(slice::tail(text::lines_of(log), RECENT_LINES as nat), "\n"@)
}

/// The furthest stage that a text shows a marker of.
pub open spec fn stage_in(t: Seq<char>) -> Option<Stage> {
    if marker_count(t, "Registration Accept"@) > 0 {
        Some(Stage::Registered)
    } else if marker_count(t, "RRCSetupComplete"@) > 0 {
        Some(Stage::Rrc)
    } else if marker_count(t, "RAR-Msg2 decoded"@) > 0 {
        Some(Stage::Rar)
    } else if marker_count(t, "SIB1 decoded"@) > 0 {
        Some(Stage::Sib1)
    } else if marker_count(t, "pbch decoded sucessfully"@) > 0 {
        Some(Stage::Sync)
    } else {
        None
    }
}

/// The stage that a log shows: by a tunnel with an address, else by what is recent, else by the
/// whole log.
pub open spec fn stage_of(log: Seq<char>, has_tun: bool) -> Stage {
    if has_tun {
        Stage::Data
    } else {
        match stage_in(recent(log)) {
            Some(s) => s,
            None => match stage_in(log) {
                Some(s) => s,
                None => Stage::Nothing,
            },
        }
    }
}

/// The tunnel is looked at only where the UE came as far as a connection.
pub open spec fn log_needs_tunnel(log: Seq<char>) -> bool {
    marker_count(log, "Registration Accept"@) > 0 || marker_count(log, "RRCSetupComplete"@) > 0
}

/// A UE's connection, from its log and the address of its tunnel.
pub open spec fn conn_of(id: usize, log: Seq<char>, tunnel: Seq<char>) -> ConnView {
    let live = if log_needs_tunnel(log) {
        tunnel
    } else {
        seq![]
    };
    let assigned = assigned_address(text::lines_of(log));
    ConnView {
        id,
        sync: marker_count(log, "pbch decoded sucessfully"@),
        sib1: marker_count(log, "SIB1 decoded"@),
        rar_ok: marker_count(log, "RAR-Msg2 decoded"@),
        rar_fail: marker_count(log, "RAR reception failed"@),
        rrc: marker_count(log, "RRCSetupComplete"@),
        reg: marker_count(log, "Registration Accept"@),
        stage: stage_of(log, live.len() > 0),
        ip: if live.len() > 0 {
            live
        } else if assigned.len() == 0 {
            "—"@
        } else {
            assigned + "↓"@
        },
        has_tun: live.len() > 0,
    }
}

/// A UE of which there is no log.
pub open spec fn conn_without_log(id: usize) -> ConnView {
    ConnView {
        id,
        sync: 0,
        sib1: 0,
        rar_ok: 0,
        rar_fail: 0,
        rrc: 0,
        reg: 0,
        stage: Stage::NoLog,
        ip: "—"@,
        has_tun: false,
    }
}

proof fn reveal_markers()
    ensures
        "Registration Accept"@.len() > 0,
        "RRCSetupComplete"@.len() > 0,
        "RAR-Msg2 decoded"@.len() > 0,
        "RAR reception failed"@.len() > 0,
        "SIB1 decoded"@.len() > 0,
        "pbch decoded sucessfully"@.len() > 0,
{
    reveal_strlit("Registration Accept");
    reveal_strlit("RRCSetupComplete");
    reveal_strlit("RAR-Msg2 decoded");
    reveal_strlit("RAR reception failed");
    reveal_strlit("SIB1 decoded");
    reveal_strlit("pbch decoded sucessfully");
}

fn furthest_stage(t: &[char]) -> (r: Option<Stage>)
    ensures
        r == stage_in(t@),
{
    proof {
        reveal_markers();
    }
    if count_marker(t, "Registration Accept") > 0 {
        Some(Stage::Registered)
    } else if count_marker(t, "RRCSetupComplete") > 0 {
        Some(Stage::Rrc)
    } else if count_marker(t, "RAR-Msg2 decoded") > 0 {
        Some(Stage::Rar)
    } else if count_marker(t, "SIB1 decoded") > 0 {
        Some(Stage::Sib1)
    } else if count_marker(t, "pbch decoded sucessfully") > 0 {
        Some(Stage::Sync)
    } else {
        None
    }
}

/// The tunnel has to be looked at before the log is read.
pub fn needs_tun_ip(log: &str) -> (r: bool)
    ensures
        r == log_needs_tunnel(log@),
{
    proof {
        reveal_markers();
    }
    let chars = text::chars_of(log);
    count_marker(chars.as_slice(), "Registration Accept") > 0 || count_marker(
        chars.as_slice(),
        "RRCSetupComplete",
    ) > 0
}

/// The recent lines of a log, one after the other.
fn recent_text(lines: &Vec<Vec<char>>) -> (r: Vec<char>)
    ensures
        r@ == text::joined(
            slice::tail(text::char_texts(lines@), RECENT_LINES as nat),
            "\n"@,
        ),
{
    let ghost all = text::char_texts(lines@);
    let start: usize = if lines.len() > RECENT_LINES {
        lines.len() - RECENT_LINES
    } else {
        0
    };
    let ghost part = slice::tail(all, RECENT_LINES as nat);
    assert(part == all.skip(start as int));
    let nl = text::chars_of("\n");
    let mut out: Vec<char> = Vec::new();
    let mut i: usize = start;
    while i < lines.len()
        invariant
            start <= i <= lines.len(),
            all == text::char_texts(lines@),
            part == all.skip(start as int),
            nl@ == "\n"@,
            out@ == text::joined_upto(part, "\n"@, i - start),
        decreases lines.len() - i,
    {
        let ghost before = out@;
        if i > start {
            append_chars(&mut out, &nl);
        }
        append_chars(&mut out, &lines[i]);
        proof {
            assert(part[i - start] == lines@[i as int]@);
            if i == start {
                assert(out@ == part[0]);
            } else {
                assert(out@ == before + "\n"@ + part[i - start]);
            }
        }
        i = i + 1;
    }
    out
}

fn append_chars(out: &mut Vec<char>, more: &Vec<char>)
    ensures
        final(out)@ == old(out)@ + more@,
{
    let ghost before = out@;
    let mut i: usize = 0;
    while i < more.len()
        invariant
            i <= more.len(),
            out@ == before + more@.take(i as int),
        decreases more.len() - i,
    {
        out.push(more[i]);
        i = i + 1;
        assert(more@.take(i as int) == more@.take(i - 1).push(more@[i - 1]));
    }
    assert(more@.take(i as int) == more@);
}

/// Reads a UE's connection from its log and from the address of its tunnel, which counts only
/// where the log asks for it.
pub fn parse_ue_conn(i: usize, log: Option<&str>, tun_ip: &str) -> (r: UeConn)
    ensures
        r@ == match log {
            Some(t) => conn_of(i, t@, tun_ip@),
            None => conn_without_log(i),
        },
{
    let content = match log {
        Some(t) => t,
        None => {
            return UeConn {
                id: i,
                sync: 0,
                sib1: 0,
                rar_ok: 0,
                rar_fail: 0,
                rrc: 0,
                reg: 0,
                stage: Stage::NoLog,
                ip: text::owned("—"),
                has_tun: false,
            };
        },
    };
    proof {
        reveal_markers();
    }
    let chars = text::chars_of(content);
    let all = chars.as_slice();
    let sync = count_marker(all, "pbch decoded sucessfully");
    let sib1 = count_marker(all, "SIB1 decoded");
    let rar_ok = count_marker(all, "RAR-Msg2 decoded");
    let rar_fail = count_marker(all, "RAR reception failed");
    let rrc = count_marker(all, "RRCSetupComplete");
    let reg = count_marker(all, "Registration Accept");
    let lines = text::split_lines(all);
    let has_tun = (reg > 0 || rrc > 0) && tun_ip.unicode_len() > 0;
    let stage = if has_tun {
        Stage::Data
    } else {
        let late = recent_text(&lines);
        match furthest_stage(late.as_slice()) {
            Some(s) => s,
            None => match furthest_stage(all) {
                Some(s) => s,
                None => Stage::Nothing,
            },
        }
    };
    let ip = if has_tun {
        text::owned(tun_ip)
    } else {
        let a = assigned_in(&lines);
        if a.len() == 0 {
            text::owned("—")
        } else {
            let mut t = text::string_of(a.as_slice());
            t.append("↓");
            t
        }
    };
    let r = UeConn { id: i, sync, sib1, rar_ok, rar_fail, rrc, reg, stage, ip, has_tun };
    assert(r@ =~= conn_of(i, content@, tun_ip@));
    r
}

/// A UE is in the data stage exactly where its tunnel has an address, and then shows it.
pub proof fn law_data_means_tunnel(id: usize, log: Seq<char>, tunnel: Seq<char>)
    ensures
        conn_of(id, log, tunnel).has_tun <==> conn_of(id, log, tunnel).stage == Stage::Data,
        conn_of(id, log, tunnel).has_tun ==> conn_of(id, log, tunnel).ip == tunnel,
        conn_of(id, log, tunnel).has_tun ==> tunnel.len() > 0,
{
}

// ---------------------------------------------------------------------------
// Laws on stages
// ---------------------------------------------------------------------------

/// What a log shows where a UE has come to a stage.
pub open spec fn mark_of(s: Stage) -> Option<Seq<char>> {
    match s {
        Stage::Registered => Some("Registration Accept"@),
        Stage::Rrc => Some("RRCSetupComplete"@),
        Stage::Rar => Some("RAR-Msg2 decoded"@),
        Stage::Sib1 => Some("SIB1 decoded"@),
        Stage::Sync => Some("pbch decoded sucessfully"@),
        _ => None,
    }
}

/// The order in which a UE comes to the stages.
pub open spec fn rank(s: Stage) -> int {
    match s {
        Stage::NoLog => -1,
        Stage::Nothing => 0,
        Stage::Sync => 1,
        Stage::Sib1 => 2,
        Stage::Rar => 3,
        Stage::Rrc => 4,
        Stage::Registered => 5,
        Stage::Data => 6,
    }
}

proof fn lemma_count_bounds(s: Seq<char>, pat: Seq<char>, i: int)
    requires
        0 <= i <= s.len(),
        pat.len() > 0,
    ensures
        text::count_from(s, pat, i) <= s.len() - i,
        text::count_from(s, pat, i) > 0 <==> text::find_from(s, pat, i) is Some,
    decreases s.len() - i,
{
    text::lemma_find_from(s, pat, i);
    match text::find_from(s, pat, i) {
        Some(j) => {
            lemma_count_bounds(s, pat, j + pat.len());
        },
        None => {},
    }
}

proof fn lemma_marked(s: Seq<char>, pat: Seq<char>)
    requires
        s.len() < 0x1_0000_0000,
        pat.len() > 0,
    ensures
        marker_count(s, pat) == text::count_from(s, pat, 0),
        marker_count(s, pat) > 0 <==> text::contains(s, pat),
{
    lemma_count_bounds(s, pat, 0);
    let n = text::count_from(s, pat, 0);
    assert(n % 0x1_0000_0000 == n) by (nonlinear_arith)
        requires
            0 <= n < 0x1_0000_0000,
    ;
}

/// A text holds a mark somewhere exactly where it is found.
proof fn lemma_contains(s: Seq<char>, pat: Seq<char>)
    ensures
        text::contains(s, pat) <==> exists|k: int| text::occurs_at(s, pat, k),
{
    text::lemma_find_from(s, pat, 0);
    if text::contains(s, pat) {
        assert(text::occurs_at(s, pat, text::find_from(s, pat, 0)->0));
    }
}

/// A mark without a line feed stands in lines put together exactly where it stands in one of them.
#[verifier::spinoff_prover]
#[verifier::rlimit(50)]
proof fn lemma_in_joined(parts: Seq<Seq<char>>, pat: Seq<char>, n: int)
    requires
        0 <= n <= parts.len(),
        pat.len() > 0,
        forall|k: int| 0 <= k < pat.len() ==> #[trigger] pat[k] != '\n',
    ensures
        text::contains(text::joined_upto(parts, "\n"@, n), pat) <==> exists|i: int|
            0 <= i < n && text::contains(#[trigger] parts[i], pat),
    decreases n,
{
    reveal_strlit("\n");
    let t = text::joined_upto(parts, "\n"@, n);
    lemma_contains(t, pat);
    if n == 1 {
        if text::contains(t, pat) {
            assert(text::contains(parts[0], pat));
        }
    } else if n > 1 {
        let a = text::joined_upto(parts, "\n"@, n - 1);
        let b = parts[n - 1];
        lemma_in_joined(parts, pat, n - 1);
        lemma_contains(a, pat);
        lemma_contains(b, pat);
        assert(t == a + "\n"@ + b);
        if text::contains(t, pat) {
            let k = choose|k: int| text::occurs_at(t, pat, k);
            if k + pat.len() <= a.len() {
                assert(a.subrange(k, k + pat.len()) == t.subrange(k, k + pat.len()));
                assert(text::occurs_at(a, pat, k));
                let i = choose|i: int| 0 <= i < n - 1 && text::contains(#[trigger] parts[i], pat);
                assert(text::contains(parts[i], pat));
            } else if k > a.len() {
                let h = k - a.len() - 1;
                assert(b.subrange(h, h + pat.len()) == t.subrange(k, k + pat.len()));
                assert(text::occurs_at(b, pat, h));
                assert(text::contains(parts[n - 1], pat));
            } else {
                let h = a.len() - k;
                assert(t.subrange(k, k + pat.len())[h] == t[a.len() as int]);
                assert(t[a.len() as int] == '\n');
                assert(pat[h] == '\n');
            }
        }
        if exists|i: int| 0 <= i < n && text::contains(#[trigger] parts[i], pat) {
            let i = choose|i: int| 0 <= i < n && text::contains(#[trigger] parts[i], pat);
            if i == n - 1 {
                let h = choose|h: int| text::occurs_at(b, pat, h);
                let k = h + a.len() + 1;
                assert(t.subrange(k, k + pat.len()) == b.subrange(h, h + pat.len()));
                assert(text::occurs_at(t, pat, k));
            } else {
                assert(text::contains(parts[i], pat));
                let k = choose|k: int| text::occurs_at(a, pat, k);
                assert(t.subrange(k, k + pat.len()) == a.subrange(k, k + pat.len()));
                assert(text::occurs_at(t, pat, k));
            }
        }
    } else {
        if text::contains(t, pat) {
            let k = choose|k: int| text::occurs_at(t, pat, k);
            assert(false);
        }
    }
}

proof fn lemma_marks(s: Stage)
    ensures
        match mark_of(s) {
            Some(m) => m.len() > 0 && forall|k: int| 0 <= k < m.len() ==> #[trigger] m[k] != '\n',
            None => true,
        },
{
    reveal_strlit("Registration Accept");
    reveal_strlit("RRCSetupComplete");
    reveal_strlit("RAR-Msg2 decoded");
    reveal_strlit("SIB1 decoded");
    reveal_strlit("pbch decoded sucessfully");
}

/// One of the last lines of a log shows that a UE has come to a stage.
pub open spec fn lately_at(log: Seq<char>, s: Stage) -> bool {
    let lines = text::lines_of(log);
    mark_of(s) is Some && exists|i: int|
        0 <= i < lines.len() && i >= lines.len() - 250 && text::contains(
            #[trigger] lines[i],
            mark_of(s)->0,
        )
}

#[verifier::spinoff_prover]
#[verifier::rlimit(50)]
proof fn lemma_lately(log: Seq<char>, s: Stage)
    requires
        mark_of(s) is Some,
        recent(log).len() < 0x1_0000_0000,
    ensures
        lately_at(log, s) <==> marker_count(recent(log), mark_of(s)->0) > 0,
{
    lemma_marks(s);
    let m = mark_of(s)->0;
    let lines = text::lines_of(log);
    let part = slice::tail(lines, RECENT_LINES as nat);
    let start = lines.len() - part.len();
    lemma_in_joined(part, m, part.len() as int);
    lemma_marked(recent(log), m);
    if lately_at(log, s) {
        let i = choose|i: int|
            0 <= i < lines.len() && i >= lines.len() - 250 && text::contains(#[trigger] lines[i], m);
        assert(part[i - start] == lines[i]);
    }
    if text::contains(recent(log), m) {
        let i = choose|i: int| 0 <= i < part.len() && text::contains(#[trigger] part[i], m);
        assert(lines[i + start] == part[i]);
    }
}

/// Without a tunnel, the stage shown is the furthest one that the last lines of the log speak of:
/// they speak of it, and of no later one.
#[verifier::spinoff_prover]
#[verifier::rlimit(50)]
pub proof fn law_stage_is_furthest(id: usize, log: Seq<char>, tunnel: Seq<char>, s: Stage)
    requires
        recent(log).len() < 0x1_0000_0000,
        !conn_of(id, log, tunnel).has_tun,
        lately_at(log, s),
    ensures
        lately_at(log, conn_of(id, log, tunnel).stage),
        rank(conn_of(id, log, tunnel).stage) >= rank(s),
        s == Stage::Registered ==> conn_of(id, log, tunnel).stage == Stage::Registered,
{
    lemma_lately(log, Stage::Registered);
    lemma_lately(log, Stage::Rrc);
    lemma_lately(log, Stage::Rar);
    lemma_lately(log, Stage::Sib1);
    lemma_lately(log, Stage::Sync);
}

/// Where the last lines speak of no stage, the whole log is asked in the same way; one that speaks
/// of none at all shows that nothing has been reached.
#[verifier::spinoff_prover]
#[verifier::rlimit(50)]
pub proof fn law_stage_of_old_log(id: usize, log: Seq<char>, tunnel: Seq<char>, s: Stage)
    requires
        log.len() < 0x1_0000_0000,
        recent(log).len() < 0x1_0000_0000,
        !conn_of(id, log, tunnel).has_tun,
        forall|q: Stage| !lately_at(log, q),
    ensures
        mark_of(s) is Some && text::contains(log, mark_of(s)->0) ==> {
            let shown = conn_of(id, log, tunnel).stage;
            rank(shown) >= rank(s) && mark_of(shown) is Some && text::contains(
                log,
                mark_of(shown)->0,
            )
        },
        (forall|q: Stage| mark_of(q) is Some ==> !text::contains(log, #[trigger] mark_of(q)->0))
            ==> conn_of(id, log, tunnel).stage == Stage::Nothing,
{
    lemma_lately(log, Stage::Registered);
    lemma_lately(log, Stage::Rrc);
    lemma_lately(log, Stage::Rar);
    lemma_lately(log, Stage::Sib1);
    lemma_lately(log, Stage::Sync);
    reveal_markers();
    assert forall|q: Stage| mark_of(q) is Some implies (marker_count(log, #[trigger] mark_of(q)->0)
        > 0 <==> text::contains(log, mark_of(q)->0)) by {
        lemma_marks(q);
        lemma_marked(log, mark_of(q)->0);
    }
    assert(mark_of(Stage::Registered) is Some);
    assert(mark_of(Stage::Rrc) is Some);
    assert(mark_of(Stage::Rar) is Some);
    assert(mark_of(Stage::Sib1) is Some);
    assert(mark_of(Stage::Sync) is Some);
}

/// A tunnel counts exactly where it has an address and the log speaks of a connection; the counts
/// are those of the marks that the log holds.
pub proof fn law_connection_counts(id: usize, log: Seq<char>, tunnel: Seq<char>)
    requires
        log.len() < 0x1_0000_0000,
    ensures
        ({
            let c = conn_of(id, log, tunnel);
            &&& c.id == id
            &&& c.has_tun <==> tunnel.len() > 0 && (text::contains(log, "Registration Accept"@)
                || text::contains(log, "RRCSetupComplete"@))
            &&& c.sync > 0 <==> text::contains(log, "pbch decoded sucessfully"@)
            &&& c.sib1 > 0 <==> text::contains(log, "SIB1 decoded"@)
            &&& c.rar_ok > 0 <==> text::contains(log, "RAR-Msg2 decoded"@)
            &&& c.rar_fail > 0 <==> text::contains(log, "RAR reception failed"@)
            &&& c.rrc > 0 <==> text::contains(log, "RRCSetupComplete"@)
            &&& c.reg > 0 <==> text::contains(log, "Registration Accept"@)
            &&& c.sync == text::count_from(log, "pbch decoded sucessfully"@, 0)
            &&& c.sib1 == text::count_from(log, "SIB1 decoded"@, 0)
            &&& c.rar_ok == text::count_from(log, "RAR-Msg2 decoded"@, 0)
            &&& c.rar_fail == text::count_from(log, "RAR reception failed"@, 0)
            &&& c.rrc == text::count_from(log, "RRCSetupComplete"@, 0)
            &&& c.reg == text::count_from(log, "Registration Accept"@, 0)
        }),
{
    reveal_markers();
    lemma_marked(log, "Registration Accept"@);
    lemma_marked(log, "RRCSetupComplete"@);
    lemma_marked(log, "RAR-Msg2 decoded"@);
    lemma_marked(log, "RAR reception failed"@);
    lemma_marked(log, "SIB1 decoded"@);
    lemma_marked(log, "pbch decoded sucessfully"@);
}

} // verus!
