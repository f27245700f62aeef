//! The channel model of a UE, driven over its telnet server: which port, which command lines, and
//! what the replies say. It has an effect only where the UE runs with the channel model.

use vstd::prelude::*;

use crate::slice;
use crate::text;
use crate::text::CharClass;

verus! {

/// The port of the first UE's telnet server lies one above this.
pub const TELNET_BASE: u16 = 9095;

/// The telnet port of a UE.
pub open spec fn telnet_port(ue: nat) -> nat {
    TELNET_BASE as nat + ue % 65536
}

/// The telnet port of a UE.
pub fn ue_telnet_port(ue: usize) -> (r: u16)
    requires
        telnet_port(ue as nat) <= u16::MAX,
    ensures
        r == telnet_port(ue as nat),
{
    TELNET_BASE + (ue % 65536) as u16
}

/// A UE has a telnet port.
pub fn has_telnet_port(ue: usize) -> (r: bool)
    ensures
        r == (telnet_port(ue as nat) <= u16::MAX),
{
    ue % 65536 <= (u16::MAX - TELNET_BASE) as usize
}

/// Something to send to a telnet server on this machine.
pub struct TelnetRequest {
    pub port: u16,
    /// The command line with the line feed that ends it.
    pub line: String,
    /// How long to wait for the connection, for a write and at most for a read; the whole exchange
    /// takes about twice as long at most.
    pub timeout_ms: u64,
}

/// A command with the line feed that ends it.
pub open spec fn command_line(cmd: Seq<char>) -> Seq<char> {
    if cmd.len() > 0 && cmd.last() == '\n' {
        cmd
    } else {
        cmd + "\n"@
    }
}

/// Prepares one command line for a telnet server.
pub fn send(port: u16, cmd: &str, timeout_ms: u64) -> (r: TelnetRequest)
    ensures
        r.port == port,
        r.line@ == command_line(cmd@),
        r.timeout_ms == timeout_ms,
{
    let chars = text::chars_of(cmd);
    let n = chars.len();
    let mut line = text::owned(cmd);
    if n == 0 || chars[n - 1] != '\n' {
        line.append("\n");
    }
    TelnetRequest { port, line, timeout_ms }
}

/// A reply of more bytes than this is not read on.
pub const REPLY_LIMIT: usize = 65536;

/// A reply of that length is not read on after that time.
pub open spec fn reply_done(len: nat, elapsed_ms: nat, timeout_ms: nat) -> bool {
    len > REPLY_LIMIT || elapsed_ms >= 2 * timeout_ms
}

/// A reply is not read on: it is long enough, or the exchange has taken twice its timeout.
pub fn reply_step(len: usize, elapsed_ms: u64, timeout_ms: u64) -> (stop: bool)
    ensures
        stop == reply_done(len as nat, elapsed_ms as nat, timeout_ms as nat),
{
    len > REPLY_LIMIT || elapsed_ms / 2 >= timeout_ms
}

/// What is left of twice the timeout, but at most the timeout.
pub open spec fn read_wait_ms(elapsed_ms: int, timeout_ms: int) -> int {
    if elapsed_ms <= timeout_ms {
        timeout_ms
    } else if elapsed_ms < 2 * timeout_ms {
        2 * timeout_ms - elapsed_ms
    } else {
        0
    }
}

/// How long the next read of an exchange may wait: for the timeout, but not beyond twice the timeout
/// from the start of the exchange on.
pub fn read_wait(elapsed_ms: u64, timeout_ms: u64) -> (r: u64)
    ensures
        r == read_wait_ms(elapsed_ms as int, timeout_ms as int),
{
    if elapsed_ms <= timeout_ms {
        timeout_ms
    } else if elapsed_ms - timeout_ms < timeout_ms {
        timeout_ms - (elapsed_ms - timeout_ms)
    } else {
        0
    }
}

/// An exchange that is not stopped waits on, but no read of it waits beyond twice the timeout.
pub proof fn law_exchange_is_bounded(elapsed_ms: nat, timeout_ms: nat)
    requires
        elapsed_ms < 2 * timeout_ms,
    ensures
        0 < read_wait_ms(elapsed_ms as int, timeout_ms as int) <= timeout_ms,
        elapsed_ms + read_wait_ms(elapsed_ms as int, timeout_ms as int) <= 2 * timeout_ms,
{
}

pub open spec fn modify_command(idx: nat, param: Seq<char>, value: Seq<char>) -> Seq<char> {
    "channelmod modify "@ + text::dec(idx) + " "@ + param + " "@ + value
}

/// Changes a parameter of a channel; `value` is a decimal text of two places.
pub fn channelmod_modify(ue: usize, chan_idx: u32, param: &str, value: &str) -> (r: TelnetRequest)
    requires
        telnet_port(ue as nat) <= u16::MAX,
    ensures
        r.port == telnet_port(ue as nat),
        r.line@ == command_line(modify_command(chan_idx as nat, param@, value@)),
        r.timeout_ms == 400,
{
    let mut cmd = text::owned("channelmod modify ");
    text::push_dec(&mut cmd, chan_idx as u64);
    cmd.append(" ");
    cmd.append(param);
    cmd.append(" ");
    cmd.append(value);
    send(ue_telnet_port(ue), cmd.as_str(), 400)
}

/// Asks for the active channels and their indices.
pub fn channelmod_show_current(ue: usize) -> (r: TelnetRequest)
    requires
        telnet_port(ue as nat) <= u16::MAX,
    ensures
        r.port == telnet_port(ue as nat),
        r.line@ == command_line("channelmod show current"@),
        r.timeout_ms == 500,
{
    send(ue_telnet_port(ue), "channelmod show current", 500)
}

/// A port to connect to, and how long to wait.
pub struct Probe {
    pub port: u16,
    pub timeout_ms: u64,
}

/// The connection that shows whether a UE's telnet server is there.
pub fn telnet_reachable(ue: usize) -> (r: Probe)
    requires
        telnet_port(ue as nat) <= u16::MAX,
    ensures
        r.port == telnet_port(ue as nat),
        r.timeout_ms == 150,
{
    Probe { port: ue_telnet_port(ue), timeout_ms: 150 }
}

/// The first of some texts that is a number in the range of `u32`.
pub open spec fn first_number(parts: Seq<Seq<char>>) -> Option<u32>
    decreases parts.len(),
{
    if parts.len() == 0 {
        None
    } else {
        match text::number(parts[0], 10, u32::MAX as nat) {
            Some(n) => Some(n as u32),
            None => first_number(parts.skip(1)),
        }
    }
}

/// The index on a line about the downlink channel; none on any other line.
pub open spec fn index_on_line(line: Seq<char>) -> Option<u32> {
    if text::contains(text::ascii_lower(line), "enb"@) {
        first_number(text::tokens(line, CharClass::Digit))
    } else {
        None
    }
}

/// The index on the first line that has one.
pub open spec fn index_in_lines(lines: Seq<Seq<char>>) -> Option<u32>
    decreases lines.len(),
{
    if lines.len() == 0 {
        None
    } else {
        match index_on_line(lines[0]) {
            Some(n) => Some(n),
            None => index_in_lines(lines.skip(1)),
        }
    }
}

fn read_first_number(parts: &Vec<Vec<char>>) -> (r: Option<u32>)
    ensures
        r == first_number(text::char_texts(parts@)),
{
    let ghost all = text::char_texts(parts@);
    let mut i: usize = 0;
    assert(all.skip(0) == all);
    while i < parts.len()
        invariant
            i <= parts.len(),
            all == text::char_texts(parts@),
            first_number(all) == first_number(all.skip(i as int)),
        decreases parts.len() - i,
    {
        assert(all.skip(i as int)[0] == parts@[i as int]@);
        assert(all.skip(i as int).skip(1) == all.skip(i + 1));
        match slice::read_u32(parts[i].as_slice(), 10) {
            Some(n) => {
                return Some(n);
            },
            None => {},
        }
        i = i + 1;
    }
    None
}

/// The index of a UE's downlink channel in the list of its channels.
pub open spec fn channel_index(listing: Option<Seq<char>>) -> Option<u32> {
    match listing {
        Some(t) => match index_in_lines(text::lines_of(t)) {
            Some(n) => Some(n),
            None => Some(0),
        },
        None => None,
    }
}

/// Finds the index of a UE's downlink channel in the list of its channels: the first number on
/// the first line that names an eNB and has one. It is 0 where the list names none, and there is
/// none where the UE gave no list.
pub fn discover_enb_channel_idx(listing: Option<&str>) -> (r: Option<u32>)
    ensures
        r == channel_index(slice::opt_text(listing)),
{
    let content = match listing {
        Some(t) => t,
        None => {
            return None;
        },
    };
    let chars = text::chars_of(content);
    let lines = text::split_lines(chars.as_slice());
    let ghost all = text::lines_of(content@);
    let mut i: usize = 0;
    assert(all.skip(0) == all);
    while i < lines.len()
        invariant
            i <= lines.len(),
            listing is Some,
            content@ == listing->0@,
            all == text::lines_of(content@),
            text::char_texts(lines@) == all,
            index_in_lines(all) == index_in_lines(all.skip(i as int)),
        decreases lines.len() - i,
    {
        let line = lines[i].as_slice();
        assert(all.skip(i as int)[0] == line@);
        assert(all.skip(i as int).skip(1) == all.skip(i + 1));
        let low = text::lowered(line);
        if text::has(low.as_slice(), "enb") {
            let parts = text::split_tokens(line, CharClass::Digit);
            match read_first_number(&parts) {
                Some(n) => {
                    return Some(n);
                },
                None => {},
            }
        }
        i = i + 1;
    }
    Some(0)
}

} // verus!
