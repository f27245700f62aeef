//! Forced handovers through the CU console: the command texts, the logs that show what became of
//! them, and the order in which a UE is moved from one cell to another.

use vstd::prelude::*;

use crate::slice;
use crate::slice::LogFile;
use crate::text;
use crate::text::CharClass;

verus! {

/// The named pipe that the CU reads commands from.
pub const CU_FIFO: &'static str = "/tmp/ocu_console.fifo";

/// The root of the source tree, from the value of `OCUDU_TREE`; empty when that is unset.
pub fn ocudu_tree(env: Option<&str>) -> (r: String)
    ensures
        r@ == match env {
            Some(t) => t@,
            None => seq![],
        },
{
    match env {
        Some(t) => text::owned(t),
        None => String::new(),
    }
}

// ---------------------------------------------------------------------------
// Starting the CU
// ---------------------------------------------------------------------------

/// How the CU is started: the shell script, and the status shown meanwhile.
pub struct CuLaunch {
    pub script: String,
    pub status: String,
}

/// The CU's configuration file.
pub open spec fn cu_config(tree: Seq<char>, cfg: Option<Seq<char>>) -> Seq<char> {
    match cfg {
        Some(c) => c,
        None => tree + "/configs/cu_g1_g8.yaml"@,
    }
}

/// The processors that the CU is bound to.
pub open spec fn cu_cpus(cpu: Option<Seq<char>>) -> Seq<char> {
    match cpu {
        Some(c) => c,
        None => "1-2"@,
    }
}

/// Ends an earlier CU, makes the pipe anew and holds it open, and starts the CU reading from it.
pub open spec fn cu_script(tree: Seq<char>, cfg: Seq<char>, cpu: Seq<char>) -> Seq<char> {
    "pkill -9 -x ocu 2>/dev/null; sleep 1; rm -f "@ + CU_FIFO@ + "; mkfifo "@ + CU_FIFO@
        + "; exec 9<>"@ + CU_FIFO@ + "; cd "@ + tree
        + "/build/apps || exit 1; exec env MKL_THREADING_LAYER=GNU taskset -c "@ + cpu
        + " ./cu/ocu -c "@ + cfg + " < "@ + CU_FIFO@
}

pub open spec fn cu_launch_status(cfg: Seq<char>, cpu: Seq<char>) -> Seq<char> {
    "launching CU: taskset -c "@ + cpu + " ./cu/ocu -c "@ + text::after_last(cfg, "/"@)
        + "  (FIFO "@ + CU_FIFO@ + ") …"@
}

/// Prepares to start the CU from the root of the source tree and the values of `CU_CFG` and
/// `CU_CPU`.
pub fn launch_cu_fifo(tree: &str, cfg: Option<&str>, cpu: Option<&str>) -> (r: CuLaunch)
    ensures
        r.script@ == cu_script(
            tree@,
            cu_config(tree@, slice::opt_text(cfg)),
            cu_cpus(slice::opt_text(cpu)),
        ),
        r.status@ == cu_launch_status(
            cu_config(tree@, slice::opt_text(cfg)),
            cu_cpus(slice::opt_text(cpu)),
        ),
{
    let cfg = match cfg {
        Some(c) => text::owned(c),
        None => slice::concat_texts(tree, "/configs/cu_g1_g8.yaml"),
    };
    let cpu = match cpu {
        Some(c) => c,
        None => "1-2",
    };
    let mut script = text::owned("pkill -9 -x ocu 2>/dev/null; sleep 1; rm -f ");
    script.append(CU_FIFO);
    script.append("; mkfifo ");
    script.append(CU_FIFO);
    script.append("; exec 9<>");
    script.append(CU_FIFO);
    script.append("; cd ");
    script.append(tree);
    script.append("/build/apps || exit 1; exec env MKL_THREADING_LAYER=GNU taskset -c ");
    script.append(cpu);
    script.append(" ./cu/ocu -c ");
    script.append(cfg.as_str());
    script.append(" < ");
    script.append(CU_FIFO);

    let cfg_chars = text::chars_of(cfg.as_str());
    let short = text::string_of(text::behind_last(cfg_chars.as_slice(), "/"));
    let mut status = text::owned("launching CU: taskset -c ");
    status.append(cpu);
    status.append(" ./cu/ocu -c ");
    status.append(short.as_str());
    status.append("  (FIFO ");
    status.append(CU_FIFO);
    status.append(") …");
    CuLaunch { script, status }
}

/// The status once the CU was started, or could not be.
pub open spec fn cu_outcome(error: Option<Seq<char>>) -> Seq<char> {
    match error {
        None => "CU starting (reading "@ + CU_FIFO@ + "); ~10s to reach AMF, then R/h work"@,
        Some(e) => "CU launch failed: "@ + e,
    }
}

/// The status once the CU was started, or could not be.
pub fn cu_launch_outcome(error: Option<&str>) -> (r: String)
    ensures
        r@ == cu_outcome(slice::opt_text(error)),
{
    match error {
        None => {
            let mut out = text::owned("CU starting (reading ");
            out.append(CU_FIFO);
            out.append("); ~10s to reach AMF, then R/h work");
            out
        },
        Some(e) => slice::concat_texts("CU launch failed: ", e),
    }
}

// ---------------------------------------------------------------------------
// Log places
// ---------------------------------------------------------------------------

pub open spec fn cu_places() -> (Seq<char>, Seq<char>, Seq<char>) {
    ("/build/apps/cu.log"@, "/build/apps/cu/cu.log"@, "/cu.log"@)
}

pub open spec fn du2_places() -> (Seq<char>, Seq<char>, Seq<char>) {
    ("/build/apps/du/du2.log"@, "/build/apps/du2.log"@, "/du2.log"@)
}

/// Candidate CU log locations, from the values of `CU_LOG` and `OCUDU_TREE`.
pub fn cu_log_candidates(cu_log: Option<&str>, tree: Option<&str>) -> (r: Vec<String>)
    ensures
        text::texts(r@) == slice::candidates(
            slice::opt_text(cu_log),
            slice::opt_text(tree),
            cu_places(),
            "cu.log"@,
        ),
{
    slice::log_candidates(
        cu_log,
        tree,
        ("/build/apps/cu.log", "/build/apps/cu/cu.log", "/cu.log"),
        "cu.log",
    )
}

/// Candidate log locations of the target DU, from the values of `DU2_LOG` and `OCUDU_TREE`.
pub fn du2_log_candidates(du2_log: Option<&str>, tree: Option<&str>) -> (r: Vec<String>)
    ensures
        text::texts(r@) == slice::candidates(
            slice::opt_text(du2_log),
            slice::opt_text(tree),
            du2_places(),
            "du2.log"@,
        ),
{
    slice::log_candidates(
        du2_log,
        tree,
        ("/build/apps/du/du2.log", "/build/apps/du2.log", "/du2.log"),
        "du2.log",
    )
}

/// The CU log that is being written: the newest usable one of the candidates.
pub fn cu_log_path(files: &Vec<LogFile>) -> (r: Option<String>)
    ensures
        slice::newest_path(files@, slice::opt_string(r)),
{
    slice::newest_nonempty(files)
}

pub open spec fn any_usable(files: Seq<LogFile>) -> bool {
    exists|i: int| 0 <= i < files.len() && (#[trigger] files[i]).usable()
}

/// The target DU's log: the newest usable candidate of its own, and only where there is none, the
/// newest usable log of the first DU.
pub fn du2_log_path(du2_files: &Vec<LogFile>, du_files: &Vec<LogFile>) -> (r: Option<String>)
    ensures
        any_usable(du2_files@) ==> slice::newest_path(du2_files@, slice::opt_string(r)),
        !any_usable(du2_files@) ==> slice::newest_path(du_files@, slice::opt_string(r)),
{
    match slice::newest_nonempty(du2_files) {
        Some(p) => Some(p),
        None => slice::newest_nonempty(du_files),
    }
}

// ---------------------------------------------------------------------------
// Radio network temporary identifiers
// ---------------------------------------------------------------------------

/// The identifier at the start of a text: hexadecimal behind `0x`, and no placeholder, that is
/// at least 0x10.
pub open spec fn rnti_at_start(s: Seq<char>) -> Option<nat> {
    match slice::hex_body(text::leading(s, CharClass::HexOrX)) {
        Some(h) => match text::number(h, 16, u32::MAX as nat) {
            Some(v) => if v >= 0x10 {
                Some(v)
            } else {
                None
            },
            None => None,
        },
        None => None,
    }
}

/// The identifier behind the first `key` of a line.
pub open spec fn rnti_behind(line: Seq<char>, key: Seq<char>) -> Option<nat> {
    match text::after_first(line, key) {
        Some(rest) => rnti_at_start(rest),
        None => None,
    }
}

/// The first position from `i` on at which `key` stands without a `t` before it. A `t` there
/// makes it the temporary identifier (`tc-rnti=`).
pub open spec fn assigned_from(line: Seq<char>, key: Seq<char>, i: int) -> Option<int>
    decreases line.len() + 1 - i,
{
    match text::find_from(line, key, i) {
        Some(j) => if i <= j <= line.len() {
            if j > 0 && line[j - 1] == 't' {
                assigned_from(line, key, j + 1)
            } else {
                Some(j)
            }
        } else {
            None
        },
        None => None,
    }
}

/// The identifier behind the first `key` that is not the temporary one.
pub open spec fn assigned_rnti(line: Seq<char>, key: Seq<char>) -> Option<nat> {
    match assigned_from(line, key, 0) {
        Some(j) => rnti_at_start(line.skip(j + key.len())),
        None => None,
    }
}

pub open spec fn first_of(a: Option<nat>, b: Option<nat>) -> Option<nat> {
    match a {
        Some(v) => Some(v),
        None => b,
    }
}

/// The identifier that a log line names. The assigned C-RNTI counts before the temporary one.
pub open spec fn rnti_of_line(line: Seq<char>) -> Option<nat> {
    first_of(
        assigned_rnti(line, "c-rnti="@),
        first_of(
            assigned_rnti(line, "crnti="@),
            first_of(
                rnti_behind(line, "c-rnti="@),
                first_of(rnti_behind(line, "crnti="@), rnti_behind(line, "rnti="@)),
            ),
        ),
    )
}

/// A placeholder is never taken for an identifier.
pub proof fn law_no_placeholder(line: Seq<char>)
    ensures
        rnti_of_line(line) matches Some(v) ==> 0x10 <= v <= u32::MAX,
{
}

/// How an identifier is written in a command.
pub open spec fn rnti_text(v: nat) -> Seq<char> {
    "0x"@ + text::hex(v)
}

pub open spec fn opt_rnti_text(v: Option<nat>) -> Option<Seq<char>> {
    match v {
        Some(n) => Some(rnti_text(n)),
        None => None,
    }
}

fn read_rnti(s: &[char]) -> (r: Option<u32>)
    ensures
        match r {
            Some(v) => rnti_at_start(s@) == Some(v as nat),
            None => rnti_at_start(s@) is None,
        },
{
    let tok = text::take_leading(s, CharClass::HexOrX);
    match slice::hex_digits(tok) {
        Some(h) => match slice::read_u32(h, 16) {
            Some(v) => if v >= 0x10 {
                Some(v)
            } else {
                None
            },
            None => None,
        },
        None => None,
    }
}

fn read_rnti_behind(line: &[char], key: &str) -> (r: Option<u32>)
    ensures
        match r {
            Some(v) => rnti_behind(line@, key@) == Some(v as nat),
            None => rnti_behind(line@, key@) is None,
        },
{
    match text::text_after(line, key) {
        Some(rest) => read_rnti(rest),
        None => None,
    }
}

fn read_assigned_rnti(line: &[char], key: &str) -> (r: Option<u32>)
    ensures
        match r {
            Some(v) => assigned_rnti(line@, key@) == Some(v as nat),
            None => assigned_rnti(line@, key@) is None,
        },
{
    let p = text::chars_of(key);
    let mut i: usize = 0;
    loop
        invariant
            p@ == key@,
            i <= line.len(),
            assigned_from(line@, key@, i as int) == assigned_from(line@, key@, 0),
        decreases line.len() - i,
    {
        match text::find_pat(line, p.as_slice(), i) {
            Some(j) => {
                if j > 0 && line[j - 1] == 't' {
                    if j >= line.len() {
                        assert(assigned_from(line@, key@, j + 1) is None);
                        return None;
                    }
                    i = j + 1;
                } else {
                    return read_rnti(text::from_index(line, j + p.len()));
                }
            },
            None => {
                return None;
            },
        }
    }
}

fn read_line_rnti(line: &[char]) -> (r: Option<u32>)
    ensures
        match r {
            Some(v) => rnti_of_line(line@) == Some(v as nat),
            None => rnti_of_line(line@) is None,
        },
{
    match read_assigned_rnti(line, "c-rnti=") {
        Some(v) => Some(v),
        None => match read_assigned_rnti(line, "crnti=") {
            Some(v) => Some(v),
            None => match read_rnti_behind(line, "c-rnti=") {
                Some(v) => Some(v),
                None => match read_rnti_behind(line, "crnti=") {
                    Some(v) => Some(v),
                    None => read_rnti_behind(line, "rnti="),
                },
            },
        },
    }
}

fn rnti_string(v: u32) -> (r: String)
    ensures
        r@ == rnti_text(v as nat),
{
    let mut out = text::owned("0x");
    text::push_number(&mut out, v as u64, 16);
    out
}

/// Extracts the identifier that a log line names, as it is written in a command.
pub fn extract_rnti(line: &str) -> (r: Option<String>)
    ensures
        slice::opt_string(r) == opt_rnti_text(rnti_of_line(line@)),
{
    let chars = text::chars_of(line);
    match read_line_rnti(chars.as_slice()) {
        Some(v) => Some(rnti_string(v)),
        None => None,
    }
}

/// How many lines at the end of a log are searched for an identifier.
pub const RNTI_TAIL: usize = 4000;

/// The identifier on the last line that names one.
pub open spec fn last_rnti(lines: Seq<Seq<char>>) -> Option<nat>
    decreases lines.len(),
{
    if lines.len() == 0 {
        None
    } else {
        first_of(rnti_of_line(lines.last()), last_rnti(lines.drop_last()))
    }
}

/// The most recent identifier in the first log, from the `k`th on, that holds one.
pub open spec fn discovered_from(logs: Seq<Seq<char>>, k: int) -> Option<nat>
    decreases logs.len() - k,
{
    if k < 0 || k >= logs.len() {
        None
    } else {
        first_of(
            last_rnti(slice::tail(text::lines_of(logs[k]), RNTI_TAIL as nat)),
            discovered_from(logs, k + 1),
        )
    }
}

fn read_last_rnti(content: &str) -> (r: Option<u32>)
    ensures
        match r {
            Some(v) => last_rnti(slice::tail(text::lines_of(content@), RNTI_TAIL as nat)) == Some(
                v as nat,
            ),
            None => last_rnti(slice::tail(text::lines_of(content@), RNTI_TAIL as nat)) is None,
        },
{
    let chars = text::chars_of(content);
    let lines = text::split_lines(chars.as_slice());
    let ghost all = text::lines_of(content@);
    let start: usize = if lines.len() > RNTI_TAIL {
        lines.len() - RNTI_TAIL
    } else {
        0
    };
    let ghost part = slice::tail(all, RNTI_TAIL as nat);
    assert(part == all.skip(start as int));
    let mut i: usize = lines.len();
    assert(part.take(i - start) == part);
    while i > start
        invariant
            start <= i <= lines.len(),
            text::char_texts(lines@) == all,
            part == all.skip(start as int),
            part == slice::tail(text::lines_of(content@), RNTI_TAIL as nat),
            last_rnti(part.take(i - start)) == last_rnti(part),
        decreases i,
    {
        proof {
            assert(part.take(i - start).last() == lines@[i - 1]@);
            assert(part.take(i - start).drop_last() == part.take(i - 1 - start));
        }
        match read_line_rnti(lines[i - 1].as_slice()) {
            Some(v) => {
                return Some(v);
            },
            None => {},
        }
        i = i - 1;
    }
    assert(part.take(0) == Seq::<Seq<char>>::empty());
    None
}

/// Discovers the most recent C-RNTI from the contents of the CU log and then of the DU logs;
/// none where no log names one.
pub fn discover_rnti(logs: &Vec<String>) -> (r: Option<String>)
    ensures
        slice::opt_string(r) == opt_rnti_text(discovered_from(text::texts(logs@), 0)),
{
    let mut k: usize = 0;
    while k < logs.len()
        invariant
            k <= logs.len(),
            discovered_from(text::texts(logs@), 0) == discovered_from(
                text::texts(logs@),
                k as int,
            ),
        decreases logs.len() - k,
    {
        match read_last_rnti(logs[k].as_str()) {
            Some(v) => {
                return Some(rnti_string(v));
            },
            None => {},
        }
        k = k + 1;
    }
    None
}

// ---------------------------------------------------------------------------
// The handover command
// ---------------------------------------------------------------------------

pub open spec fn ho_command(serving_pci: nat, rnti: Seq<char>, target_pci: nat) -> Seq<char> {
    "ho "@ + text::dec(serving_pci) + " "@ + rnti + " "@ + text::dec(target_pci)
}

/// A handover command on its way into the CU's pipe.
pub struct HoRequest {
    pub command: String,
    /// The line to write into the pipe.
    pub line: String,
    /// The status shown while it is written.
    pub status: String,
}

/// Prepares the command that moves a UE from the serving to the target cell.
pub fn send_ho(serving_pci: u16, rnti: &str, target_pci: u16) -> (r: HoRequest)
    ensures
        r.command@ == ho_command(serving_pci as nat, rnti@, target_pci as nat),
        r.line@ == r.command@ + "\n"@,
        r.status@ == "sending: "@ + r.command@ + " …"@,
{
    let mut command = text::owned("ho ");
    text::push_dec(&mut command, serving_pci as u64);
    command.append(" ");
    command.append(rnti);
    command.append(" ");
    text::push_dec(&mut command, target_pci as u64);
    let line = slice::concat_texts(command.as_str(), "\n");
    let mut status = text::owned("sending: ");
    status.append(command.as_str());
    status.append(" …");
    HoRequest { command, line, status }
}

pub open spec fn ho_outcome_text(command: Seq<char>, error: Option<Seq<char>>) -> Seq<char> {
    match error {
        None => "sent: "@ + command + "  — watch the events pane"@,
        Some(e) => "FIFO write failed ("@ + e + "). Is the CU running with  < "@ + CU_FIFO@ + " ?"@,
    }
}

/// The status once a command was written, or could not be.
pub fn ho_outcome(command: &str, error: Option<&str>) -> (r: String)
    ensures
        r@ == ho_outcome_text(command@, slice::opt_text(error)),
{
    match error {
        None => {
            let mut out = text::owned("sent: ");
            out.append(command);
            out.append("  — watch the events pane");
            out
        },
        Some(e) => {
            let mut out = text::owned("FIFO write failed (");
            out.append(e);
            out.append("). Is the CU running with  < ");
            out.append(CU_FIFO);
            out.append(" ?");
            out
        },
    }
}

// ---------------------------------------------------------------------------
// Handover events in the logs
// ---------------------------------------------------------------------------

/// Which log events are taken from.
#[derive(Clone, Copy)]
pub enum EventLog {
    Cu,
    Du,
}

/// A CU log line about a handover or its admission.
pub open spec fn is_cu_event(line: Seq<char>) -> bool {
    let low = text::ascii_lower(line);
    ||| text::contains(low, "g8"@)
    ||| text::contains(low, "handover"@)
    ||| text::contains(low, "reconfigurationwithsync"@)
    ||| text::contains(low, "rrc reconfiguration"@)
    ||| (text::contains(low, "rrc"@) && text::contains(low, "sync"@))
}

/// A DU log line that shows a UE arriving by radio. Fragments of encoded messages, the
/// scheduler's echo of each slot, metrics and configuration are none.
pub open spec fn is_du_event(line: Seq<char>) -> bool {
    let low = text::ascii_lower(line);
    &&& !text::starts_with(text::trim_start(line), "\""@)
    &&& {
        ||| text::contains(low, "prach"@)
        ||| text::contains(low, "rar("@)
        ||| text::contains(low, "ra-rnti"@)
        ||| text::contains(low, "msg3"@)
        ||| text::contains(low, "c-rnti=0x"@)
        ||| text::contains(low, "crnti=0x"@)
        ||| text::contains(low, "ue configuration"@)
        ||| text::contains(low, "ue creation"@)
        ||| text::contains(low, "uecontextsetup"@)
        ||| text::contains(low, "rrcreconfiguration"@)
    }
    &&& !text::contains(low, "slot decisions"@)
    &&& !text::contains(low, "metrics"@)
    &&& !text::contains(low, "rach-config"@)
    &&& !text::contains(low, "prach-config"@)
}

pub open spec fn is_event(log: EventLog, line: Seq<char>) -> bool {
    match log {
        EventLog::Cu => is_cu_event(line),
        EventLog::Du => is_du_event(line),
    }
}

/// The event lines among some lines, each without the prefix that ends with the last `] `.
pub open spec fn events_of(lines: Seq<Seq<char>>, log: EventLog) -> Seq<Seq<char>>
    decreases lines.len(),
{
    if lines.len() == 0 {
        seq![]
    } else if is_event(log, lines.last()) {
        events_of(lines.drop_last(), log).push(text::after_last(lines.last(), "] "@))
    } else {
        events_of(lines.drop_last(), log)
    }
}

/// The last `max` events of a log, the most recent one last.
pub open spec fn recent_events(content: Seq<char>, log: EventLog, max: nat) -> Seq<Seq<char>> {
    slice::tail(events_of(text::lines_of(content), log), max)
}

fn cu_event(line: &[char]) -> (r: bool)
    ensures
        r == is_cu_event(line@),
{
    let lowered = text::lowered(line);
    let low = lowered.as_slice();
    text::has(low, "g8") || text::has(low, "handover") || text::has(low, "reconfigurationwithsync")
        || text::has(low, "rrc reconfiguration") || (text::has(low, "rrc") && text::has(low, "sync"))
}

fn du_event(line: &[char]) -> (r: bool)
    ensures
        r == is_du_event(line@),
{
    let lowered = text::lowered(line);
    let low = lowered.as_slice();
    let marked = text::has(low, "prach") || text::has(low, "rar(") || text::has(low, "ra-rnti")
        || text::has(low, "msg3") || text::has(low, "c-rnti=0x") || text::has(low, "crnti=0x")
        || text::has(low, "ue configuration") || text::has(low, "ue creation")
        || text::has(low, "uecontextsetup") || text::has(low, "rrcreconfiguration");
    marked && !text::has_prefix(text::trimmed_start(line), "\"") && !text::has(
        low,
        "slot decisions",
    ) && !text::has(low, "metrics") && !text::has(low, "rach-config") && !text::has(
        low,
        "prach-config",
    )
}

fn ho_events(content: &str, log: EventLog, max: usize) -> (r: Vec<String>)
    ensures
        text::texts(r@) == recent_events(content@, log, max as nat),
{
    let chars = text::chars_of(content);
    let lines = text::split_lines(chars.as_slice());
    let ghost all = text::lines_of(content@);
    let mut found: Vec<String> = Vec::new();
    let mut i: usize = 0;
    assert(all.take(0) == Seq::<Seq<char>>::empty());
    assert(text::texts(found@) == events_of(all.take(0), log));
    while i < lines.len()
        invariant
            i <= lines.len(),
            text::char_texts(lines@) == all,
            text::texts(found@) == events_of(all.take(i as int), log),
        decreases lines.len() - i,
    {
        let line = lines[i].as_slice();
        proof {
            assert(all.take(i + 1).drop_last() == all.take(i as int));
            assert(all.take(i + 1).last() == line@);
        }
        let hit = match log {
            EventLog::Cu => cu_event(line),
            EventLog::Du => du_event(line),
        };
        let ghost before = found@;
        if hit {
            found.push(text::string_of(text::behind_last(line, "] ")));
            assert(text::texts(found@) == text::texts(before).push(
                text::after_last(line@, "] "@),
            ));
        }
        i = i + 1;
    }
    assert(all.take(i as int) == all);
    last_strings(&found, max)
}

/// The last `max` of some texts.
pub fn last_strings(v: &Vec<String>, max: usize) -> (r: Vec<String>)
    ensures
        text::texts(r@) == slice::tail(text::texts(v@), max as nat),
{
    let start: usize = if v.len() > max {
        v.len() - max
    } else {
        0
    };
    let mut out: Vec<String> = Vec::new();
    let mut i: usize = start;
    while i < v.len()
        invariant
            start <= i <= v.len(),
            out@.len() == i - start,
            forall|k: int| 0 <= k < out@.len() ==> #[trigger] out@[k]@ == v@[start + k]@,
        decreases v.len() - i,
    {
        out.push(v[i].clone());
        i = i + 1;
    }
    assert(text::texts(out@) == slice::tail(text::texts(v@), max as nat));
    out
}

/// The last `max` lines of the target DU's log that show a UE arriving by radio.
pub fn du_ho_events(content: &str, max: usize) -> (r: Vec<String>)
    ensures
        text::texts(r@) == recent_events(content@, EventLog::Du, max as nat),
{
    ho_events(content, EventLog::Du, max)
}

/// The last `max` lines of the CU log about handovers.
pub fn cu_ho_events(content: &str, max: usize) -> (r: Vec<String>)
    ensures
        text::texts(r@) == recent_events(content@, EventLog::Cu, max as nat),
{
    ho_events(content, EventLog::Cu, max)
}

// ---------------------------------------------------------------------------
// Moving the UE
// ---------------------------------------------------------------------------

/// How many bytes a character takes in a UTF-8 file.
pub open spec fn utf8_len(c: char) -> nat {
    if (c as u32) < 0x80 {
        1
    } else if (c as u32) < 0x800 {
        2
    } else if (c as u32) < 0x10000 {
        3
    } else {
        4
    }
}

/// How many bytes the first `n` characters of a text take.
pub open spec fn bytes_upto(s: Seq<char>, n: int) -> nat
    decreases n,
{
    if n <= 0 {
        0
    } else {
        bytes_upto(s, n - 1) + utf8_len(s[n - 1])
    }
}

/// The first `n` characters of the text are its first `offset` bytes.
pub open spec fn splits_at(s: Seq<char>, offset: nat, n: int) -> bool {
    0 <= n <= s.len() && bytes_upto(s, n) == offset
}

/// What a log holds from a byte offset on; all of it where no character starts there.
pub open spec fn appended(s: Seq<char>, offset: nat) -> Seq<char> {
    if exists|n: int| splits_at(s, offset, n) {
        s.skip(choose|n: int| splits_at(s, offset, n))
    } else {
        s
    }
}

/// The CU says that it sent a handover reconfiguration.
pub open spec fn shows_reconfig(s: Seq<char>) -> bool {
    let low = text::ascii_lower(s);
    ||| text::contains(low, "reconfigurationwithsync"@)
    ||| text::contains(low, "handover reconfiguration"@)
    ||| text::contains(low, "intra cu handover"@)
}

proof fn lemma_bytes_grow(s: Seq<char>, m: int, n: int)
    requires
        0 <= m < n <= s.len(),
    ensures
        bytes_upto(s, m) < bytes_upto(s, n),
    decreases n,
{
    if m < n - 1 {
        lemma_bytes_grow(s, m, n - 1);
    }
}

fn width(c: char) -> (r: u64)
    ensures
        r == utf8_len(c),
{
    let u: u32 = c as u32;
    if u < 0x80 {
        1
    } else if u < 0x800 {
        2
    } else if u < 0x10000 {
        3
    } else {
        4
    }
}

fn appended_chars(s: &[char], offset: u64) -> (r: &[char])
    ensures
        r@ == appended(s@, offset as nat),
{
    let mut n: usize = 0;
    let mut left: u64 = offset;
    while n < s.len() && left > 0
        invariant
            n <= s.len(),
            left <= offset,
            bytes_upto(s@, n as int) + left == offset,
        decreases s.len() - n,
    {
        let w = width(s[n]);
        if w > left {
            proof {
                assert forall|k: int| !splits_at(s@, offset as nat, k) by {
                    if splits_at(s@, offset as nat, k) {
                        if k <= n {
                            if k < n {
                                lemma_bytes_grow(s@, k, n as int);
                            }
                        } else if k > n + 1 {
                            lemma_bytes_grow(s@, n + 1, k);
                        }
                    }
                }
            }
            return s;
        }
        left = left - w;
        n = n + 1;
    }
    if left > 0 {
        proof {
            assert forall|k: int| !splits_at(s@, offset as nat, k) by {
                if splits_at(s@, offset as nat, k) && k < n {
                    lemma_bytes_grow(s@, k, n as int);
                }
            }
        }
        return s;
    }
    proof {
        assert(splits_at(s@, offset as nat, n as int));
        let k = choose|k: int| splits_at(s@, offset as nat, k);
        if k < n {
            lemma_bytes_grow(s@, k, n as int);
        } else if n < k {
            lemma_bytes_grow(s@, n as int, k);
        }
    }
    text::from_index(s, n)
}

/// Has the CU logged a handover reconfiguration in what was appended since its log was
/// `baseline` bytes long?
pub fn cu_reconfig_after(content: &str, baseline: u64) -> (r: bool)
    ensures
        r == shows_reconfig(appended(content@, baseline as nat)),
{
    let chars = text::chars_of(content);
    let tail = appended_chars(chars.as_slice(), baseline);
    let lowered = text::lowered(tail);
    let low = lowered.as_slice();
    text::has(low, "reconfigurationwithsync") || text::has(low, "handover reconfiguration")
        || text::has(low, "intra cu handover")
}

/// A gain to be written into one of the proxy's gain files.
pub struct GainWrite {
    pub path: String,
    pub gain: String,
}

/// What is written, and where.
pub struct GainView {
    pub path: Seq<char>,
    pub gain: Seq<char>,
}

impl View for GainWrite {
    type V = GainView;

    open spec fn view(&self) -> GainView {
        GainView { path: self.path@, gain: self.gain@ }
    }
}

/// The file that holds one UE's gain on one cell.
pub open spec fn ue_gain_path(ue: nat, cell: nat) -> Seq<char> {
    "/tmp/proxy_ue_gain_"@ + text::dec(ue) + "_"@ + text::dec(cell)
}

/// The file that holds one cell's gain.
pub open spec fn cell_gain_path(cell: nat) -> Seq<char> {
    "/tmp/proxy_cell_gain_"@ + text::dec(cell)
}

/// The cell is fully audible.
pub open spec fn audible() -> Seq<char> {
    "1.000"@
}

/// The cell is not audible.
pub open spec fn muted() -> Seq<char> {
    "0.000"@
}

proof fn lemma_numbers_apart(p: Seq<char>, a: nat, c: nat, b: nat, d: nat)
    requires
        p + text::dec(a) + "_"@ + text::dec(c) == p + text::dec(b) + "_"@ + text::dec(d),
    ensures
        a == b,
        c == d,
{
    let s = p + text::dec(a) + "_"@ + text::dec(c);
    let t = p + text::dec(b) + "_"@ + text::dec(d);
    let x = text::dec(a);
    let y = text::dec(b);
    let n = p.len() as int;
    reveal_strlit("_");
    text::lemma_written(a, 10);
    text::lemma_written(b, 10);
    assert(s[n + x.len()] == '_');
    assert(t[n + y.len()] == '_');
    if x.len() < y.len() {
        assert(t[n + x.len()] == y[x.len() as int]);
        assert(text::is_digit_of(y[x.len() as int], 10));
    }
    if y.len() < x.len() {
        assert(s[n + y.len()] == x[y.len() as int]);
        assert(text::is_digit_of(x[y.len() as int], 10));
    }
    assert(x == s.subrange(n, n + x.len()));
    assert(y == t.subrange(n, n + y.len()));
    text::law_dec_injective(a, b);
    assert(text::dec(c) == s.skip(n + x.len() + 1));
    assert(text::dec(d) == t.skip(n + y.len() + 1));
    text::law_dec_injective(c, d);
}

/// No two UEs share a gain file, nor do two cells: moving one UE leaves the others where they are.
pub proof fn law_gain_files_differ(ue: nat, cell: nat, other_ue: nat, other_cell: nat)
    requires
        ue != other_ue || cell != other_cell,
    ensures
        ue_gain_path(ue, cell) != ue_gain_path(other_ue, other_cell),
        cell != other_cell ==> cell_gain_path(cell) != cell_gain_path(other_cell),
{
    if ue_gain_path(ue, cell) == ue_gain_path(other_ue, other_cell) {
        lemma_numbers_apart("/tmp/proxy_ue_gain_"@, ue, cell, other_ue, other_cell);
    }
    let p = "/tmp/proxy_cell_gain_"@;
    if cell_gain_path(cell) == cell_gain_path(other_cell) {
        assert(cell_gain_path(cell).skip(p.len() as int) == text::dec(cell));
        assert(cell_gain_path(other_cell).skip(p.len() as int) == text::dec(other_cell));
        text::law_dec_injective(cell, other_cell);
    }
}

/// Sets one UE's gain on one cell; `gain` is a decimal text between 0 and 1.
pub fn set_ue_cell_gain(ue: usize, cell_idx: usize, gain: &str) -> (r: GainWrite)
    ensures
        r@ == (GainView { path: ue_gain_path(ue as nat, cell_idx as nat), gain: gain@ }),
{
    let mut path = text::owned("/tmp/proxy_ue_gain_");
    text::push_dec(&mut path, ue as u64);
    path.append("_");
    text::push_dec(&mut path, cell_idx as u64);
    GainWrite { path, gain: text::owned(gain) }
}

/// Sets one cell's gain for all UEs; `gain` is a decimal text between 0 and 1.
pub fn set_cell_gain(cell_idx: usize, gain: &str) -> (r: GainWrite)
    ensures
        r@ == (GainView { path: cell_gain_path(cell_idx as nat), gain: gain@ }),
{
    let mut path = text::owned("/tmp/proxy_cell_gain_");
    text::push_dec(&mut path, cell_idx as u64);
    GainWrite { path, gain: text::owned(gain) }
}

/// A gain written at once, and one written after a delay.
pub struct Crossfade {
    pub now: GainWrite,
    pub delay_ms: u64,
    pub later: GainWrite,
}

/// The two writes of a handover: the target becomes audible, then the source is muted.
pub open spec fn fade(target: Seq<char>, source: Seq<char>) -> (GainView, GainView) {
    (GainView { path: target, gain: audible() }, GainView { path: source, gain: muted() })
}

/// Makes the target cell audible to one UE now, and mutes its source cell after the delay.
pub fn handover_crossfade_ue(
    ue: usize,
    source_idx: usize,
    target_idx: usize,
    delay_ms: u64,
) -> (r: Crossfade)
    ensures
        (r.now@, r.later@) == fade(
            ue_gain_path(ue as nat, target_idx as nat),
            ue_gain_path(ue as nat, source_idx as nat),
        ),
        r.delay_ms == delay_ms,
{
    Crossfade {
        now: set_ue_cell_gain(ue, target_idx, "1.000"),
        delay_ms,
        later: set_ue_cell_gain(ue, source_idx, "0.000"),
    }
}

/// Makes the target cell audible to all UEs now, and mutes the source cell after the delay.
pub fn handover_crossfade(source_idx: usize, target_idx: usize, delay_ms: u64) -> (r: Crossfade)
    ensures
        (r.now@, r.later@) == fade(
            cell_gain_path(target_idx as nat),
            cell_gain_path(source_idx as nat),
        ),
        r.delay_ms == delay_ms,
{
    Crossfade {
        now: set_cell_gain(target_idx, "1.000"),
        delay_ms,
        later: set_cell_gain(source_idx, "0.000"),
    }
}

/// How long a reconfiguration is waited for.
pub const SWITCH_DEADLINE_MS: u64 = 5000;

/// How long to wait between two looks at the log.
pub const SWITCH_POLL_MS: u64 = 50;

/// How long the reconfiguration is given to reach the UE over the air.
pub const SWITCH_SETTLE_MS: u64 = 200;

/// What to do next while a handover is under way.
pub enum SwitchStep {
    /// Wait, then look at the log again.
    Poll { wait_ms: u64 },
    /// Wait, then write the two gains in this order.
    Switch { wait_ms: u64, target: GainWrite, source: GainWrite },
    /// Leave the UE on its source cell.
    Abandon,
}

/// Which step is taken.
pub enum SwitchView {
    Poll(u64),
    Switch(u64, GainView, GainView),
    Abandon,
}

impl View for SwitchStep {
    type V = SwitchView;

    open spec fn view(&self) -> SwitchView {
        match *self {
            SwitchStep::Poll { wait_ms } => SwitchView::Poll(wait_ms),
            SwitchStep::Switch { wait_ms, target, source } => SwitchView::Switch(
                wait_ms,
                target@,
                source@,
            ),
            SwitchStep::Abandon => SwitchView::Abandon,
        }
    }
}

/// The step after `elapsed_ms`, with or without a reconfiguration in the log.
pub open spec fn switch_step(
    ue: nat,
    source: nat,
    target: nat,
    elapsed_ms: nat,
    reconfig: bool,
) -> SwitchView {
    if elapsed_ms >= SWITCH_DEADLINE_MS {
        SwitchView::Abandon
    } else if reconfig {
        SwitchView::Switch(
            SWITCH_SETTLE_MS,
            GainView { path: ue_gain_path(ue, target), gain: audible() },
            GainView { path: ue_gain_path(ue, source), gain: muted() },
        )
    } else {
        SwitchView::Poll(SWITCH_POLL_MS)
    }
}

/// Decides how a handover of one UE goes on. The UE is moved only once the CU has sent the
/// reconfiguration; without one in time it stays on its source cell.
pub fn handover_switch_on_reconfig(
    ue: usize,
    source_idx: usize,
    target_idx: usize,
    elapsed_ms: u64,
    reconfig: bool,
) -> (r: SwitchStep)
    ensures
        r@ == switch_step(
            ue as nat,
            source_idx as nat,
            target_idx as nat,
            elapsed_ms as nat,
            reconfig,
        ),
{
    if elapsed_ms >= SWITCH_DEADLINE_MS {
        SwitchStep::Abandon
    } else if reconfig {
        SwitchStep::Switch {
            wait_ms: SWITCH_SETTLE_MS,
            target: set_ue_cell_gain(ue, target_idx, "1.000"),
            source: set_ue_cell_gain(ue, source_idx, "0.000"),
        }
    } else {
        SwitchStep::Poll { wait_ms: SWITCH_POLL_MS }
    }
}

/// One look at the log: when it was taken, and whether it showed a reconfiguration.
pub struct Look {
    pub elapsed_ms: nat,
    pub reconfig: bool,
}

/// What a row of looks leads to: the step of the first one that does not go on polling.
pub open spec fn switch_run(ue: nat, source: nat, target: nat, looks: Seq<Look>) -> SwitchView
    decreases looks.len(),
{
    if looks.len() == 0 {
        SwitchView::Poll(SWITCH_POLL_MS)
    } else {
        match switch_run(ue, source, target, looks.drop_last()) {
            SwitchView::Poll(_) => switch_step(
                ue,
                source,
                target,
                looks.last().elapsed_ms,
                looks.last().reconfig,
            ),
            done => done,
        }
    }
}

/// A handover whose reconfiguration never shows does not touch any gain: the UE keeps its source
/// cell.
pub proof fn law_no_switch_without_reconfig(ue: nat, source: nat, target: nat, looks: Seq<Look>)
    requires
        forall|i: int| 0 <= i < looks.len() ==> !(#[trigger] looks[i]).reconfig,
    ensures
        !(switch_run(ue, source, target, looks) is Switch),
    decreases looks.len(),
{
    if looks.len() > 0 {
        let rest = looks.drop_last();
        assert forall|i: int| 0 <= i < rest.len() implies !(#[trigger] rest[i]).reconfig by {
            assert(rest[i] == looks[i]);
        }
        law_no_switch_without_reconfig(ue, source, target, rest);
    }
}

/// A switch makes the target audible before it mutes the source, and touches no other UE.
pub proof fn law_switch_gains(ue: nat, source: nat, target: nat, looks: Seq<Look>)
    requires
        switch_run(ue, source, target, looks) is Switch,
    ensures
        switch_run(ue, source, target, looks) == SwitchView::Switch(
            SWITCH_SETTLE_MS,
            GainView { path: ue_gain_path(ue, target), gain: audible() },
            GainView { path: ue_gain_path(ue, source), gain: muted() },
        ),
        exists|i: int|
            0 <= i < looks.len() && (#[trigger] looks[i]).reconfig && looks[i].elapsed_ms
                < SWITCH_DEADLINE_MS,
    decreases looks.len(),
{
    let rest = looks.drop_last();
    if switch_run(ue, source, target, rest) is Switch {
        law_switch_gains(ue, source, target, rest);
        let i = choose|i: int|
            0 <= i < rest.len() && (#[trigger] rest[i]).reconfig && rest[i].elapsed_ms
                < SWITCH_DEADLINE_MS;
        assert(looks[i] == rest[i]);
    } else {
        assert(looks[looks.len() - 1].reconfig);
    }
}

/// A handover goes on until it is decided: before the deadline a look without a reconfiguration
/// leads to the next look, and the first look with one, before the deadline, switches.
pub proof fn law_handover_waits_for_reconfig(
    ue: nat,
    source: nat,
    target: nat,
    looks: Seq<Look>,
)
    requires
        forall|i: int| 0 <= i < looks.len() ==> (#[trigger] looks[i]).elapsed_ms < 5_000,
        forall|i: int| 0 <= i < looks.len() - 1 ==> !(#[trigger] looks[i]).reconfig,
    ensures
        looks.len() > 0 && looks.last().reconfig ==> switch_run(ue, source, target, looks)
            is Switch,
        looks.len() == 0 || !looks.last().reconfig ==> switch_run(ue, source, target, looks)
            is Poll,
    decreases looks.len(),
{
    if looks.len() > 0 {
        let rest = looks.drop_last();
        assert forall|i: int| 0 <= i < rest.len() implies (#[trigger] rest[i]).elapsed_ms
            < 5_000 && !rest[i].reconfig by {
            assert(rest[i] == looks[i]);
        }
        law_handover_waits_for_reconfig(ue, source, target, rest);
        assert(looks[looks.len() - 1].elapsed_ms < 5_000);
        if rest.len() > 0 {
            assert(rest.last() == rest[rest.len() - 1]);
        }
    }
}

/// A handover is given up only at or behind the deadline, and always there.
pub proof fn law_handover_ends_at_deadline(
    ue: nat,
    source: nat,
    target: nat,
    looks: Seq<Look>,
)
    ensures
        switch_run(ue, source, target, looks) is Abandon ==> exists|i: int|
            0 <= i < looks.len() && (#[trigger] looks[i]).elapsed_ms >= 5_000,
        looks.len() > 0 && looks.last().elapsed_ms >= 5_000 ==> !(switch_run(
            ue,
            source,
            target,
            looks,
        ) is Poll),
    decreases looks.len(),
{
    if looks.len() > 0 {
        let rest = looks.drop_last();
        law_handover_ends_at_deadline(ue, source, target, rest);
        if switch_run(ue, source, target, rest) is Abandon {
            let i = choose|i: int| 0 <= i < rest.len() && (#[trigger] rest[i]).elapsed_ms >= 5_000;
            assert(looks[i] == rest[i]);
        }
        assert(looks[looks.len() - 1] == looks.last());
    }
}

/// What was decided stays: looks behind the deciding one change nothing.
pub proof fn law_handover_decides_once(
    ue: nat,
    source: nat,
    target: nat,
    looks: Seq<Look>,
    more: Seq<Look>,
)
    requires
        !(switch_run(ue, source, target, looks) is Poll),
    ensures
        switch_run(ue, source, target, looks + more) == switch_run(ue, source, target, looks),
    decreases more.len(),
{
    if more.len() == 0 {
        assert(looks + more == looks);
    } else {
        law_handover_decides_once(ue, source, target, looks, more.drop_last());
        assert((looks + more).drop_last() == looks + more.drop_last());
    }
}

// ---------------------------------------------------------------------------
// Laws on identifiers
// ---------------------------------------------------------------------------

proof fn lemma_leading_all(s: Seq<char>, class: CharClass, i: int)
    requires
        0 <= i <= s.len(),
        forall|k: int| i <= k < s.len() ==> class.has(#[trigger] s[k]),
    ensures
        text::run_end(s, i, class, true) == s.len(),
    decreases s.len() - i,
{
    if i < s.len() {
        lemma_leading_all(s, class, i + 1);
    }
}

/// An identifier is read back from the way it is written.
proof fn lemma_rnti_read_back(v: nat)
    requires
        0x10 <= v <= u32::MAX,
    ensures
        rnti_at_start(rnti_text(v)) == Some(v),
{
    reveal_strlit("0x");
    let t = rnti_text(v);
    text::lemma_written(v, 16);
    text::law_number_of_hex(v, u32::MAX as nat);
    assert forall|k: int| 0 <= k < t.len() implies CharClass::HexOrX.has(#[trigger] t[k]) by {
        if k >= 2 {
            assert(t[k] == text::hex(v)[k - 2]);
        }
    }
    lemma_leading_all(t, CharClass::HexOrX, 0);
    assert(text::leading(t, CharClass::HexOrX) == t);
    assert(t.subrange(0, 2) == "0x"@);
    assert(t.skip(2) == text::hex(v));
}

/// An identifier at the start of a text is read back, whatever follows it.
proof fn lemma_rnti_at_start(v: nat, rest: Seq<char>)
    requires
        0x10 <= v <= u32::MAX,
        rest.len() > 0 ==> !CharClass::HexOrX.has(rest[0]),
    ensures
        rnti_at_start(rnti_text(v) + rest) == Some(v),
{
    let t = rnti_text(v);
    let s = t + rest;
    lemma_rnti_read_back(v);
    reveal_strlit("0x");
    text::lemma_written(v, 16);
    assert forall|k: int| 0 <= k < t.len() implies CharClass::HexOrX.has(#[trigger] t[k]) by {
        if k >= 2 {
            assert(t[k] == text::hex(v)[k - 2]);
        }
    }
    lemma_leading_all(t, CharClass::HexOrX, 0);
    assert(t.take(t.len() as int) == t);
    assert forall|k: int| 0 <= k < t.len() implies CharClass::HexOrX.has(#[trigger] s[k]) by {
        assert(s[k] == t[k]);
    }
    text::lemma_run_is(s, 0, t.len() as int, CharClass::HexOrX, true);
    assert(s.take(t.len() as int) == t);
}

/// What is found before the end of a text is found there too when the text goes on.
proof fn lemma_find_extended(head: Seq<char>, tail: Seq<char>, pat: Seq<char>, i: int)
    requires
        0 <= i,
        text::find_from(head, pat, i) is Some,
    ensures
        text::find_from(head + tail, pat, i) == text::find_from(head, pat, i),
{
    let s = head + tail;
    text::lemma_find_from(head, pat, i);
    let j = text::find_from(head, pat, i)->0;
    assert(s.subrange(j, j + pat.len()) == head.subrange(j, j + pat.len()));
    assert forall|k: int| i <= k < j implies !text::occurs_at(s, pat, k) by {
        assert(!text::occurs_at(head, pat, k));
        assert(s.subrange(k, k + pat.len()) == head.subrange(k, k + pat.len()));
    }
    text::lemma_find_is(s, pat, i, j);
}

proof fn lemma_assigned_extended(head: Seq<char>, tail: Seq<char>, key: Seq<char>, i: int)
    requires
        0 <= i,
        assigned_from(head, key, i) is Some,
    ensures
        assigned_from(head + tail, key, i) == assigned_from(head, key, i),
    decreases head.len() + 1 - i,
{
    lemma_find_extended(head, tail, key, i);
    text::lemma_find_from(head, key, i);
    let j = text::find_from(head, key, i)->0;
    if j > 0 && head[j - 1] == 't' {
        lemma_assigned_extended(head, tail, key, j + 1);
    }
}

/// The first assigned C-RNTI of a line is the one that is taken, whatever stands around it, a
/// temporary identifier before it or other identifiers behind it included.
pub proof fn law_assigned_rnti(before: Seq<char>, v: nat, rest: Seq<char>)
    requires
        0x10 <= v <= u32::MAX,
        assigned_from(before + "c-rnti="@, "c-rnti="@, 0) == Some(before.len() as int),
        rest.len() > 0 ==> !CharClass::HexOrX.has(rest[0]),
    ensures
        rnti_of_line(before + "c-rnti="@ + rnti_text(v) + rest) == Some(v),
{
    let key = "c-rnti="@;
    let head = before + key;
    let tail = rnti_text(v) + rest;
    let line = before + key + rnti_text(v) + rest;
    assert(line == head + tail);
    lemma_assigned_extended(head, tail, key, 0);
    assert(line.skip((before.len() + key.len()) as int) == tail);
    lemma_rnti_at_start(v, rest);
}

/// Where a line names an identifier only as `rnti=`, the first one is taken.
pub proof fn law_rnti_read_back(before: Seq<char>, v: nat, rest: Seq<char>)
    requires
        0x10 <= v <= u32::MAX,
        text::find_from(before + "rnti="@, "rnti="@, 0) == Some(before.len() as int),
        !text::contains(before + "rnti="@ + rnti_text(v) + rest, "c-rnti="@),
        !text::contains(before + "rnti="@ + rnti_text(v) + rest, "crnti="@),
        rest.len() > 0 ==> !CharClass::HexOrX.has(rest[0]),
    ensures
        rnti_of_line(before + "rnti="@ + rnti_text(v) + rest) == Some(v),
{
    let key = "rnti="@;
    let tail = rnti_text(v) + rest;
    let line = before + key + rnti_text(v) + rest;
    assert(line == before + key + tail);
    lemma_find_extended(before + key, tail, key, 0);
    assert(line.skip((before.len() + key.len()) as int) == tail);
    lemma_rnti_at_start(v, rest);
}

/// Where a line names the temporary and the assigned identifier, the assigned one is taken.
pub proof fn law_assigned_before_temporary(t: nat, v: nat)
    requires
        0x10 <= t <= u32::MAX,
        0x10 <= v <= u32::MAX,
    ensures
        rnti_of_line("tc-rnti="@ + rnti_text(t) + " c-rnti="@ + rnti_text(v)) == Some(v),
{
    reveal_strlit("tc-rnti=");
    reveal_strlit("c-rnti=");
    reveal_strlit(" c-rnti=");
    reveal_strlit("0x");
    let head = "tc-rnti="@ + rnti_text(t);
    let line = head + " c-rnti="@ + rnti_text(v);
    let at = head.len() as int + 1;
    lemma_rnti_read_back(v);
    text::lemma_written(t, 16);
    assert forall|i: int| 10 <= i < head.len() implies text::is_hex_digit(#[trigger] line[i]) by {
        assert(line[i] == text::hex(t)[i - 10]);
    }
    assert(line.subrange(at, at + 7) == "c-rnti="@);
    assert(line.skip(at + 7) == rnti_text(v));
    assert(line.subrange(1, 8) == "c-rnti="@);
    assert(!text::occurs_at(line, "c-rnti="@, 0)) by {
        assert(line.subrange(0, 7)[0] == line[0]);
    }
    text::lemma_find_is(line, "c-rnti="@, 0, 1);
    assert forall|i: int| 2 <= i < at implies !text::occurs_at(line, "c-rnti="@, i) by {
        if text::occurs_at(line, "c-rnti="@, i) {
            assert(line.subrange(i, i + 7)[1] == line[i + 1]);
            assert(line.subrange(i, i + 7)[2] == line[i + 2]);
            assert(line[i + 1] == '-');
            if i + 1 < 10 {
                assert(line[i + 1] == "tc-rnti=0x"@[i + 1] || i + 1 >= 8);
            } else if i + 1 < head.len() {
                assert(text::is_hex_digit(line[i + 1]));
            } else {
                assert(i + 1 <= at);
                assert(line[i + 1] == " c-rnti="@[i + 1 - head.len()]);
            }
        }
    }
    text::lemma_find_is(line, "c-rnti="@, 2, at);
    assert(line[at - 1] == ' ');
    assert(assigned_from(line, "c-rnti="@, 2) == Some(at));
    assert(assigned_from(line, "c-rnti="@, 0) == assigned_from(line, "c-rnti="@, 2));
}

proof fn lemma_bytes_prefix(a: Seq<char>, b: Seq<char>, n: int)
    requires
        0 <= n <= a.len(),
    ensures
        bytes_upto(a + b, n) == bytes_upto(a, n),
    decreases n,
{
    if n > 0 {
        lemma_bytes_prefix(a, b, n - 1);
    }
}

/// Of a log that grew, only what was appended counts.
pub proof fn law_only_appended_counts(old_log: Seq<char>, new_text: Seq<char>)
    ensures
        appended(old_log + new_text, bytes_upto(old_log, old_log.len() as int)) == new_text,
{
    let s = old_log + new_text;
    let n = old_log.len() as int;
    let offset = bytes_upto(old_log, n);
    lemma_bytes_prefix(old_log, new_text, n);
    assert(splits_at(s, offset, n));
    let k = choose|k: int| splits_at(s, offset, k);
    if k < n {
        lemma_bytes_grow(s, k, n);
    } else if n < k {
        lemma_bytes_grow(s, n, k);
    }
    assert(s.skip(n) == new_text);
}

} // verus!
