//! The small JSON texts by which the commands of the manager and its helpers talk to each other:
//! the mode of a simulation, the processes it started, and orders to the traffic engine.

use vstd::prelude::*;

use crate::slice;
use crate::text;

verus! {

// ---------------------------------------------------------------------------
// Members of an object
// ---------------------------------------------------------------------------

/// A text of lower case letters.
pub open spec fn is_word(s: Seq<char>) -> bool {
    forall|i: int| 0 <= i < s.len() ==> 'a' <= #[trigger] s[i] <= 'z'
}

/// What a mode is called in the mode file.
pub open spec fn mode_word(rfsim: bool) -> Seq<char> {
    if rfsim {
        "rfsim"@
    } else {
        "zmq"@
    }
}

/// The text of the mode file.
pub open spec fn mode_text(mode: Seq<char>, num_ues: nat) -> Seq<char> {
    "{\"mode\":\""@ + mode + "\",\"num_ues\":"@ + text::dec(num_ues) + "}"@
}

/// The string that a JSON text, where it is an object, holds under a key.
pub uninterp spec fn string_member(json: Seq<char>, key: Seq<char>) -> Option<Seq<char>>;

/// The unsigned number that a JSON text, where it is an object, holds under a key.
pub uninterp spec fn number_member(json: Seq<char>, key: Seq<char>) -> Option<u64>;

/// `serde_json::from_str` to a `Value`, then `Value::get` and `Value::as_str`: none where the text
/// is no JSON, or no object, or has no string under the key. What is claimed beyond that the
/// result depends on the text and the key alone: of a mode file the mode is found.
#[verifier::external_body]
fn read_string_member(json: &str, key: &str) -> (r: Option<String>)
    ensures
        slice::opt_string(r) == string_member(json@, key@),
        forall|mode: Seq<char>, n: u64|
            is_word(mode) && json@ == #[trigger] mode_text(mode, n as nat) && key@ == "mode"@
                ==> slice::opt_string(r) == Some(mode),
{
    match serde_json::from_str::<serde_json::Value>(json) {
        Ok(v) => match v.get(key) {
            Some(m) => match m.as_str() {
                Some(s) => Some(s.to_owned()),
                None => None,
            },
            None => None,
        },
        Err(_) => None,
    }
}

/// `serde_json::from_str` to a `Value`, then `Value::get` and `Value::as_u64`: none where the text
/// is no JSON, or no object, or has no unsigned number under the key. What is claimed beyond that
/// the result depends on the text and the key alone: of a mode file the number of UEs is found.
#[verifier::external_body]
fn read_number_member(json: &str, key: &str) -> (r: Option<u64>)
    ensures
        r == number_member(json@, key@),
        forall|mode: Seq<char>, n: u64|
            is_word(mode) && json@ == #[trigger] mode_text(mode, n as nat) && key@ == "num_ues"@
                ==> r == Some(n),
{
    match serde_json::from_str::<serde_json::Value>(json) {
        Ok(v) => match v.get(key) {
            Some(m) => m.as_u64(),
            None => None,
        },
        Err(_) => None,
    }
}

/// A simulation uses the radio simulator: its mode file says so.
pub open spec fn is_rfsim(member: Option<Seq<char>>) -> bool {
    member == Some("rfsim"@)
}

/// The mode that a mode file's member gives.
pub fn mode_is_rfsim(member: Option<&str>) -> (r: bool)
    ensures
        r == is_rfsim(slice::opt_text(member)),
{
    match member {
        Some(m) => text::same_text(m, "rfsim"),
        None => false,
    }
}

/// Both modes are words, and differ.
proof fn lemma_mode_words()
    ensures
        forall|rfsim: bool| is_word(#[trigger] mode_word(rfsim)),
        mode_word(true) != mode_word(false),
{
    reveal_strlit("rfsim");
    reveal_strlit("zmq");
    assert("rfsim"@.len() != "zmq"@.len());
}

/// Reads whether the simulation uses the radio simulator from the mode file; it does not where
/// there is no such file or it says nothing. What the start of a simulation wrote is read back.
pub fn read_mode(content: Option<&str>) -> (r: bool)
    ensures
        match content {
            Some(t) => r == is_rfsim(string_member(t@, "mode"@)) && forall|rfsim: bool, n: u64|
                t@ == #[trigger] mode_text(mode_word(rfsim), n as nat) ==> r == rfsim,
            None => !r,
        },
{
    proof {
        lemma_mode_words();
    }
    match content {
        Some(t) => match read_string_member(t, "mode") {
            Some(m) => mode_is_rfsim(Some(m.as_str())),
            None => false,
        },
        None => false,
    }
}

/// Reads the number of UEs from the mode file, and 0 where there is no such file or it says
/// nothing. What the start of a simulation wrote is read back.
pub fn read_mode_num_ues(content: Option<&str>) -> (r: usize)
    ensures
        match content {
            Some(t) => r == (match number_member(t@, "num_ues"@) {
                Some(n) => n as usize,
                None => 0,
            }) && forall|rfsim: bool, n: usize|
                t@ == #[trigger] mode_text(mode_word(rfsim), n as nat) ==> r == n,
            None => r == 0,
        },
{
    match content {
        Some(t) => {
            let found = read_number_member(t, "num_ues");
            proof {
                lemma_mode_words();
                assert forall|rfsim: bool, n: usize|
                    t@ == #[trigger] mode_text(mode_word(rfsim), n as nat) implies found == Some(
                    n as u64,
                ) by {
                    assert(t@ == mode_text(mode_word(rfsim), (n as u64) as nat));
                }
            }
            match found {
                Some(n) => n as usize,
                None => 0,
            }
        },
        None => 0,
    }
}

/// The text of the mode file.
pub fn mode_file(rfsim: bool, num_ues: usize) -> (r: String)
    ensures
        r@ == mode_text(mode_word(rfsim), num_ues as nat),
{
    let mut out = text::owned("{\"mode\":\"");
    out.append(
        if rfsim {
            "rfsim"
        } else {
            "zmq"
        },
    );
    out.append("\",\"num_ues\":");
    text::push_dec(&mut out, num_ues as u64);
    out.append("}");
    out
}

// ---------------------------------------------------------------------------
// Processes by name
// ---------------------------------------------------------------------------

/// Names with their process numbers, where a later one replaces an earlier one of its name.
pub open spec fn named(v: Seq<(String, u32)>) -> Map<Seq<char>, u32>
    decreases v.len(),
{
    if v.len() == 0 {
        Map::empty()
    } else {
        named(v.drop_last()).insert(v.last().0@, v.last().1)
    }
}

/// No name occurs twice.
pub open spec fn distinct(v: Seq<(String, u32)>) -> bool {
    forall|i: int, j: int|
        0 <= i < j < v.len() ==> (#[trigger] v[i]).0@ != (#[trigger] v[j]).0@
}

/// The names and process numbers that a JSON text holds, where it is an object of such numbers.
pub uninterp spec fn numbers_in(json: Seq<char>) -> Option<Map<Seq<char>, u32>>;

/// `serde_json::from_str` to a map from strings to `u32`: none where the text is no JSON object
/// whose values are all such numbers. The order of the pairs is not fixed, and no name comes twice.
#[verifier::external_body]
fn read_numbers(json: &str) -> (r: Option<Vec<(String, u32)>>)
    ensures
        match r {
            Some(v) => numbers_in(json@) == Some(named(v@)) && distinct(v@),
            None => numbers_in(json@) is None,
        },
{
    match serde_json::from_str::<std::collections::HashMap<String, u32>>(json) {
        Ok(m) => Some(m.into_iter().collect()),
        Err(_) => None,
    }
}

/// `serde_json::to_string_pretty` of a map from strings to `u32`. It does not fail on such a map,
/// and `serde_json::from_str` reads the map back from the text. In which order the text lists the
/// names is not fixed.
#[verifier::external_body]
fn write_numbers(v: &Vec<(String, u32)>) -> (r: Option<String>)
    requires
        distinct(v@),
    ensures
        r is Some,
        numbers_in(r->0@) == Some(named(v@)),
{
    let m: std::collections::HashMap<&str, u32> = v.iter().map(|e| (e.0.as_str(), e.1)).collect();
    match serde_json::to_string_pretty(&m) {
        Ok(t) => Some(t),
        Err(_) => None,
    }
}

/// The processes of a simulation by name.
pub struct Pids {
    pub entries: Vec<(String, u32)>,
}

impl View for Pids {
    type V = Map<Seq<char>, u32>;

    open spec fn view(&self) -> Map<Seq<char>, u32> {
        named(self.entries@)
    }
}

proof fn lemma_named(v: Seq<(String, u32)>, i: int)
    requires
        distinct(v),
        0 <= i < v.len(),
    ensures
        named(v).dom().contains(v[i].0@),
        named(v)[v[i].0@] == v[i].1,
    decreases v.len(),
{
    let d = v.drop_last();
    if i < v.len() - 1 {
        assert(distinct(d));
        lemma_named(d, i);
        assert(d[i] == v[i]);
    }
}

proof fn lemma_not_named(v: Seq<(String, u32)>, name: Seq<char>)
    requires
        forall|i: int| 0 <= i < v.len() ==> (#[trigger] v[i]).0@ != name,
    ensures
        !named(v).dom().contains(name),
    decreases v.len(),
{
    if v.len() > 0 {
        let d = v.drop_last();
        assert forall|i: int| 0 <= i < d.len() implies (#[trigger] d[i]).0@ != name by {
            assert(d[i] == v[i]);
        }
        lemma_not_named(d, name);
        assert(v[v.len() - 1].0@ != name);
    }
}

proof fn lemma_renumbered(v: Seq<(String, u32)>, k: int, e: (String, u32))
    requires
        distinct(v),
        0 <= k < v.len(),
        e.0@ == v[k].0@,
    ensures
        named(v.update(k, e)) == named(v).insert(e.0@, e.1),
        distinct(v.update(k, e)),
    decreases v.len(),
{
    let d = v.drop_last();
    let w = v.update(k, e);
    assert forall|i: int, j: int| 0 <= i < j < w.len() implies (#[trigger] w[i]).0@ != (
    #[trigger] w[j]).0@ by {
        assert(v[i].0@ != v[j].0@);
    }
    assert(distinct(d));
    if k < v.len() - 1 {
        lemma_renumbered(d, k, e);
        assert(w.drop_last() == d.update(k, e));
        assert(w.last() == v.last());
        assert(v[k].0@ != v[v.len() - 1].0@);
        assert(named(w) =~= named(v).insert(e.0@, e.1));
    } else {
        assert(w.drop_last() == d);
        assert(named(w) =~= named(v).insert(e.0@, e.1));
    }
}

impl Pids {
    pub open spec fn well_formed(self) -> bool {
        distinct(self.entries@)
    }

    pub fn new() -> (r: Self)
        ensures
            r.well_formed(),
            r@ == Map::<Seq<char>, u32>::empty(),
    {
        Pids { entries: Vec::new() }
    }

    fn position(&self, name: &str) -> (r: Option<usize>)
        ensures
            match r {
                Some(i) => i < self.entries@.len() && self.entries@[i as int].0@ == name@,
                None => forall|i: int|
                    0 <= i < self.entries@.len() ==> (#[trigger] self.entries@[i]).0@ != name@,
            },
    {
        let mut i: usize = 0;
        while i < self.entries.len()
            invariant
                i <= self.entries.len(),
                forall|k: int| 0 <= k < i ==> (#[trigger] self.entries@[k]).0@ != name@,
            decreases self.entries.len() - i,
        {
            if text::same_text(self.entries[i].0.as_str(), name) {
                return Some(i);
            }
            i = i + 1;
        }
        None
    }

    /// Notes the process of a name, in place of an earlier one of that name.
    pub fn insert(&mut self, name: &str, pid: u32)
        requires
            old(self).well_formed(),
        ensures
            final(self).well_formed(),
            final(self)@ == old(self)@.insert(name@, pid),
    {
        let ghost before = self.entries@;
        match self.position(name) {
            Some(i) => {
                let e = (text::owned(name), pid);
                proof {
                    lemma_renumbered(before, i as int, e);
                }
                self.entries.set(i, e);
            },
            None => {
                self.entries.push((text::owned(name), pid));
                assert(self.entries@.drop_last() == before);
                assert(distinct(self.entries@)) by {
                    let v = self.entries@;
                    assert forall|i: int, j: int| 0 <= i < j < v.len() implies (#[trigger] v[i]).0@
                        != (#[trigger] v[j]).0@ by {
                        assert(v[i] == before[i]);
                    }
                }
            },
        }
    }

    /// The process of a name.
    pub fn get(&self, name: &str) -> (r: Option<u32>)
        requires
            self.well_formed(),
        ensures
            r == if self@.dom().contains(name@) {
                Some(self@[name@])
            } else {
                None
            },
    {
        match self.position(name) {
            Some(i) => {
                proof {
                    lemma_named(self.entries@, i as int);
                }
                Some(self.entries[i].1)
            },
            None => {
                proof {
                    lemma_not_named(self.entries@, name@);
                }
                None
            },
        }
    }
}

/// The text of the process file. The processes are read back from it.
pub fn save_pids(pids: &Pids) -> (r: Option<String>)
    requires
        pids.well_formed(),
    ensures
        r is Some,
        numbers_in(r->0@) == Some(pids@),
{
    write_numbers(&pids.entries)
}

/// The processes that a process file names; none where there is no such file or it is malformed.
pub open spec fn pids_of(numbers: Option<Map<Seq<char>, u32>>) -> Map<Seq<char>, u32> {
    match numbers {
        Some(m) => m,
        None => Map::empty(),
    }
}

/// Reads the process file.
pub fn load_pids(content: Option<&str>) -> (r: Pids)
    ensures
        r.well_formed(),
        r@ == match content {
            Some(t) => pids_of(numbers_in(t@)),
            None => Map::empty(),
        },
{
    match content {
        Some(t) => match read_numbers(t) {
            Some(entries) => Pids { entries },
            None => Pids::new(),
        },
        None => Pids::new(),
    }
}

/// The processes that were written are read back.
pub proof fn law_pids_read_back(json: Seq<char>, pids: Map<Seq<char>, u32>)
    requires
        numbers_in(json) == Some(pids),
    ensures
        pids_of(numbers_in(json)) == pids,
{
}

/// The place where the system shows the gNB's process; none where no gNB was started.
pub fn gnb_process_path(pids: &Pids) -> (r: Option<String>)
    requires
        pids.well_formed(),
    ensures
        slice::opt_string(r) == if pids@.dom().contains("gnb"@) {
            Some("/proc/"@ + text::dec(pids@["gnb"@] as nat))
        } else {
            None
        },
{
    match pids.get("gnb") {
        Some(pid) => {
            let mut out = text::owned("/proc/");
            text::push_dec(&mut out, pid as u64);
            Some(out)
        },
        None => None,
    }
}

// ---------------------------------------------------------------------------
// Orders to the traffic engine
// ---------------------------------------------------------------------------

/// The order that sets a UE's traffic pattern.
pub open spec fn traffic_order_text(ue_id: nat, pattern: Seq<char>) -> Seq<char> {
    "{\"pattern\":\""@ + pattern + "\",\"ue_id\":"@ + text::dec(ue_id) + "}"@
}

/// An object of two members put together with `serde_json::Map::insert`, and written by
/// `serde_json::Value`'s `to_string`: compact, a word between quotation marks as it is and a number
/// in decimal, and the members in the order of their keys, since such a map is a sorted one unless
/// the crate's feature `preserve_order` is on.
#[verifier::external_body]
fn write_traffic_order(ue_id: usize, pattern: &str) -> (r: String)
    requires
        is_word(pattern@),
    ensures
        r@ == traffic_order_text(ue_id as nat, pattern@),
{
    let mut m = serde_json::Map::new();
    m.insert("ue_id".to_owned(), serde_json::Value::from(ue_id));
    m.insert("pattern".to_owned(), serde_json::Value::from(pattern));
    serde_json::Value::Object(m).to_string()
}

/// A traffic pattern that the engine knows.
pub open spec fn is_pattern(p: Seq<char>) -> bool {
    p == "idle"@ || p == "speedtest"@ || p == "video"@ || p == "gaming"@
}

/// The order that sets a UE's traffic pattern, or what to say of an unknown pattern.
pub fn cmd_traffic(ue_id: usize, pattern: &str) -> (r: Result<String, String>)
    ensures
        match r {
            Ok(t) => is_pattern(pattern@) && t@ == traffic_order_text(ue_id as nat, pattern@),
            Err(e) => !is_pattern(pattern@) && e@ == "Unknown pattern '"@ + pattern@
                + "'. Valid: idle, speedtest, video, gaming"@,
        },
{
    if text::same_text(pattern, "idle") || text::same_text(pattern, "speedtest")
        || text::same_text(pattern, "video") || text::same_text(pattern, "gaming") {
        proof {
            reveal_strlit("idle");
            reveal_strlit("speedtest");
            reveal_strlit("video");
            reveal_strlit("gaming");
        }
        Ok(write_traffic_order(ue_id, pattern))
    } else {
        let mut out = text::owned("Unknown pattern '");
        out.append(pattern);
        out.append("'. Valid: idle, speedtest, video, gaming");
        Err(out)
    }
}

} // verus!
