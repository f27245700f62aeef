//! Starting and stopping a simulation: the commands, files and processes, in their order. The
//! plans are lists of steps that are carried out one after another.

use vstd::prelude::*;

use crate::json;
use crate::json::Pids;
use crate::paths;
use crate::slice;
use crate::telnet;
use crate::text;
use crate::text::CharClass;

verus! {

// ---------------------------------------------------------------------------
// Commands and steps
// ---------------------------------------------------------------------------

/// A program with its arguments.
pub struct Cmd {
    pub program: String,
    pub args: Vec<String>,
}

/// What a command runs.
#[verifier::ext_equal]
pub struct CmdView {
    pub program: Seq<char>,
    pub args: Seq<Seq<char>>,
}

impl View for Cmd {
    type V = CmdView;

    open spec fn view(&self) -> CmdView {
        CmdView { program: self.program@, args: text::texts(self.args@) }
    }
}

pub open spec fn cmd(program: Seq<char>, args: Seq<Seq<char>>) -> CmdView {
    CmdView { program, args }
}

/// A command without arguments yet.
pub fn command(program: &str) -> (r: Cmd)
    ensures
        r@ == cmd(program@, seq![]),
{
    let r = Cmd { program: text::owned(program), args: Vec::new() };
    assert(text::texts(r.args@) == Seq::<Seq<char>>::empty());
    r
}

impl Cmd {
    /// The command with one more argument.
    pub fn arg(self, t: &str) -> (r: Cmd)
        ensures
            r@ == cmd(self@.program, self@.args.push(t@)),
    {
        let ghost before = self.args@;
        let mut args = self.args;
        args.push(text::owned(t));
        assert(text::texts(args@) == text::texts(before).push(t@));
        Cmd { program: self.program, args }
    }
}

/// A process to start in the background. Its output goes to a log, and its number is noted under a
/// name.
pub struct Job {
    pub name: String,
    pub cmd: Cmd,
    /// A variable of its environment, with its value.
    pub env: Option<(String, String)>,
    pub log: String,
    /// What is said where it cannot be started.
    pub failure: String,
}

/// What a process runs, and how it is noted.
#[verifier::ext_equal]
pub struct JobView {
    pub name: Seq<char>,
    pub cmd: CmdView,
    pub env: Option<(Seq<char>, Seq<char>)>,
    pub log: Seq<char>,
    pub failure: Seq<char>,
}

impl View for Job {
    type V = JobView;

    open spec fn view(&self) -> JobView {
        JobView {
            name: self.name@,
            cmd: self.cmd@,
            env: match self.env {
                Some((k, v)) => Some((k@, v@)),
                None => None,
            },
            log: self.log@,
            failure: self.failure@,
        }
    }
}

/// One step of a plan.
pub enum Step {
    /// Print a line.
    Say(String),
    /// Stop what still runs of an earlier simulation.
    StopExisting,
    /// Write a file; it does not matter where that fails.
    Write(String, String),
    /// Run a command and wait for it; it does not matter where it fails.
    Run(Cmd),
    /// Start a process.
    Start(Job),
    /// Print the number of the process that was started last, between two texts.
    SayPid(String, String),
    /// Wait for so many milliseconds.
    Wait(u64),
    /// Write the process file.
    SavePids,
    /// Take away the namespaces of UEs that the system then lists.
    DeleteNamespaces,
    /// Remove a file; it does not matter where that fails.
    Remove(String),
}

/// What a step does.
pub enum StepView {
    Say(Seq<char>),
    StopExisting,
    Write(Seq<char>, Seq<char>),
    Run(CmdView),
    Start(JobView),
    SayPid(Seq<char>, Seq<char>),
    Wait(u64),
    SavePids,
    DeleteNamespaces,
    Remove(Seq<char>),
}

impl View for Step {
    type V = StepView;

    open spec fn view(&self) -> StepView {
        match *self {
            Step::Say(t) => StepView::Say(t@),
            Step::StopExisting => StepView::StopExisting,
            Step::Write(p, t) => StepView::Write(p@, t@),
            Step::Run(c) => StepView::Run(c@),
            Step::Start(j) => StepView::Start(j@),
            Step::SayPid(a, b) => StepView::SayPid(a@, b@),
            Step::Wait(ms) => StepView::Wait(ms),
            Step::SavePids => StepView::SavePids,
            Step::DeleteNamespaces => StepView::DeleteNamespaces,
            Step::Remove(p) => StepView::Remove(p@),
        }
    }
}

/// What a plan does.
pub open spec fn plan(v: Seq<Step>) -> Seq<StepView> {
    Seq::new(v.len(), |i: int| v[i]@)
}

/// What some commands run.
pub open spec fn cmds(v: Seq<Cmd>) -> Seq<CmdView> {
    Seq::new(v.len(), |i: int| v[i]@)
}

fn put(v: &mut Vec<Step>, s: Step)
    ensures
        plan(final(v)@) == plan(old(v)@).push(s@),
{
    let ghost before = v@;
    let ghost done = s@;
    v.push(s);
    assert(plan(v@) == plan(before).push(done));
}

fn put_cmd(v: &mut Vec<Cmd>, c: Cmd)
    ensures
        cmds(final(v)@) == cmds(old(v)@).push(c@),
{
    let ghost before = v@;
    let ghost run = c@;
    v.push(c);
    assert(cmds(v@) == cmds(before).push(run));
}

/// Steps that run some commands.
pub open spec fn run_all(v: Seq<CmdView>) -> Seq<StepView> {
    Seq::new(v.len(), |i: int| StepView::Run(v[i]))
}

fn put_runs(v: &mut Vec<Step>, cs: Vec<Cmd>)
    ensures
        plan(final(v)@) == plan(old(v)@) + run_all(cmds(cs@)),
{
    let ghost before = plan(v@);
    let ghost all = cmds(cs@);
    let mut rest = cs;
    let n = rest.len();
    let mut i: usize = 0;
    assert(run_all(all).take(0) == Seq::<StepView>::empty());
    assert(plan(v@) == before + run_all(all).take(0));
    while i < n
        invariant
            i <= n,
            n == all.len(),
            rest@.len() == n - i,
            cmds(rest@) == all.skip(i as int),
            plan(v@) == before + run_all(all).take(i as int),
        decreases n - i,
    {
        let ghost was = rest@;
        let c = rest.remove(0);
        proof {
            assert(cmds(was)[0] == all.skip(i as int)[0]);
            assert(c@ == all[i as int]);
            assert(cmds(rest@) == all.skip(i + 1)) by {
                assert forall|k: int| 0 <= k < rest@.len() implies cmds(rest@)[k] == all.skip(
                    i + 1,
                )[k] by {
                    assert(cmds(was)[k + 1] == all.skip(i as int)[k + 1]);
                }
            }
        }
        put(v, Step::Run(c));
        assert(run_all(all).take(i + 1) == run_all(all).take(i as int).push(run_all(all)[i as int]));
        assert(plan(v@) == before + run_all(all).take(i + 1));
        i = i + 1;
    }
    assert(run_all(all).take(n as int) == run_all(all));
}

// ---------------------------------------------------------------------------
// Namespaces
// ---------------------------------------------------------------------------

/// The commands that make a UE's namespace, link it to the host and let it out.
pub open spec fn create_commands(i: nat) -> Seq<CmdView> {
    let ns = paths::ns(i);
    let hif = paths::sim_name("h"@, i);
    let nif = paths::sim_name("n"@, i);
    seq![
        cmd("ip"@, seq!["netns"@, "add"@, ns]),
        cmd("ip"@, seq!["link"@, "add"@, hif, "type"@, "veth"@, "peer"@, "name"@, nif]),
        cmd("ip"@, seq!["link"@, "set"@, nif, "netns"@, ns]),
        cmd("ip"@, seq!["addr"@, "add"@, paths::address(i, ".1.100"@) + "/24"@, "dev"@, hif]),
        cmd("ip"@, seq!["link"@, "set"@, hif, "up"@]),
        cmd("ip"@, seq!["netns"@, "exec"@, ns, "ip"@, "link"@, "set"@, "lo"@, "up"@]),
        cmd(
            "ip"@,
            seq![
                "netns"@,
                "exec"@,
                ns,
                "ip"@,
                "addr"@,
                "add"@,
                paths::address(i, ".1.1"@) + "/24"@,
                "dev"@,
                nif,
            ],
        ),
        cmd("ip"@, seq!["netns"@, "exec"@, ns, "ip"@, "link"@, "set"@, nif, "up"@]),
        cmd(
            "ip"@,
            seq![
                "netns"@,
                "exec"@,
                ns,
                "ip"@,
                "route"@,
                "add"@,
                "default"@,
                "via"@,
                paths::address(i, ".1.100"@),
            ],
        ),
        cmd(
            "iptables"@,
            seq![
                "-t"@,
                "nat"@,
                "-A"@,
                "POSTROUTING"@,
                "-s"@,
                paths::address(i, ".1.0/24"@),
                "-j"@,
                "MASQUERADE"@,
            ],
        ),
        cmd("iptables"@, seq!["-A"@, "FORWARD"@, "-i"@, "lo"@, "-o"@, hif, "-j"@, "ACCEPT"@]),
        cmd("iptables"@, seq!["-A"@, "FORWARD"@, "-o"@, "lo"@, "-i"@, hif, "-j"@, "ACCEPT"@]),
    ]
}

/// The commands that take a UE's namespace away again.
pub open spec fn delete_commands(i: nat) -> Seq<CmdView> {
    let hif = paths::sim_name("h"@, i);
    seq![
        cmd(
            "iptables"@,
            seq![
                "-t"@,
                "nat"@,
                "-D"@,
                "POSTROUTING"@,
                "-s"@,
                paths::address(i, ".1.0/24"@),
                "-j"@,
                "MASQUERADE"@,
            ],
        ),
        cmd("iptables"@, seq!["-D"@, "FORWARD"@, "-i"@, "lo"@, "-o"@, hif, "-j"@, "ACCEPT"@]),
        cmd("iptables"@, seq!["-D"@, "FORWARD"@, "-o"@, "lo"@, "-i"@, hif, "-j"@, "ACCEPT"@]),
        cmd("ip"@, seq!["link"@, "delete"@, hif]),
        cmd("ip"@, seq!["netns"@, "delete"@, paths::ns(i)]),
    ]
}

/// The commands that make a UE's namespace.
pub fn create_ue_namespace(i: usize) -> (r: Vec<Cmd>)
    requires
        i <= usize::MAX - 200,
    ensures
        cmds(r@) == create_commands(i as nat),
{
    let ns = paths::ns_name(i);
    let ns = ns.as_str();
    let hif = paths::veth_host(i);
    let hif = hif.as_str();
    let nif = paths::veth_ns_if(i);
    let nif = nif.as_str();
    let gw = paths::ns_host_ip(i);
    let h_ip = slice::concat_texts(gw.as_str(), "/24");
    let ue_ip = paths::ns_ue_ip(i);
    let n_ip = slice::concat_texts(ue_ip.as_str(), "/24");
    let sub = paths::ns_subnet(i);
    let mut v: Vec<Cmd> = Vec::new();
    assert(cmds(v@) == Seq::<CmdView>::empty());
    put_cmd(&mut v, command("ip").arg("netns").arg("add").arg(ns));
    put_cmd(
        &mut v,
        command("ip").arg("link").arg("add").arg(hif).arg("type").arg("veth").arg("peer").arg(
            "name",
        ).arg(nif),
    );
    put_cmd(&mut v, command("ip").arg("link").arg("set").arg(nif).arg("netns").arg(ns));
    put_cmd(&mut v, command("ip").arg("addr").arg("add").arg(h_ip.as_str()).arg("dev").arg(hif));
    put_cmd(&mut v, command("ip").arg("link").arg("set").arg(hif).arg("up"));
    put_cmd(&mut v, in_netns(ns, "ip").arg("link").arg("set").arg("lo").arg("up"));
    put_cmd(&mut v, in_netns(ns, "ip").arg("addr").arg("add").arg(n_ip.as_str()).arg("dev").arg(nif));
    put_cmd(&mut v, in_netns(ns, "ip").arg("link").arg("set").arg(nif).arg("up"));
    put_cmd(
        &mut v,
        in_netns(ns, "ip").arg("route").arg("add").arg("default").arg("via").arg(gw.as_str()),
    );
    put_cmd(
        &mut v,
        command("iptables").arg("-t").arg("nat").arg("-A").arg("POSTROUTING").arg("-s").arg(
            sub.as_str(),
        ).arg("-j").arg("MASQUERADE"),
    );
    put_cmd(
        &mut v,
        command("iptables").arg("-A").arg("FORWARD").arg("-i").arg("lo").arg("-o").arg(hif).arg(
            "-j",
        ).arg("ACCEPT"),
    );
    put_cmd(
        &mut v,
        command("iptables").arg("-A").arg("FORWARD").arg("-o").arg("lo").arg("-i").arg(hif).arg(
            "-j",
        ).arg("ACCEPT"),
    );
    assert(cmds(v@) =~~= create_commands(i as nat));
    v
}

/// A command that runs a program inside a namespace, its further arguments to follow.
pub fn in_netns(ns: &str, program: &str) -> (r: Cmd)
    ensures
        r@ == cmd("ip"@, seq!["netns"@, "exec"@, ns@, program@]),
{
    command("ip").arg("netns").arg("exec").arg(ns).arg(program)
}

/// The commands that take a UE's namespace away again.
pub fn delete_ue_namespace(i: usize) -> (r: Vec<Cmd>)
    requires
        i <= usize::MAX - 200,
    ensures
        cmds(r@) == delete_commands(i as nat),
{
    let ns = paths::ns_name(i);
    let hif = paths::veth_host(i);
    let hif = hif.as_str();
    let sub = paths::ns_subnet(i);
    let mut v: Vec<Cmd> = Vec::new();
    assert(cmds(v@) == Seq::<CmdView>::empty());
    put_cmd(
        &mut v,
        command("iptables").arg("-t").arg("nat").arg("-D").arg("POSTROUTING").arg("-s").arg(
            sub.as_str(),
        ).arg("-j").arg("MASQUERADE"),
    );
    put_cmd(
        &mut v,
        command("iptables").arg("-D").arg("FORWARD").arg("-i").arg("lo").arg("-o").arg(hif).arg(
            "-j",
        ).arg("ACCEPT"),
    );
    put_cmd(
        &mut v,
        command("iptables").arg("-D").arg("FORWARD").arg("-o").arg("lo").arg("-i").arg(hif).arg(
            "-j",
        ).arg("ACCEPT"),
    );
    put_cmd(&mut v, command("ip").arg("link").arg("delete").arg(hif));
    put_cmd(&mut v, command("ip").arg("netns").arg("delete").arg(ns.as_str()));
    assert(cmds(v@) =~~= delete_commands(i as nat));
    v
}

/// Every firewall rule that comes with a namespace goes with it, and so do the link and the
/// namespace itself.
pub proof fn law_delete_undoes_create(i: nat)
    ensures
        delete_commands(i)[0] == cmd(
            create_commands(i)[9].program,
            create_commands(i)[9].args.update(2, "-D"@),
        ),
        create_commands(i)[9].args[2] == "-A"@,
        delete_commands(i)[1] == cmd(
            create_commands(i)[10].program,
            create_commands(i)[10].args.update(0, "-D"@),
        ),
        create_commands(i)[10].args[0] == "-A"@,
        delete_commands(i)[2] == cmd(
            create_commands(i)[11].program,
            create_commands(i)[11].args.update(0, "-D"@),
        ),
        create_commands(i)[11].args[0] == "-A"@,
        delete_commands(i)[3] == cmd(
            "ip"@,
            seq!["link"@, "delete"@, create_commands(i)[1].args[2]],
        ),
        delete_commands(i)[4] == cmd(
            "ip"@,
            seq!["netns"@, "delete"@, create_commands(i)[0].args[2]],
        ),
{
    let c = create_commands(i);
    let d = delete_commands(i);
    assert(d[0].args =~= c[9].args.update(2, "-D"@));
    assert(d[1].args =~= c[10].args.update(0, "-D"@));
    assert(d[2].args =~= c[11].args.update(0, "-D"@));
}

/// The names with a prefix and a number behind it that a list of namespaces holds, each the first
/// word of its line.
pub open spec fn numbered(lines: Seq<Seq<char>>, prefix: Seq<char>) -> Seq<(Seq<char>, usize)>
    decreases lines.len(),
{
    if lines.len() == 0 {
        seq![]
    } else {
        let before = numbered(lines.drop_last(), prefix);
        let words = text::tokens(lines.last(), CharClass::NonWhite);
        if words.len() == 0 {
            before
        } else {
            match text::without_prefix(words[0], prefix) {
                Some(rest) => match text::number(rest, 10, usize::MAX as nat) {
                    Some(n) => before.push((words[0], n as usize)),
                    None => before,
                },
                None => before,
            }
        }
    }
}

/// A name and its number.
pub struct Numbered {
    pub name: String,
    pub id: usize,
}

pub open spec fn numbered_view(v: Seq<Numbered>) -> Seq<(Seq<char>, usize)> {
    Seq::new(v.len(), |i: int| (v[i].name@, v[i].id))
}

pub open spec fn ids_of(v: Seq<(Seq<char>, usize)>) -> Seq<usize> {
    Seq::new(v.len(), |i: int| v[i].1)
}

/// A namespace that was made for a UE is found again among those that are listed, whatever else
/// stands on its line.
pub proof fn law_namespaces_are_found_again(lines: Seq<Seq<char>>, k: int, i: usize)
    requires
        0 <= k < lines.len(),
        text::tokens(lines[k], CharClass::NonWhite).len() > 0,
        text::tokens(lines[k], CharClass::NonWhite)[0] == paths::ns(i as nat),
    ensures
        ids_of(numbered(lines, paths::NS_PREFIX@)).contains(i),
    decreases lines.len(),
{
    let prefix = paths::NS_PREFIX@;
    let rest = lines.drop_last();
    let all = ids_of(numbered(lines, prefix));
    let before = ids_of(numbered(rest, prefix));
    if k == lines.len() - 1 {
        let name = paths::ns(i as nat);
        assert(text::starts_with(name, prefix)) by {
            assert(name.subrange(0, prefix.len() as int) == prefix);
        }
        assert(name.skip(prefix.len() as int) == text::dec(i as nat));
        text::law_number_of_dec(i as nat, usize::MAX as nat);
        assert(all[all.len() - 1] == i);
    } else {
        law_namespaces_are_found_again(rest, k, i);
        let j = choose|j: int| 0 <= j < before.len() && before[j] == i;
        assert(all[j] == i);
    }
}

/// The numbered names in a list of namespaces.
fn numbered_names(listing: &str, prefix: &str) -> (r: Vec<Numbered>)
    ensures
        numbered_view(r@) == numbered(text::lines_of(listing@), prefix@),
{
    let chars = text::chars_of(listing);
    let lines = text::split_lines(chars.as_slice());
    let ghost all = text::lines_of(listing@);
    let mut out: Vec<Numbered> = Vec::new();
    let mut i: usize = 0;
    assert(all.take(0) == Seq::<Seq<char>>::empty());
    assert(numbered_view(out@) == numbered(all.take(0), prefix@));
    while i < lines.len()
        invariant
            i <= lines.len(),
            text::char_texts(lines@) == all,
            numbered_view(out@) == numbered(all.take(i as int), prefix@),
        decreases lines.len() - i,
    {
        let line = lines[i].as_slice();
        let words = text::split_tokens(line, CharClass::NonWhite);
        let ghost before = out@;
        proof {
            assert(all.take(i + 1).drop_last() == all.take(i as int));
            assert(all.take(i + 1).last() == line@);
            assert(words@.len() == text::tokens(line@, CharClass::NonWhite).len());
        }
        if words.len() > 0 {
            let word = words[0].as_slice();
            assert(word@ == text::tokens(line@, CharClass::NonWhite)[0]);
            match text::strip_prefix(word, prefix) {
                Some(rest) => match text::read_number(rest, 10, usize::MAX as u64) {
                    Some(n) => {
                        out.push(Numbered { name: text::string_of(word), id: n as usize });
                        assert(numbered_view(out@) == numbered_view(before).push(
                            (word@, n as usize),
                        ));
                    },
                    None => {},
                },
                None => {},
            }
        }
        i = i + 1;
    }
    assert(all.take(i as int) == all);
    out
}

/// The UEs whose namespaces are in a list of namespaces, in its order.
pub open spec fn listed(listing: Seq<char>) -> Seq<usize> {
    ids_of(numbered(text::lines_of(listing), paths::NS_PREFIX@))
}

/// The UEs whose namespaces are in a list of namespaces, in its order.
pub fn listed_ues(listing: &str) -> (r: Vec<usize>)
    ensures
        r@ == listed(listing@),
{
    let names = numbered_names(listing, paths::NS_PREFIX);
    let ghost want = listed(listing@);
    let mut out: Vec<usize> = Vec::new();
    let mut i: usize = 0;
    while i < names.len()
        invariant
            i <= names.len(),
            want == ids_of(numbered_view(names@)),
            out@ == want.take(i as int),
        decreases names.len() - i,
    {
        out.push(names[i].id);
        i = i + 1;
        assert(want.take(i as int) == want.take(i - 1).push(want[i - 1]));
    }
    assert(want.take(i as int) == want);
    out
}

/// The addresses of all of some UEs can be numbered.
pub open spec fn have_addresses(ids: Seq<usize>) -> bool {
    forall|i: int| 0 <= i < ids.len() ==> #[trigger] ids[i] <= usize::MAX - 200
}

/// The namespaces of some UEs are taken away, one after the other.
pub open spec fn cleanup_plan(ids: Seq<usize>) -> Seq<StepView>
    decreases ids.len(),
{
    if ids.len() == 0 {
        seq![]
    } else {
        cleanup_plan(ids.drop_last()) + run_all(delete_commands(ids.last() as nat))
    }
}

/// The namespaces in a list of namespaces can be taken away.
pub fn can_be_cleaned_up(listing: &str) -> (r: bool)
    ensures
        r == have_addresses(listed(listing@)),
{
    let ids = listed_ues(listing);
    let mut i: usize = 0;
    while i < ids.len()
        invariant
            i <= ids.len(),
            ids@ == listed(listing@),
            forall|k: int| 0 <= k < i ==> #[trigger] ids@[k] <= usize::MAX - 200,
        decreases ids.len() - i,
    {
        if !paths::has_addresses(ids[i]) {
            return false;
        }
        i = i + 1;
    }
    true
}

/// The steps that take away the namespaces of UEs in a list of namespaces.
pub fn cleanup_ue_namespaces(listing: &str) -> (r: Vec<Step>)
    requires
        have_addresses(listed(listing@)),
    ensures
        plan(r@) == cleanup_plan(listed(listing@)),
{
    let ids = listed_ues(listing);
    let ghost all = listed(listing@);
    let mut out = no_steps();
    let mut i: usize = 0;
    assert(all.take(0) == Seq::<usize>::empty());
    while i < ids.len()
        invariant
            i <= ids.len(),
            ids@ == all,
            have_addresses(all),
            plan(out@) == cleanup_plan(all.take(i as int)),
        decreases ids.len() - i,
    {
        put_runs(&mut out, delete_ue_namespace(ids[i]));
        i = i + 1;
        assert(all.take(i as int).drop_last() == all.take(i - 1));
        assert(all.take(i as int).last() == all[i - 1]);
    }
    assert(all.take(i as int) == all);
    out
}

/// All commands that take away a listed UE's namespace are run, in their order.
pub proof fn law_every_listed_namespace_goes(ids: Seq<usize>, i: usize)
    requires
        ids.contains(i),
    ensures
        exists|k: int|
            0 <= k && k + delete_commands(i as nat).len() <= cleanup_plan(ids).len()
                && #[trigger] cleanup_plan(ids).subrange(
                k,
                k + delete_commands(i as nat).len(),
            ) == run_all(delete_commands(i as nat)),
    decreases ids.len(),
{
    let all = cleanup_plan(ids);
    let rest = cleanup_plan(ids.drop_last());
    let n = delete_commands(i as nat).len() as int;
    if ids.last() == i {
        let k = rest.len() as int;
        assert(all.subrange(k, k + n) =~= run_all(delete_commands(i as nat)));
    } else {
        let j = choose|j: int| 0 <= j < ids.len() && ids[j] == i;
        assert(ids.drop_last()[j] == i);
        law_every_listed_namespace_goes(ids.drop_last(), i);
        let k = choose|k: int|
            0 <= k && k + n <= rest.len() && #[trigger] rest.subrange(k, k + n) == run_all(
                delete_commands(i as nat),
            );
        assert(all.subrange(k, k + n) =~= rest.subrange(k, k + n));
    }
}

/// The namespaces in a list that may hold a UE which runs: those named `ue` and a number.
pub fn running_ue_candidates(listing: &str) -> (r: Vec<Numbered>)
    ensures
        numbered_view(r@) == numbered(text::lines_of(listing@), "ue"@),
{
    numbered_names(listing, "ue")
}

// ---------------------------------------------------------------------------
// Stopping
// ---------------------------------------------------------------------------

/// How an earlier simulation is stopped: whatever runs of it is ended, and after a pause the
/// namespaces are taken away and the files are removed.
pub open spec fn stop_plan() -> Seq<StepView> {
    seq![
        StepView::Run(cmd("pkill"@, seq!["-9"@, "-f"@, "zmq_proxy.py"@])),
        StepView::Run(cmd("pkill"@, seq!["-9"@, "nr-uesoftmodem"@])),
        StepView::Run(cmd("pkill"@, seq!["-9"@, "nr-softmodem"@])),
        StepView::Run(cmd("pkill"@, seq!["-9"@, "-f"@, "ue_traffic.py"@])),
        StepView::Wait(800),
        StepView::DeleteNamespaces,
        StepView::Remove(paths::PIDS_FILE@),
        StepView::Remove(paths::PROXY_STATUS@),
        StepView::Remove(paths::TRAFFIC_STATUS@),
        StepView::Remove(paths::MODE_FILE@),
    ]
}

/// The steps by which an earlier simulation is stopped.
pub fn stop_existing_simulation() -> (r: Vec<Step>)
    ensures
        plan(r@) == stop_plan(),
{
    let proxy = command("pkill").arg("-9").arg("-f").arg("zmq_proxy.py");
    let ue = command("pkill").arg("-9").arg("nr-uesoftmodem");
    let gnb = command("pkill").arg("-9").arg("nr-softmodem");
    let traffic = command("pkill").arg("-9").arg("-f").arg("ue_traffic.py");
    assert(proxy@ =~~= cmd("pkill"@, seq!["-9"@, "-f"@, "zmq_proxy.py"@]));
    assert(ue@ =~~= cmd("pkill"@, seq!["-9"@, "nr-uesoftmodem"@]));
    assert(gnb@ =~~= cmd("pkill"@, seq!["-9"@, "nr-softmodem"@]));
    assert(traffic@ =~~= cmd("pkill"@, seq!["-9"@, "-f"@, "ue_traffic.py"@]));
    let mut v = no_steps();
    put(&mut v, Step::Run(proxy));
    put(&mut v, Step::Run(ue));
    put(&mut v, Step::Run(gnb));
    put(&mut v, Step::Run(traffic));
    put(&mut v, Step::Wait(800));
    put(&mut v, Step::DeleteNamespaces);
    put(&mut v, Step::Remove(text::owned(paths::PIDS_FILE)));
    put(&mut v, Step::Remove(text::owned(paths::PROXY_STATUS)));
    put(&mut v, Step::Remove(text::owned(paths::TRAFFIC_STATUS)));
    put(&mut v, Step::Remove(text::owned(paths::MODE_FILE)));
    assert(plan(v@) =~= stop_plan());
    v
}

/// How one process is ended: asked to end, and after a pause made to.
pub open spec fn kill_plan(pid: nat) -> Seq<StepView> {
    seq![
        StepView::Run(cmd("kill"@, seq!["-15"@, text::dec(pid)])),
        StepView::Wait(400),
        StepView::Run(cmd("kill"@, seq!["-9"@, text::dec(pid)])),
    ]
}

/// The steps by which one process is ended.
pub fn kill_pid(pid: u32) -> (r: Vec<Step>)
    ensures
        plan(r@) == kill_plan(pid as nat),
{
    let n = text::dec_text(pid as u64);
    let ask = command("kill").arg("-15").arg(n.as_str());
    let force = command("kill").arg("-9").arg(n.as_str());
    assert(ask@ =~~= cmd("kill"@, seq!["-15"@, text::dec(pid as nat)]));
    assert(force@ =~~= cmd("kill"@, seq!["-9"@, text::dec(pid as nat)]));
    let mut v = no_steps();
    put(&mut v, Step::Run(ask));
    put(&mut v, Step::Wait(400));
    put(&mut v, Step::Run(force));
    assert(plan(v@) =~= kill_plan(pid as nat));
    v
}

/// What is said of a process that is ended.
pub open spec fn stop_text(name: Seq<char>, pid: nat) -> Seq<char> {
    "[stop] killing "@ + name + " (pid="@ + text::dec(pid) + ")"@
}

/// What is said of a process that is ended.
pub fn stop_line(name: &str, pid: u32) -> (r: String)
    ensures
        r@ == stop_text(name@, pid as nat),
{
    let mut out = text::owned("[stop] killing ");
    out.append(name);
    out.append(" (pid=");
    text::push_dec(&mut out, pid as u64);
    out.append(")");
    out
}

/// The first `n` of some processes are named and ended, one after the other.
pub open spec fn kills(v: Seq<(String, u32)>, n: int) -> Seq<StepView>
    decreases n,
{
    if n <= 0 {
        seq![]
    } else {
        kills(v, n - 1).push(StepView::Say(stop_text(v[n - 1].0@, v[n - 1].1 as nat))) + kill_plan(
            v[n - 1].1 as nat,
        )
    }
}

/// How a simulation is stopped: the processes that were noted are ended, then whatever else still
/// runs of a simulation.
pub open spec fn whole_stop(v: Seq<(String, u32)>) -> Seq<StepView> {
    kills(v, v.len() as int) + seq![
        StepView::Say("[stop] pkill cleanup + namespace teardown..."@),
        StepView::StopExisting,
        StepView::Say("[stop] done"@),
    ]
}

/// The steps by which a simulation is stopped.
pub fn cmd_stop(pids: &Pids) -> (r: Vec<Step>)
    ensures
        plan(r@) == whole_stop(pids.entries@),
{
    let mut v = no_steps();
    let mut i: usize = 0;
    while i < pids.entries.len()
        invariant
            i <= pids.entries.len(),
            plan(v@) == kills(pids.entries@, i as int),
        decreases pids.entries.len() - i,
    {
        let pid = pids.entries[i].1;
        put(&mut v, Step::Say(stop_line(pids.entries[i].0.as_str(), pid)));
        put_steps(&mut v, kill_pid(pid));
        i = i + 1;
    }
    put(&mut v, Step::Say(text::owned("[stop] pkill cleanup + namespace teardown...")));
    put(&mut v, Step::StopExisting);
    put(&mut v, Step::Say(text::owned("[stop] done")));
    assert(plan(v@) =~= whole_stop(pids.entries@));
    v
}

// ---------------------------------------------------------------------------
// Starting
// ---------------------------------------------------------------------------

/// What a simulation is started with.
pub struct StartParams {
    pub num_ues: usize,
    pub imsi_base: String,
    pub key: String,
    pub opc: String,
    pub dnn: String,
    pub ue_binary: String,
    /// The directory of the UE's program, where its libraries are.
    pub lib_dir: String,
    pub dl_freq: u64,
    pub iperf_server: Option<String>,
    /// The directory of the launch scripts.
    pub scripts: String,
    pub gen_script: String,
    pub proxy_script: String,
    pub traffic_script: String,
}

/// The number that the subscriber identities count up from.
pub open spec fn first_imsi(base: Seq<char>) -> nat {
    match text::number(base, 10, u64::MAX as nat) {
        Some(n) => n,
        None => 1010000000001,
    }
}

/// How many bytes a text takes.
pub open spec fn byte_len(s: Seq<char>) -> nat {
    (vstd::utf8::encode_utf8(s).len() as usize) as nat
}

/// The subscriber identity of the `i`th UE, filled up to the length of the first one.
pub open spec fn imsi_text(base: Seq<char>, i: nat) -> Seq<char> {
    text::pad_left(text::dec((first_imsi(base) + i - 1) as nat), '0', byte_len(base))
}

fn imsi_number(base: &str) -> (r: u64)
    ensures
        r == first_imsi(base@),
{
    let chars = text::chars_of(base);
    match text::read_number(chars.as_slice(), 10, u64::MAX) {
        Some(n) => n,
        None => 1010000000001,
    }
}

fn imsi_of(base: &str, i: usize) -> (r: String)
    requires
        i >= 1,
        first_imsi(base@) + i <= u64::MAX,
    ensures
        r@ == imsi_text(base@, i as nat),
{
    let n = imsi_number(base) + i as u64 - 1;
    let digits = text::dec_text(n);
    text::padded_left(digits.as_str(), '0', base.len())
}

impl StartParams {
    /// The identities, the addresses and, with the radio simulator, the telnet ports of all UEs can
    /// be numbered.
    pub open spec fn well_formed(self, rfsim: bool) -> bool {
        &&& first_imsi(self.imsi_base@) + self.num_ues <= u64::MAX
        &&& self.num_ues <= usize::MAX - if rfsim {
            telnet::TELNET_BASE as int
        } else {
            200
        }
    }

    /// The identities, the addresses and the telnet ports of all UEs can be numbered.
    pub fn can_be_numbered(&self, rfsim: bool) -> (r: bool)
        ensures
            r == self.well_formed(rfsim),
    {
        let reserve: usize = if rfsim {
            telnet::TELNET_BASE as usize
        } else {
            200
        };
        imsi_number(self.imsi_base.as_str()) <= u64::MAX - self.num_ues as u64 && self.num_ues
            <= usize::MAX - reserve
    }
}

pub open spec fn conf_path(i: nat) -> Seq<char> {
    "/tmp/multi_ue_nr-ue"@ + text::dec(i) + ".conf"@
}

fn conf_of(i: usize) -> (r: String)
    ensures
        r@ == conf_path(i as nat),
{
    let mut out = text::owned("/tmp/multi_ue_nr-ue");
    text::push_dec(&mut out, i as u64);
    out.append(".conf");
    out
}

/// The arguments of the traffic engine.
pub open spec fn traffic_args(
    script: Seq<char>,
    num_ues: nat,
    prefix: Option<Seq<char>>,
    server: Option<Seq<char>>,
) -> Seq<Seq<char>> {
    seq![script, "--num-ues"@, text::dec(num_ues)] + (match prefix {
        Some(p) => seq!["--ns-prefix"@, p],
        None => seq![],
    }) + (match server {
        Some(s) => seq!["--iperf-server"@, s],
        None => seq![],
    })
}

pub open spec fn traffic_job(p: StartParams) -> JobView {
    JobView {
        name: "traffic"@,
        cmd: cmd(
            "python3"@,
            traffic_args(
                p.traffic_script@,
                p.num_ues as nat,
                Some(paths::NS_PREFIX@),
                slice::opt_string(p.iperf_server),
            ),
        ),
        env: None,
        log: paths::log_named(p.scripts@, "traffic_nue.log"@),
        failure: "failed to start ue_traffic.py"@,
    }
}

/// The command that starts the traffic engine.
pub fn traffic_command(
    script: &str,
    num_ues: usize,
    prefix: Option<&str>,
    server: Option<&str>,
) -> (r: Cmd)
    ensures
        r@ == cmd(
            "python3"@,
            traffic_args(script@, num_ues as nat, slice::opt_text(prefix), slice::opt_text(server)),
        ),
{
    let n = text::dec_text(num_ues as u64);
    let mut c = command("python3").arg(script).arg("--num-ues").arg(n.as_str());
    let ghost first = c@.args;
    assert(first =~~= seq![script@, "--num-ues"@, text::dec(num_ues as nat)]);
    match prefix {
        Some(p) => {
            c = c.arg("--ns-prefix").arg(p);
        },
        None => {},
    }
    let ghost second = c@.args;
    assert(second =~~= first + match slice::opt_text(prefix) {
        Some(p) => seq!["--ns-prefix"@, p],
        None => seq![],
    });
    match server {
        Some(t) => {
            c = c.arg("--iperf-server").arg(t);
        },
        None => {},
    }
    assert(c@.args =~~= second + match slice::opt_text(server) {
        Some(t) => seq!["--iperf-server"@, t],
        None => seq![],
    });
    c
}

/// Starts the traffic engine.
fn launch_traffic(p: &StartParams) -> (r: Job)
    ensures
        r@ == traffic_job(*p),
{
    let server = match &p.iperf_server {
        Some(t) => Some(t.as_str()),
        None => None,
    };
    let c = traffic_command(p.traffic_script.as_str(), p.num_ues, Some(paths::NS_PREFIX), server);
    Job {
        name: text::owned("traffic"),
        cmd: c,
        env: None,
        log: paths::log_traffic(p.scripts.as_str()),
        failure: text::owned("failed to start ue_traffic.py"),
    }
}

/// The command that writes a UE's configuration.
pub open spec fn zmq_config_command(p: StartParams, base_port: u16, i: nat) -> CmdView {
    cmd(
        "python3"@,
        seq![
            p.gen_script@,
            "--num-ues"@,
            "1"@,
            "--imsi-base"@,
            imsi_text(p.imsi_base@, i),
            "--key"@,
            p.key@,
            "--opc"@,
            p.opc@,
            "--dnn"@,
            p.dnn@,
            "--base-port"@,
            text::dec(base_port as nat),
            "--ns-host-ip"@,
            paths::address(i, ".1.100"@),
            "--output"@,
            conf_path(i),
        ],
    )
}

/// The steps that prepare one UE.
pub open spec fn zmq_prepare_one(p: StartParams, base_port: u16, i: nat) -> Seq<StepView> {
    seq![
        StepView::Say(
            "[start]   ns="@ + paths::ns(i) + "  imsi="@ + imsi_text(p.imsi_base@, i)
                + "  host-ip="@ + paths::address(i, ".1.100"@),
        ),
    ] + run_all(create_commands(i)) + seq![StepView::Run(zmq_config_command(p, base_port, i))]
}

pub open spec fn zmq_prepare(p: StartParams, base_port: u16, n: nat) -> Seq<StepView>
    decreases n,
{
    if n == 0 {
        seq![]
    } else {
        zmq_prepare(p, base_port, (n - 1) as nat) + zmq_prepare_one(p, base_port, n)
    }
}

pub open spec fn proxy_job(
    p: StartParams,
    gnb_dl: Seq<char>,
    gnb_ul: Seq<char>,
    base_port: u16,
) -> JobView {
    JobView {
        name: "proxy"@,
        cmd: cmd(
            "python3"@,
            seq![
                p.proxy_script@,
                "--num-ues"@,
                text::dec(p.num_ues as nat),
                "--gnb-dl-addr"@,
                gnb_dl,
                "--gnb-ul-addr"@,
                gnb_ul,
                "--base-port"@,
                text::dec(base_port as nat),
                "--ns-prefix"@,
                paths::NS_PREFIX@,
            ],
        ),
        env: None,
        log: paths::log_named(p.scripts@, "proxy_nue.log"@),
        failure: "failed to start zmq_proxy.py"@,
    }
}

pub open spec fn zmq_ue_job(p: StartParams, i: nat) -> JobView {
    JobView {
        name: "ue_"@ + text::dec(i),
        cmd: cmd(
            "ip"@,
            seq![
                "netns"@,
                "exec"@,
                paths::ns(i),
                p.ue_binary@,
                "-O"@,
                conf_path(i),
                "--device.name"@,
                "oai_zmqdevif"@,
                "-r"@,
                "106"@,
                "--numerology"@,
                "1"@,
                "--band"@,
                "78"@,
                "-C"@,
                text::dec(p.dl_freq as nat),
            ],
        ),
        env: Some(("LD_LIBRARY_PATH"@, p.lib_dir@)),
        log: paths::ue_log(p.scripts@, i),
        failure: "failed to start nr-uesoftmodem"@,
    }
}

/// The steps that start one UE.
pub open spec fn zmq_start_one(p: StartParams, i: nat) -> Seq<StepView> {
    seq![
        StepView::Say("[start] launching UE"@ + text::dec(i) + "  ns="@ + paths::ns(i)),
        StepView::Start(zmq_ue_job(p, i)),
        StepView::SayPid(
            "[start]   UE"@ + text::dec(i) + " pid="@,
            "  log="@ + paths::ue_log(p.scripts@, i),
        ),
        StepView::Wait(300),
    ]
}

pub open spec fn zmq_starts(p: StartParams, n: nat) -> Seq<StepView>
    decreases n,
{
    if n == 0 {
        seq![]
    } else {
        zmq_starts(p, (n - 1) as nat) + zmq_start_one(p, n)
    }
}

/// The names of the namespaces of all UEs.
pub open spec fn ns_range(n: nat) -> Seq<char> {
    paths::NS_PREFIX@ + "1.."@ + paths::NS_PREFIX@ + text::dec(n)
}

pub open spec fn logs_line(p: StartParams) -> Seq<char> {
    "Logs: "@ + paths::ue_log(p.scripts@, 1) + "  ..  "@ + paths::ue_log(
        p.scripts@,
        p.num_ues as nat,
    )
}

pub open spec fn zmq_head(p: StartParams) -> Seq<StepView> {
    seq![
        StepView::Say("[start] stopping any existing simulation..."@),
        StepView::StopExisting,
        StepView::Write(paths::MODE_FILE@, json::mode_text(json::mode_word(false), p.num_ues as nat)),
        StepView::Run(cmd("sysctl"@, seq!["-w"@, "net.ipv4.ip_forward=1"@])),
        StepView::Say("[start] creating "@ + text::dec(p.num_ues as nat) + " namespace(s)..."@),
    ]
}

pub open spec fn zmq_proxy(
    p: StartParams,
    gnb_dl: Seq<char>,
    gnb_ul: Seq<char>,
    base_port: u16,
) -> Seq<StepView> {
    seq![
        StepView::Say("[start] launching ZMQ proxy  (ns-prefix="@ + paths::NS_PREFIX@ + ")"@),
        StepView::Start(proxy_job(p, gnb_dl, gnb_ul, base_port)),
        StepView::SayPid("[start] proxy pid="@, "  (waiting 600ms...)"@),
        StepView::Wait(600),
    ]
}

pub open spec fn zmq_tail(p: StartParams) -> Seq<StepView> {
    seq![
        StepView::Start(traffic_job(p)),
        StepView::SavePids,
        StepView::Say(
            "\nAll "@ + text::dec(p.num_ues as nat) + " UEs started  (ZMQ + namespaces "@
                + ns_range(p.num_ues as nat) + ")"@,
        ),
        StepView::Say("Run:  ue-sim status --watch   for live dashboard"@),
        StepView::Say(logs_line(p)),
        StepView::Say("      "@ + paths::log_named(p.scripts@, "proxy_nue.log"@)),
    ]
}

/// How a simulation over the radio proxy is started: every UE gets its namespace and its
/// configuration, then the proxy, the UEs and the traffic engine are started in this order, and
/// the processes are noted.
pub open spec fn zmq_plan(
    p: StartParams,
    gnb_dl: Seq<char>,
    gnb_ul: Seq<char>,
    base_port: u16,
) -> Seq<StepView> {
    zmq_head(p) + zmq_prepare(p, base_port, p.num_ues as nat) + zmq_proxy(
        p,
        gnb_dl,
        gnb_ul,
        base_port,
    ) + zmq_starts(p, p.num_ues as nat) + zmq_tail(p)
}

/// Appends the steps of another plan.
fn put_steps(v: &mut Vec<Step>, mut more: Vec<Step>)
    ensures
        plan(final(v)@) == plan(old(v)@) + plan(more@),
{
    let ghost before = v@;
    let ghost rest = more@;
    v.append(&mut more);
    assert(plan(v@) == plan(before) + plan(rest));
}

fn no_steps() -> (r: Vec<Step>)
    ensures
        plan(r@) == Seq::<StepView>::empty(),
{
    let v: Vec<Step> = Vec::new();
    assert(plan(v@) == Seq::<StepView>::empty());
    v
}

fn zmq_prepare_steps(p: &StartParams, base_port: u16, i: usize) -> (r: Vec<Step>)
    requires
        1 <= i <= p.num_ues,
        p.well_formed(false),
    ensures
        plan(r@) == zmq_prepare_one(*p, base_port, i as nat),
{
    let imsi = imsi_of(p.imsi_base.as_str(), i);
    let conf = conf_of(i);
    let host = paths::ns_host_ip(i);
    let port = text::dec_text(base_port as u64);
    let ns = paths::ns_name(i);
    let mut say = text::owned("[start]   ns=");
    say.append(ns.as_str());
    say.append("  imsi=");
    say.append(imsi.as_str());
    say.append("  host-ip=");
    say.append(host.as_str());
    let mut v = no_steps();
    put(&mut v, Step::Say(say));
    put_runs(&mut v, create_ue_namespace(i));
    let c = command("python3").arg(p.gen_script.as_str()).arg("--num-ues").arg("1").arg(
        "--imsi-base",
    ).arg(imsi.as_str()).arg("--key").arg(p.key.as_str()).arg("--opc").arg(p.opc.as_str()).arg(
        "--dnn",
    ).arg(p.dnn.as_str()).arg("--base-port").arg(port.as_str()).arg("--ns-host-ip").arg(
        host.as_str(),
    ).arg("--output").arg(conf.as_str());
    assert(c@ =~~= zmq_config_command(*p, base_port, i as nat));
    put(&mut v, Step::Run(c));
    assert(plan(v@) =~= zmq_prepare_one(*p, base_port, i as nat));
    v
}

fn ue_key(i: usize) -> (r: String)
    ensures
        r@ == "ue_"@ + text::dec(i as nat),
{
    let mut out = text::owned("ue_");
    text::push_dec(&mut out, i as u64);
    out
}

fn zmq_start_steps(p: &StartParams, i: usize) -> (r: Vec<Step>)
    ensures
        plan(r@) == zmq_start_one(*p, i as nat),
{
    let conf = conf_of(i);
    let log = paths::log_nr_ue(p.scripts.as_str(), i);
    let ns = paths::ns_name(i);
    let freq = text::dec_text(p.dl_freq);
    let mut say = text::owned("[start] launching UE");
    text::push_dec(&mut say, i as u64);
    say.append("  ns=");
    say.append(ns.as_str());
    let c = command("ip").arg("netns").arg("exec").arg(ns.as_str()).arg(p.ue_binary.as_str()).arg(
        "-O",
    ).arg(conf.as_str()).arg("--device.name").arg("oai_zmqdevif").arg("-r").arg("106").arg(
        "--numerology",
    ).arg("1").arg("--band").arg("78").arg("-C").arg(freq.as_str());
    let mut said = text::owned("[start]   UE");
    text::push_dec(&mut said, i as u64);
    said.append(" pid=");
    let behind = slice::concat_texts("  log=", log.as_str());
    let job = Job {
        name: ue_key(i),
        cmd: c,
        env: Some((text::owned("LD_LIBRARY_PATH"), p.lib_dir.clone())),
        log,
        failure: text::owned("failed to start nr-uesoftmodem"),
    };
    assert(job@ =~~= zmq_ue_job(*p, i as nat));
    let mut v = no_steps();
    put(&mut v, Step::Say(say));
    put(&mut v, Step::Start(job));
    put(&mut v, Step::SayPid(said, behind));
    put(&mut v, Step::Wait(300));
    assert(plan(v@) =~= zmq_start_one(*p, i as nat));
    v
}

fn range_text(n: usize) -> (r: String)
    ensures
        r@ == ns_range(n as nat),
{
    let mut out = text::owned(paths::NS_PREFIX);
    out.append("1..");
    out.append(paths::NS_PREFIX);
    text::push_dec(&mut out, n as u64);
    out
}

fn logs_text(p: &StartParams) -> (r: String)
    ensures
        r@ == logs_line(*p),
{
    let mut out = text::owned("Logs: ");
    out.append(paths::log_nr_ue(p.scripts.as_str(), 1).as_str());
    out.append("  ..  ");
    out.append(paths::log_nr_ue(p.scripts.as_str(), p.num_ues).as_str());
    out
}

fn zmq_head_steps(p: &StartParams) -> (r: Vec<Step>)
    ensures
        plan(r@) == zmq_head(*p),
{
    let mut say = text::owned("[start] creating ");
    text::push_dec(&mut say, p.num_ues as u64);
    say.append(" namespace(s)...");
    let c = command("sysctl").arg("-w").arg("net.ipv4.ip_forward=1");
    assert(c@ =~~= cmd("sysctl"@, seq!["-w"@, "net.ipv4.ip_forward=1"@]));
    let mut v = no_steps();
    put(&mut v, Step::Say(text::owned("[start] stopping any existing simulation...")));
    put(&mut v, Step::StopExisting);
    put(&mut v, Step::Write(text::owned(paths::MODE_FILE), json::mode_file(false, p.num_ues)));
    put(&mut v, Step::Run(c));
    put(&mut v, Step::Say(say));
    assert(plan(v@) =~= zmq_head(*p));
    v
}

fn zmq_proxy_steps(p: &StartParams, gnb_dl: &str, gnb_ul: &str, base_port: u16) -> (r: Vec<Step>)
    ensures
        plan(r@) == zmq_proxy(*p, gnb_dl@, gnb_ul@, base_port),
{
    let n = text::dec_text(p.num_ues as u64);
    let port = text::dec_text(base_port as u64);
    let mut say = text::owned("[start] launching ZMQ proxy  (ns-prefix=");
    say.append(paths::NS_PREFIX);
    say.append(")");
    let c = command("python3").arg(p.proxy_script.as_str()).arg("--num-ues").arg(n.as_str()).arg(
        "--gnb-dl-addr",
    ).arg(gnb_dl).arg("--gnb-ul-addr").arg(gnb_ul).arg("--base-port").arg(port.as_str()).arg(
        "--ns-prefix",
    ).arg(paths::NS_PREFIX);
    let job = Job {
        name: text::owned("proxy"),
        cmd: c,
        env: None,
        log: paths::log_proxy(p.scripts.as_str()),
        failure: text::owned("failed to start zmq_proxy.py"),
    };
    assert(job@ =~~= proxy_job(*p, gnb_dl@, gnb_ul@, base_port));
    let mut v = no_steps();
    put(&mut v, Step::Say(say));
    put(&mut v, Step::Start(job));
    put(
        &mut v,
        Step::SayPid(text::owned("[start] proxy pid="), text::owned("  (waiting 600ms...)")),
    );
    put(&mut v, Step::Wait(600));
    assert(plan(v@) =~= zmq_proxy(*p, gnb_dl@, gnb_ul@, base_port));
    v
}

fn zmq_tail_steps(p: &StartParams) -> (r: Vec<Step>)
    ensures
        plan(r@) == zmq_tail(*p),
{
    let mut all = text::owned("\nAll ");
    text::push_dec(&mut all, p.num_ues as u64);
    all.append(" UEs started  (ZMQ + namespaces ");
    all.append(range_text(p.num_ues).as_str());
    all.append(")");
    let proxy = slice::concat_texts("      ", paths::log_proxy(p.scripts.as_str()).as_str());
    let mut v = no_steps();
    put(&mut v, Step::Start(launch_traffic(p)));
    put(&mut v, Step::SavePids);
    put(&mut v, Step::Say(all));
    put(&mut v, Step::Say(text::owned("Run:  ue-sim status --watch   for live dashboard")));
    put(&mut v, Step::Say(logs_text(p)));
    put(&mut v, Step::Say(proxy));
    assert(plan(v@) =~= zmq_tail(*p));
    v
}

/// How a simulation over the radio proxy is started.
pub fn cmd_start_zmq(
    p: &StartParams,
    gnb_dl: &str,
    gnb_ul: &str,
    base_port: u16,
) -> (r: Vec<Step>)
    requires
        p.well_formed(false),
    ensures
        plan(r@) == zmq_plan(*p, gnb_dl@, gnb_ul@, base_port),
{
    let mut v = zmq_head_steps(p);
    let ghost head = zmq_head(*p);
    let mut i: usize = 0;
    assert(plan(v@) == head + zmq_prepare(*p, base_port, 0));
    while i < p.num_ues
        invariant
            i <= p.num_ues,
            p.well_formed(false),
            plan(v@) == head + zmq_prepare(*p, base_port, i as nat),
        decreases p.num_ues - i,
    {
        i = i + 1;
        put_steps(&mut v, zmq_prepare_steps(p, base_port, i));
        assert(plan(v@) == head + zmq_prepare(*p, base_port, i as nat));
    }
    put_steps(&mut v, zmq_proxy_steps(p, gnb_dl, gnb_ul, base_port));
    let ghost prepared = plan(v@);
    i = 0;
    assert(plan(v@) == prepared + zmq_starts(*p, 0));
    while i < p.num_ues
        invariant
            i <= p.num_ues,
            plan(v@) == prepared + zmq_starts(*p, i as nat),
        decreases p.num_ues - i,
    {
        i = i + 1;
        put_steps(&mut v, zmq_start_steps(p, i));
        assert(plan(v@) == prepared + zmq_starts(*p, i as nat));
    }
    put_steps(&mut v, zmq_tail_steps(p));
    v
}

// ---------------------------------------------------------------------------
// Starting with the radio simulator
// ---------------------------------------------------------------------------

pub open spec fn gnb_job(p: StartParams, gnb_binary: Seq<char>, gnb_config: Seq<char>) -> JobView {
    JobView {
        name: "gnb"@,
        cmd: cmd(gnb_binary, seq!["-O"@, gnb_config, "--sa"@, "--rfsim"@]),
        env: None,
        log: paths::log_named(p.scripts@, "gnb.log"@),
        failure: "failed to start nr-softmodem"@,
    }
}

pub open spec fn rfsim_config_command(p: StartParams, i: nat) -> CmdView {
    cmd(
        "python3"@,
        seq![
            p.gen_script@,
            "--num-ues"@,
            "1"@,
            "--imsi-base"@,
            imsi_text(p.imsi_base@, i),
            "--key"@,
            p.key@,
            "--opc"@,
            p.opc@,
            "--dnn"@,
            p.dnn@,
            "--rfsim"@,
            "--output"@,
            conf_path(i),
        ],
    )
}

pub open spec fn rfsim_ue_job(p: StartParams, i: nat) -> JobView {
    JobView {
        name: "ue_"@ + text::dec(i),
        cmd: cmd(
            "ip"@,
            seq![
                "netns"@,
                "exec"@,
                paths::ns(i),
                p.ue_binary@,
                "-O"@,
                conf_path(i),
                "--rfsim"@,
                "--sa"@,
                "-r"@,
                "106"@,
                "--numerology"@,
                "1"@,
                "--band"@,
                "78"@,
                "-C"@,
                text::dec(p.dl_freq as nat),
                "--rfsimulator.[0].serveraddr"@,
                paths::address(i, ".1.100"@),
                "--telnetsrv"@,
                "--telnetsrv.listenport"@,
                text::dec(telnet::TELNET_BASE as nat + i),
            ],
        ),
        env: None,
        log: paths::ue_log(p.scripts@, i),
        failure: "failed to start nr-uesoftmodem"@,
    }
}

/// The steps that prepare and start one UE.
pub open spec fn rfsim_one(p: StartParams, i: nat) -> Seq<StepView> {
    seq![
        StepView::Say(
            "[start] UE"@ + text::dec(i) + "  ns="@ + paths::ns(i) + "  imsi="@ + imsi_text(
                p.imsi_base@,
                i,
            ) + "  server="@ + paths::address(i, ".1.100"@),
        ),
    ] + run_all(create_commands(i)) + seq![
        StepView::Run(rfsim_config_command(p, i)),
        StepView::Start(rfsim_ue_job(p, i)),
        StepView::SayPid("[start]   pid="@, "  log="@ + paths::ue_log(p.scripts@, i)),
        StepView::Wait(300),
    ]
}

pub open spec fn rfsim_all(p: StartParams, n: nat) -> Seq<StepView>
    decreases n,
{
    if n == 0 {
        seq![]
    } else {
        rfsim_all(p, (n - 1) as nat) + rfsim_one(p, n)
    }
}

pub open spec fn rfsim_head(
    p: StartParams,
    gnb_binary: Seq<char>,
    gnb_config: Seq<char>,
) -> Seq<StepView> {
    seq![
        StepView::Say("[start] stopping any existing simulation..."@),
        StepView::StopExisting,
        StepView::Write(paths::MODE_FILE@, json::mode_text(json::mode_word(true), p.num_ues as nat)),
        StepView::Run(cmd("sysctl"@, seq!["-w"@, "net.ipv4.ip_forward=1"@])),
        StepView::Say("[start] launching OAI gNB (rfsim)  config="@ + gnb_config),
        StepView::Start(gnb_job(p, gnb_binary, gnb_config)),
        StepView::SayPid("[start] gnb pid="@, "  (waiting 4s for rfsim server...)"@),
        StepView::Wait(4000),
    ]
}

pub open spec fn rfsim_tail(p: StartParams) -> Seq<StepView> {
    seq![
        StepView::Say("[start] launching traffic engine (namespace mode)"@),
        StepView::Start(traffic_job(p)),
        StepView::SavePids,
        StepView::Say(
            "\nAll "@ + text::dec(p.num_ues as nat) + " UEs started  (namespaces "@ + ns_range(
                p.num_ues as nat,
            ) + ")"@,
        ),
        StepView::Say("Run:  ue-sim status --watch   for live dashboard"@),
        StepView::Say(logs_line(p)),
    ]
}

/// How a simulation with the radio simulator is started: first the gNB, then one UE after the
/// other with its namespace and its configuration, then the traffic engine; and the processes are
/// noted.
pub open spec fn rfsim_plan(
    p: StartParams,
    gnb_binary: Seq<char>,
    gnb_config: Seq<char>,
) -> Seq<StepView> {
    rfsim_head(p, gnb_binary, gnb_config) + rfsim_all(p, p.num_ues as nat) + rfsim_tail(p)
}

fn rfsim_head_steps(p: &StartParams, gnb_binary: &str, gnb_config: &str) -> (r: Vec<Step>)
    ensures
        plan(r@) == rfsim_head(*p, gnb_binary@, gnb_config@),
{
    let c = command("sysctl").arg("-w").arg("net.ipv4.ip_forward=1");
    assert(c@ =~~= cmd("sysctl"@, seq!["-w"@, "net.ipv4.ip_forward=1"@]));
    let job = Job {
        name: text::owned("gnb"),
        cmd: command(gnb_binary).arg("-O").arg(gnb_config).arg("--sa").arg("--rfsim"),
        env: None,
        log: paths::log_gnb(p.scripts.as_str()),
        failure: text::owned("failed to start nr-softmodem"),
    };
    assert(job@ =~~= gnb_job(*p, gnb_binary@, gnb_config@));
    let mut v = no_steps();
    put(&mut v, Step::Say(text::owned("[start] stopping any existing simulation...")));
    put(&mut v, Step::StopExisting);
    put(&mut v, Step::Write(text::owned(paths::MODE_FILE), json::mode_file(true, p.num_ues)));
    put(&mut v, Step::Run(c));
    put(
        &mut v,
        Step::Say(slice::concat_texts("[start] launching OAI gNB (rfsim)  config=", gnb_config)),
    );
    put(&mut v, Step::Start(job));
    put(
        &mut v,
        Step::SayPid(
            text::owned("[start] gnb pid="),
            text::owned("  (waiting 4s for rfsim server...)"),
        ),
    );
    put(&mut v, Step::Wait(4000));
    assert(plan(v@) =~= rfsim_head(*p, gnb_binary@, gnb_config@));
    v
}

fn rfsim_steps(p: &StartParams, i: usize) -> (r: Vec<Step>)
    requires
        1 <= i <= p.num_ues,
        p.well_formed(true),
    ensures
        plan(r@) == rfsim_one(*p, i as nat),
{
    let imsi = imsi_of(p.imsi_base.as_str(), i);
    let conf = conf_of(i);
    let log = paths::log_nr_ue(p.scripts.as_str(), i);
    let server = paths::ns_host_ip(i);
    let port = text::dec_text((telnet::TELNET_BASE as usize + i) as u64);
    let freq = text::dec_text(p.dl_freq);
    let ns = paths::ns_name(i);
    let mut say = text::owned("[start] UE");
    text::push_dec(&mut say, i as u64);
    say.append("  ns=");
    say.append(ns.as_str());
    say.append("  imsi=");
    say.append(imsi.as_str());
    say.append("  server=");
    say.append(server.as_str());
    let config = command("python3").arg(p.gen_script.as_str()).arg("--num-ues").arg("1").arg(
        "--imsi-base",
    ).arg(imsi.as_str()).arg("--key").arg(p.key.as_str()).arg("--opc").arg(p.opc.as_str()).arg(
        "--dnn",
    ).arg(p.dnn.as_str()).arg("--rfsim").arg("--output").arg(conf.as_str());
    assert(config@ =~~= rfsim_config_command(*p, i as nat));
    let c = command("ip").arg("netns").arg("exec").arg(ns.as_str()).arg(p.ue_binary.as_str()).arg(
        "-O",
    ).arg(conf.as_str()).arg("--rfsim").arg("--sa").arg("-r").arg("106").arg("--numerology").arg(
        "1",
    ).arg("--band").arg("78").arg("-C").arg(freq.as_str()).arg("--rfsimulator.[0].serveraddr").arg(
        server.as_str(),
    ).arg("--telnetsrv").arg("--telnetsrv.listenport").arg(port.as_str());
    let behind = slice::concat_texts("  log=", log.as_str());
    let job = Job {
        name: ue_key(i),
        cmd: c,
        env: None,
        log,
        failure: text::owned("failed to start nr-uesoftmodem"),
    };
    assert(job@ =~~= rfsim_ue_job(*p, i as nat));
    let mut v = no_steps();
    put(&mut v, Step::Say(say));
    put_runs(&mut v, create_ue_namespace(i));
    put(&mut v, Step::Run(config));
    put(&mut v, Step::Start(job));
    put(&mut v, Step::SayPid(text::owned("[start]   pid="), behind));
    put(&mut v, Step::Wait(300));
    assert(plan(v@) =~= rfsim_one(*p, i as nat));
    v
}

fn rfsim_tail_steps(p: &StartParams) -> (r: Vec<Step>)
    ensures
        plan(r@) == rfsim_tail(*p),
{
    let mut all = text::owned("\nAll ");
    text::push_dec(&mut all, p.num_ues as u64);
    all.append(" UEs started  (namespaces ");
    all.append(range_text(p.num_ues).as_str());
    all.append(")");
    let mut v = no_steps();
    put(&mut v, Step::Say(text::owned("[start] launching traffic engine (namespace mode)")));
    put(&mut v, Step::Start(launch_traffic(p)));
    put(&mut v, Step::SavePids);
    put(&mut v, Step::Say(all));
    put(&mut v, Step::Say(text::owned("Run:  ue-sim status --watch   for live dashboard")));
    put(&mut v, Step::Say(logs_text(p)));
    assert(plan(v@) =~= rfsim_tail(*p));
    v
}

/// How a simulation with the radio simulator is started.
pub fn cmd_start_rfsim(p: &StartParams, gnb_binary: &str, gnb_config: &str) -> (r: Vec<Step>)
    requires
        p.well_formed(true),
    ensures
        plan(r@) == rfsim_plan(*p, gnb_binary@, gnb_config@),
{
    let mut v = rfsim_head_steps(p, gnb_binary, gnb_config);
    let ghost head = rfsim_head(*p, gnb_binary@, gnb_config@);
    let mut i: usize = 0;
    assert(plan(v@) == head + rfsim_all(*p, 0));
    while i < p.num_ues
        invariant
            i <= p.num_ues,
            p.well_formed(true),
            plan(v@) == head + rfsim_all(*p, i as nat),
        decreases p.num_ues - i,
    {
        i = i + 1;
        put_steps(&mut v, rfsim_steps(p, i));
        assert(plan(v@) == head + rfsim_all(*p, i as nat));
    }
    put_steps(&mut v, rfsim_tail_steps(p));
    v
}

/// The downlink frequency to use, in Hz.
pub fn dl_frequency(given: Option<u64>, rfsim: bool) -> (r: u64)
    ensures
        r == match given {
            Some(f) => f,
            None => if rfsim {
                3619200000
            } else {
                3489420000
            },
        },
{
    match given {
        Some(f) => f,
        None => if rfsim {
            3619200000
        } else {
            3489420000
        },
    }
}

// ---------------------------------------------------------------------------
// Laws on plans
// ---------------------------------------------------------------------------

/// The UEs listen where the channel model is driven: the port of the telnet server that a UE is
/// started with is the one that its telnet commands go to.
pub proof fn law_telnet_ports_agree(p: StartParams, i: nat)
    requires
        i < 65536,
    ensures
        rfsim_ue_job(p, i).cmd.args[20] == text::dec(telnet::telnet_port(i)),
{
}

/// What still runs of an earlier simulation is stopped before anything else is done, and then the
/// mode is noted.
pub proof fn law_stop_comes_first(
    p: StartParams,
    gnb_dl: Seq<char>,
    gnb_ul: Seq<char>,
    base_port: u16,
    gnb_binary: Seq<char>,
    gnb_config: Seq<char>,
)
    ensures
        ({
            let zmq = zmq_plan(p, gnb_dl, gnb_ul, base_port);
            &&& zmq[0] is Say
            &&& zmq[1] == StepView::StopExisting
            &&& zmq[2] == StepView::Write(
                paths::MODE_FILE@,
                json::mode_text(json::mode_word(false), p.num_ues as nat),
            )
        }),
        ({
            let rfsim = rfsim_plan(p, gnb_binary, gnb_config);
            &&& rfsim[0] is Say
            &&& rfsim[1] == StepView::StopExisting
            &&& rfsim[2] == StepView::Write(
                paths::MODE_FILE@,
                json::mode_text(json::mode_word(true), p.num_ues as nat),
            )
        }),
{
}

/// The processes that a plan notes, in the order in which they are started.
pub open spec fn jobs(steps: Seq<StepView>) -> Seq<Seq<char>>
    decreases steps.len(),
{
    if steps.len() == 0 {
        seq![]
    } else {
        match steps.last() {
            StepView::Start(j) => jobs(steps.drop_last()).push(j.name),
            _ => jobs(steps.drop_last()),
        }
    }
}

pub open spec fn ue_keys(n: nat) -> Seq<Seq<char>> {
    Seq::new(n, |i: int| "ue_"@ + text::dec((i + 1) as nat))
}

proof fn lemma_jobs_concat(a: Seq<StepView>, b: Seq<StepView>)
    ensures
        jobs(a + b) == jobs(a) + jobs(b),
    decreases b.len(),
{
    if b.len() == 0 {
        assert(a + b == a);
        assert(jobs(a) + jobs(b) == jobs(a));
    } else {
        lemma_jobs_concat(a, b.drop_last());
        assert((a + b).drop_last() == a + b.drop_last());
        assert((a + b).last() == b.last());
        assert(jobs(a + b) == jobs(a) + jobs(b));
    }
}

proof fn lemma_no_jobs(steps: Seq<StepView>)
    requires
        forall|i: int| 0 <= i < steps.len() ==> !((#[trigger] steps[i]) is Start),
    ensures
        jobs(steps) == Seq::<Seq<char>>::empty(),
    decreases steps.len(),
{
    if steps.len() > 0 {
        let d = steps.drop_last();
        assert forall|i: int| 0 <= i < d.len() implies !((#[trigger] d[i]) is Start) by {
            assert(d[i] == steps[i]);
        }
        lemma_no_jobs(d);
        assert(!(steps[steps.len() - 1] is Start));
    }
}

proof fn lemma_one_job(j: JobView)
    ensures
        jobs(seq![StepView::Start(j)]) == seq![j.name],
{
    let s = seq![StepView::Start(j)];
    assert(s.drop_last() == Seq::<StepView>::empty());
    lemma_no_jobs(s.drop_last());
}

proof fn lemma_zmq_prepare_jobs(p: StartParams, base_port: u16, n: nat)
    ensures
        jobs(zmq_prepare(p, base_port, n)) == Seq::<Seq<char>>::empty(),
    decreases n,
{
    if n > 0 {
        lemma_zmq_prepare_jobs(p, base_port, (n - 1) as nat);
        lemma_jobs_concat(
            zmq_prepare(p, base_port, (n - 1) as nat),
            zmq_prepare_one(p, base_port, n),
        );
        lemma_no_jobs(zmq_prepare_one(p, base_port, n));
    }
}

proof fn lemma_zmq_start_jobs(p: StartParams, n: nat)
    ensures
        jobs(zmq_starts(p, n)) == ue_keys(n),
    decreases n,
{
    if n == 0 {
        assert(ue_keys(0) == Seq::<Seq<char>>::empty());
    } else {
        lemma_zmq_start_jobs(p, (n - 1) as nat);
        let one = zmq_start_one(p, n);
        lemma_jobs_concat(zmq_starts(p, (n - 1) as nat), one);
        assert(jobs(one) == seq!["ue_"@ + text::dec(n)]) by {
            lemma_jobs_concat(seq![one[0], one[1]], seq![one[2], one[3]]);
            assert(one =~= seq![one[0], one[1]] + seq![one[2], one[3]]);
            lemma_no_jobs(seq![one[2], one[3]]);
            lemma_jobs_concat(seq![one[0]], seq![one[1]]);
            assert(seq![one[0], one[1]] =~= seq![one[0]] + seq![one[1]]);
            lemma_no_jobs(seq![one[0]]);
            lemma_one_job(zmq_ue_job(p, n));
        }
        assert(ue_keys(n) =~= ue_keys((n - 1) as nat) + seq!["ue_"@ + text::dec(n)]);
    }
}

/// The proxy comes first, then every UE in its order, then the traffic engine: these and no other
/// processes are noted.
pub proof fn law_zmq_processes(
    p: StartParams,
    gnb_dl: Seq<char>,
    gnb_ul: Seq<char>,
    base_port: u16,
)
    ensures
        jobs(zmq_plan(p, gnb_dl, gnb_ul, base_port)) == seq!["proxy"@] + ue_keys(p.num_ues as nat)
            + seq!["traffic"@],
{
    let n = p.num_ues as nat;
    let head = zmq_head(p);
    let prep = zmq_prepare(p, base_port, n);
    let proxy = zmq_proxy(p, gnb_dl, gnb_ul, base_port);
    let starts = zmq_starts(p, n);
    let tail = zmq_tail(p);
    lemma_no_jobs(head);
    lemma_zmq_prepare_jobs(p, base_port, n);
    lemma_zmq_start_jobs(p, n);
    assert(jobs(proxy) == seq!["proxy"@]) by {
        let a = seq![proxy[0]];
        let b = seq![proxy[1]];
        let c = seq![proxy[2], proxy[3]];
        assert(proxy =~= a + b + c);
        lemma_jobs_concat(a + b, c);
        lemma_jobs_concat(a, b);
        lemma_no_jobs(a);
        lemma_no_jobs(c);
        lemma_one_job(proxy_job(p, gnb_dl, gnb_ul, base_port));
    }
    assert(jobs(tail) == seq!["traffic"@]) by {
        let a = seq![tail[0]];
        let b = seq![tail[1], tail[2], tail[3], tail[4], tail[5]];
        assert(tail =~= a + b);
        lemma_jobs_concat(a, b);
        lemma_no_jobs(b);
        lemma_one_job(traffic_job(p));
    }
    lemma_jobs_concat(head, prep);
    lemma_jobs_concat(head + prep, proxy);
    lemma_jobs_concat(head + prep + proxy, starts);
    lemma_jobs_concat(head + prep + proxy + starts, tail);
    assert(jobs(zmq_plan(p, gnb_dl, gnb_ul, base_port)) =~= seq!["proxy"@] + ue_keys(n) + seq![
        "traffic"@,
    ]);
}

proof fn lemma_rfsim_jobs(p: StartParams, n: nat)
    ensures
        jobs(rfsim_all(p, n)) == ue_keys(n),
    decreases n,
{
    if n == 0 {
        assert(ue_keys(0) == Seq::<Seq<char>>::empty());
    } else {
        lemma_rfsim_jobs(p, (n - 1) as nat);
        let one = rfsim_one(p, n);
        lemma_jobs_concat(rfsim_all(p, (n - 1) as nat), one);
        assert(jobs(one) == seq!["ue_"@ + text::dec(n)]) by {
            let m = create_commands(n).len() as int;
            let a = one.take(m + 2);
            let b = seq![StepView::Start(rfsim_ue_job(p, n))];
            let c = one.skip(m + 3);
            assert(one =~= a + b + c);
            lemma_jobs_concat(a + b, c);
            lemma_jobs_concat(a, b);
            lemma_no_jobs(a);
            lemma_no_jobs(c);
            lemma_one_job(rfsim_ue_job(p, n));
        }
        assert(ue_keys(n) =~= ue_keys((n - 1) as nat) + seq!["ue_"@ + text::dec(n)]);
    }
}

/// The gNB comes first, then every UE in its order, then the traffic engine: these and no other
/// processes are noted.
pub proof fn law_rfsim_processes(p: StartParams, gnb_binary: Seq<char>, gnb_config: Seq<char>)
    ensures
        jobs(rfsim_plan(p, gnb_binary, gnb_config)) == seq!["gnb"@] + ue_keys(p.num_ues as nat)
            + seq!["traffic"@],
{
    let n = p.num_ues as nat;
    let head = rfsim_head(p, gnb_binary, gnb_config);
    let tail = rfsim_tail(p);
    lemma_rfsim_jobs(p, n);
    assert(jobs(head) == seq!["gnb"@]) by {
        let a = head.take(5);
        let b = seq![StepView::Start(gnb_job(p, gnb_binary, gnb_config))];
        let c = head.skip(6);
        assert(head =~= a + b + c);
        lemma_jobs_concat(a + b, c);
        lemma_jobs_concat(a, b);
        lemma_no_jobs(a);
        lemma_no_jobs(c);
        lemma_one_job(gnb_job(p, gnb_binary, gnb_config));
    }
    assert(jobs(tail) == seq!["traffic"@]) by {
        let a = tail.take(1);
        let b = seq![StepView::Start(traffic_job(p))];
        let c = tail.skip(2);
        assert(tail =~= a + b + c);
        lemma_jobs_concat(a + b, c);
        lemma_jobs_concat(a, b);
        lemma_no_jobs(a);
        lemma_no_jobs(c);
        lemma_one_job(traffic_job(p));
    }
    lemma_jobs_concat(head, rfsim_all(p, n));
    lemma_jobs_concat(head + rfsim_all(p, n), tail);
}

} // verus!
