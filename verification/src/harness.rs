//! The harness: how a chain-free node is started for a test, where it keeps its data, and how it
//! is reached.

use crate::command;
use crate::command::{Command, CommandView, Output};
use crate::paths;
use crate::text;
use vstd::prelude::*;
use vstd::string::*;

verus! {

/// The name of the data directory of a node: of the process, the number of the harness in it, and
/// the place of the node among those of its harness.
pub open spec fn node_dir_name(pid: u32, serial: u64, at: nat) -> Seq<char> {
    "ce-test-"@ + text::digits(pid as nat) + "-"@ + text::digits(serial as nat) + "-"@
        + text::digits(at)
}

/// The name of the data directory of a board.
pub open spec fn board_dir_name(pid: u32, serial: u64, at: nat, alias: Seq<char>) -> Seq<char> {
    "ce-test-arduino-"@ + text::digits(pid as nat) + "-"@ + text::digits(serial as nat) + "-"@
        + text::digits(at) + "-"@ + alias
}

/// A name of a data directory for the node or board at a place of a harness.
pub open spec fn is_dir_name(pid: u32, serial: u64, at: nat, name: Seq<char>) -> bool {
    ||| name == node_dir_name(pid, serial, at)
    ||| exists|alias: Seq<char>| name == #[trigger] board_dir_name(pid, serial, at, alias)
}

/// The arguments that start a node. The data directory is a flag of the program, before the
/// subcommand; the ports are flags of the subcommand.
pub open spec fn node_args_of(
    data_dir: Seq<char>,
    api_port: u16,
    p2p_port: u16,
    dial: Option<Seq<char>>,
) -> Seq<Seq<char>> {
    seq![
        "--data-dir"@,
        data_dir,
        "start"@,
        "--no-economy"@,
        "--foreground"@,
        "--no-mdns"@,
        "--api-port"@,
        text::digits(api_port as nat),
        "--port"@,
        text::digits(p2p_port as nat),
    ] + command::option_args("--bootstrap"@, dial)
}

/// The variables that keep a node off the real mesh and its temporary files in one place.
pub open spec fn node_env_of() -> Seq<(Seq<char>, Seq<char>)> {
    seq![("CE_NO_AUTOBOOTSTRAP"@, "1"@), ("TMPDIR"@, "/tmp"@)]
}

/// The command that starts a node.
pub open spec fn node_command_of(
    ce_bin: Seq<char>,
    data_dir: Seq<char>,
    api_port: u16,
    p2p_port: u16,
    dial: Option<Seq<char>>,
) -> CommandView {
    CommandView {
        program: ce_bin,
        args: node_args_of(data_dir, api_port, p2p_port, dial),
        dir: None,
        env: node_env_of(),
        output: Output::Silent,
    }
}

/// The arguments that start a node; it dials the address `dial`, where one is given.
pub fn node_args(data_dir: &str, api_port: u16, p2p_port: u16, dial: &Option<String>) -> (r: Vec<
    String,
>)
    ensures
        command::texts(r@) == node_args_of(data_dir@, api_port, p2p_port, text::opt(*dial)),
{
    let mut args: Vec<String> = Vec::new();
    command::push_arg(&mut args, "--data-dir");
    command::push_arg(&mut args, data_dir);
    command::push_arg(&mut args, "start");
    command::push_arg(&mut args, "--no-economy");
    command::push_arg(&mut args, "--foreground");
    command::push_arg(&mut args, "--no-mdns");
    command::push_arg(&mut args, "--api-port");
    command::push_arg(&mut args, text::unsigned(api_port as u64).as_str());
    command::push_arg(&mut args, "--port");
    command::push_arg(&mut args, text::unsigned(p2p_port as u64).as_str());
    command::push_option(&mut args, "--bootstrap", dial);
    proof {
        assert(command::texts(args@) =~= node_args_of(
            data_dir@,
            api_port,
            p2p_port,
            text::opt(*dial),
        ));
    }
    args
}

/// A node under test.
#[derive(Debug, Clone)]
pub struct TestNode {
    /// The node's identity on the mesh.
    pub node_id: String,
    /// The address of its API.
    pub api: String,
    /// Its libp2p peer id, which is another thing than its identity on the mesh.
    pub peer_id: String,
    /// The port that it listens on for peers.
    pub p2p_port: u16,
}

impl TestNode {
    /// The address that another node dials this one at, on this machine.
    pub open spec fn address(self) -> Seq<char> {
        "/ip4/127.0.0.1/tcp/"@ + text::digits(self.p2p_port as nat) + "/p2p/"@ + self.peer_id@
    }

    /// The multiaddr another node can `--bootstrap` to dial this one directly on loopback.
    pub fn dial_addr(&self) -> (r: String)
        ensures
            r@ == self.address(),
    {
        let mut r: String = "/ip4/127.0.0.1/tcp/".to_owned();
        r.append(text::unsigned(self.p2p_port as u64).as_str());
        r.append("/p2p/");
        r.append(self.peer_id.as_str());
        r
    }
}

/// The program that nodes run, given the value of `$CE_BIN`.
pub open spec fn program_of(ce_bin: Option<Seq<char>>) -> Seq<char> {
    match ce_bin {
        Some(bin) => bin,
        None => "ce"@,
    }
}

/// The address of the API of a node on this machine.
pub open spec fn api_address(port: u16) -> Seq<char> {
    "http://127.0.0.1:"@ + text::digits(port as nat)
}

/// A `kill` command with these arguments.
pub open spec fn kill_of(args: Seq<Seq<char>>, output: Output) -> CommandView {
    CommandView { program: "kill"@, args, dir: None, env: seq![], output }
}

/// The command that ends a node.
pub open spec fn kill_command_of(pid: u32) -> CommandView {
    kill_of(seq![text::digits(pid as nat)], Output::Shown)
}

/// The command that looks for a process.
pub open spec fn alive_command_of(pid: u32) -> CommandView {
    kill_of(seq!["-0"@, text::digits(pid as nat)], Output::Silent)
}

/// The command that ends a process by force.
pub open spec fn force_kill_command_of(pid: u32) -> CommandView {
    kill_of(seq!["-9"@, text::digits(pid as nat)], Output::Silent)
}

/// The description of an emulated board.
pub open spec fn descriptor_of(alias: Seq<char>) -> Seq<char> {
    "{\"name\":\"emulated-"@ + alias
        + "\",\"arch\":\"native\",\"has_os\":true,\"has_crypto\":true}"@
}

/// The address of the API of a node on this machine.
pub fn api_url(port: u16) -> (r: String)
    ensures
        r@ == "http://127.0.0.1:"@ + text::digits(port as nat),
        r@ == api_address(port),
{
    "http://127.0.0.1:".to_owned().concat(text::unsigned(port as u64).as_str())
}

/// The command that ends a node that was left running, by the id of its process.
pub fn kill_command(pid: u32) -> (r: Command)
    ensures
        r@ == (CommandView {
            program: "kill"@,
            args: seq![text::digits(pid as nat)],
            dir: None,
            env: seq![],
            output: Output::Shown,
        }),
        r@ == kill_command_of(pid),
{
    let mut args: Vec<String> = Vec::new();
    command::push_arg(&mut args, text::unsigned(pid as u64).as_str());
    let r = Command {
        program: "kill".to_owned(),
        args,
        dir: None,
        env: Vec::new(),
        output: Output::Shown,
    };
    proof {
        assert(r@.args =~= seq![text::digits(pid as nat)]);
        assert(r@.env =~= seq![]);
    }
    r
}

/// The command that succeeds as long as a process is there, and does nothing to it.
pub fn alive_command(pid: u32) -> (r: Command)
    ensures
        r@ == (CommandView {
            program: "kill"@,
            args: seq!["-0"@, text::digits(pid as nat)],
            dir: None,
            env: seq![],
            output: Output::Silent,
        }),
        r@ == alive_command_of(pid),
{
    let mut args: Vec<String> = Vec::new();
    command::push_arg(&mut args, "-0");
    command::push_arg(&mut args, text::unsigned(pid as u64).as_str());
    let r = Command {
        program: "kill".to_owned(),
        args,
        dir: None,
        env: Vec::new(),
        output: Output::Silent,
    };
    proof {
        assert(r@.args =~= seq!["-0"@, text::digits(pid as nat)]);
        assert(r@.env =~= seq![]);
    }
    r
}

/// The command that ends a process that did not end when it was told to.
pub fn force_kill_command(pid: u32) -> (r: Command)
    ensures
        r@ == (CommandView {
            program: "kill"@,
            args: seq!["-9"@, text::digits(pid as nat)],
            dir: None,
            env: seq![],
            output: Output::Silent,
        }),
        r@ == force_kill_command_of(pid),
{
    let mut args: Vec<String> = Vec::new();
    command::push_arg(&mut args, "-9");
    command::push_arg(&mut args, text::unsigned(pid as u64).as_str());
    let r = Command {
        program: "kill".to_owned(),
        args,
        dir: None,
        env: Vec::new(),
        output: Output::Silent,
    };
    proof {
        assert(r@.args =~= seq!["-9"@, text::digits(pid as nat)]);
        assert(r@.env =~= seq![]);
    }
    r
}

/// The data directory of a name: under the directory for temporary files.
pub fn data_dir(temp: &str, name: &str) -> (r: String)
    ensures
        paths::is_join(temp@, name@, r@),
{
    paths::join(temp, name)
}

/// The description of an emulated board: a target with an operating system that runs the native
/// binary. The alias stands in it as it is.
pub fn board_descriptor(alias: &str) -> (r: String)
    ensures
        r@ == "{\"name\":\"emulated-"@ + alias@
            + "\",\"arch\":\"native\",\"has_os\":true,\"has_crypto\":true}"@,
        r@ == descriptor_of(alias@),
{
    "{\"name\":\"emulated-".to_owned().concat(alias).concat(
        "\",\"arch\":\"native\",\"has_os\":true,\"has_crypto\":true}",
    )
}

/// Two names for different places differ: within one harness, and between two harnesses of a
/// process.
pub proof fn law_places_have_different_dirs(
    pid: u32,
    s: u64,
    i: nat,
    t: u64,
    j: nat,
    a: Seq<char>,
    b: Seq<char>,
)
    requires
        is_dir_name(pid, s, i, a),
        is_dir_name(pid, t, j, b),
        s != t || i != j,
    ensures
        a != b,
{
    text::lemma_digits(pid as nat);
    reveal_strlit("ce-test-");
    reveal_strlit("ce-test-arduino-");
    reveal_strlit("-");
    let p = text::digits(pid as nat);
    let n = p.len() as int;
    let ds = text::digits(s as nat);
    let dt = text::digits(t as nat);
    let di = text::digits(i);
    let dj = text::digits(j);
    if a == b {
        if a == node_dir_name(pid, s, i) && b == node_dir_name(pid, t, j) {
            let rest = a.subrange(9 + n, a.len() as int);
            assert(rest =~= ds + "-"@ + di);
            assert(rest =~= dt + "-"@ + dj);
            text::lemma_numbered(s as nat, di, t as nat, dj);
            text::lemma_digits_differ(i, j);
        } else if a == node_dir_name(pid, s, i) || b == node_dir_name(pid, t, j) {
            assert(a[8] == 'a');
            assert(a[8] == p[0]);
            assert(text::is_digit(p[0]));
        } else {
            let x = choose|x: Seq<char>| a == #[trigger] board_dir_name(pid, s, i, x);
            let y = choose|y: Seq<char>| b == #[trigger] board_dir_name(pid, t, j, y);
            let rest = a.subrange(17 + n, a.len() as int);
            assert(rest =~= ds + "-"@ + (di + "-"@ + x));
            assert(rest =~= dt + "-"@ + (dj + "-"@ + y));
            text::lemma_numbered(s as nat, di + "-"@ + x, t as nat, dj + "-"@ + y);
            text::lemma_numbered(i, x, j, y);
        }
    }
}

/// No two nodes or boards of a harness share the name of a data directory.
pub proof fn law_every_node_has_its_own_dir(h: Harness)
    requires
        h.wf(),
    ensures
        h.dirs().no_duplicates(),
{
    assert forall|i: int, j: int|
        0 <= i < h.dirs().len() && 0 <= j < h.dirs().len() && i != j implies h.dirs()[i]
        != h.dirs()[j] by {
        law_places_have_different_dirs(
            h.process(),
            h.serial(),
            i as nat,
            h.serial(),
            j as nat,
            h.dirs()[i],
            h.dirs()[j],
        );
    }
}

/// Two harnesses of a process share no name of a data directory: neither has one that the other
/// has, and the next name of either is not among those of the other.
pub proof fn law_harnesses_share_no_dir(g: Harness, h: Harness, name: Seq<char>)
    requires
        g.wf(),
        h.wf(),
        g.process() == h.process(),
        g.serial() != h.serial(),
        g.dirs().contains(name) || is_dir_name(g.process(), g.serial(), g.dirs().len(), name),
    ensures
        !h.dirs().contains(name),
        !is_dir_name(h.process(), h.serial(), h.dirs().len(), name),
{
    let at: nat = if g.dirs().contains(name) {
        g.dirs().index_of(name) as nat
    } else {
        g.dirs().len()
    };
    assert(is_dir_name(g.process(), g.serial(), at, name));
    assert forall|k: int| 0 <= k < h.dirs().len() implies h.dirs()[k] != name by {
        law_places_have_different_dirs(
            h.process(),
            h.serial(),
            k as nat,
            g.serial(),
            at,
            h.dirs()[k],
            name,
        );
    }
    if is_dir_name(h.process(), h.serial(), h.dirs().len(), name) {
        law_places_have_different_dirs(
            h.process(),
            h.serial(),
            h.dirs().len(),
            g.serial(),
            at,
            name,
            name,
        );
    }
}

/// The name of the data directory of a node is one component of a path, on every platform.
pub proof fn law_node_dir_is_one_component(pid: u32, serial: u64, at: nat)
    ensures
        paths::is_component(node_dir_name(pid, serial, at)),
        paths::is_portable(node_dir_name(pid, serial, at)),
{
    text::lemma_digits(pid as nat);
    text::lemma_digits(serial as nat);
    text::lemma_digits(at);
    reveal_strlit("ce-test-");
    reveal_strlit("-");
    let name = node_dir_name(pid, serial, at);
    let p = text::digits(pid as nat);
    let s = text::digits(serial as nat);
    let a = text::digits(at);
    assert forall|k: int| 0 <= k < name.len() implies name[k] != '/' && name[k] != '\\' by {
        let m = 8 + p.len();
        let n = m + 1 + s.len();
        if 8 <= k < m {
            assert(text::is_digit(p[k - 8]));
        } else if m < k < n {
            assert(text::is_digit(s[k - m - 1]));
        } else if n < k {
            assert(text::is_digit(a[k - n - 1]));
        }
    }
    assert(name[1] == 'e');
}

/// Two nodes or boards at different places start with different paths of data directories, each
/// of them its name behind the directory for temporary files, where that directory and the names
/// are read the same way on every platform.
pub proof fn law_places_have_different_paths(
    temp: Seq<char>,
    pid: u32,
    s: u64,
    i: nat,
    t: u64,
    j: nat,
    a: Seq<char>,
    b: Seq<char>,
    x: Seq<char>,
    y: Seq<char>,
)
    requires
        paths::is_portable(temp),
        is_dir_name(pid, s, i, a),
        is_dir_name(pid, t, j, b),
        paths::is_portable(a),
        paths::is_portable(b),
        s != t || i != j,
        paths::is_join(temp, a, x),
        paths::is_join(temp, b, y),
    ensures
        x != y,
        paths::is_behind(temp, a, x),
        paths::is_behind(temp, b, y),
{
    law_places_have_different_dirs(pid, s, i, t, j, a, b);
    reveal_strlit("ce-test-");
    reveal_strlit("ce-test-arduino-");
    assert(a[0] == 'c' && b[0] == 'c');
    if x == y {
        let n = x.len() - a.len();
        assert(n == temp.len() || n == temp.len() + 1);
        assert(n == y.len() - b.len());
        assert(a =~= x.skip(n));
        assert(b =~= y.skip(n));
    }
}

/// A name for the next place is new.
proof fn lemma_fresh(h: Harness, name: Seq<char>)
    requires
        h.wf(),
        is_dir_name(h.process(), h.serial(), h.dirs().len(), name),
    ensures
        !h.dirs().contains(name),
{
    assert forall|k: int| 0 <= k < h.dirs().len() implies h.dirs()[k] != name by {
        law_places_have_different_dirs(
            h.process(),
            h.serial(),
            k as nat,
            h.serial(),
            h.dirs().len(),
            h.dirs()[k],
            name,
        );
    }
}

/// The flags of a node stand where they belong: the data directory before the subcommand, the
/// ports behind it. The node has no chain, finds no peers by itself, and dials one just where it
/// is told to.
pub proof fn law_nodes_are_isolated(
    ce_bin: Seq<char>,
    data_dir: Seq<char>,
    api_port: u16,
    p2p_port: u16,
    dial: Option<Seq<char>>,
)
    ensures
        ({
            let c = node_command_of(ce_bin, data_dir, api_port, p2p_port, dial);
            &&& c.args[0] == "--data-dir"@ && c.args[1] == data_dir
            &&& c.args[2] == "start"@
            &&& c.args[3] == "--no-economy"@
            &&& c.args[5] == "--no-mdns"@
            &&& c.args[6] == "--api-port"@ && c.args[7] == text::digits(api_port as nat)
            &&& c.args[8] == "--port"@ && c.args[9] == text::digits(p2p_port as nat)
            &&& c.env.contains(("CE_NO_AUTOBOOTSTRAP"@, "1"@))
            &&& dial is None ==> c.args.len() == 10
            &&& dial matches Some(a) ==> c.args.len() == 12 && c.args[10] == "--bootstrap"@
                && c.args[11] == a
        }),
{
    let c = node_command_of(ce_bin, data_dir, api_port, p2p_port, dial);
    assert(c.env[0] == ("CE_NO_AUTOBOOTSTRAP"@, "1"@));
}

/// The topology of a test: which program its nodes run, and the data directories that are theirs.
#[derive(Debug)]
pub struct Harness {
    ce_bin: String,
    pid: u32,
    serial: u64,
    owned: Vec<String>,
}

impl Harness {
    /// The program that nodes run.
    pub closed spec fn program(self) -> Seq<char> {
        self.ce_bin@
    }

    /// The process that the harness belongs to.
    pub closed spec fn process(self) -> u32 {
        self.pid
    }

    /// The number of the harness among those of its process.
    pub closed spec fn serial(self) -> u64 {
        self.serial
    }

    /// The names of the data directories of the nodes and boards so far, in the order in which
    /// they came up.
    pub closed spec fn dirs(self) -> Seq<Seq<char>> {
        command::texts(self.owned@)
    }

    /// Each data directory is named for its place.
    pub open spec fn wf(self) -> bool {
        forall|k: int|
            0 <= k < self.dirs().len() ==> is_dir_name(
                self.process(),
                self.serial(),
                k as nat,
                #[trigger] self.dirs()[k],
            )
    }

    /// A fresh harness, given the id of this process, a number that no other harness of the process
    /// has, and the value of `$CE_BIN`: the nodes run that program, or `ce` from `PATH` where it is
    /// not set.
    pub fn new(pid: u32, serial: u64, ce_bin: Option<String>) -> (r: Harness)
        ensures
            r.wf(),
            r.process() == pid,
            r.serial() == serial,
            r.program() == match text::opt(ce_bin) {
                Some(bin) => bin,
                None => "ce"@,
            },
            r.program() == program_of(text::opt(ce_bin)),
            r.dirs() == Seq::<Seq<char>>::empty(),
    {
        let r = Harness {
            ce_bin: match ce_bin {
                Some(bin) => bin,
                None => "ce".to_owned(),
            },
            pid,
            serial,
            owned: Vec::new(),
        };
        proof {
            assert(r.dirs() =~= Seq::<Seq<char>>::empty());
        }
        r
    }

    /// The program that nodes run.
    pub fn ce_bin(&self) -> (r: &str)
        ensures
            r@ == self.program(),
    {
        self.ce_bin.as_str()
    }

    /// The name of the data directory for the next node, which no node or board before it has.
    pub fn node_dir(&self) -> (r: String)
        requires
            self.wf(),
        ensures
            r@ == node_dir_name(self.process(), self.serial(), self.dirs().len()),
            !self.dirs().contains(r@),
    {
        let mut r: String = "ce-test-".to_owned();
        r.append(text::unsigned(self.pid as u64).as_str());
        r.append("-");
        r.append(text::unsigned(self.serial).as_str());
        r.append("-");
        r.append(text::unsigned(self.owned.len() as u64).as_str());
        proof {
            lemma_fresh(*self, r@);
        }
        r
    }

    /// The name of the data directory for the next board, which no node or board before it has.
    pub fn board_dir(&self, alias: &str) -> (r: String)
        requires
            self.wf(),
        ensures
            r@ == board_dir_name(self.process(), self.serial(), self.dirs().len(), alias@),
            !self.dirs().contains(r@),
    {
        let mut r: String = "ce-test-arduino-".to_owned();
        r.append(text::unsigned(self.pid as u64).as_str());
        r.append("-");
        r.append(text::unsigned(self.serial).as_str());
        r.append("-");
        r.append(text::unsigned(self.owned.len() as u64).as_str());
        r.append("-");
        r.append(alias);
        proof {
            assert(r@ == board_dir_name(self.process(), self.serial(), self.dirs().len(), alias@));
            lemma_fresh(*self, r@);
        }
        r
    }

    /// Takes a node or board that came up, by the name of its data directory.
    pub fn own(&mut self, dir: String)
        requires
            old(self).wf(),
            is_dir_name(old(self).process(), old(self).serial(), old(self).dirs().len(), dir@),
        ensures
            final(self).wf(),
            final(self).process() == old(self).process(),
            final(self).serial() == old(self).serial(),
            final(self).program() == old(self).program(),
            final(self).dirs() == old(self).dirs().push(dir@),
    {
        self.owned.push(dir);
        proof {
            assert(self.dirs() =~= old(self).dirs().push(dir@));
        }
    }

    /// The command that starts a node; it dials the address `dial`, where one is given.
    pub fn node_command(
        &self,
        data_dir: &str,
        api_port: u16,
        p2p_port: u16,
        dial: &Option<String>,
    ) -> (r: Command)
        ensures
            r@ == node_command_of(self.program(), data_dir@, api_port, p2p_port, text::opt(*dial)),
            r@.program == self.program(),
    {
        let mut env: Vec<(String, String)> = Vec::new();
        env.push(("CE_NO_AUTOBOOTSTRAP".to_owned(), "1".to_owned()));
        env.push(("TMPDIR".to_owned(), "/tmp".to_owned()));
        proof {
            assert(command::pairs(env@) =~= node_env_of());
        }
        Command {
            program: self.ce_bin.clone(),
            args: node_args(data_dir, api_port, p2p_port, dial),
            dir: None,
            env,
            output: Output::Silent,
        }
    }
}

/// The nodes of a harness run the program of `$CE_BIN`, and `ce` where it is not set.
pub proof fn law_program_of_the_nodes(ce_bin: Option<Seq<char>>)
    ensures
        ce_bin is Some ==> program_of(ce_bin) == ce_bin->0,
        ce_bin is None ==> program_of(ce_bin) == "ce"@,
{
}

/// Every node runs the program of its harness, whatever its directory and its ports are and whether
/// it dials another node or not. It is started in our directory, with its two streams dropped, and
/// with two variables set: that it is not to join the mesh, and where temporary files go.
pub proof fn law_every_node_runs_the_program(
    ce_bin: Seq<char>,
    data_dir: Seq<char>,
    api_port: u16,
    p2p_port: u16,
    dial: Option<Seq<char>>,
)
    ensures
        ({
            let c = node_command_of(ce_bin, data_dir, api_port, p2p_port, dial);
            &&& c.program == ce_bin
            &&& c.dir is None
            &&& c.output == Output::Silent
            &&& c.env.len() == 2
            &&& c.env[0].0 == "CE_NO_AUTOBOOTSTRAP"@ && c.env[0].1 == "1"@
            &&& c.env[1].0 == "TMPDIR"@ && c.env[1].1 == "/tmp"@
        }),
{
}

/// The arguments of a node are these and no others: the data directory before the subcommand, the
/// flags of the subcommand behind it, the ports each behind its own flag, and the address to dial at
/// the end, just where there is one.
pub proof fn law_arguments_of_a_node(
    data_dir: Seq<char>,
    api_port: u16,
    p2p_port: u16,
    dial: Option<Seq<char>>,
)
    ensures
        ({
            let args = node_args_of(data_dir, api_port, p2p_port, dial);
            &&& args[0] == "--data-dir"@ && args[1] == data_dir
            &&& args[2] == "start"@
            &&& args[3] == "--no-economy"@
            &&& args[4] == "--foreground"@
            &&& args[5] == "--no-mdns"@
            &&& args[6] == "--api-port"@ && args[7] == text::digits(api_port as nat)
            &&& args[8] == "--port"@ && args[9] == text::digits(p2p_port as nat)
            &&& dial is None ==> args.len() == 10
            &&& dial is Some ==> args.len() == 12 && args[10] == "--bootstrap"@ && args[11]
                == dial->0
        }),
{
}

/// A peer is started as a node alone is, but for the address that it dials.
pub proof fn law_a_peer_is_a_node_that_dials(
    ce_bin: Seq<char>,
    data_dir: Seq<char>,
    api_port: u16,
    p2p_port: u16,
    seed: TestNode,
)
    ensures
        ({
            let alone = node_command_of(ce_bin, data_dir, api_port, p2p_port, None);
            let peer = node_command_of(ce_bin, data_dir, api_port, p2p_port, Some(seed.address()));
            &&& peer.program == alone.program
            &&& peer.dir == alone.dir
            &&& peer.env == alone.env
            &&& peer.output == alone.output
            &&& peer.args == alone.args + seq!["--bootstrap"@, seed.address()]
        }),
{
    let alone = node_command_of(ce_bin, data_dir, api_port, p2p_port, None);
    let peer = node_command_of(ce_bin, data_dir, api_port, p2p_port, Some(seed.address()));
    assert(peer.args =~= alone.args + seq!["--bootstrap"@, seed.address()]);
}

/// A node is dialled on this machine, at the port that it listens on, by its peer id.
pub proof fn law_address_of_a_node(node: TestNode)
    ensures
        ("/ip4/127.0.0.1/tcp/"@ + text::digits(node.p2p_port as nat)).is_prefix_of(node.address()),
        ("/p2p/"@ + node.peer_id@).is_suffix_of(node.address()),
        node.address().len() == ("/ip4/127.0.0.1/tcp/"@ + text::digits(
            node.p2p_port as nat,
        )).len() + ("/p2p/"@ + node.peer_id@).len(),
{
    let address = node.address();
    let start = "/ip4/127.0.0.1/tcp/"@ + text::digits(node.p2p_port as nat);
    let end = "/p2p/"@ + node.peer_id@;
    assert(address =~= start + end);
    assert(start =~= address.subrange(0, start.len() as int));
    assert(end =~= address.subrange(start.len() as int, address.len() as int));
}

/// The API of a node is asked on this machine, at its port; different ports have different addresses.
pub proof fn law_address_of_an_api(port: u16, other: u16)
    ensures
        "http://127.0.0.1:"@.is_prefix_of(api_address(port)),
        api_address(port).skip("http://127.0.0.1:"@.len() as int) == text::digits(port as nat),
        api_address(port) == api_address(other) ==> port == other,
{
    let start = "http://127.0.0.1:"@;
    assert(start =~= api_address(port).subrange(0, start.len() as int));
    assert(api_address(port).skip(start.len() as int) =~= text::digits(port as nat));
    assert(api_address(other).skip(start.len() as int) =~= text::digits(other as nat));
    if port != other {
        text::lemma_digits_differ(port as nat, other as nat);
    }
}

/// A process is ended, looked for and ended by force by its own id, which is the last argument of
/// `kill` and the only one but for the signal.
pub proof fn law_processes_are_named_by_their_ids(pid: u32)
    ensures
        kill_command_of(pid).program == "kill"@,
        kill_command_of(pid).args.len() == 1,
        kill_command_of(pid).args[0] == text::digits(pid as nat),
        alive_command_of(pid).program == "kill"@,
        alive_command_of(pid).args.len() == 2,
        alive_command_of(pid).args[0] == "-0"@,
        alive_command_of(pid).args[1] == text::digits(pid as nat),
        force_kill_command_of(pid).program == "kill"@,
        force_kill_command_of(pid).args.len() == 2,
        force_kill_command_of(pid).args[0] == "-9"@,
        force_kill_command_of(pid).args[1] == text::digits(pid as nat),
        kill_command_of(pid).env.len() == 0 && kill_command_of(pid).dir is None,
        alive_command_of(pid).env.len() == 0 && alive_command_of(pid).dir is None,
        force_kill_command_of(pid).env.len() == 0 && force_kill_command_of(pid).dir is None,
        kill_command_of(pid).output == Output::Shown,
        alive_command_of(pid).output == Output::Silent,
        force_kill_command_of(pid).output == Output::Silent,
{
}

/// The description of a board is the same for every board, but for the alias, which ends its name.
pub proof fn law_description_of_a_board(alias: Seq<char>)
    ensures
        ("{\"name\":\"emulated-"@ + alias).is_prefix_of(descriptor_of(alias)),
        descriptor_of(alias).skip(("{\"name\":\"emulated-"@ + alias).len() as int)
            == "\",\"arch\":\"native\",\"has_os\":true,\"has_crypto\":true}"@,
{
    let start = "{\"name\":\"emulated-"@ + alias;
    assert(start =~= descriptor_of(alias).subrange(0, start.len() as int));
    assert(descriptor_of(alias).skip(start.len() as int)
        =~= "\",\"arch\":\"native\",\"has_os\":true,\"has_crypto\":true}"@);
}

/// What stands behind the start of a name of a node's data directory.
proof fn lemma_node_name(p: u32, s: u64, i: nat)
    ensures
        ({
            let name = node_dir_name(p, s, i);
            let rest = text::digits(s as nat) + "-"@ + text::digits(i);
            &&& name == "ce-test-"@ + (text::digits(p as nat) + "-"@ + rest)
            &&& name.skip("ce-test-"@.len() as int) == text::digits(p as nat) + "-"@ + rest
            &&& ("ce-test-"@ + text::digits(p as nat) + "-"@).is_prefix_of(name)
            &&& ("-"@ + text::digits(i)).is_suffix_of(name)
        }),
{
    let name = node_dir_name(p, s, i);
    let rest = text::digits(s as nat) + "-"@ + text::digits(i);
    let start = "ce-test-"@ + text::digits(p as nat) + "-"@;
    let end = "-"@ + text::digits(i);
    assert(name =~= "ce-test-"@ + (text::digits(p as nat) + "-"@ + rest));
    assert(name.skip("ce-test-"@.len() as int) =~= text::digits(p as nat) + "-"@ + rest);
    assert(start =~= name.subrange(0, start.len() as int));
    assert(end =~= name.subrange(name.len() - end.len(), name.len() as int));
}

/// What stands behind the start of a name of a board's data directory.
proof fn lemma_board_name(p: u32, s: u64, i: nat, alias: Seq<char>)
    ensures
        ({
            let name = board_dir_name(p, s, i, alias);
            let rest = text::digits(s as nat) + "-"@ + (text::digits(i) + "-"@ + alias);
            &&& name == "ce-test-arduino-"@ + (text::digits(p as nat) + "-"@ + rest)
            &&& name.skip("ce-test-arduino-"@.len() as int) == text::digits(p as nat) + "-"@ + rest
            &&& ("ce-test-arduino-"@ + text::digits(p as nat) + "-"@).is_prefix_of(name)
            &&& ("-"@ + text::digits(i) + "-"@ + alias).is_suffix_of(name)
        }),
{
    let name = board_dir_name(p, s, i, alias);
    let rest = text::digits(s as nat) + "-"@ + (text::digits(i) + "-"@ + alias);
    let start = "ce-test-arduino-"@ + text::digits(p as nat) + "-"@;
    let end = "-"@ + text::digits(i) + "-"@ + alias;
    assert(name =~= "ce-test-arduino-"@ + (text::digits(p as nat) + "-"@ + rest));
    assert(name.skip("ce-test-arduino-"@.len() as int) =~= text::digits(p as nat) + "-"@ + rest);
    assert(start =~= name.subrange(0, start.len() as int));
    assert(end =~= name.subrange(name.len() - end.len(), name.len() as int));
}

/// The name of a node's data directory begins with the process and ends with the place of the node,
/// and is read back one way only: two nodes have the same one just where they have the same place in
/// the same harness of the same process.
pub proof fn law_names_of_nodes(p: u32, s: u64, i: nat, q: u32, t: u64, j: nat)
    ensures
        ("ce-test-"@ + text::digits(p as nat) + "-"@).is_prefix_of(node_dir_name(p, s, i)),
        ("-"@ + text::digits(i)).is_suffix_of(node_dir_name(p, s, i)),
        node_dir_name(p, s, i) == node_dir_name(q, t, j) <==> p == q && s == t && i == j,
{
    lemma_node_name(p, s, i);
    lemma_node_name(q, t, j);
    if node_dir_name(p, s, i) == node_dir_name(q, t, j) {
        let a = text::digits(s as nat) + "-"@ + text::digits(i);
        let b = text::digits(t as nat) + "-"@ + text::digits(j);
        text::lemma_numbered(p as nat, a, q as nat, b);
        text::lemma_numbered(s as nat, text::digits(i), t as nat, text::digits(j));
        if i != j {
            text::lemma_digits_differ(i, j);
        }
    }
}

/// The name of a board's data directory begins with the process and ends with the place of the board
/// and its alias, and is read back one way only, the alias too.
pub proof fn law_names_of_boards(
    p: u32,
    s: u64,
    i: nat,
    x: Seq<char>,
    q: u32,
    t: u64,
    j: nat,
    y: Seq<char>,
)
    ensures
        ("ce-test-arduino-"@ + text::digits(p as nat) + "-"@).is_prefix_of(
            board_dir_name(p, s, i, x),
        ),
        ("-"@ + text::digits(i) + "-"@ + x).is_suffix_of(board_dir_name(p, s, i, x)),
        board_dir_name(p, s, i, x) == board_dir_name(q, t, j, y) <==> p == q && s == t && i == j
            && x == y,
{
    lemma_board_name(p, s, i, x);
    lemma_board_name(q, t, j, y);
    if board_dir_name(p, s, i, x) == board_dir_name(q, t, j, y) {
        let ax = text::digits(i) + "-"@ + x;
        let by = text::digits(j) + "-"@ + y;
        let a = text::digits(s as nat) + "-"@ + ax;
        let b = text::digits(t as nat) + "-"@ + by;
        text::lemma_numbered(p as nat, a, q as nat, b);
        text::lemma_numbered(s as nat, ax, t as nat, by);
        text::lemma_numbered(i, x, j, y);
    }
}

} // verus!
