//! The process supervisor: which add-ons have a child process, and the
//! command line that starts one.

use crate::addon_manager::AddonStopped;
use crate::error::Error;
use crate::registry::{distinct_keys, Entry, Table};
use crate::text::{replace, replaced, split_ascii_whitespace, words};
use vstd::prelude::*;

verus! {

/// The request to start the add-on with this id, which lives in this
/// directory, with this command template.
#[derive(Debug, Clone, PartialEq, Eq)]
pub struct StartAddon(pub String, pub String, pub String);

/// The request to stop the add-on with this id.
#[derive(Debug, Clone, PartialEq, Eq)]
pub struct StopAddon(pub String);

/// What the caller is to spawn for the add-on `id`: the program with its
/// arguments, with both output streams piped and `WEBTHINGS_HOME` set to
/// `home`. `handle` is the number under which the process is booked.
#[derive(Debug, Clone, PartialEq, Eq)]
pub struct Launch {
    pub id: String,
    pub handle: u64,
    pub program: String,
    pub args: Vec<String>,
    pub home: String,
}

/// What a [`Launch`] says.
pub struct LaunchView {
    pub id: Seq<char>,
    pub handle: u64,
    pub program: Seq<char>,
    pub args: Seq<Seq<char>>,
    pub home: Seq<char>,
}

impl View for Launch {
    type V = LaunchView;

    open spec fn view(&self) -> LaunchView {
        LaunchView {
            id: self.id@,
            handle: self.handle,
            program: self.program@,
            args: Seq::new(self.args@.len(), |i: int| self.args@[i]@),
            home: self.home@,
        }
    }
}

/// The command line of an add-on: its template with `{name}` replaced by
/// the add-on's id and then `{path}` by its directory.
pub open spec fn command_line(id: Seq<char>, path: Seq<char>, template: Seq<char>) -> Seq<char> {
    replaced(replaced(template, "{name}"@, id), "{path}"@, path)
}

/// What a start request yields where `running` holds the add-ons that have
/// a process: the launch, made of the words of the command line, or the
/// refusal.
pub open spec fn start_outcome(
    running: Map<Seq<char>, u64>,
    id: Seq<char>,
    path: Seq<char>,
    template: Seq<char>,
    handle: u64,
    home: Seq<char>,
) -> Result<LaunchView, Error> {
    let parts = words(command_line(id, path, template));
    if running.contains_key(id) {
        Err(Error::AlreadyRunning)
    } else if parts.len() == 0 {
        Err(Error::EmptyCommand)
    } else {
        Ok(LaunchView { id, handle, program: parts[0], args: parts.skip(1), home })
    }
}

/// The running add-ons after a start request with this handle: where the
/// request is accepted the handle is booked under the add-on's id.
pub open spec fn after_start(
    running: Map<Seq<char>, u64>,
    id: Seq<char>,
    path: Seq<char>,
    template: Seq<char>,
    handle: u64,
) -> Map<Seq<char>, u64> {
    if !running.contains_key(id) && words(command_line(id, path, template)).len() > 0 {
        running.insert(id, handle)
    } else {
        running
    }
}

/// What a stop request yields: the handle to cancel, or the refusal where
/// nothing runs under this id.
pub open spec fn stop_outcome(running: Map<Seq<char>, u64>, id: Seq<char>) -> Result<u64, Error> {
    if running.contains_key(id) {
        Ok(running[id])
    } else {
        Err(Error::NotRunning)
    }
}

/// The running add-ons after the process with this handle has ended: it is
/// forgotten, unless the id has passed to another process since.
pub open spec fn after_exit(running: Map<Seq<char>, u64>, id: Seq<char>, handle: u64) -> Map<
    Seq<char>,
    u64,
> {
    if running.contains_key(id) && running[id] == handle {
        running.remove(id)
    } else {
        running
    }
}

/// What an executable result of a start request says, in terms of views.
pub open spec fn launch_view(result: Result<Launch, Error>) -> Result<LaunchView, Error> {
    match result {
        Ok(launch) => Ok(launch@),
        Err(e) => Err(e),
    }
}

/// How many of the rows stand under the key `id`.
pub open spec fn held<V>(rows: Seq<Entry<V>>, id: Seq<char>) -> nat
    decreases rows.len(),
{
    if rows.len() == 0 {
        0
    } else {
        held(rows.drop_last(), id) + if rows.last().key@ == id {
            1nat
        } else {
            0nat
        }
    }
}

/// Rows without a key that occurs twice hold at most one row for any key.
pub proof fn lemma_held_once<V>(rows: Seq<Entry<V>>, id: Seq<char>)
    requires
        distinct_keys(rows),
    ensures
        held(rows, id) <= 1,
        held(rows, id) == 1 <==> exists|i: int| 0 <= i < rows.len() && (#[trigger] rows[i]).key@ == id,
    decreases rows.len(),
{
    if rows.len() > 0 {
        let init = rows.drop_last();
        assert(distinct_keys(init)) by {
            assert forall|a: int, b: int| 0 <= a < b < init.len() implies (#[trigger] init[a]).key@
                != (#[trigger] init[b]).key@ by {
                assert(init[a] == rows[a]);
                assert(init[b] == rows[b]);
            }
        }
        lemma_held_once(init, id);
        if rows.last().key@ == id {
            assert(rows[rows.len() - 1].key@ == id);
            if held(init, id) == 1 {
                let i = choose|i: int| 0 <= i < init.len() && (#[trigger] init[i]).key@ == id;
                assert(init[i] == rows[i]);
                assert(rows[i].key@ != rows[rows.len() - 1].key@);
            }
        } else {
            if held(init, id) == 1 {
                let i = choose|i: int| 0 <= i < init.len() && (#[trigger] init[i]).key@ == id;
                assert(rows[i].key@ == id);
            }
            if exists|i: int| 0 <= i < rows.len() && (#[trigger] rows[i]).key@ == id {
                let i = choose|i: int| 0 <= i < rows.len() && (#[trigger] rows[i]).key@ == id;
                assert(init[i].key@ == id);
            }
        }
    }
}

/// The supervisor's books: for each add-on that has a child process, the
/// handle by which the caller cancels it.
#[derive(Debug)]
pub struct ProcessManager {
    processes: Table<u64>,
}

impl View for ProcessManager {
    type V = Map<Seq<char>, u64>;

    closed spec fn view(&self) -> Map<Seq<char>, u64> {
        self.processes@
    }
}

impl ProcessManager {
    /// The handles that the supervisor holds, one row for each.
    pub closed spec fn handles(&self) -> Seq<Entry<u64>> {
        self.processes.rows()
    }

    /// The supervisor's validity, which every supervisor has.
    pub closed spec fn wf(&self) -> bool {
        self.processes.wf()
    }

    /// For any id the supervisor holds at most one handle, and it holds one
    /// exactly where the id is among the running add-ons.
    pub proof fn law_single_runner(&self, id: Seq<char>)
        requires
            self.wf(),
        ensures
            held(self.handles(), id) <= 1,
            held(self.handles(), id) == 1 <==> self@.contains_key(id),
    {
        self.processes.lemma_rows();
        lemma_held_once(self.processes.rows(), id);
        crate::registry::lemma_rows_domain(self.processes.rows(), id);
    }

    /// A supervisor without processes.
    pub fn new() -> (manager: ProcessManager)
        ensures
            manager@ == Map::<Seq<char>, u64>::empty(),
            manager.wf(),
    {
        let manager = ProcessManager { processes: Table::new() };
        let _ = manager.processes.len();
        manager
    }

    /// The number of add-ons that have a process.
    pub fn len(&self) -> (n: usize)
        ensures
            n == self.handles().len(),
            self.wf(),
    {
        self.processes.len()
    }

    /// Whether the add-on with this id has a process.
    pub fn is_running(&self, id: &String) -> (running: bool)
        ensures
            running == self@.contains_key(id@),
    {
        self.processes.contains_key(id)
    }

    /// Takes a start request: refuses it where the add-on has a process
    /// already or where its command line is empty, and otherwise books the
    /// handle under the add-on's id and hands out what is to be spawned.
    /// `handle` is the number by which the caller will cancel the process,
    /// `home` the gateway's base directory.
    pub fn start_addon(&mut self, msg: StartAddon, handle: u64, home: &str) -> (result: Result<
        Launch,
        Error,
    >)
        ensures
            launch_view(result) == start_outcome(old(self)@, msg.0@, msg.1@, msg.2@, handle, home@),
            final(self)@ == after_start(old(self)@, msg.0@, msg.1@, msg.2@, handle),
    {
        let StartAddon(id, path, exec) = msg;
        if self.processes.contains_key(&id) {
            return Err(Error::AlreadyRunning);
        }
        let named = replace(exec.as_str(), "{name}", id.as_str());
        let exec_cmd = replace(named.as_str(), "{path}", path.as_str());
        let mut parts = split_ascii_whitespace(exec_cmd.as_str());
        if parts.len() == 0 {
            return Err(Error::EmptyCommand);
        }
        let ghost all = parts@;
        let program = parts.remove(0);
        self.processes.insert(id.clone(), handle);
        let launch = Launch { id, handle, program, args: parts, home: home.to_owned() };
        proof {
            let w = words(command_line(msg.0@, msg.1@, msg.2@));
            assert(program@ == w[0]);
            assert(launch@.args =~= w.skip(1)) by {
                assert forall|i: int| 0 <= i < launch@.args.len() implies launch@.args[i] == w.skip(
                    1,
                )[i] by {
                    assert(parts@[i] == all[i + 1]);
                }
            }
        }
        Ok(launch)
    }

    /// Takes a stop request: forgets the add-on's process and hands out the
    /// handle that the caller is to cancel; refuses where nothing runs
    /// under this id.
    pub fn stop_addon(&mut self, msg: StopAddon) -> (result: Result<u64, Error>)
        ensures
            result == stop_outcome(old(self)@, msg.0@),
            final(self)@ == old(self)@.remove(msg.0@),
    {
        match self.processes.remove(&msg.0) {
            Some(handle) => Ok(handle),
            None => Err(Error::NotRunning),
        }
    }

    /// Takes the news that the process with this handle has ended, by
    /// itself or cancelled, or could not be spawned: the process is
    /// forgotten, unless the id has passed to another process since. The
    /// notice for the add-on manager is handed out in any case.
    pub fn exited(&mut self, id: String, handle: u64) -> (notice: AddonStopped)
        ensures
            notice.0 == id,
            final(self)@ == after_exit(old(self)@, id@, handle),
    {
        let current = match self.processes.get(&id) {
            Some(h) => *h == handle,
            None => false,
        };
        if current {
            self.processes.remove(&id);
        }
        AddonStopped(id)
    }
}

} // verus!
