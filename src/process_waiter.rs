use crate::sleeper::Sleeper;
use crate::text::{decimal_text, parse_i32, parsed_i32, push_decimal_text, push_str, text_of};
use sysinfo::SystemExt;
use vstd::prelude::*;

verus! {

#[verifier::external_type_specification]
#[verifier::external_body]
pub struct ExSystem(sysinfo::System);

/// Relies on `sysinfo::SystemExt::new`: a process table with nothing
/// loaded yet.
#[verifier::external_body]
fn new_system() -> (r: sysinfo::System) {
    sysinfo::System::new()
}

/// Relies on `sysinfo::SystemExt::refresh_processes`: loads the process
/// table.  What it finds depends on the machine.
#[verifier::external_body]
fn refresh_processes(system: &mut sysinfo::System) {
    system.refresh_processes()
}

/// The process table, with a record of the process id it was last asked
/// about.
struct ProcessTable {
    system: sysinfo::System,
    last_query: Ghost<Option<i32>>,
}

/// Relies on `sysinfo::SystemExt::refresh_process`: whether a process with
/// this id exists right now, asked about `pid` itself.  The answer depends
/// on the machine.
#[verifier::external_body]
fn refresh_process(table: &mut ProcessTable, pid: i32) -> (r: bool)
    ensures
        final(table).last_query@ == Some(pid),
{
    table.system.refresh_process(pid)
}

/// Waits until the process with a given id has ended.
pub struct ProcessWaiter {
    pid: i32,
    table: ProcessTable,
    sleeper: Sleeper,
}

/// Why waiting for a process could not begin.
#[derive(Clone, Debug, PartialEq, Eq)]
pub enum ProcessWaiterError {
    /// The argument is not the text of an `i32`.
    NotAValidInteger(String),
    /// No process with this id exists.
    NoProcessExists(i32),
}

pub open spec fn not_an_integer_message(text: Seq<char>) -> Seq<char> {
    "Pid ["@ + text + "] is not a valid integer."@
}

pub open spec fn no_process_message(pid: i32) -> Seq<char> {
    "Process with Pid ["@ + decimal_text(pid as int) + "] does not exist."@
}

impl ProcessWaiter {
    pub closed spec fn spec_pid(self) -> i32 {
        self.pid
    }

    pub closed spec fn spec_sleeper(self) -> Sleeper {
        self.sleeper
    }

    /// The process id the process table was last asked about, if any.
    pub closed spec fn spec_last_query(self) -> Option<i32> {
        self.table.last_query@
    }

    fn new(pid: i32, sleeper: Sleeper) -> (r: ProcessWaiter)
        ensures
            r.spec_pid() == pid,
            r.spec_sleeper() == sleeper,
            r.spec_last_query() is None,
    {
        let mut system = new_system();
        refresh_processes(&mut system);
        ProcessWaiter { table: ProcessTable { system, last_query: Ghost(None) }, pid, sleeper }
    }

    /// Reads the process id from `argument` and checks once that the process
    /// is there.  Waiting for a process that has already gone would be over
    /// before it began, so that is refused.
    pub fn start(argument: &str, sleeper: Sleeper) -> (r: Result<ProcessWaiter, ProcessWaiterError>)
        ensures
            parsed_i32(argument@) is None <==> (r is Err && r->Err_0 is NotAValidInteger),
            r matches Err(ProcessWaiterError::NotAValidInteger(text)) ==> text@ == argument@,
            r matches Err(ProcessWaiterError::NoProcessExists(pid)) ==> parsed_i32(argument@)
                == Some(pid),
            r is Ok ==> parsed_i32(argument@) == Some(r->Ok_0.spec_pid()) && r->Ok_0.spec_sleeper()
                == sleeper,
            r is Ok ==> r->Ok_0.spec_last_query() == Some(r->Ok_0.spec_pid()),
    {
        let pid = match parse_i32(argument) {
            Some(pid) => pid,
            None => {
                return Err(ProcessWaiterError::NotAValidInteger(argument.to_owned()));
            },
        };
        let mut waiter = ProcessWaiter::new(pid, sleeper);
        let present = waiter.continue_waiting();
        waiter.confirm_running(present)
    }

    /// Keeps the waiter when the process was found at the first check, and
    /// refuses the wait otherwise.
    pub fn confirm_running(self, present: bool) -> (r: Result<ProcessWaiter, ProcessWaiterError>)
        ensures
            r is Ok <==> present,
            r is Ok ==> r->Ok_0.spec_pid() == self.spec_pid() && r->Ok_0.spec_sleeper()
                == self.spec_sleeper() && r->Ok_0.spec_last_query() == self.spec_last_query(),
            !present ==> r == Err::<ProcessWaiter, ProcessWaiterError>(
                ProcessWaiterError::NoProcessExists(self.spec_pid()),
            ),
    {
        if present {
            Ok(self)
        } else {
            Err(ProcessWaiterError::NoProcessExists(self.pid))
        }
    }

    /// Whether the process is still there, after asking the process table
    /// again.
    pub fn continue_waiting(&mut self) -> (r: bool)
        ensures
            final(self).spec_pid() == old(self).spec_pid(),
            final(self).spec_sleeper() == old(self).spec_sleeper(),
            final(self).spec_last_query() == Some(old(self).spec_pid()),
    {
        refresh_process(&mut self.table, self.pid)
    }

    /// The id of the process waited for.
    pub fn pid(&self) -> (r: i32)
        ensures
            r == self.spec_pid(),
    {
        self.pid
    }

    pub fn get_sleeper(&self) -> (r: &Sleeper)
        ensures
            *r == self.spec_sleeper(),
    {
        &self.sleeper
    }
}

impl ProcessWaiterError {
    /// What the error says to the operator.
    pub fn message(&self) -> (r: String)
        ensures
            r@ == match self {
                ProcessWaiterError::NotAValidInteger(text) => not_an_integer_message(text@),
                ProcessWaiterError::NoProcessExists(pid) => no_process_message(*pid),
            },
    {
        let mut out: Vec<char> = Vec::new();
        match self {
            ProcessWaiterError::NotAValidInteger(text) => {
                push_str(&mut out, "Pid [");
                push_str(&mut out, text.as_str());
                push_str(&mut out, "] is not a valid integer.");
            },
            ProcessWaiterError::NoProcessExists(pid) => {
                push_str(&mut out, "Process with Pid [");
                push_decimal_text(&mut out, *pid);
                push_str(&mut out, "] does not exist.");
            },
        }
        text_of(&out)
    }
}

} // verus!
