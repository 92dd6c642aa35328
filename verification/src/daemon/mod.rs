//! The lifecycle of the daemon itself: what starting, stopping and
//! restarting it come to, given what its PID file says, what its child
//! process does once it runs in the background, and what one round of its
//! loop does; also the reset of the id counter and the health report.
//!
//! The lifecycle functions return the steps for the caller to carry out, in
//! order; none of them touches a file or a process.

use vstd::prelude::*;
use crate::config::structs::{Daemon, Web};
use crate::registry::store::{Registry, RegistryModel};
use crate::daemon::json::{json_object, render_object};
use crate::daemon::report::{
    fields, info_of, json_fields, report, report_of, snapshot, Mode, Report, Setup, Vitals,
};
use crate::text::{parse_pid, pid_in};

pub mod json;
pub mod report;

verus! {

/// What the daemon's PID file says.
#[derive(Debug, Clone, Copy, PartialEq, Eq, Structural)]
pub enum PidFile {
    /// There is no PID file.
    Missing,
    /// There is one, but no process id can be read from it.
    Unreadable,
    /// It holds this process id.
    Holds(u32),
}

/// Why a lifecycle operation cannot go ahead.
#[derive(Debug, Clone, Copy, PartialEq, Eq, Structural)]
pub enum DaemonError {
    /// A daemon runs already, or the PID file leaves that open.
    AlreadyRunning,
    /// No daemon runs: there is no PID file.
    NotRunning,
    /// The PID file cannot be read, so the state of the daemon is unknown.
    PidFileUnreadable,
}

/// One thing for the caller to do.
#[derive(Debug, Clone, Copy, PartialEq, Eq, Structural)]
pub enum Step {
    /// Remove the PID file.
    RemovePidFile,
    /// Ask the process with this id to terminate.
    Signal(u32),
    /// Fork into the background; the child goes on with [`boot`].
    Detach,
    /// Arrange for a termination signal to be reported to the loop.
    WatchSignals,
    /// Write this process id to the PID file, in decimal.
    WritePidFile(u32),
    /// Start the web interface; with the user interface if `webui`.
    ServeApi { webui: bool },
    /// Enter the loop of the supervisor: carry out [`round`] after
    /// [`round`] until one of them ends the process.
    Supervise,
    /// Run one tick of the supervisor.
    Tick,
    /// Sleep for this many milliseconds.
    Sleep(u64),
    /// End the process.
    Exit,
}

/// Which parts of the web subsystem the daemon is to start with.
#[derive(Debug, Clone, Copy, PartialEq, Eq, Structural)]
pub struct Switches {
    pub api: bool,
    pub webui: bool,
}

/// What the text of a PID file says.
pub open spec fn pid_file_of(text: Seq<char>) -> PidFile {
    match pid_in(text) {
        Some(pid) => PidFile::Holds(pid),
        None => PidFile::Unreadable,
    }
}

/// Whether a daemon runs: the PID file holds a pid, and the process with
/// that pid is alive. A PID file that names a dead process is stale and
/// stands for no daemon.
pub open spec fn runs(pid_file: PidFile, alive: bool) -> bool {
    pid_file is Holds && alive
}

/// The switches that a restart arrives at. The user interface, asked for in
/// the configuration or by the caller, brings the interface with it; the
/// interface alone is on if the configuration or the caller asks for it.
pub open spec fn switches_for(web: Web, api: bool, webui: bool) -> Switches {
    if web.ui || webui {
        Switches { api: true, webui: true }
    } else if web.api {
        Switches { api: true, webui: false }
    } else {
        Switches { api, webui: false }
    }
}

/// What starting comes to. A PID file that names a dead process is stale
/// and is removed first; one that names a live process, or cannot be read,
/// forbids the start.
pub open spec fn starting(pid_file: PidFile, alive: bool) -> Result<Seq<Step>, DaemonError> {
    match pid_file {
        PidFile::Missing => Ok(seq![Step::Detach]),
        PidFile::Unreadable => Err(DaemonError::AlreadyRunning),
        PidFile::Holds(_) => if alive {
            Err(DaemonError::AlreadyRunning)
        } else {
            Ok(seq![Step::RemovePidFile, Step::Detach])
        },
    }
}

/// What stopping comes to.
pub open spec fn stopping(pid_file: PidFile) -> Result<Seq<Step>, DaemonError> {
    match pid_file {
        PidFile::Missing => Err(DaemonError::NotRunning),
        PidFile::Unreadable => Err(DaemonError::PidFileUnreadable),
        PidFile::Holds(pid) => Ok(seq![Step::Signal(pid), Step::RemovePidFile]),
    }
}

/// What restarting comes to: stopping, where there is a PID file, and then
/// starting as if there were none.
pub open spec fn restarting(pid_file: PidFile) -> Result<Seq<Step>, DaemonError> {
    match pid_file {
        PidFile::Missing => starting(PidFile::Missing, false),
        _ => match stopping(pid_file) {
            Ok(steps) => Ok(steps + starting(PidFile::Missing, false)->Ok_0),
            Err(error) => Err(error),
        },
    }
}

/// What the child does once it runs in the background: it has termination
/// signals reported, writes its PID file, starts the web interface if that
/// is switched on, and enters the loop.
pub open spec fn booting(pid: u32, switches: Switches) -> Seq<Step> {
    if switches.api {
        seq![
            Step::WatchSignals,
            Step::WritePidFile(pid),
            Step::ServeApi { webui: switches.webui },
            Step::Supervise,
        ]
    } else {
        seq![Step::WatchSignals, Step::WritePidFile(pid), Step::Supervise]
    }
}

/// What one round of the loop comes to. A termination signal ends the
/// daemon after its PID file is removed. Otherwise the registry is ticked,
/// unless it is empty, and the loop sleeps for the whole interval.
pub open spec fn round_of(terminated: bool, idle: bool, interval: u64) -> Seq<Step> {
    if terminated {
        seq![Step::RemovePidFile, Step::Exit]
    } else if idle {
        seq![Step::Sleep(interval)]
    } else {
        seq![Step::Tick, Step::Sleep(interval)]
    }
}

impl PidFile {
    /// Whether a daemon runs, given whether the process that the file names
    /// is alive.
    pub fn runs(&self, alive: bool) -> (running: bool)
        ensures
            running == runs(*self, alive),
    {
        match self {
            PidFile::Holds(_) => alive,
            _ => false,
        }
    }

    /// Reads what the text of a PID file says.
    pub fn parse(text: &str) -> (pid_file: PidFile)
        ensures
            pid_file == pid_file_of(text@),
    {
        match parse_pid(text) {
            Some(pid) => PidFile::Holds(pid),
            None => PidFile::Unreadable,
        }
    }
}

/// The switches that a restart arrives at, from the configuration and from
/// what the caller asks for.
pub fn switches(web: &Web, api: bool, webui: bool) -> (on: Switches)
    ensures
        on == switches_for(*web, api, webui),
{
    if web.ui || webui {
        Switches { api: true, webui: true }
    } else if web.api {
        Switches { api: true, webui: false }
    } else {
        Switches { api, webui: false }
    }
}

/// Starts the daemon: the steps to take, or why it cannot start. `alive`
/// says whether the process that the PID file names exists, and matters
/// only where the file names one.
pub fn start(pid_file: &PidFile, alive: bool) -> (plan: Result<Vec<Step>, DaemonError>)
    ensures
        match plan {
            Ok(steps) => starting(*pid_file, alive) == Ok::<Seq<Step>, DaemonError>(steps@),
            Err(error) => starting(*pid_file, alive) == Err::<Seq<Step>, DaemonError>(error),
        },
{
    match pid_file {
        PidFile::Missing => {
            let mut steps: Vec<Step> = Vec::new();
            steps.push(Step::Detach);
            assert(steps@ =~= seq![Step::Detach]);
            Ok(steps)
        },
        PidFile::Unreadable => Err(DaemonError::AlreadyRunning),
        PidFile::Holds(_) => {
            if alive {
                Err(DaemonError::AlreadyRunning)
            } else {
                let mut steps: Vec<Step> = Vec::new();
                steps.push(Step::RemovePidFile);
                steps.push(Step::Detach);
                assert(steps@ =~= seq![Step::RemovePidFile, Step::Detach]);
                Ok(steps)
            }
        },
    }
}

/// Stops the daemon: the steps to take, or why there is nothing to stop.
pub fn stop(pid_file: &PidFile) -> (plan: Result<Vec<Step>, DaemonError>)
    ensures
        match plan {
            Ok(steps) => stopping(*pid_file) == Ok::<Seq<Step>, DaemonError>(steps@),
            Err(error) => stopping(*pid_file) == Err::<Seq<Step>, DaemonError>(error),
        },
{
    match pid_file {
        PidFile::Missing => Err(DaemonError::NotRunning),
        PidFile::Unreadable => Err(DaemonError::PidFileUnreadable),
        PidFile::Holds(pid) => {
            let mut steps: Vec<Step> = Vec::new();
            steps.push(Step::Signal(*pid));
            steps.push(Step::RemovePidFile);
            assert(steps@ =~= seq![Step::Signal(*pid), Step::RemovePidFile]);
            Ok(steps)
        },
    }
}

/// Restarts the daemon: the switches it is to start with and the steps to
/// take, or why it cannot be restarted.
pub fn restart(pid_file: &PidFile, config: &Daemon, api: bool, webui: bool) -> (plan: Result<
    (Switches, Vec<Step>),
    DaemonError,
>)
    ensures
        match plan {
            Ok((on, steps)) => {
                &&& on == switches_for(config.web, api, webui)
                &&& restarting(*pid_file) == Ok::<Seq<Step>, DaemonError>(steps@)
            },
            Err(error) => restarting(*pid_file) == Err::<Seq<Step>, DaemonError>(error),
        },
{
    let mut steps: Vec<Step> = match pid_file {
        PidFile::Missing => Vec::new(),
        _ => match stop(pid_file) {
            Ok(steps) => steps,
            Err(error) => {
                return Err(error);
            },
        },
    };
    let ghost stopped = steps@;
    match start(&PidFile::Missing, false) {
        Ok(mut more) => {
            steps.append(&mut more);
        },
        Err(error) => {
            return Err(error);
        },
    }
    assert(steps@ =~= stopped + starting(PidFile::Missing, false)->Ok_0);
    assert(Seq::<Step>::empty() + seq![Step::Detach] =~= seq![Step::Detach]);
    Ok((switches(&config.web, api, webui), steps))
}

/// Rewinds the id counter of the registry to one past the largest id
/// present, or to zero if the registry is empty, and returns it.
pub fn reset(registry: &mut Registry) -> (next: usize)
    requires
        old(registry).wf(),
    ensures
        final(registry).wf(),
        next == old(registry)@.rewound(),
        final(registry)@ == (RegistryModel { next_id: next, entries: old(registry)@.entries }),
{
    let next = match registry.size() {
        Some(largest) => {
            assert(largest < old(registry)@.next_id) by {
                let i = old(registry)@.index_of(largest);
                assert(old(registry)@.entries[i].id < old(registry)@.next_id);
            }
            largest + 1
        },
        None => 0,
    };
    registry.set_id(next);
    next
}

/// Reports on the daemon in the form that the mode string asks for: `raw`,
/// `json` or `default`. `alive` says whether the process that the PID file
/// names exists, and matters only where the file names one; `vitals` is
/// what was measured of that process, if anything.
///
/// The daemon shows as online exactly if the PID file holds a pid and that
/// process is alive; a PID file that is missing, unreadable or stale shows
/// it as stopped, with nothing measured. The dump and the table hand out
/// the snapshot; the JSON form is the text that `serde_json` writes for its
/// members. No report is made for another mode string.
pub fn health(
    format: &String,
    setup: &Setup,
    pid_file: &PidFile,
    alive: bool,
    vitals: Option<Vitals>,
    registry: &Registry,
) -> (picked: Option<Report>)
    ensures
        ({
            let info = info_of(
                setup@,
                runs(*pid_file, alive),
                vitals,
                registry@.entries.len() as usize,
            );
            let made = match picked {
                Some(r) => Some(r@),
                None => None,
            };
            made == report_of(format@, info, Some(json_object(json_fields(info))))
        }),
{
    let info = snapshot(setup, pid_file.runs(alive), vitals, registry.count());
    let json = match Mode::parse(format) {
        Some(Mode::Json) => match render_object(&fields(&info)) {
            Ok(text) => Some(text),
            Err(_) => None,
        },
        _ => None,
    };
    report(format, info, json)
}

/// What the child does once it runs in the background under `pid`.
pub fn boot(pid: u32, on: Switches) -> (steps: Vec<Step>)
    ensures
        steps@ == booting(pid, on),
{
    let mut steps: Vec<Step> = Vec::new();
    steps.push(Step::WatchSignals);
    steps.push(Step::WritePidFile(pid));
    if on.api {
        steps.push(Step::ServeApi { webui: on.webui });
    }
    steps.push(Step::Supervise);
    assert(steps@ =~= booting(pid, on));
    steps
}

/// One round of the loop. `terminated` says whether a termination signal
/// arrived, `idle` whether the registry is empty, `interval` how long to
/// sleep between ticks.
pub fn round(terminated: bool, idle: bool, interval: u64) -> (steps: Vec<Step>)
    ensures
        steps@ == round_of(terminated, idle, interval),
{
    let mut steps: Vec<Step> = Vec::new();
    if terminated {
        steps.push(Step::RemovePidFile);
        steps.push(Step::Exit);
    } else {
        if !idle {
            steps.push(Step::Tick);
        }
        steps.push(Step::Sleep(interval));
    }
    assert(steps@ =~= round_of(terminated, idle, interval));
    steps
}

} // verus!
