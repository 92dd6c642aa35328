use vstd::prelude::*;

verus! {

/// The whole configuration: how managed processes are launched and how the
/// daemon itself behaves.
#[derive(Debug, PartialEq, Eq)]
pub struct Config {
    pub runner: Runner,
    pub daemon: Daemon,
}

/// How a managed process is launched.
#[derive(Debug, PartialEq, Eq)]
pub struct Runner {
    pub shell: String,
    pub args: Vec<String>,
    pub log_path: String,
}

/// Which parts of the optional web subsystem are switched on.
#[derive(Debug, Clone, Copy, PartialEq, Eq, Structural)]
pub struct Web {
    pub ui: bool,
    pub api: bool,
}

/// Settings of the daemon: the tick period in milliseconds, the number of
/// crashes after which an entry is stopped for good, a label for the kind of
/// daemon, and the web switches.
#[derive(Debug, PartialEq, Eq)]
pub struct Daemon {
    pub interval: u64,
    pub restarts: u64,
    pub kind: String,
    pub web: Web,
}

} // verus!
