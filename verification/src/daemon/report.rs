//! The health report of the daemon: the snapshot it shows and the forms it
//! can be put out in.

use vstd::prelude::*;
use vstd::string::StringExecFns;
use crate::text::{decimal, digit, digit_text, to_decimal, trim, trimmed};

verus! {

/// Where the daemon keeps its PID file, where it forks, and what kind of
/// daemon it is.
#[derive(Debug, PartialEq, Eq)]
pub struct Setup {
    pub pid_file: String,
    pub path: String,
    pub kind: String,
}

/// What was measured of the daemon's process: its pid, for how many seconds
/// it has run, how many bytes of memory it holds, if that is known, and its
/// share of processor time in hundredths of a percent.
#[derive(Debug, Clone, Copy, PartialEq, Eq, Structural)]
pub struct Vitals {
    pub pid: u32,
    pub uptime: u64,
    pub memory_usage: Option<u64>,
    pub cpu_percent: u64,
}

/// A point-in-time view of the daemon.
#[derive(Debug, PartialEq, Eq)]
pub struct Info {
    pub pid_file: String,
    pub path: String,
    pub cpu_percent: String,
    pub memory_usage: String,
    pub external: String,
    pub process_count: usize,
    pub uptime: String,
    pub pid: String,
    pub status: String,
}

/// The form a report is put out in.
#[derive(Debug, Clone, Copy, PartialEq, Eq, Structural)]
pub enum Mode {
    /// The snapshot as a dump of its fields.
    Raw,
    /// The snapshot as a JSON object.
    Json,
    /// The snapshot as a table for people to read.
    Default,
}

/// A report, ready to be put out.
#[derive(Debug, PartialEq, Eq)]
pub enum Report {
    Raw(Info),
    Json(String),
    Table(Info),
}

/// Mathematical value of a [`Setup`].
pub struct SetupModel {
    pub pid_file: Seq<char>,
    pub path: Seq<char>,
    pub kind: Seq<char>,
}

/// Mathematical value of an [`Info`].
pub struct InfoModel {
    pub pid_file: Seq<char>,
    pub path: Seq<char>,
    pub cpu_percent: Seq<char>,
    pub memory_usage: Seq<char>,
    pub external: Seq<char>,
    pub process_count: usize,
    pub uptime: Seq<char>,
    pub pid: Seq<char>,
    pub status: Seq<char>,
}

/// Mathematical value of a [`Report`].
pub enum ReportModel {
    Raw(InfoModel),
    Json(Seq<char>),
    Table(InfoModel),
}

impl View for Setup {
    type V = SetupModel;

    open spec fn view(&self) -> SetupModel {
        SetupModel { pid_file: self.pid_file@, path: self.path@, kind: self.kind@ }
    }
}

impl View for Info {
    type V = InfoModel;

    open spec fn view(&self) -> InfoModel {
        InfoModel {
            pid_file: self.pid_file@,
            path: self.path@,
            cpu_percent: self.cpu_percent@,
            memory_usage: self.memory_usage@,
            external: self.external@,
            process_count: self.process_count,
            uptime: self.uptime@,
            pid: self.pid@,
            status: self.status@,
        }
    }
}

impl View for Report {
    type V = ReportModel;

    open spec fn view(&self) -> ReportModel {
        match self {
            Report::Raw(info) => ReportModel::Raw(info@),
            Report::Json(text) => ReportModel::Json(text@),
            Report::Table(info) => ReportModel::Table(info@),
        }
    }
}

/// The unit that a number of bytes is shown in: the largest of 1 and the
/// first three powers of 1024 that the number reaches.
pub open spec fn memory_unit(bytes: u64) -> int {
    if bytes < 1024 {
        1
    } else if bytes < 1048576 {
        1024
    } else if bytes < 1073741824 {
        1048576
    } else {
        1073741824
    }
}

/// The suffix of the unit that a number of bytes is shown in.
pub open spec fn memory_suffix(bytes: u64) -> Seq<char> {
    if bytes < 1024 {
        "b"@
    } else if bytes < 1048576 {
        "kb"@
    } else if bytes < 1073741824 {
        "mb"@
    } else {
        "gb"@
    }
}

/// A number of bytes in tenths of its unit, rounded to the nearest tenth,
/// halves upwards.
pub open spec fn memory_tenths(bytes: u64) -> int {
    (bytes * 20 + memory_unit(bytes)) / (2 * memory_unit(bytes))
}

/// A number of bytes for people to read: the number in its unit with one
/// decimal, which is left out where it is zero, and the suffix of the unit.
pub open spec fn memory_text(bytes: u64) -> Seq<char> {
    let tenths = memory_tenths(bytes);
    if tenths % 10 == 0 {
        decimal((tenths / 10) as nat) + memory_suffix(bytes)
    } else {
        decimal((tenths / 10) as nat) + "."@ + seq![digit((tenths % 10) as nat)] + memory_suffix(
            bytes,
        )
    }
}

/// A number of seconds for people to read: in whole days, hours, minutes or
/// seconds, in the largest of these units that it reaches.
pub open spec fn duration_text(seconds: u64) -> Seq<char> {
    if seconds >= 86400 {
        decimal((seconds / 86400) as nat) + "d"@
    } else if seconds >= 3600 {
        decimal((seconds / 3600) as nat) + "h"@
    } else if seconds >= 60 {
        decimal((seconds / 60) as nat) + "m"@
    } else {
        decimal(seconds as nat) + "s"@
    }
}

/// A share in percent, given in hundredths of a percent, for people to
/// read: with two decimals and a percent sign.
pub open spec fn percent_text(hundredths: u64) -> Seq<char> {
    decimal((hundredths / 100) as nat) + "."@ + seq![
        digit((hundredths / 10 % 10) as nat),
        digit((hundredths % 10) as nat),
    ] + "%"@
}

/// Writes a share in percent, given in hundredths of a percent.
pub fn format_percent(hundredths: u64) -> (text: String)
    ensures
        text@ == percent_text(hundredths),
{
    let mut text = to_decimal(hundredths / 100);
    text.append(".");
    text.append(digit_text(hundredths / 10 % 10));
    text.append(digit_text(hundredths % 10));
    text.append("%");
    assert(text@ =~= percent_text(hundredths));
    text
}

/// Writes a number of bytes for people to read.
pub fn format_memory(bytes: u64) -> (text: String)
    ensures
        text@ == memory_text(bytes),
{
    let unit: u128 = if bytes < 1024 {
        1
    } else if bytes < 1048576 {
        1024
    } else if bytes < 1073741824 {
        1048576
    } else {
        1073741824
    };
    let suffix = if bytes < 1024 {
        "b"
    } else if bytes < 1048576 {
        "kb"
    } else if bytes < 1073741824 {
        "mb"
    } else {
        "gb"
    };
    let tenths: u128 = (bytes as u128 * 20 + unit) / (2 * unit);
    assert(tenths == memory_tenths(bytes));
    assert(tenths <= u64::MAX) by {
        if bytes < 1024 {
            assert(tenths == (bytes * 20 + 1) / 2);
        } else if bytes < 1048576 {
            assert(tenths == (bytes * 20 + 1024) / 2048);
        } else if bytes < 1073741824 {
            assert(tenths == (bytes * 20 + 1048576) / 2097152);
        } else {
            assert(tenths == (bytes * 20 + 1073741824) / 2147483648);
        }
    }
    let whole: u64 = (tenths / 10) as u64;
    let part: u64 = (tenths % 10) as u64;
    let mut text = to_decimal(whole);
    if part != 0 {
        text.append(".");
        text.append(digit_text(part));
    }
    text.append(suffix);
    text
}

/// Writes a number of seconds for people to read.
pub fn format_duration(seconds: u64) -> (text: String)
    ensures
        text@ == duration_text(seconds),
{
    if seconds >= 86400 {
        let mut text = to_decimal(seconds / 86400);
        text.append("d");
        text
    } else if seconds >= 3600 {
        let mut text = to_decimal(seconds / 3600);
        text.append("h");
        text
    } else if seconds >= 60 {
        let mut text = to_decimal(seconds / 60);
        text.append("m");
        text
    } else {
        let mut text = to_decimal(seconds);
        text.append("s");
        text
    }
}

/// The form that a mode string asks for, if it is one of the three known.
pub open spec fn mode_of(format: Seq<char>) -> Option<Mode> {
    if format == "raw"@ {
        Some(Mode::Raw)
    } else if format == "json"@ {
        Some(Mode::Json)
    } else if format == "default"@ {
        Some(Mode::Default)
    } else {
        None
    }
}

/// The snapshot. `online` says whether the daemon runs; what was measured
/// is shown only then, and each value that is not available has a fixed
/// text in its place. The path of the PID file is followed by two spaces.
pub open spec fn info_of(setup: SetupModel, online: bool, vitals: Option<Vitals>, count: usize)
    -> InfoModel {
    let seen = if online {
        vitals
    } else {
        None
    };
    InfoModel {
        pid_file: setup.pid_file + "  "@,
        path: setup.path,
        cpu_percent: match seen {
            Some(v) => percent_text(v.cpu_percent),
            None => "0.00%"@,
        },
        memory_usage: match seen {
            Some(Vitals { memory_usage: Some(bytes), .. }) => memory_text(bytes),
            _ => "0b"@,
        },
        external: setup.kind,
        process_count: count,
        uptime: match seen {
            Some(v) => duration_text(v.uptime),
            None => "none"@,
        },
        pid: match seen {
            Some(v) => decimal(v.pid as nat),
            None => "n/a"@,
        },
        status: if online {
            "online"@
        } else {
            "stopped"@
        },
    }
}

/// The members of the JSON object of a snapshot, one for each of its
/// fields: every value is text, with the white space around it taken off.
pub open spec fn json_fields(info: InfoModel) -> Seq<(Seq<char>, Seq<char>)> {
    seq![
        ("pid_file"@, trimmed(info.pid_file)),
        ("path"@, trimmed(info.path)),
        ("cpu"@, trimmed(info.cpu_percent)),
        ("mem"@, trimmed(info.memory_usage)),
        ("daemon_type"@, trimmed(info.external)),
        ("process_count"@, decimal(info.process_count as nat)),
        ("uptime"@, trimmed(info.uptime)),
        ("pid"@, trimmed(info.pid)),
        ("status"@, trimmed(info.status)),
    ]
}

/// The report for a mode string, a snapshot and the JSON text of the
/// snapshot, if that could be made. The dump and the table hand out the
/// snapshot, whatever became of the JSON text; the JSON form is that text,
/// and there is none without it. There is no report for a mode string that
/// is not known.
pub open spec fn report_of(format: Seq<char>, info: InfoModel, json: Option<Seq<char>>) -> Option<
    ReportModel,
> {
    match mode_of(format) {
        Some(Mode::Raw) => Some(ReportModel::Raw(info)),
        Some(Mode::Json) => match json {
            Some(text) => Some(ReportModel::Json(text)),
            None => None,
        },
        Some(Mode::Default) => Some(ReportModel::Table(info)),
        None => None,
    }
}

/// The values of a list of members, in the same order.
pub open spec fn members(list: Seq<(String, String)>) -> Seq<(Seq<char>, Seq<char>)> {
    Seq::new(list.len(), |i: int| (list[i].0@, list[i].1@))
}

impl Mode {
    /// Reads a mode string.
    pub fn parse(format: &String) -> (mode: Option<Mode>)
        ensures
            mode == mode_of(format@),
    {
        if *format == String::from_str("raw") {
            Some(Mode::Raw)
        } else if *format == String::from_str("json") {
            Some(Mode::Json)
        } else if *format == String::from_str("default") {
            Some(Mode::Default)
        } else {
            None
        }
    }
}

/// Assembles the snapshot.
pub fn snapshot(setup: &Setup, online: bool, vitals: Option<Vitals>, count: usize) -> (info: Info)
    ensures
        info@ == info_of(setup@, online, vitals, count),
{
    let seen = if online {
        vitals
    } else {
        None
    };
    let mut pid_file = setup.pid_file.clone();
    pid_file.append("  ");
    let status = if online {
        String::from_str("online")
    } else {
        String::from_str("stopped")
    };
    match seen {
        Some(v) => Info {
            pid_file,
            path: setup.path.clone(),
            cpu_percent: format_percent(v.cpu_percent),
            memory_usage: match v.memory_usage {
                Some(bytes) => format_memory(bytes),
                None => String::from_str("0b"),
            },
            external: setup.kind.clone(),
            process_count: count,
            uptime: format_duration(v.uptime),
            pid: to_decimal(v.pid as u64),
            status,
        },
        None => Info {
            pid_file,
            path: setup.path.clone(),
            cpu_percent: String::from_str("0.00%"),
            memory_usage: String::from_str("0b"),
            external: setup.kind.clone(),
            process_count: count,
            uptime: String::from_str("none"),
            pid: String::from_str("n/a"),
            status,
        },
    }
}

/// The members of the JSON object of a snapshot.
pub fn fields(info: &Info) -> (list: Vec<(String, String)>)
    ensures
        members(list@) == json_fields(info@),
{
    let mut list: Vec<(String, String)> = Vec::new();
    list.push((String::from_str("pid_file"), trim(info.pid_file.as_str())));
    list.push((String::from_str("path"), trim(info.path.as_str())));
    list.push((String::from_str("cpu"), trim(info.cpu_percent.as_str())));
    list.push((String::from_str("mem"), trim(info.memory_usage.as_str())));
    list.push((String::from_str("daemon_type"), trim(info.external.as_str())));
    list.push((String::from_str("process_count"), to_decimal(info.process_count as u64)));
    list.push((String::from_str("uptime"), trim(info.uptime.as_str())));
    list.push((String::from_str("pid"), trim(info.pid.as_str())));
    list.push((String::from_str("status"), trim(info.status.as_str())));
    assert(members(list@) =~= json_fields(info@));
    list
}

/// Picks the report for a mode string, given the snapshot and the JSON text
/// of the snapshot, if that could be made.
pub fn report(format: &String, info: Info, json: Option<String>) -> (picked: Option<Report>)
    ensures
        match picked {
            Some(r) => Some(r@),
            None => None,
        } == report_of(
            format@,
            info@,
            match json {
                Some(text) => Some(text@),
                None => None,
            },
        ),
{
    match Mode::parse(format) {
        Some(Mode::Raw) => Some(Report::Raw(info)),
        Some(Mode::Json) => match json {
            Some(text) => Some(Report::Json(text)),
            None => None,
        },
        Some(Mode::Default) => Some(Report::Table(info)),
        None => None,
    }
}

/// The fixed texts that stand for a share of processor time and a use of
/// memory that are not available are the texts of zero.
pub proof fn unavailable_reads_as_zero()
    ensures
        "0.00%"@ == percent_text(0),
        "0b"@ == memory_text(0),
{
    reveal_strlit("0.00%");
    reveal_strlit("0b");
    reveal_strlit(".");
    reveal_strlit("%");
    reveal_strlit("b");
    assert(decimal(0) =~= seq!['0']);
    assert("0.00%"@ =~= percent_text(0));
    assert(memory_unit(0) == 1);
    assert(memory_tenths(0) == (0int * 20 + 1) / (2 * 1int));
    assert(memory_tenths(0) == 0);
    assert("0b"@ =~= memory_text(0));
}

} // verus!
