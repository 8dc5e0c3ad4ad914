//! The logging bootstrap's decisions: mapping the textual level to a
//! threshold, the one-character rotation age to a rotation granularity,
//! selecting the output sink with its console fallback, the two-tier target
//! filter, and the one-shot installation guard. Opening files, connecting to
//! syslog and installing the process-wide pipeline are the caller's work;
//! everything decided here is pure.

use vstd::prelude::*;

use crate::text::str_eq;

verus! {

/// A severity threshold: `Off` admits nothing, `Trace` everything at trace
/// or above.
#[derive(Clone, Copy, Debug, PartialEq, Eq, Structural)]
pub enum LogLevelFilter {
    Off,
    Error,
    Warn,
    Info,
    Debug,
    Trace,
}

/// The severity of one log event.
#[derive(Clone, Copy, Debug, PartialEq, Eq, Structural)]
pub enum Severity {
    Trace,
    Debug,
    Info,
    Warn,
    Error,
}

/// How often an append-mode log file is rotated.
#[derive(Clone, Copy, Debug, PartialEq, Eq, Structural)]
pub enum Rotation {
    Minutely,
    Hourly,
    Daily,
    Weekly,
    Never,
}

/// The output sink the bootstrap selects. Only the file sinks carry a
/// background-flush handle once the caller opens them.
#[derive(Clone, Copy, Debug, PartialEq, Eq, Structural)]
pub enum SinkPlan {
    /// Write to the process's standard error stream, synchronously.
    Console,
    /// Open (or truncate-create) the log file for writing.
    FileCreate,
    /// Open a rotating appender with the given granularity.
    FileAppend(Rotation),
    /// Connect to the local system log facility.
    Syslog,
}

/// Why sink construction was refused. Such a failure is never surfaced to
/// the caller of the bootstrap: the sink falls back to the console and the
/// error is only reported as a diagnostic.
#[derive(Clone, Debug, PartialEq, Eq)]
pub enum LoggingSetupError {
    InvalidLogType { given: String },
    InvalidLogMode { given: String },
    InvalidRotationAge { given: String },
}

/// Mathematical model of `LoggingSetupError`.
pub enum LogErrModel {
    InvalidLogType { given: Seq<char> },
    InvalidLogMode { given: Seq<char> },
    InvalidRotationAge { given: Seq<char> },
}

impl View for LoggingSetupError {
    type V = LogErrModel;

    open spec fn view(&self) -> LogErrModel {
        match self {
            LoggingSetupError::InvalidLogType { given } => LogErrModel::InvalidLogType {
                given: given@,
            },
            LoggingSetupError::InvalidLogMode { given } => LogErrModel::InvalidLogMode {
                given: given@,
            },
            LoggingSetupError::InvalidRotationAge { given } => LogErrModel::InvalidRotationAge {
                given: given@,
            },
        }
    }
}

impl LoggingSetupError {
    /// The diagnostic line for the standard error stream.
    pub fn describe(&self) -> (r: String)
        ensures
            r@ == match self@ {
                LogErrModel::InvalidLogType { given } => "Invalid log type: "@ + given,
                LogErrModel::InvalidLogMode { given } => "Invalid log mode: "@ + given,
                LogErrModel::InvalidRotationAge { given } => "Invalid log rotation age: "@ + given,
            },
    {
        match self {
            LoggingSetupError::InvalidLogType { given } => String::from_str(
                "Invalid log type: ",
            ).concat(given.as_str()),
            LoggingSetupError::InvalidLogMode { given } => String::from_str(
                "Invalid log mode: ",
            ).concat(given.as_str()),
            LoggingSetupError::InvalidRotationAge { given } => String::from_str(
                "Invalid log rotation age: ",
            ).concat(given.as_str()),
        }
    }
}

/// The textual levels, case-sensitive; anything else degrades to `info`.
pub open spec fn spec_get_level(s: Seq<char>) -> LogLevelFilter {
    if s == "trace"@ {
        LogLevelFilter::Trace
    } else if s == "debug"@ {
        LogLevelFilter::Debug
    } else if s == "info"@ {
        LogLevelFilter::Info
    } else if s == "warn"@ {
        LogLevelFilter::Warn
    } else if s == "error"@ {
        LogLevelFilter::Error
    } else {
        LogLevelFilter::Info
    }
}

/// The one-character rotation ages: `m`, `h`, `d`, `w` in either case, or
/// `0` for never. Anything else is invalid.
pub open spec fn spec_rotation(s: Seq<char>) -> Option<Rotation> {
    if s.len() != 1 {
        None
    } else if s[0] == 'm' || s[0] == 'M' {
        Some(Rotation::Minutely)
    } else if s[0] == 'h' || s[0] == 'H' {
        Some(Rotation::Hourly)
    } else if s[0] == 'd' || s[0] == 'D' {
        Some(Rotation::Daily)
    } else if s[0] == 'w' || s[0] == 'W' {
        Some(Rotation::Weekly)
    } else if s[0] == '0' {
        Some(Rotation::Never)
    } else {
        None
    }
}

/// Which sink a (type, mode, rotation age) triple selects: `console` and
/// `syslog` stand alone; `file` honours the mode and, for `append`, the
/// rotation age.
pub open spec fn spec_select_sink(
    log_type: Seq<char>,
    log_mode: Seq<char>,
    log_rotation_age: Seq<char>,
) -> Result<SinkPlan, LogErrModel> {
    if log_type == "console"@ {
        Ok(SinkPlan::Console)
    } else if log_type == "file"@ {
        if log_mode == "create"@ {
            Ok(SinkPlan::FileCreate)
        } else if log_mode == "append"@ {
            match spec_rotation(log_rotation_age) {
                Some(rot) => Ok(SinkPlan::FileAppend(rot)),
                None => Err(LogErrModel::InvalidRotationAge { given: log_rotation_age }),
            }
        } else {
            Err(LogErrModel::InvalidLogMode { given: log_mode })
        }
    } else if log_type == "syslog"@ {
        Ok(SinkPlan::Syslog)
    } else {
        Err(LogErrModel::InvalidLogType { given: log_type })
    }
}

/// Position of a threshold on the severity scale; `Off` sits above every
/// severity.
pub open spec fn filter_rank(f: LogLevelFilter) -> int {
    match f {
        LogLevelFilter::Trace => 0,
        LogLevelFilter::Debug => 1,
        LogLevelFilter::Info => 2,
        LogLevelFilter::Warn => 3,
        LogLevelFilter::Error => 4,
        LogLevelFilter::Off => 5,
    }
}

pub open spec fn severity_rank(s: Severity) -> int {
    match s {
        Severity::Trace => 0,
        Severity::Debug => 1,
        Severity::Info => 2,
        Severity::Warn => 3,
        Severity::Error => 4,
    }
}

/// Whether a threshold admits an event of the given severity.
pub open spec fn spec_admits(f: LogLevelFilter, s: Severity) -> bool {
    severity_rank(s) >= filter_rank(f)
}

/// The two-tier target policy: the application's own target gets the
/// configured threshold, the async runtime's and the protocol library's
/// targets are capped at warning, and every other source is off.
pub open spec fn spec_target_filter(target: Seq<char>, configured: LogLevelFilter) -> LogLevelFilter {
    if target == "pgmoneta_mcp"@ {
        configured
    } else if target == "tokio"@ || target == "rmcp"@ {
        LogLevelFilter::Warn
    } else {
        LogLevelFilter::Off
    }
}

/// Whether the installed filter lets an event through.
pub open spec fn spec_event_enabled(
    target: Seq<char>,
    severity: Severity,
    configured: LogLevelFilter,
) -> bool {
    spec_admits(spec_target_filter(target, configured), severity)
}

/// The one-shot installation guard's states: the pipeline is installed at
/// most once for the process lifetime, and `Ready` is terminal.
#[derive(Clone, Copy, Debug, PartialEq, Eq, Structural)]
pub enum BootstrapState {
    Uninitialized,
    Ready,
}

/// One attempt to install: whether this attempt may install, and the state
/// after it.
pub open spec fn spec_claim(s: BootstrapState) -> (BootstrapState, bool) {
    match s {
        BootstrapState::Uninitialized => (BootstrapState::Ready, true),
        BootstrapState::Ready => (BootstrapState::Ready, false),
    }
}

/// Decides one installation attempt, matching `spec_claim`: only the first
/// attempt is granted.
pub fn claim_init(s: BootstrapState) -> (r: (BootstrapState, bool))
    ensures
        r == spec_claim(s),
{
    match s {
        BootstrapState::Uninitialized => (BootstrapState::Ready, true),
        BootstrapState::Ready => (BootstrapState::Ready, false),
    }
}

/// A second installation attempt is never granted and cannot move the state:
/// whatever the first attempt did, the guard is then `Ready` and every later
/// attempt is refused with the state unchanged.
pub proof fn lemma_second_init_no_effect(s: BootstrapState)
    ensures
        spec_claim(s).0 == BootstrapState::Ready,
        spec_claim(spec_claim(s).0) == (BootstrapState::Ready, false),
{
}

/// Everything the caller needs to build and install the pipeline: the sink
/// (already downgraded to the console on a selection failure, with the
/// failure kept as a diagnostic) and the level threshold.
pub struct LogPlan {
    pub sink: SinkPlan,
    pub fallback: Option<LoggingSetupError>,
    pub level: LogLevelFilter,
}

pub struct Logger;

impl Logger {
    /// The severity threshold a textual level resolves to, matching
    /// `spec_get_level`: unknown text degrades to `info`.
    pub fn get_level(log_level: &str) -> (r: LogLevelFilter)
        ensures
            r == spec_get_level(log_level@),
    {
        if str_eq(log_level, "trace") {
            LogLevelFilter::Trace
        } else if str_eq(log_level, "debug") {
            LogLevelFilter::Debug
        } else if str_eq(log_level, "info") {
            LogLevelFilter::Info
        } else if str_eq(log_level, "warn") {
            LogLevelFilter::Warn
        } else if str_eq(log_level, "error") {
            LogLevelFilter::Error
        } else {
            LogLevelFilter::Info
        }
    }

    /// The rotation granularity a rotation age selects, matching
    /// `spec_rotation`: exactly one character of the supported set, anything
    /// else refused.
    pub fn map_log_rotation_age(log_rotation_age: &str) -> (r: Result<Rotation, LoggingSetupError>)
        ensures
            r is Ok <==> spec_rotation(log_rotation_age@) is Some,
            r is Ok ==> r->Ok_0 == spec_rotation(log_rotation_age@)->Some_0,
            r is Err ==> r->Err_0@ == (LogErrModel::InvalidRotationAge {
                given: log_rotation_age@,
            }),
    {
        let n = log_rotation_age.unicode_len();
        if n != 1 {
            return Err(
                LoggingSetupError::InvalidRotationAge {
                    given: String::from_str(log_rotation_age),
                },
            );
        }
        let c = log_rotation_age.get_char(0);
        if c == 'm' || c == 'M' {
            Ok(Rotation::Minutely)
        } else if c == 'h' || c == 'H' {
            Ok(Rotation::Hourly)
        } else if c == 'd' || c == 'D' {
            Ok(Rotation::Daily)
        } else if c == 'w' || c == 'W' {
            Ok(Rotation::Weekly)
        } else if c == '0' {
            Ok(Rotation::Never)
        } else {
            Err(
                LoggingSetupError::InvalidRotationAge {
                    given: String::from_str(log_rotation_age),
                },
            )
        }
    }

    /// Selects the sink for a (type, mode, rotation age) triple, matching
    /// `spec_select_sink`.
    pub fn select_sink(log_type: &str, log_mode: &str, log_rotation_age: &str) -> (r: Result<
        SinkPlan,
        LoggingSetupError,
    >)
        ensures
            r is Ok <==> spec_select_sink(log_type@, log_mode@, log_rotation_age@) is Ok,
            r is Ok ==> r->Ok_0 == spec_select_sink(log_type@, log_mode@, log_rotation_age@)->Ok_0,
            r is Err ==> r->Err_0@ == spec_select_sink(
                log_type@,
                log_mode@,
                log_rotation_age@,
            )->Err_0,
    {
        if str_eq(log_type, "console") {
            Ok(SinkPlan::Console)
        } else if str_eq(log_type, "file") {
            if str_eq(log_mode, "create") {
                Ok(SinkPlan::FileCreate)
            } else if str_eq(log_mode, "append") {
                match Self::map_log_rotation_age(log_rotation_age) {
                    Ok(rot) => Ok(SinkPlan::FileAppend(rot)),
                    Err(e) => Err(e),
                }
            } else {
                Err(LoggingSetupError::InvalidLogMode { given: String::from_str(log_mode) })
            }
        } else if str_eq(log_type, "syslog") {
            Ok(SinkPlan::Syslog)
        } else {
            Err(LoggingSetupError::InvalidLogType { given: String::from_str(log_type) })
        }
    }

    /// Selects the sink and applies the fallback policy: a selection failure
    /// is downgraded to the console sink and kept only as a diagnostic, so
    /// the bootstrap itself never fails.
    pub fn resolve_sink(log_type: &str, log_mode: &str, log_rotation_age: &str) -> (r: (
        SinkPlan,
        Option<LoggingSetupError>,
    ))
        ensures
            match spec_select_sink(log_type@, log_mode@, log_rotation_age@) {
                Ok(p) => r.0 == p && r.1 is None,
                Err(e) => r.0 == SinkPlan::Console && r.1 is Some && r.1->0@ == e,
            },
    {
        match Self::select_sink(log_type, log_mode, log_rotation_age) {
            Ok(p) => (p, None),
            Err(e) => (SinkPlan::Console, Some(e)),
        }
    }

    /// The whole bootstrap decision: the sink after the fallback policy and
    /// the resolved level threshold.
    pub fn init_plan(log_level: &str, log_type: &str, log_mode: &str, log_rotation_age: &str) -> (r:
        LogPlan)
        ensures
            r.level == spec_get_level(log_level@),
            match spec_select_sink(log_type@, log_mode@, log_rotation_age@) {
                Ok(p) => r.sink == p && r.fallback is None,
                Err(e) => r.sink == SinkPlan::Console && r.fallback is Some && r.fallback->0@ == e,
            },
    {
        let (sink, fallback) = Self::resolve_sink(log_type, log_mode, log_rotation_age);
        let level = Self::get_level(log_level);
        LogPlan { sink, fallback, level }
    }

    /// The filter directives the caller installs: the application target at
    /// the configured threshold, the dependency targets capped at warning.
    /// Every target not listed is off (`spec_target_filter`).
    pub fn filter_directives(level: LogLevelFilter) -> (r: Vec<(String, LogLevelFilter)>)
        ensures
            r@.len() == 3,
            r@[0].0@ == "pgmoneta_mcp"@ && r@[0].1 == level,
            r@[1].0@ == "tokio"@ && r@[1].1 == LogLevelFilter::Warn,
            r@[2].0@ == "rmcp"@ && r@[2].1 == LogLevelFilter::Warn,
            forall|i: int|
                0 <= i < 3 ==> #[trigger] r@[i].1 == spec_target_filter(r@[i].0@, level),
    {
        let mut v: Vec<(String, LogLevelFilter)> = Vec::new();
        v.push((String::from_str("pgmoneta_mcp"), level));
        v.push((String::from_str("tokio"), LogLevelFilter::Warn));
        v.push((String::from_str("rmcp"), LogLevelFilter::Warn));
        proof {
            lemma_targets_distinct();
        }
        v
    }

    /// Whether the installed filter lets an event from `target` at
    /// `severity` through, under the configured threshold.
    pub fn event_enabled(target: &str, severity: Severity, configured: LogLevelFilter) -> (r: bool)
        ensures
            r == spec_event_enabled(target@, severity, configured),
    {
        let f = if str_eq(target, "pgmoneta_mcp") {
            configured
        } else if str_eq(target, "tokio") || str_eq(target, "rmcp") {
            LogLevelFilter::Warn
        } else {
            LogLevelFilter::Off
        };
        let sr: u32 = match severity {
            Severity::Trace => 0,
            Severity::Debug => 1,
            Severity::Info => 2,
            Severity::Warn => 3,
            Severity::Error => 4,
        };
        let fr: u32 = match f {
            LogLevelFilter::Trace => 0,
            LogLevelFilter::Debug => 1,
            LogLevelFilter::Info => 2,
            LogLevelFilter::Warn => 3,
            LogLevelFilter::Error => 4,
            LogLevelFilter::Off => 5,
        };
        sr >= fr
    }
}

/// The three named targets differ from one another.
proof fn lemma_targets_distinct()
    ensures
        "pgmoneta_mcp"@ != "tokio"@,
        "pgmoneta_mcp"@ != "rmcp"@,
        "tokio"@ != "rmcp"@,
{
    reveal_strlit("pgmoneta_mcp");
    reveal_strlit("tokio");
    reveal_strlit("rmcp");
    assert("pgmoneta_mcp"@.len() == 12);
    assert("tokio"@.len() == 5);
    assert("rmcp"@.len() == 4);
}

/// The two-tier filtering law: the application's own events pass exactly at
/// or above the configured threshold; events from the named dependencies
/// pass exactly at warning or above, whatever the configured threshold; and
/// every other source is suppressed entirely.
pub proof fn lemma_level_filtering(configured: LogLevelFilter, severity: Severity)
    ensures
        spec_event_enabled("pgmoneta_mcp"@, severity, configured) == spec_admits(
            configured,
            severity,
        ),
        spec_event_enabled("tokio"@, severity, configured) == (severity_rank(severity)
            >= severity_rank(Severity::Warn)),
        spec_event_enabled("rmcp"@, severity, configured) == (severity_rank(severity)
            >= severity_rank(Severity::Warn)),
        forall|t: Seq<char>|
            t != "pgmoneta_mcp"@ && t != "tokio"@ && t != "rmcp"@ ==> !spec_event_enabled(
                t,
                severity,
                configured,
            ),
{
    lemma_targets_distinct();
}

} // verus!
