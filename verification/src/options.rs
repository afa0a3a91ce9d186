use vstd::prelude::*;
use crate::source_map::SourceMap;

verus! {

/// Logging options of the instrumentation.
#[derive(Clone, Debug)]
pub struct InstrumentLogOptions {
    pub level: Option<String>,
    pub enable_trace: bool,
}

impl Default for InstrumentLogOptions {
    fn default() -> (r: Self)
        ensures
            r.level is None,
            !r.enable_trace,
    {
        InstrumentLogOptions { level: None, enable_trace: false }
    }
}

/// Instrumentation options, a subset of istanbul's.
#[derive(Clone, Debug)]
pub struct InstrumentOptions {
    pub coverage_variable: String,
    pub compact: bool,
    pub report_logic: bool,
    pub ignore_class_methods: Vec<String>,
    pub input_source_map: Option<SourceMap>,
    pub instrument_log: InstrumentLogOptions,
    pub debug_initial_coverage_comment: bool,
    /// Glob patterns (wax syntax) of file names to leave uninstrumented.
    pub unstable_exclude: Option<Vec<String>>,
    /// The expression that locates the global scope object holding the counters.
    pub coverage_global_scope: String,
    /// Whether the global scope is located through an evaluated `Function` constructor.
    pub coverage_global_scope_func: bool,
}

impl Default for InstrumentOptions {
    fn default() -> (r: Self)
        ensures
            r.coverage_variable@ == "__coverage__"@,
            !r.compact,
            !r.report_logic,
            r.ignore_class_methods@.len() == 0,
            r.input_source_map is None,
            r.instrument_log.level is None,
            !r.instrument_log.enable_trace,
            !r.debug_initial_coverage_comment,
            r.unstable_exclude is None,
            r.coverage_global_scope@ == "this"@,
            r.coverage_global_scope_func,
    {
        InstrumentOptions {
            coverage_variable: String::from_str("__coverage__"),
            compact: false,
            report_logic: false,
            ignore_class_methods: Vec::new(),
            input_source_map: None,
            instrument_log: InstrumentLogOptions::default(),
            debug_initial_coverage_comment: false,
            unstable_exclude: None,
            coverage_global_scope: String::from_str("this"),
            coverage_global_scope_func: true,
        }
    }
}

/// The log levels the instrumentation log can be set to.
#[derive(Copy, Clone, Debug, PartialEq, Eq, Structural)]
pub enum LogLevel {
    Error,
    Debug,
    Info,
    Warn,
    Trace,
}

/// The log level a level name selects: `"error"`, `"debug"`, `"info"`, `"warn"` or
/// `"trace"`; any other name, or none, turns logging off.
pub open spec fn log_level_spec(level: Option<Seq<char>>) -> Option<LogLevel> {
    match level {
        Some(l) => if l == "error"@ {
            Some(LogLevel::Error)
        } else if l == "debug"@ {
            Some(LogLevel::Debug)
        } else if l == "info"@ {
            Some(LogLevel::Info)
        } else if l == "warn"@ {
            Some(LogLevel::Warn)
        } else if l == "trace"@ {
            Some(LogLevel::Trace)
        } else {
            None
        },
        None => None,
    }
}

/// The log level the options ask for: see [`log_level_spec`].
pub fn log_level(log_options: &InstrumentLogOptions) -> (r: Option<LogLevel>)
    ensures
        r == log_level_spec(
            match log_options.level {
                Some(l) => Some(l@),
                None => None,
            },
        ),
{
    match &log_options.level {
        Some(l) => {
            if l.eq(&String::from_str("error")) {
                Some(LogLevel::Error)
            } else if l.eq(&String::from_str("debug")) {
                Some(LogLevel::Debug)
            } else if l.eq(&String::from_str("info")) {
                Some(LogLevel::Info)
            } else if l.eq(&String::from_str("warn")) {
                Some(LogLevel::Warn)
            } else if l.eq(&String::from_str("trace")) {
                Some(LogLevel::Trace)
            } else {
                None
            }
        },
        None => None,
    }
}

} // verus!
