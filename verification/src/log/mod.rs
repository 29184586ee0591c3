//! The configuration model of the log router.
//!
//! A configuration is a list of handlers. Each handler names the events it
//! wants (its matchers), how a line is rendered (its formatter) and where the
//! line goes (its emitter). Every type here has a mathematical view, over
//! which the contracts of the routing functions are stated.

pub mod emitter;
pub mod event;
pub mod filter;
pub mod formatter;
pub mod framing;
pub mod json;
pub mod router;
pub mod text;
pub mod validate;

use vstd::prelude::*;
use crate::log::event::{EventView, LogEvent};
use crate::log::router::{
    default_handler,
    default_log_handler,
    deliveries,
    effective_handlers,
    route_of,
    routes_of,
    Delivery,
    LogRouter,
    RouteHandler,
};

verus! {

/// Severity as callers report it. Besides the five routing severities it has
/// `Invalid` and the two aliases `Fatal` and `Mandatory`.
#[derive(Debug, Clone, Copy, PartialEq, Eq, Structural)]
pub enum LogLevel {
    Invalid,
    Verbose,
    Debug,
    Info,
    Warn,
    Error,
    Fatal,
    Mandatory,
}

/// Severity of a routing rule, ordered from the most to the least verbose.
#[derive(Debug, Clone, Copy, PartialEq, Eq, Structural)]
pub enum AdvancedLogLevel {
    Trace,
    Debug,
    Info,
    Warn,
    Error,
}

/// One rule of a handler: a threshold and, optionally, the one category it
/// applies to.
#[derive(Debug, Clone, PartialEq)]
pub struct AdvancedLogMatcher {
    pub level: AdvancedLogLevel,
    pub category: Option<String>,
}

/// The two line layouts.
#[derive(Debug, Clone, Copy, PartialEq, Eq, Structural)]
pub enum FormatterType {
    Plain,
    Json,
}

/// How a handler renders its lines. `colored` absent means not colored.
#[derive(Debug, Clone, Copy, PartialEq, Eq, Structural)]
pub struct AdvancedLogFormatter {
    pub formatter_type: FormatterType,
    pub colored: Option<bool>,
}

/// The two console streams.
#[derive(Debug, Clone, Copy, PartialEq, Eq, Structural)]
pub enum StreamType {
    Stdout,
    Stderr,
}

/// A console destination.
#[derive(Debug, Clone, Copy, PartialEq, Eq, Structural)]
pub struct ConsoleEmitterConfig {
    pub stream: StreamType,
}

/// An append-only file destination.
#[derive(Debug, Clone, PartialEq)]
pub struct FileEmitterConfig {
    pub path: String,
}

/// Where a handler sends its lines.
#[derive(Debug, Clone, PartialEq)]
pub enum AdvancedLogEmitter {
    Console(ConsoleEmitterConfig),
    File(FileEmitterConfig),
}

/// The unit of routing: which events, in what layout, to which destination.
#[derive(Debug, Clone, PartialEq)]
pub struct AdvancedLogHandler {
    pub matchers: Vec<AdvancedLogMatcher>,
    pub formatter: AdvancedLogFormatter,
    pub emitter: AdvancedLogEmitter,
}

/// A whole configuration. Without handlers, one default handler is used whose
/// threshold is `level`, or `Info` where `level` is absent.
#[derive(Debug, Clone, PartialEq)]
pub struct AdvancedLogConfig {
    pub level: Option<AdvancedLogLevel>,
    pub handlers: Option<Vec<AdvancedLogHandler>>,
}

/// Mathematical form of a matcher.
pub struct MatcherView {
    pub level: AdvancedLogLevel,
    pub category: Option<Seq<char>>,
}

/// Mathematical form of an emitter.
pub enum EmitterView {
    Console(StreamType),
    File(Seq<char>),
}

/// Mathematical form of a handler.
pub struct HandlerView {
    pub matchers: Seq<MatcherView>,
    pub formatter: AdvancedLogFormatter,
    pub emitter: EmitterView,
}

/// Mathematical form of a configuration.
pub struct ConfigView {
    pub level: Option<AdvancedLogLevel>,
    pub handlers: Option<Seq<HandlerView>>,
}

impl DeepView for AdvancedLogMatcher {
    type V = MatcherView;

    open spec fn deep_view(&self) -> MatcherView {
        MatcherView { level: self.level, category: self.category.deep_view() }
    }
}

impl View for AdvancedLogMatcher {
    type V = MatcherView;

    open spec fn view(&self) -> MatcherView {
        self.deep_view()
    }
}

impl DeepView for AdvancedLogEmitter {
    type V = EmitterView;

    open spec fn deep_view(&self) -> EmitterView {
        match self {
            AdvancedLogEmitter::Console(console) => EmitterView::Console(console.stream),
            AdvancedLogEmitter::File(file) => EmitterView::File(file.path@),
        }
    }
}

impl View for AdvancedLogEmitter {
    type V = EmitterView;

    open spec fn view(&self) -> EmitterView {
        self.deep_view()
    }
}

impl DeepView for AdvancedLogHandler {
    type V = HandlerView;

    open spec fn deep_view(&self) -> HandlerView {
        HandlerView {
            matchers: self.matchers.deep_view(),
            formatter: self.formatter,
            emitter: self.emitter@,
        }
    }
}

impl View for AdvancedLogHandler {
    type V = HandlerView;

    open spec fn view(&self) -> HandlerView {
        self.deep_view()
    }
}

impl DeepView for AdvancedLogConfig {
    type V = ConfigView;

    open spec fn deep_view(&self) -> ConfigView {
        ConfigView { level: self.level, handlers: self.handlers.deep_view() }
    }
}

impl View for AdvancedLogConfig {
    type V = ConfigView;

    open spec fn view(&self) -> ConfigView {
        self.deep_view()
    }
}

impl AdvancedLogLevel {
    /// Position of the level in the order `Trace < Debug < Info < Warn < Error`.
    pub open spec fn rank(self) -> nat {
        match self {
            AdvancedLogLevel::Trace => 0,
            AdvancedLogLevel::Debug => 1,
            AdvancedLogLevel::Info => 2,
            AdvancedLogLevel::Warn => 3,
            AdvancedLogLevel::Error => 4,
        }
    }

    /// The rank as a machine integer.
    pub fn rank_value(&self) -> (r: u8)
        ensures
            r as nat == self.rank(),
    {
        match self {
            AdvancedLogLevel::Trace => 0,
            AdvancedLogLevel::Debug => 1,
            AdvancedLogLevel::Info => 2,
            AdvancedLogLevel::Warn => 3,
            AdvancedLogLevel::Error => 4,
        }
    }

    /// Whether an event of severity `self` reaches a rule whose threshold is
    /// `threshold`.
    pub open spec fn reaches(self, threshold: AdvancedLogLevel) -> bool {
        self.rank() >= threshold.rank()
    }

    /// Decides `reaches`.
    pub fn at_least(&self, threshold: &AdvancedLogLevel) -> (r: bool)
        ensures
            r == self.reaches(*threshold),
    {
        self.rank_value() >= threshold.rank_value()
    }
}

impl LogLevel {
    /// The routing severity that stands for a reported level: `Verbose` and
    /// `Invalid` count as `Trace`, `Fatal` as `Error`, `Mandatory` as `Info`.
    pub open spec fn severity(self) -> AdvancedLogLevel {
        match self {
            LogLevel::Invalid => AdvancedLogLevel::Trace,
            LogLevel::Verbose => AdvancedLogLevel::Trace,
            LogLevel::Debug => AdvancedLogLevel::Debug,
            LogLevel::Info => AdvancedLogLevel::Info,
            LogLevel::Warn => AdvancedLogLevel::Warn,
            LogLevel::Error => AdvancedLogLevel::Error,
            LogLevel::Fatal => AdvancedLogLevel::Error,
            LogLevel::Mandatory => AdvancedLogLevel::Info,
        }
    }

    /// The severity by which an event of this level is filtered.
    pub fn to_tracing_level(&self) -> (level: AdvancedLogLevel)
        ensures
            level == self.severity(),
    {
        match self {
            LogLevel::Verbose => AdvancedLogLevel::Trace,
            LogLevel::Debug => AdvancedLogLevel::Debug,
            LogLevel::Info => AdvancedLogLevel::Info,
            LogLevel::Warn => AdvancedLogLevel::Warn,
            LogLevel::Error => AdvancedLogLevel::Error,
            LogLevel::Fatal => AdvancedLogLevel::Error,
            LogLevel::Mandatory => AdvancedLogLevel::Info,
            LogLevel::Invalid => AdvancedLogLevel::Trace,
        }
    }
}

impl AdvancedLogLevel {
    /// The name of the level in lower case.
    pub open spec fn name(self) -> Seq<char> {
        match self {
            AdvancedLogLevel::Trace => "trace"@,
            AdvancedLogLevel::Debug => "debug"@,
            AdvancedLogLevel::Info => "info"@,
            AdvancedLogLevel::Warn => "warn"@,
            AdvancedLogLevel::Error => "error"@,
        }
    }

    /// The name of the level in lower case, as configurations write it.
    pub fn to_string(&self) -> (text: String)
        ensures
            text@ == self.name(),
    {
        String::from_str(
            match self {
                AdvancedLogLevel::Trace => "trace",
                AdvancedLogLevel::Debug => "debug",
                AdvancedLogLevel::Info => "info",
                AdvancedLogLevel::Warn => "warn",
                AdvancedLogLevel::Error => "error",
            },
        )
    }
}

impl LogLevel {
    /// The level that a number stands for: 0 to 7 in the order of the
    /// variants, `Invalid` for every other number.
    pub open spec fn of_code(value: u8) -> LogLevel {
        if value == 1 {
            LogLevel::Verbose
        } else if value == 2 {
            LogLevel::Debug
        } else if value == 3 {
            LogLevel::Info
        } else if value == 4 {
            LogLevel::Warn
        } else if value == 5 {
            LogLevel::Error
        } else if value == 6 {
            LogLevel::Fatal
        } else if value == 7 {
            LogLevel::Mandatory
        } else {
            LogLevel::Invalid
        }
    }

    /// The number of a level: its position among the variants.
    pub open spec fn code(self) -> u8 {
        match self {
            LogLevel::Invalid => 0,
            LogLevel::Verbose => 1,
            LogLevel::Debug => 2,
            LogLevel::Info => 3,
            LogLevel::Warn => 4,
            LogLevel::Error => 5,
            LogLevel::Fatal => 6,
            LogLevel::Mandatory => 7,
        }
    }

    /// Computes `code`.
    pub fn to_code(&self) -> (value: u8)
        ensures
            value == self.code(),
    {
        match self {
            LogLevel::Invalid => 0,
            LogLevel::Verbose => 1,
            LogLevel::Debug => 2,
            LogLevel::Info => 3,
            LogLevel::Warn => 4,
            LogLevel::Error => 5,
            LogLevel::Fatal => 6,
            LogLevel::Mandatory => 7,
        }
    }
}

impl From<u8> for LogLevel {
    fn from(value: u8) -> (level: LogLevel) {
        match value {
            0 => LogLevel::Invalid,
            1 => LogLevel::Verbose,
            2 => LogLevel::Debug,
            3 => LogLevel::Info,
            4 => LogLevel::Warn,
            5 => LogLevel::Error,
            6 => LogLevel::Fatal,
            7 => LogLevel::Mandatory,
            _ => LogLevel::Invalid,
        }
    }
}

impl vstd::std_specs::convert::FromSpecImpl<u8> for LogLevel {
    open spec fn obeys_from_spec() -> bool {
        true
    }

    open spec fn from_spec(value: u8) -> LogLevel {
        LogLevel::of_code(value)
    }
}

/// Every level comes back from its number.
pub proof fn law_level_code_round_trip(level: LogLevel)
    ensures
        LogLevel::of_code(level.code()) == level,
{
}

/// The category of an event that is reported with the label `category`:
/// none where the label is empty.
pub open spec fn category_of(category: Seq<char>) -> Option<Seq<char>> {
    if category.len() == 0 {
        None
    } else {
        Some(category)
    }
}

/// The event that a call of `ten_log` reports.
pub open spec fn reported_event(
    category: Seq<char>,
    pid: i64,
    tid: i64,
    level: LogLevel,
    func_name: Seq<char>,
    file_name: Seq<char>,
    line_no: u32,
    msg: Seq<char>,
    timestamp_ms: u64,
) -> EventView {
    EventView {
        category: category_of(category),
        process_id: pid as int,
        thread_id: tid as int,
        level,
        function_name: func_name,
        file_name,
        line_number: line_no as nat,
        message: msg,
        timestamp_ms: timestamp_ms as nat,
    }
}

/// Compiles a configuration into a router: one compiled handler for each
/// handler of the configuration, in order. Where the configuration names no
/// handler, the router holds the default handler alone. A matcher with a
/// malformed category stays in its handler and accepts nothing; no
/// configuration is refused.
pub fn ten_configure_log(config: &AdvancedLogConfig) -> (router: LogRouter)
    ensures
        router@ == routes_of(config@),
{
    let mut handlers: Vec<RouteHandler> = Vec::new();
    match &config.handlers {
        Some(configured) if configured.len() > 0 => {
            let ghost wanted = routes_of(config@);
            proof {
                assert(config@.handlers == Some(configured.deep_view()));
                assert(configured.deep_view().len() == configured.len());
                assert(effective_handlers(config@) == configured.deep_view());
            }
            let mut i: usize = 0;
            while i < configured.len()
                invariant
                    i <= configured.len(),
                    wanted.len() == configured.len(),
                    forall|k: int|
                        0 <= k < configured.len() ==> #[trigger] wanted[k] == route_of(
                            configured[k]@,
                        ),
                    handlers.len() == i,
                    forall|k: int| 0 <= k < i ==> (#[trigger] handlers[k])@ == wanted[k],
                decreases configured.len() - i,
            {
                let route = RouteHandler::build(&configured[i]);
                handlers.push(route);
                i += 1;
            }
            proof {
                assert(handlers.deep_view() =~= wanted);
            }
        },
        _ => {
            let handler = default_log_handler(config.level);
            let route = RouteHandler::build(&handler);
            handlers.push(route);
            proof {
                assert(effective_handlers(config@) =~= seq![default_handler(config.level)]);
                assert(handlers.deep_view() =~= routes_of(config@));
            }
        },
    }
    LogRouter::new(handlers)
}

/// Reports one event to `router` and returns what is to be written: for each
/// handler that accepts the event, in the order of the handlers, the
/// handler's index and the line in that handler's layout. An event that no
/// handler accepts gives nothing. The level is filtered and coloured by the
/// severity it stands for; the file name is reduced to its last component.
pub fn ten_log(
    router: &LogRouter,
    category: &str,
    pid: i64,
    tid: i64,
    level: LogLevel,
    func_name: &str,
    file_name: &str,
    line_no: u32,
    msg: &str,
    timestamp_ms: u64,
) -> (out: Vec<Delivery>)
    ensures
        out.deep_view() == deliveries(
            router@,
            reported_event(
                category@,
                pid,
                tid,
                level,
                func_name@,
                file_name@,
                line_no,
                msg@,
                timestamp_ms,
            ),
        ),
{
    let event = LogEvent {
        category: if category.is_empty() {
            None
        } else {
            Some(String::from_str(category))
        },
        process_id: pid,
        thread_id: tid,
        level,
        function_name: String::from_str(func_name),
        file_name: String::from_str(file_name),
        line_number: line_no,
        message: String::from_str(msg),
        timestamp_ms,
    };
    router.dispatch(&event)
}

} // verus!
