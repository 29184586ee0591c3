//! One log event, as a caller reports it.

use vstd::prelude::*;
use crate::log::{AdvancedLogLevel, LogLevel};

verus! {

/// A log event. `category` absent means that the event is uncategorized;
/// `timestamp_ms` counts the milliseconds since the Unix epoch.
#[derive(Debug, Clone, PartialEq)]
pub struct LogEvent {
    pub category: Option<String>,
    pub process_id: i64,
    pub thread_id: i64,
    pub level: LogLevel,
    pub function_name: String,
    pub file_name: String,
    pub line_number: u32,
    pub message: String,
    pub timestamp_ms: u64,
}

/// Mathematical form of an event.
pub struct EventView {
    pub category: Option<Seq<char>>,
    pub process_id: int,
    pub thread_id: int,
    pub level: LogLevel,
    pub function_name: Seq<char>,
    pub file_name: Seq<char>,
    pub line_number: nat,
    pub message: Seq<char>,
    pub timestamp_ms: nat,
}

impl EventView {
    /// The severity by which the event is filtered and coloured.
    pub open spec fn severity(self) -> AdvancedLogLevel {
        self.level.severity()
    }
}

impl View for LogEvent {
    type V = EventView;

    open spec fn view(&self) -> EventView {
        EventView {
            category: self.category.deep_view(),
            process_id: self.process_id as int,
            thread_id: self.thread_id as int,
            level: self.level,
            function_name: self.function_name@,
            file_name: self.file_name@,
            line_number: self.line_number as nat,
            message: self.message@,
            timestamp_ms: self.timestamp_ms as nat,
        }
    }
}

} // verus!
