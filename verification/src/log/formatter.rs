//! The two line layouts.
//!
//! A plain line holds, in this order and separated by single spaces: the time
//! as seconds and milliseconds since the Unix epoch, the process id with the
//! thread id in parentheses, the name of the level, the category in square
//! brackets (`-` where the event has none), the file name and the line number
//! joined by a colon, the function name, and the message. Control characters
//! in the texts are replaced by spaces.
//!
//! A structured line is one object on one line. Its members are, in this
//! order: time in milliseconds, level, process id, thread id, category, file
//! name, line number, function name and message. The names of the members
//! come from a table that callers can replace.
//!
//! Every line ends with exactly one line feed. Colour, where asked for, wraps
//! the level name of a plain line and the whole object of a structured line.

use vstd::prelude::*;
use crate::log::{AdvancedLogLevel, LogLevel};
use crate::log::event::{EventView, LogEvent};
use crate::log::json::{push_quoted, quoted};
use crate::log::text::{
    base_name,
    chars_of,
    decimal,
    file_name_of,
    plain_text,
    push_all,
    push_decimal,
    push_plain,
    push_signed,
    push_three_digits,
    signed_decimal,
    string_of,
    three_digits,
};

verus! {

/// The name of a level as it stands in a line.
pub open spec fn level_name(level: LogLevel) -> Seq<char> {
    match level {
        LogLevel::Invalid => seq!['I', 'N', 'V', 'A', 'L', 'I', 'D'],
        LogLevel::Verbose => seq!['V', 'E', 'R', 'B', 'O', 'S', 'E'],
        LogLevel::Debug => seq!['D', 'E', 'B', 'U', 'G'],
        LogLevel::Info => seq!['I', 'N', 'F', 'O'],
        LogLevel::Warn => seq!['W', 'A', 'R', 'N'],
        LogLevel::Error => seq!['E', 'R', 'R', 'O', 'R'],
        LogLevel::Fatal => seq!['F', 'A', 'T', 'A', 'L'],
        LogLevel::Mandatory => seq!['M', 'A', 'N', 'D', 'A', 'T', 'O', 'R', 'Y'],
    }
}

/// The escape sequence that switches a colour on: red for `Error`, yellow
/// for `Warn`, blue for `Debug`, dim for `Trace`, none for `Info`.
pub open spec fn color_start(severity: AdvancedLogLevel) -> Seq<char> {
    match severity {
        AdvancedLogLevel::Error => seq!['\u{1b}', '[', '3', '1', 'm'],
        AdvancedLogLevel::Warn => seq!['\u{1b}', '[', '3', '3', 'm'],
        AdvancedLogLevel::Info => Seq::empty(),
        AdvancedLogLevel::Debug => seq!['\u{1b}', '[', '3', '4', 'm'],
        AdvancedLogLevel::Trace => seq!['\u{1b}', '[', '2', 'm'],
    }
}

/// The escape sequence that switches the colour off again.
pub open spec fn color_end(severity: AdvancedLogLevel) -> Seq<char> {
    match severity {
        AdvancedLogLevel::Info => Seq::empty(),
        _ => seq!['\u{1b}', '[', '0', 'm'],
    }
}

/// `text` in the colour of `severity` where `colored` is set, else as it is.
pub open spec fn painted(text: Seq<char>, severity: AdvancedLogLevel, colored: bool) -> Seq<char> {
    if colored {
        color_start(severity) + text + color_end(severity)
    } else {
        text
    }
}

/// Seconds since the epoch, a point, and the three digits of the milliseconds.
pub open spec fn timestamp_text(ms: nat) -> Seq<char> {
    decimal(ms / 1000) + seq!['.'] + three_digits(ms % 1000)
}

/// The category of an event in a plain line: `-` where it has none.
pub open spec fn category_text(category: Option<Seq<char>>) -> Seq<char> {
    match category {
        Some(c) => c,
        None => seq!['-'],
    }
}

/// The start of a plain line: the time and the two ids.
pub open spec fn plain_prefix(e: EventView) -> Seq<char> {
    timestamp_text(e.timestamp_ms) + seq![' '] + signed_decimal(e.process_id) + seq!['(']
        + signed_decimal(e.thread_id) + seq![')', ' ']
}

/// Where the event comes from: its category, file name and line number.
pub open spec fn plain_origin(e: EventView) -> Seq<char> {
    seq![' ', '['] + plain_text(category_text(e.category)) + seq![']', ' '] + plain_text(
        base_name(e.file_name),
    ) + seq![':'] + decimal(e.line_number)
}

/// The end of a plain line: the function name, the message and the line feed.
pub open spec fn plain_payload(e: EventView) -> Seq<char> {
    seq![' '] + plain_text(e.function_name) + seq![' '] + plain_text(e.message) + seq!['\n']
}

/// The plain line of an event.
pub open spec fn plain_line(e: EventView, colored: bool) -> Seq<char> {
    plain_prefix(e) + painted(level_name(e.level), e.severity(), colored) + plain_origin(e)
        + plain_payload(e)
}

/// The names of the members of a structured line.
#[derive(Debug, Clone, PartialEq)]
pub struct JsonFieldNames {
    pub timestamp: String,
    pub level: String,
    pub pid: String,
    pub tid: String,
    pub category: String,
    pub file: String,
    pub line: String,
    pub function: String,
    pub message: String,
}

/// Mathematical form of the member names.
pub struct FieldNamesView {
    pub timestamp: Seq<char>,
    pub level: Seq<char>,
    pub pid: Seq<char>,
    pub tid: Seq<char>,
    pub category: Seq<char>,
    pub file: Seq<char>,
    pub line: Seq<char>,
    pub function: Seq<char>,
    pub message: Seq<char>,
}

impl View for JsonFieldNames {
    type V = FieldNamesView;

    open spec fn view(&self) -> FieldNamesView {
        FieldNamesView {
            timestamp: self.timestamp@,
            level: self.level@,
            pid: self.pid@,
            tid: self.tid@,
            category: self.category@,
            file: self.file@,
            line: self.line@,
            function: self.function@,
            message: self.message@,
        }
    }
}

/// The member names used where none are given.
pub open spec fn default_field_names() -> FieldNamesView {
    FieldNamesView {
        timestamp: "timestamp"@,
        level: "level"@,
        pid: "pid"@,
        tid: "tid"@,
        category: "category"@,
        file: "file"@,
        line: "line"@,
        function: "function"@,
        message: "message"@,
    }
}

impl Default for JsonFieldNames {
    fn default() -> (names: JsonFieldNames)
        ensures
            names@ == default_field_names(),
    {
        JsonFieldNames {
            timestamp: String::from_str("timestamp"),
            level: String::from_str("level"),
            pid: String::from_str("pid"),
            tid: String::from_str("tid"),
            category: String::from_str("category"),
            file: String::from_str("file"),
            line: String::from_str("line"),
            function: String::from_str("function"),
            message: String::from_str("message"),
        }
    }
}

/// One member of an object: its name between quotes, a colon, its value.
pub open spec fn member(name: Seq<char>, value: Seq<char>) -> Seq<char> {
    quoted(name) + seq![':'] + value
}

/// The category of an event in a structured line: `null` where it has none.
pub open spec fn category_value(category: Option<Seq<char>>) -> Seq<char> {
    match category {
        Some(c) => quoted(c),
        None => seq!['n', 'u', 'l', 'l'],
    }
}

/// The first members of the object: time and level. The time is a number,
/// in milliseconds since the epoch.
pub open spec fn json_head(e: EventView, names: FieldNamesView) -> Seq<char> {
    seq!['{'] + member(names.timestamp, decimal(e.timestamp_ms)) + seq![','] + member(
        names.level,
        quoted(level_name(e.level)),
    ) + seq![',']
}

/// The two ids, as numbers.
pub open spec fn json_ids(e: EventView, names: FieldNamesView) -> Seq<char> {
    member(names.pid, signed_decimal(e.process_id)) + seq![','] + member(
        names.tid,
        signed_decimal(e.thread_id),
    ) + seq![',']
}

/// Where the event comes from: category, file name and line number.
pub open spec fn json_origin(e: EventView, names: FieldNamesView) -> Seq<char> {
    member(names.category, category_value(e.category)) + seq![','] + member(
        names.file,
        quoted(base_name(e.file_name)),
    ) + seq![','] + member(names.line, decimal(e.line_number)) + seq![',']
}

/// The last members of the object: function name and message.
pub open spec fn json_payload(e: EventView, names: FieldNamesView) -> Seq<char> {
    member(names.function, quoted(e.function_name)) + seq![','] + member(
        names.message,
        quoted(e.message),
    ) + seq!['}']
}

/// The object of an event.
pub open spec fn json_object(e: EventView, names: FieldNamesView) -> Seq<char> {
    json_head(e, names) + json_ids(e, names) + json_origin(e, names) + json_payload(e, names)
}

/// The structured line of an event.
pub open spec fn json_line(e: EventView, names: FieldNamesView, colored: bool) -> Seq<char> {
    painted(json_object(e, names), e.severity(), colored) + seq!['\n']
}

/// The characters of `level_name`.
pub fn level_chars(level: LogLevel) -> (name: Vec<char>)
    ensures
        name@ == level_name(level),
{
    let name = match level {
        LogLevel::Invalid => vec!['I', 'N', 'V', 'A', 'L', 'I', 'D'],
        LogLevel::Verbose => vec!['V', 'E', 'R', 'B', 'O', 'S', 'E'],
        LogLevel::Debug => vec!['D', 'E', 'B', 'U', 'G'],
        LogLevel::Info => vec!['I', 'N', 'F', 'O'],
        LogLevel::Warn => vec!['W', 'A', 'R', 'N'],
        LogLevel::Error => vec!['E', 'R', 'R', 'O', 'R'],
        LogLevel::Fatal => vec!['F', 'A', 'T', 'A', 'L'],
        LogLevel::Mandatory => vec!['M', 'A', 'N', 'D', 'A', 'T', 'O', 'R', 'Y'],
    };
    proof {
        assert(name@ =~= level_name(level));
    }
    name
}

/// Appends `color_start`.
fn push_color_start(out: &mut Vec<char>, severity: AdvancedLogLevel)
    ensures
        final(out)@ == old(out)@ + color_start(severity),
{
    let ghost before = out@;
    match severity {
        AdvancedLogLevel::Info => {},
        _ => {
            out.push('\u{1b}');
            out.push('[');
            match severity {
                AdvancedLogLevel::Error => {
                    out.push('3');
                    out.push('1');
                },
                AdvancedLogLevel::Warn => {
                    out.push('3');
                    out.push('3');
                },
                AdvancedLogLevel::Debug => {
                    out.push('3');
                    out.push('4');
                },
                _ => {
                    out.push('2');
                },
            }
            out.push('m');
        },
    }
    proof {
        assert(out@ =~= before + color_start(severity));
    }
}

/// Appends `color_end`.
fn push_color_end(out: &mut Vec<char>, severity: AdvancedLogLevel)
    ensures
        final(out)@ == old(out)@ + color_end(severity),
{
    let ghost before = out@;
    match severity {
        AdvancedLogLevel::Info => {},
        _ => {
            out.push('\u{1b}');
            out.push('[');
            out.push('0');
            out.push('m');
        },
    }
    proof {
        assert(out@ =~= before + color_end(severity));
    }
}

/// Appends `painted`.
fn push_painted(out: &mut Vec<char>, text: &Vec<char>, severity: AdvancedLogLevel, colored: bool)
    ensures
        final(out)@ == old(out)@ + painted(text@, severity, colored),
{
    let ghost before = out@;
    if colored {
        push_color_start(out, severity);
        push_all(out, text);
        push_color_end(out, severity);
        proof {
            assert(out@ =~= before + painted(text@, severity, colored));
        }
    } else {
        push_all(out, text);
    }
}

/// Appends the name of a member and the colon behind it.
fn push_member_name(out: &mut Vec<char>, name: &String)
    ensures
        final(out)@ == old(out)@ + (quoted(name@) + seq![':']),
{
    let ghost before = out@;
    let name_chars = chars_of(name.as_str());
    push_quoted(out, &name_chars);
    out.push(':');
    proof {
        assert(out@ =~= before + (quoted(name@) + seq![':']));
    }
}

/// Appends one member of an object whose value is a string.
fn push_text_member(out: &mut Vec<char>, name: &String, value: &Vec<char>)
    ensures
        final(out)@ == old(out)@ + member(name@, quoted(value@)),
{
    let ghost before = out@;
    push_member_name(out, name);
    push_quoted(out, value);
    proof {
        assert(out@ =~= before + member(name@, quoted(value@)));
    }
}

/// Appends one member of an object whose value is a number without sign.
fn push_count_member(out: &mut Vec<char>, name: &String, value: u64)
    ensures
        final(out)@ == old(out)@ + member(name@, decimal(value as nat)),
{
    let ghost before = out@;
    push_member_name(out, name);
    push_decimal(out, value);
    proof {
        assert(out@ =~= before + member(name@, decimal(value as nat)));
    }
}

/// Appends one member of an object whose value is a signed number.
fn push_signed_member(out: &mut Vec<char>, name: &String, value: i64)
    ensures
        final(out)@ == old(out)@ + member(name@, signed_decimal(value as int)),
{
    let ghost before = out@;
    push_member_name(out, name);
    push_signed(out, value);
    proof {
        assert(out@ =~= before + member(name@, signed_decimal(value as int)));
    }
}

/// Appends the category member of an object.
fn push_category_member(out: &mut Vec<char>, name: &String, category: &Option<String>)
    ensures
        final(out)@ == old(out)@ + member(name@, category_value(category.deep_view())),
{
    let ghost before = out@;
    match category {
        Some(text) => {
            let chars = chars_of(text.as_str());
            push_text_member(out, name, &chars);
        },
        None => {
            push_member_name(out, name);
            out.push('n');
            out.push('u');
            out.push('l');
            out.push('l');
            proof {
                assert(out@ =~= before + member(name@, category_value(category.deep_view())));
            }
        },
    }
}

/// Appends `timestamp_text`.
fn push_timestamp(out: &mut Vec<char>, ms: u64)
    ensures
        final(out)@ == old(out)@ + timestamp_text(ms as nat),
{
    let ghost before = out@;
    push_decimal(out, ms / 1000);
    out.push('.');
    push_three_digits(out, ms % 1000);
    proof {
        assert(out@ =~= before + timestamp_text(ms as nat));
    }
}

/// Appends `plain_prefix`.
fn push_plain_prefix(out: &mut Vec<char>, event: &LogEvent)
    ensures
        final(out)@ == old(out)@ + plain_prefix(event@),
{
    let ghost before = out@;
    push_timestamp(out, event.timestamp_ms);
    out.push(' ');
    push_signed(out, event.process_id);
    out.push('(');
    push_signed(out, event.thread_id);
    out.push(')');
    out.push(' ');
    proof {
        assert(out@ =~= before + plain_prefix(event@));
    }
}

/// Appends the category of a plain line.
fn push_plain_category(out: &mut Vec<char>, category: &Option<String>)
    ensures
        final(out)@ == old(out)@ + plain_text(category_text(category.deep_view())),
{
    match category {
        Some(text) => {
            let chars = chars_of(text.as_str());
            push_plain(out, &chars);
        },
        None => {
            let ghost before = out@;
            out.push('-');
            proof {
                assert(plain_text(seq!['-']) =~= seq!['-']);
                assert(out@ =~= before + seq!['-']);
            }
        },
    }
}

/// Appends `plain_origin`.
fn push_plain_origin(out: &mut Vec<char>, event: &LogEvent)
    ensures
        final(out)@ == old(out)@ + plain_origin(event@),
{
    let ghost before = out@;
    out.push(' ');
    out.push('[');
    push_plain_category(out, &event.category);
    out.push(']');
    out.push(' ');
    let path = chars_of(event.file_name.as_str());
    let file = file_name_of(&path);
    push_plain(out, &file);
    out.push(':');
    push_decimal(out, event.line_number as u64);
    proof {
        assert(out@ =~= before + plain_origin(event@));
    }
}

/// Appends `plain_payload`.
fn push_plain_payload(out: &mut Vec<char>, event: &LogEvent)
    ensures
        final(out)@ == old(out)@ + plain_payload(event@),
{
    let ghost before = out@;
    out.push(' ');
    let function = chars_of(event.function_name.as_str());
    push_plain(out, &function);
    out.push(' ');
    let message = chars_of(event.message.as_str());
    push_plain(out, &message);
    out.push('\n');
    proof {
        assert(out@ =~= before + plain_payload(event@));
    }
}

/// Appends `json_head`.
fn push_json_head(out: &mut Vec<char>, event: &LogEvent, names: &JsonFieldNames)
    ensures
        final(out)@ == old(out)@ + json_head(event@, names@),
{
    let ghost before = out@;
    out.push('{');
    push_count_member(out, &names.timestamp, event.timestamp_ms);
    out.push(',');
    let level = level_chars(event.level);
    push_text_member(out, &names.level, &level);
    out.push(',');
    proof {
        assert(out@ =~= before + json_head(event@, names@));
    }
}

/// Appends `json_ids`.
fn push_json_ids(out: &mut Vec<char>, event: &LogEvent, names: &JsonFieldNames)
    ensures
        final(out)@ == old(out)@ + json_ids(event@, names@),
{
    let ghost before = out@;
    push_signed_member(out, &names.pid, event.process_id);
    out.push(',');
    push_signed_member(out, &names.tid, event.thread_id);
    out.push(',');
    proof {
        assert(out@ =~= before + json_ids(event@, names@));
    }
}

/// Appends `json_origin`.
fn push_json_origin(out: &mut Vec<char>, event: &LogEvent, names: &JsonFieldNames)
    ensures
        final(out)@ == old(out)@ + json_origin(event@, names@),
{
    let ghost before = out@;
    push_category_member(out, &names.category, &event.category);
    out.push(',');
    let path = chars_of(event.file_name.as_str());
    let file = file_name_of(&path);
    push_text_member(out, &names.file, &file);
    out.push(',');
    push_count_member(out, &names.line, event.line_number as u64);
    out.push(',');
    proof {
        assert(out@ =~= before + json_origin(event@, names@));
    }
}

/// Appends `json_payload`.
fn push_json_payload(out: &mut Vec<char>, event: &LogEvent, names: &JsonFieldNames)
    ensures
        final(out)@ == old(out)@ + json_payload(event@, names@),
{
    let ghost before = out@;
    let function = chars_of(event.function_name.as_str());
    push_text_member(out, &names.function, &function);
    out.push(',');
    let message = chars_of(event.message.as_str());
    push_text_member(out, &names.message, &message);
    out.push('}');
    proof {
        assert(out@ =~= before + json_payload(event@, names@));
    }
}

/// Renders plain lines.
#[derive(Debug, Clone, Copy, PartialEq, Eq)]
pub struct PlainFormatter {
    pub ansi: bool,
}

impl PlainFormatter {
    /// A plain formatter that colours the level name where `ansi` is set.
    pub fn new(ansi: bool) -> (formatter: PlainFormatter)
        ensures
            formatter.ansi == ansi,
    {
        PlainFormatter { ansi }
    }

    /// The plain line of `event`.
    pub fn format(&self, event: &LogEvent) -> (line: String)
        ensures
            line@ == plain_line(event@, self.ansi),
    {
        let mut out: Vec<char> = Vec::new();
        push_plain_prefix(&mut out, event);
        let name = level_chars(event.level);
        push_painted(&mut out, &name, event.level.to_tracing_level(), self.ansi);
        push_plain_origin(&mut out, event);
        push_plain_payload(&mut out, event);
        proof {
            assert(out@ =~= plain_line(event@, self.ansi));
        }
        string_of(&out)
    }
}

/// What a structured formatter is made with.
#[derive(Debug, Clone, PartialEq)]
pub struct JsonConfig {
    pub ansi: bool,
    pub field_names: JsonFieldNames,
}

/// Renders structured lines.
#[derive(Debug, Clone, PartialEq)]
pub struct JsonFormatter {
    pub config: JsonConfig,
}

impl JsonFormatter {
    /// A structured formatter with the given member names, which colours the
    /// object where `config.ansi` is set.
    pub fn new(config: JsonConfig) -> (formatter: JsonFormatter)
        ensures
            formatter.config == config,
    {
        JsonFormatter { config }
    }

    /// The structured line of `event`.
    pub fn format(&self, event: &LogEvent) -> (line: String)
        ensures
            line@ == json_line(event@, self.config.field_names@, self.config.ansi),
    {
        let names = &self.config.field_names;
        let mut object: Vec<char> = Vec::new();
        push_json_head(&mut object, event, names);
        push_json_ids(&mut object, event, names);
        push_json_origin(&mut object, event, names);
        push_json_payload(&mut object, event, names);
        proof {
            assert(object@ =~= json_object(event@, names@));
        }
        let mut out: Vec<char> = Vec::new();
        push_painted(&mut out, &object, event.level.to_tracing_level(), self.config.ansi);
        out.push('\n');
        proof {
            assert(out@ =~= json_line(event@, names@, self.config.ansi));
        }
        string_of(&out)
    }
}

/// The formatter of one handler: one of the two layouts.
#[derive(Debug, Clone, PartialEq)]
pub enum LineFormatter {
    Plain(PlainFormatter),
    Json(JsonFormatter),
}

/// Mathematical form of a formatter.
pub enum FormatterView {
    Plain { colored: bool },
    Json { colored: bool, names: FieldNamesView },
}

impl View for LineFormatter {
    type V = FormatterView;

    open spec fn view(&self) -> FormatterView {
        match self {
            LineFormatter::Plain(plain) => FormatterView::Plain { colored: plain.ansi },
            LineFormatter::Json(json) => FormatterView::Json {
                colored: json.config.ansi,
                names: json.config.field_names@,
            },
        }
    }
}

/// The line that a formatter renders for an event.
pub open spec fn render(formatter: FormatterView, e: EventView) -> Seq<char> {
    match formatter {
        FormatterView::Plain { colored } => plain_line(e, colored),
        FormatterView::Json { colored, names } => json_line(e, names, colored),
    }
}

impl LineFormatter {
    /// The line of `event` in this formatter's layout.
    pub fn format(&self, event: &LogEvent) -> (line: String)
        ensures
            line@ == render(self@, event@),
    {
        match self {
            LineFormatter::Plain(plain) => plain.format(event),
            LineFormatter::Json(json) => json.format(event),
        }
    }
}

} // verus!
