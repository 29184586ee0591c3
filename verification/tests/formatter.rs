use ten_rust::log::event::LogEvent;
use ten_rust::log::formatter::{
    level_chars, JsonConfig, JsonFieldNames, JsonFormatter, LineFormatter, PlainFormatter,
};
use ten_rust::log::LogLevel;

fn event(category: Option<&str>, level: LogLevel, file_name: &str, message: &str) -> LogEvent {
    LogEvent {
        category: category.map(|c| c.to_string()),
        process_id: 42,
        thread_id: -7,
        level,
        function_name: "run".to_string(),
        file_name: file_name.to_string(),
        line_number: 9,
        message: message.to_string(),
        timestamp_ms: 5_007,
    }
}

fn json(ansi: bool) -> JsonFormatter {
    JsonFormatter::new(JsonConfig { ansi, field_names: JsonFieldNames::default() })
}

fn parse(line: &str) -> serde_json::Value {
    assert!(line.ends_with('\n'));
    assert_eq!(line.matches('\n').count(), 1);
    serde_json::from_str(line).unwrap()
}

#[test]
fn plain_line_has_the_documented_layout() {
    let line = PlainFormatter::new(false).format(&event(
        Some("net"),
        LogLevel::Warn,
        "/src/core/socket.rs",
        "reset by peer",
    ));
    assert_eq!(line, "5.007 42(-7) WARN [net] socket.rs:9 run reset by peer\n");
}

#[test]
fn plain_line_without_category_shows_a_dash() {
    let line = PlainFormatter::new(false).format(&event(None, LogLevel::Info, "a.rs", "m"));
    assert_eq!(line, "5.007 42(-7) INFO [-] a.rs:9 run m\n");
}

#[test]
fn plain_line_names_every_level() {
    let names = [
        (LogLevel::Invalid, "INVALID"),
        (LogLevel::Verbose, "VERBOSE"),
        (LogLevel::Debug, "DEBUG"),
        (LogLevel::Info, "INFO"),
        (LogLevel::Warn, "WARN"),
        (LogLevel::Error, "ERROR"),
        (LogLevel::Fatal, "FATAL"),
        (LogLevel::Mandatory, "MANDATORY"),
    ];
    for (level, name) in names {
        let chars: String = level_chars(level).into_iter().collect();
        assert_eq!(chars, name);
        let line = PlainFormatter::new(false).format(&event(None, level, "a.rs", "m"));
        assert_eq!(line, format!("5.007 42(-7) {} [-] a.rs:9 run m\n", name));
    }
}

#[test]
fn plain_colors_follow_the_severity() {
    let colors = [
        (LogLevel::Invalid, "\u{1b}[2mINVALID\u{1b}[0m"),
        (LogLevel::Verbose, "\u{1b}[2mVERBOSE\u{1b}[0m"),
        (LogLevel::Debug, "\u{1b}[34mDEBUG\u{1b}[0m"),
        (LogLevel::Info, "INFO"),
        (LogLevel::Mandatory, "MANDATORY"),
        (LogLevel::Warn, "\u{1b}[33mWARN\u{1b}[0m"),
        (LogLevel::Error, "\u{1b}[31mERROR\u{1b}[0m"),
        (LogLevel::Fatal, "\u{1b}[31mFATAL\u{1b}[0m"),
    ];
    for (level, token) in colors {
        let line = PlainFormatter::new(true).format(&event(None, level, "a.rs", "m"));
        assert_eq!(line, format!("5.007 42(-7) {} [-] a.rs:9 run m\n", token));
    }
}

#[test]
fn plain_line_stays_one_line() {
    let line = PlainFormatter::new(false).format(&event(
        Some("a\nb"),
        LogLevel::Info,
        "dir/na\tme.rs",
        "first\nsecond\r\n\u{7f}\u{1b}[0m\n",
    ));
    assert_eq!(line, "5.007 42(-7) INFO [a b] na me.rs:9 run first second    [0m \n");
    assert_eq!(line.matches('\n').count(), 1);
}

#[test]
fn json_line_has_the_documented_layout() {
    let line = json(false).format(&event(Some("net"), LogLevel::Error, "/src/socket.rs", "reset"));
    assert_eq!(
        line,
        "{\"timestamp\":5007,\"level\":\"ERROR\",\"pid\":42,\"tid\":-7,\"category\":\"net\",\
         \"file\":\"socket.rs\",\"line\":9,\"function\":\"run\",\"message\":\"reset\"}\n"
    );
}

#[test]
fn json_line_parses_as_one_record() {
    let message = "quote \" backslash \\ newline \n tab \t bell \u{7} nul \u{0} é 日本 \u{1f} end";
    let line = json(false).format(&event(Some("net\"work"), LogLevel::Fatal, "a/b\\c.rs", message));
    let record = parse(&line);
    let object = record.as_object().unwrap();
    assert_eq!(object.len(), 9);
    assert_eq!(record["timestamp"].as_u64(), Some(5_007));
    assert_eq!(record["level"].as_str(), Some("FATAL"));
    assert_eq!(record["pid"].as_i64(), Some(42));
    assert_eq!(record["tid"].as_i64(), Some(-7));
    assert_eq!(record["category"].as_str(), Some("net\"work"));
    assert_eq!(record["file"].as_str(), Some("b\\c.rs"));
    assert_eq!(record["line"].as_u64(), Some(9));
    assert_eq!(record["function"].as_str(), Some("run"));
    assert_eq!(record["message"].as_str(), Some(message));
}

#[test]
fn json_escapes_every_control_character() {
    for code in 0u32..0x20 {
        let c = char::from_u32(code).unwrap();
        let message = format!("a{}b", c);
        let line = json(false).format(&event(None, LogLevel::Info, "f.rs", &message));
        assert!(line[..line.len() - 1].chars().all(|c| c as u32 >= 0x20), "{}", code);
        let record = parse(&line);
        assert_eq!(record["message"].as_str(), Some(message.as_str()));
    }
    let line = json(false).format(&event(None, LogLevel::Info, "f.rs", "\u{1}\u{1f}\n\r\t"));
    assert!(line.contains("\"message\":\"\\u0001\\u001f\\n\\r\\t\""));
}

#[test]
fn json_category_is_null_where_absent() {
    let line = json(false).format(&event(None, LogLevel::Info, "f.rs", "m"));
    assert!(line.contains("\"category\":null,"));
    assert!(parse(&line)["category"].is_null());
}

#[test]
fn json_extreme_numbers() {
    let mut e = event(None, LogLevel::Info, "f.rs", "m");
    e.process_id = i64::MIN;
    e.thread_id = i64::MAX;
    e.line_number = u32::MAX;
    e.timestamp_ms = u64::MAX;
    let record = parse(&json(false).format(&e));
    assert_eq!(record["pid"].as_i64(), Some(i64::MIN));
    assert_eq!(record["tid"].as_i64(), Some(i64::MAX));
    assert_eq!(record["line"].as_u64(), Some(u32::MAX as u64));
    assert_eq!(record["timestamp"].as_u64(), Some(u64::MAX));
    let plain = PlainFormatter::new(false).format(&e);
    assert_eq!(
        plain,
        "18446744073709551.615 -9223372036854775808(9223372036854775807) INFO [-] \
         f.rs:4294967295 run m\n"
    );
}

#[test]
fn json_member_names_can_be_replaced() {
    let names = JsonFieldNames {
        timestamp: "ts".to_string(),
        level: "severity".to_string(),
        pid: "process".to_string(),
        tid: "thread".to_string(),
        category: "target".to_string(),
        file: "source".to_string(),
        line: "row".to_string(),
        function: "fn".to_string(),
        message: "text \"quoted\"".to_string(),
    };
    let formatter = JsonFormatter::new(JsonConfig { ansi: false, field_names: names });
    let line = formatter.format(&event(Some("c"), LogLevel::Debug, "f.rs", "m"));
    assert_eq!(
        line,
        "{\"ts\":5007,\"severity\":\"DEBUG\",\"process\":42,\"thread\":-7,\"target\":\"c\",\
         \"source\":\"f.rs\",\"row\":9,\"fn\":\"run\",\"text \\\"quoted\\\"\":\"m\"}\n"
    );
    let record = parse(&line);
    assert_eq!(record["severity"].as_str(), Some("DEBUG"));
    assert_eq!(record["text \"quoted\""].as_str(), Some("m"));
}

#[test]
fn default_member_names() {
    let names = JsonFieldNames::default();
    assert_eq!(names.timestamp, "timestamp");
    assert_eq!(names.level, "level");
    assert_eq!(names.pid, "pid");
    assert_eq!(names.tid, "tid");
    assert_eq!(names.category, "category");
    assert_eq!(names.file, "file");
    assert_eq!(names.line, "line");
    assert_eq!(names.function, "function");
    assert_eq!(names.message, "message");
}

#[test]
fn colored_json_wraps_the_object() {
    let line = json(true).format(&event(None, LogLevel::Warn, "f.rs", "m"));
    assert!(line.starts_with("\u{1b}[33m{\"timestamp\""));
    assert!(line.ends_with("\"message\":\"m\"}\u{1b}[0m\n"));
    let info = json(true).format(&event(None, LogLevel::Info, "f.rs", "m"));
    assert_eq!(info, json(false).format(&event(None, LogLevel::Info, "f.rs", "m")));
}

#[test]
fn line_formatter_uses_its_layout() {
    let e = event(Some("c"), LogLevel::Info, "f.rs", "m");
    let plain = LineFormatter::Plain(PlainFormatter::new(false));
    let structured = LineFormatter::Json(json(false));
    assert_eq!(plain.format(&e), PlainFormatter::new(false).format(&e));
    assert_eq!(structured.format(&e), json(false).format(&e));
    assert_ne!(plain.format(&e), structured.format(&e));
}
