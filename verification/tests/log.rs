use ten_rust::log::event::LogEvent;
use ten_rust::log::router::{Delivery, InstallConflict, LogRouter, RouterSlot};
use ten_rust::log::validate::{config_diagnostics, ConfigDiagnostic};
use ten_rust::log::{
    ten_configure_log, ten_log, AdvancedLogConfig, AdvancedLogEmitter, AdvancedLogFormatter,
    AdvancedLogHandler, AdvancedLogLevel, AdvancedLogMatcher, ConsoleEmitterConfig,
    FileEmitterConfig, FormatterType, LogLevel, StreamType,
};

const NOW: u64 = 1_700_000_000_123;

fn written_to(deliveries: &[Delivery], handler: usize) -> String {
    let mut content = String::new();
    for delivery in deliveries {
        if delivery.handler == handler {
            content.push_str(&delivery.line);
        }
    }
    content
}

fn single_handler(
    level: AdvancedLogLevel,
    formatter_type: FormatterType,
    colored: bool,
    emitter: AdvancedLogEmitter,
) -> AdvancedLogConfig {
    AdvancedLogConfig {
        level: Some(level.clone()),
        handlers: Some(vec![AdvancedLogHandler {
            matchers: vec![AdvancedLogMatcher { level, category: None }],
            formatter: AdvancedLogFormatter { formatter_type, colored: Some(colored) },
            emitter,
        }]),
    }
}

fn stdout() -> AdvancedLogEmitter {
    AdvancedLogEmitter::Console(ConsoleEmitterConfig { stream: StreamType::Stdout })
}

fn file(path: &str) -> AdvancedLogEmitter {
    AdvancedLogEmitter::File(FileEmitterConfig { path: path.to_string() })
}

fn category_config(path: &str) -> AdvancedLogConfig {
    AdvancedLogConfig {
        level: Some(AdvancedLogLevel::Debug),
        handlers: Some(vec![AdvancedLogHandler {
            matchers: vec![
                AdvancedLogMatcher {
                    level: AdvancedLogLevel::Info,
                    category: Some("auth".to_string()),
                },
                AdvancedLogMatcher {
                    level: AdvancedLogLevel::Debug,
                    category: Some("database".to_string()),
                },
            ],
            formatter: AdvancedLogFormatter {
                formatter_type: FormatterType::Plain,
                colored: Some(false),
            },
            emitter: file(path),
        }]),
    }
}

fn emit(router: &LogRouter, category: &str, level: LogLevel, message: &str) -> Vec<Delivery> {
    ten_log(router, category, 1, 2, level, "handle", "service.rs", 7, message, NOW)
}

#[test]
fn test_log_level_info() {
    let path = "/tmp/level_info.log";
    let config = single_handler(AdvancedLogLevel::Info, FormatterType::Plain, false, file(path));

    let router = ten_configure_log(&config);

    let mut content = String::new();
    let events = [
        (LogLevel::Verbose, 100, "Trace message"),
        (LogLevel::Debug, 101, "Debug message"),
        (LogLevel::Info, 102, "Info message"),
        (LogLevel::Warn, 103, "Warn message"),
        (LogLevel::Error, 104, "Error message"),
    ];
    for (level, line_no, message) in events {
        let deliveries = ten_log(
            &router,
            "test_category",
            1234,
            5678,
            level,
            "test_func",
            "test.rs",
            line_no,
            message,
            NOW,
        );
        content.push_str(&written_to(&deliveries, 0));
    }

    assert!(!content.contains("Trace message"), "Trace log should not appear");
    assert!(!content.contains("Debug message"), "Debug log should not appear");
    assert!(content.contains("Info message"), "Info log should appear");
    assert!(content.contains("Warn message"), "Warn log should appear");
    assert!(content.contains("Error message"), "Error log should appear");
    assert_eq!(content.lines().count(), 3);
}

#[test]
fn test_formatter_plain_colored() {
    let plain_colored_config =
        single_handler(AdvancedLogLevel::Trace, FormatterType::Plain, true, stdout());

    let router = ten_configure_log(&plain_colored_config);
    let events = [
        (LogLevel::Error, 50, "Error message in red", "\u{1b}[31mERROR\u{1b}[0m"),
        (LogLevel::Warn, 51, "Warning message in yellow", "\u{1b}[33mWARN\u{1b}[0m"),
        (LogLevel::Info, 52, "Info message in default color", " INFO "),
        (LogLevel::Debug, 53, "Debug message in blue", "\u{1b}[34mDEBUG\u{1b}[0m"),
    ];
    for (level, line_no, message, token) in events {
        let deliveries = ten_log(
            &router,
            "test_category",
            1234,
            5678,
            level,
            "test_plain_colored",
            "formatter.rs",
            line_no,
            message,
            NOW,
        );
        assert_eq!(deliveries.len(), 1);
        assert!(deliveries[0].line.contains(token), "{:?}", deliveries[0].line);
        assert!(deliveries[0].line.contains(message));
    }
}

#[test]
fn test_formatter_plain_no_color() {
    let plain_no_color_config =
        single_handler(AdvancedLogLevel::Info, FormatterType::Plain, false, stdout());

    let router = ten_configure_log(&plain_no_color_config);
    let deliveries = ten_log(
        &router,
        "test_category",
        1234,
        5678,
        LogLevel::Error,
        "test_plain_no_color",
        "formatter.rs",
        51,
        "Plain no color message",
        NOW,
    );

    assert_eq!(deliveries.len(), 1);
    assert_eq!(
        deliveries[0].line,
        "1700000000.123 1234(5678) ERROR [test_category] formatter.rs:51 test_plain_no_color \
         Plain no color message\n"
    );
}

#[test]
fn test_formatter_json_no_color() {
    let json_config = single_handler(AdvancedLogLevel::Info, FormatterType::Json, false, stdout());

    let router = ten_configure_log(&json_config);
    let deliveries = ten_log(
        &router,
        "test_category",
        1234,
        5678,
        LogLevel::Info,
        "test_json",
        "formatter.rs",
        52,
        "JSON formatted message",
        NOW,
    );

    assert_eq!(deliveries.len(), 1);
    assert_eq!(
        deliveries[0].line,
        "{\"timestamp\":1700000000123,\"level\":\"INFO\",\"pid\":1234,\"tid\":5678,\
         \"category\":\"test_category\",\"file\":\"formatter.rs\",\"line\":52,\
         \"function\":\"test_json\",\"message\":\"JSON formatted message\"}\n"
    );
}

#[test]
fn test_formatter_json_colored() {
    let json_config = single_handler(AdvancedLogLevel::Debug, FormatterType::Json, true, stdout());

    let router = ten_configure_log(&json_config);
    let debug = ten_log(
        &router,
        "test_category",
        1234,
        5678,
        LogLevel::Debug,
        "test_json_colored",
        "formatter.rs",
        53,
        "JSON colored message",
        NOW,
    );
    let error = ten_log(
        &router,
        "test_category",
        1234,
        5678,
        LogLevel::Error,
        "test_json_colored",
        "formatter.rs",
        54,
        "JSON colored message",
        NOW,
    );

    assert_eq!(debug.len(), 1);
    assert!(debug[0].line.starts_with("\u{1b}[34m{"));
    assert!(debug[0].line.ends_with("}\u{1b}[0m\n"));
    assert_eq!(error.len(), 1);
    assert!(error[0].line.starts_with("\u{1b}[31m{"));
    assert!(error[0].line.contains("JSON colored message"));
}

#[test]
fn test_console_emitter_stdout() {
    let stdout_config =
        single_handler(AdvancedLogLevel::Info, FormatterType::Plain, false, stdout());

    let router = ten_configure_log(&stdout_config);
    let deliveries = ten_log(
        &router,
        "test_category",
        1234,
        5678,
        LogLevel::Info,
        "test_stdout",
        "emitter.rs",
        60,
        "Message to stdout",
        NOW,
    );

    assert_eq!(deliveries.len(), 1);
    assert_eq!(deliveries[0].handler, 0);
    assert_eq!(router.emitter(0), Some(&stdout()));
    assert!(deliveries[0].line.contains("Message to stdout"));
}

#[test]
fn test_console_emitter_stderr() {
    let test_file = "/tmp/stderr.log";
    let stderr_config =
        single_handler(AdvancedLogLevel::Warn, FormatterType::Plain, false, file(test_file));

    let router = ten_configure_log(&stderr_config);
    let deliveries = ten_log(
        &router,
        "test_category",
        1234,
        5678,
        LogLevel::Warn,
        "test_stderr",
        "emitter.rs",
        61,
        "Warning message to stderr",
        NOW,
    );

    let content = written_to(&deliveries, 0);
    assert!(content.contains("Warning message to stderr"), "File should contain warning message");
}

#[test]
fn test_file_emitter_plain() {
    let test_file = "/tmp/plain.log";
    let file_plain_config =
        single_handler(AdvancedLogLevel::Info, FormatterType::Plain, false, file(test_file));

    let router = ten_configure_log(&file_plain_config);
    let mut content = String::new();
    content.push_str(&written_to(
        &ten_log(
            &router,
            "test_category",
            1234,
            5678,
            LogLevel::Info,
            "test_file_plain",
            "file_emitter.rs",
            70,
            "Plain message to file",
            NOW,
        ),
        0,
    ));
    content.push_str(&written_to(
        &ten_log(
            &router,
            "test_category",
            1234,
            5678,
            LogLevel::Warn,
            "test_file_plain",
            "file_emitter.rs",
            71,
            "Warning message to file",
            NOW,
        ),
        0,
    ));

    assert_eq!(router.emitter(0), Some(&file(test_file)));
    assert_eq!(router.emitter(1), None);
    assert!(content.contains("Plain message to file"), "File should contain log content");
    assert!(content.contains("Warning message to file"), "File should contain warning log");
}

#[test]
fn test_file_emitter_json() {
    let test_file = "/tmp/json.log";
    let file_json_config =
        single_handler(AdvancedLogLevel::Debug, FormatterType::Json, false, file(test_file));

    let router = ten_configure_log(&file_json_config);
    let deliveries = ten_log(
        &router,
        "test_category",
        1234,
        5678,
        LogLevel::Debug,
        "test_file_json",
        "file_emitter.rs",
        80,
        "JSON message to file",
        NOW,
    );

    let json_content = written_to(&deliveries, 0);
    assert!(
        json_content.contains("JSON message to file"),
        "JSON file should contain log content"
    );
}

#[test]
fn test_category_matchers_matching_messages() {
    let config = category_config("/tmp/matching.log");

    let router = ten_configure_log(&config);

    let mut log_content = String::new();
    let events = [
        ("auth", LogLevel::Info, "Auth service started"),
        ("auth", LogLevel::Debug, "Auth service debug message"),
        ("database", LogLevel::Debug, "DB connection pool initialized"),
        ("unknown", LogLevel::Info, "unknown target message"),
    ];
    for (category, level, message) in events {
        log_content.push_str(&written_to(&emit(&router, category, level, message), 0));
    }

    assert!(log_content.contains("Auth service started"));
    assert!(log_content.contains("DB connection pool initialized"));
    assert!(!log_content.contains("Auth service debug message"));
    assert!(!log_content.contains("unknown target message"));
}

#[test]
fn test_category_matchers_non_matching_messages() {
    let config = category_config("/tmp/non_matching.log");

    let router = ten_configure_log(&config);

    let mut log_content = String::new();
    let events = [
        ("auth", LogLevel::Debug, "Auth debug message"),
        ("database", LogLevel::Verbose, "DB trace message"),
        ("network", LogLevel::Info, "Network info message"),
        ("network", LogLevel::Debug, "Network debug message"),
        ("", LogLevel::Info, "Default category info message"),
        ("", LogLevel::Debug, "Default category debug message"),
    ];
    for (category, level, message) in events {
        log_content.push_str(&written_to(&emit(&router, category, level, message), 0));
    }

    assert!(!log_content.contains("Auth debug message"));
    assert!(!log_content.contains("DB trace message"));
    assert!(!log_content.contains("Network"));
    assert!(!log_content.contains("Default category"));
    assert_eq!(log_content, "");
}

#[test]
fn test_multiple_handlers_simplified() {
    let config = AdvancedLogConfig {
        level: Some(AdvancedLogLevel::Debug),
        handlers: Some(vec![
            AdvancedLogHandler {
                matchers: vec![AdvancedLogMatcher {
                    level: AdvancedLogLevel::Info,
                    category: Some("auth".to_string()),
                }],
                formatter: AdvancedLogFormatter {
                    formatter_type: FormatterType::Plain,
                    colored: Some(false),
                },
                emitter: file("/tmp/a.log"),
            },
            AdvancedLogHandler {
                matchers: vec![AdvancedLogMatcher {
                    level: AdvancedLogLevel::Debug,
                    category: Some("database".to_string()),
                }],
                formatter: AdvancedLogFormatter {
                    formatter_type: FormatterType::Plain,
                    colored: Some(false),
                },
                emitter: file("/tmp/b.log"),
            },
        ]),
    };

    let mut slot = RouterSlot::new();
    assert_eq!(slot.configure(&config), Ok(()));

    let mut auth_content = String::new();
    let mut db_content = String::new();
    let events = [
        ("auth", LogLevel::Info, "User login successful"),
        ("auth", LogLevel::Warn, "Failed login attempt"),
        ("auth", LogLevel::Debug, "Auth token details"),
        ("database", LogLevel::Info, "Connection established"),
        ("database", LogLevel::Debug, "Query executed: SELECT * FROM users"),
        ("database", LogLevel::Debug, "Connection pool stats: 5 active"),
        ("network", LogLevel::Info, "Server started"),
        ("network", LogLevel::Debug, "Socket initialized"),
    ];
    for (category, level, message) in events {
        let router = slot.router().unwrap();
        let deliveries = emit(router, category, level, message);
        auth_content.push_str(&written_to(&deliveries, 0));
        db_content.push_str(&written_to(&deliveries, 1));
    }

    assert_eq!(
        slot.configure(&AdvancedLogConfig { level: None, handlers: None }),
        Err(InstallConflict)
    );
    assert_eq!(slot.router().unwrap().handler_count(), 2);

    assert!(
        auth_content.contains("User login successful"),
        "Auth file should contain info level message"
    );
    assert!(
        auth_content.contains("Failed login attempt"),
        "Auth file should contain warn level message"
    );
    assert!(
        !auth_content.contains("Auth token details"),
        "Auth file should not contain debug level message"
    );
    assert!(!auth_content.contains("database"), "Auth file should not contain database logs");
    assert!(!auth_content.contains("network"), "Auth file should not contain network logs");

    assert!(
        db_content.contains("Connection established"),
        "DB file should contain info level message"
    );
    assert!(db_content.contains("Query executed"), "DB file should contain debug level message");
    assert!(
        db_content.contains("Connection pool stats"),
        "DB file should contain debug level message"
    );
    assert!(!db_content.contains("auth"), "DB file should not contain auth logs");
    assert!(!db_content.contains("network"), "DB file should not contain network logs");
}

#[test]
fn test_default_config_no_handlers() {
    let config_no_handlers =
        AdvancedLogConfig { level: Some(AdvancedLogLevel::Warn), handlers: None };

    let router = ten_configure_log(&config_no_handlers);
    let deliveries = ten_log(
        &router,
        "test_category",
        1234,
        5678,
        LogLevel::Info,
        "test_default",
        "default.rs",
        100,
        "Default config info",
        NOW,
    );

    assert_eq!(router.handler_count(), 1);
    assert_eq!(router.emitter(0), Some(&stdout()));
    assert!(deliveries.is_empty());
}

#[test]
fn test_actual_logging_output() {
    let config = single_handler(AdvancedLogLevel::Trace, FormatterType::Json, true, stdout());

    let router = ten_configure_log(&config);

    let events = [
        (LogLevel::Debug, "main", "app.rs", 10, "Application started"),
        (LogLevel::Info, "auth", "auth.rs", 25, "User login successful"),
        (LogLevel::Warn, "db", "database.rs", 50, "Database connection pool almost full"),
        (LogLevel::Error, "network", "network.rs", 75, "Network connection timeout"),
        (LogLevel::Verbose, "parser", "json_parser.rs", 100, "Parse JSON: {\"key\": \"value\"}"),
    ];
    for (level, func_name, file_name, line_no, message) in events {
        let deliveries = ten_log(
            &router,
            "test_category",
            9999,
            8888,
            level,
            func_name,
            file_name,
            line_no,
            message,
            NOW,
        );
        assert_eq!(deliveries.len(), 1);
        assert!(deliveries[0].line.contains(file_name));
        assert!(deliveries[0].line.ends_with('\n'));
    }
    let last = ten_log(
        &router,
        "test_category",
        9999,
        8888,
        LogLevel::Verbose,
        "parser",
        "json_parser.rs",
        100,
        "Parse JSON: {\"key\": \"value\"}",
        NOW,
    );
    assert!(last[0].line.contains("Parse JSON: {\\\"key\\\": \\\"value\\\"}"));
}

#[test]
fn handlers_are_isolated() {
    let config = AdvancedLogConfig {
        level: None,
        handlers: Some(vec![
            AdvancedLogHandler {
                matchers: vec![AdvancedLogMatcher {
                    level: AdvancedLogLevel::Info,
                    category: Some("auth".to_string()),
                }],
                formatter: AdvancedLogFormatter {
                    formatter_type: FormatterType::Plain,
                    colored: None,
                },
                emitter: file("A"),
            },
            AdvancedLogHandler {
                matchers: vec![AdvancedLogMatcher {
                    level: AdvancedLogLevel::Debug,
                    category: Some("database".to_string()),
                }],
                formatter: AdvancedLogFormatter {
                    formatter_type: FormatterType::Plain,
                    colored: None,
                },
                emitter: file("B"),
            },
        ]),
    };
    let router = ten_configure_log(&config);

    let mut a = String::new();
    let mut b = String::new();
    let events = [
        ("auth", LogLevel::Info, "(auth,info)"),
        ("auth", LogLevel::Debug, "(auth,debug)"),
        ("database", LogLevel::Debug, "(database,debug)"),
        ("unknown", LogLevel::Info, "(unknown,info)"),
    ];
    for (category, level, message) in events {
        let deliveries = emit(&router, category, level, message);
        a.push_str(&written_to(&deliveries, 0));
        b.push_str(&written_to(&deliveries, 1));
    }

    assert_eq!(a, "1700000000.123 1(2) INFO [auth] service.rs:7 handle (auth,info)\n");
    assert_eq!(b, "1700000000.123 1(2) DEBUG [database] service.rs:7 handle (database,debug)\n");
}

#[test]
fn one_event_reaches_every_accepting_handler_in_order() {
    let handler = |formatter_type, emitter| AdvancedLogHandler {
        matchers: vec![AdvancedLogMatcher { level: AdvancedLogLevel::Warn, category: None }],
        formatter: AdvancedLogFormatter { formatter_type, colored: Some(true) },
        emitter,
    };
    let config = AdvancedLogConfig {
        level: None,
        handlers: Some(vec![
            handler(FormatterType::Plain, stdout()),
            handler(FormatterType::Plain, file("plain.log")),
            handler(FormatterType::Json, file("json.log")),
        ]),
    };
    let router = ten_configure_log(&config);

    let deliveries = emit(&router, "net", LogLevel::Fatal, "down");

    assert_eq!(deliveries.len(), 3);
    assert_eq!(deliveries[0].handler, 0);
    assert_eq!(deliveries[1].handler, 1);
    assert_eq!(deliveries[2].handler, 2);
    assert_eq!(
        deliveries[0].line,
        "1700000000.123 1(2) \u{1b}[31mFATAL\u{1b}[0m [net] service.rs:7 handle down\n"
    );
    assert_eq!(deliveries[1].line, "1700000000.123 1(2) FATAL [net] service.rs:7 handle down\n");
    assert!(deliveries[2].line.starts_with("{\"timestamp\":1700000000123,\"level\":\"FATAL\""));
    assert!(emit(&router, "net", LogLevel::Mandatory, "note").is_empty());
}

#[test]
fn default_config_lets_info_and_above_through() {
    let router = ten_configure_log(&AdvancedLogConfig { level: None, handlers: None });
    assert_eq!(router.handler_count(), 1);
    assert_eq!(router.emitter(0), Some(&stdout()));

    let passes = [LogLevel::Info, LogLevel::Warn, LogLevel::Error, LogLevel::Fatal, LogLevel::Mandatory];
    for level in passes {
        assert_eq!(emit(&router, "any", level, "m").len(), 1, "{:?}", level);
        assert_eq!(emit(&router, "", level, "m").len(), 1, "{:?}", level);
    }
    let stopped = [LogLevel::Debug, LogLevel::Verbose, LogLevel::Invalid];
    for level in stopped {
        assert!(emit(&router, "any", level, "m").is_empty(), "{:?}", level);
    }
    let line = &emit(&router, "", LogLevel::Warn, "m")[0].line;
    assert_eq!(line, "1700000000.123 1(2) \u{1b}[33mWARN\u{1b}[0m [-] service.rs:7 handle m\n");
}

#[test]
fn empty_handler_list_counts_as_no_handlers() {
    let router =
        ten_configure_log(&AdvancedLogConfig { level: Some(AdvancedLogLevel::Error), handlers: Some(vec![]) });
    assert_eq!(router.handler_count(), 1);
    assert!(emit(&router, "x", LogLevel::Warn, "m").is_empty());
    assert_eq!(emit(&router, "x", LogLevel::Error, "m").len(), 1);
}

#[test]
fn second_configure_is_rejected_and_first_router_keeps_routing() {
    let first = single_handler(AdvancedLogLevel::Error, FormatterType::Plain, false, file("first"));
    let second = single_handler(AdvancedLogLevel::Trace, FormatterType::Json, false, file("second"));
    let mut slot = RouterSlot::new();
    assert!(slot.router().is_none());

    assert_eq!(slot.install(ten_configure_log(&first)), Ok(()));
    assert_eq!(slot.install(ten_configure_log(&second)), Err(InstallConflict));
    assert_eq!(slot.configure(&second), Err(InstallConflict));

    let router = slot.router().unwrap();
    assert_eq!(router.emitter(0), Some(&file("first")));
    assert!(emit(router, "c", LogLevel::Warn, "quiet").is_empty());
    let deliveries = emit(router, "c", LogLevel::Error, "loud");
    assert_eq!(deliveries.len(), 1);
    assert_eq!(deliveries[0].line, "1700000000.123 1(2) ERROR [c] service.rs:7 handle loud\n");
}

#[test]
fn empty_slot_emits_nothing() {
    let slot = RouterSlot::new();
    let event = LogEvent {
        category: None,
        process_id: 1,
        thread_id: 1,
        level: LogLevel::Error,
        function_name: "f".to_string(),
        file_name: "f.rs".to_string(),
        line_number: 1,
        message: "m".to_string(),
        timestamp_ms: 0,
    };
    assert!(slot.emit(&event).is_empty());

    let mut filled = RouterSlot::new();
    filled.configure(&AdvancedLogConfig { level: None, handlers: None }).unwrap();
    let deliveries = filled.emit(&event);
    assert_eq!(deliveries.len(), 1);
    assert_eq!(deliveries[0].line, "0.000 1(1) \u{1b}[31mERROR\u{1b}[0m [-] f.rs:1 f m\n");
}

#[test]
fn file_lines_are_never_colored() {
    for formatter_type in [FormatterType::Plain, FormatterType::Json] {
        let config = single_handler(AdvancedLogLevel::Trace, formatter_type, true, file("x.log"));
        let router = ten_configure_log(&config);
        let deliveries = emit(&router, "c", LogLevel::Error, "m");
        assert_eq!(deliveries.len(), 1);
        assert!(!deliveries[0].line.contains('\u{1b}'));
    }
}

#[test]
fn diagnostics_name_dead_rules() {
    let handler = |matchers| AdvancedLogHandler {
        matchers,
        formatter: AdvancedLogFormatter { formatter_type: FormatterType::Plain, colored: None },
        emitter: stdout(),
    };
    let matcher = |category: Option<&str>| AdvancedLogMatcher {
        level: AdvancedLogLevel::Info,
        category: category.map(|c| c.to_string()),
    };
    let config = AdvancedLogConfig {
        level: None,
        handlers: Some(vec![
            handler(vec![matcher(None), matcher(Some("auth"))]),
            handler(vec![]),
            handler(vec![matcher(Some("a=b")), matcher(Some("ok")), matcher(Some(""))]),
        ]),
    };
    assert_eq!(
        config_diagnostics(&config),
        vec![
            ConfigDiagnostic::NoMatchers { handler: 1 },
            ConfigDiagnostic::MalformedCategory { handler: 2, matcher: 0 },
            ConfigDiagnostic::MalformedCategory { handler: 2, matcher: 2 },
        ]
    );
    let router = ten_configure_log(&config);
    assert_eq!(router.handler_count(), 3);
    let deliveries = emit(&router, "ok", LogLevel::Info, "m");
    assert_eq!(deliveries.len(), 2);
    assert_eq!(deliveries[0].handler, 0);
    assert_eq!(deliveries[1].handler, 2);

    assert!(config_diagnostics(&AdvancedLogConfig { level: None, handlers: None }).is_empty());
    assert!(config_diagnostics(&AdvancedLogConfig { level: None, handlers: Some(vec![]) })
        .is_empty());
    assert!(config_diagnostics(&category_config("x")).is_empty());
}

#[test]
fn categories_with_spaces_and_brackets_are_routed() {
    for category in ["a b", "x{y}", "tail]", "tab\there", "two\nlines", " "] {
        let config = AdvancedLogConfig {
            level: None,
            handlers: Some(vec![AdvancedLogHandler {
                matchers: vec![AdvancedLogMatcher {
                    level: AdvancedLogLevel::Warn,
                    category: Some(category.to_string()),
                }],
                formatter: AdvancedLogFormatter {
                    formatter_type: FormatterType::Json,
                    colored: None,
                },
                emitter: file("c.log"),
            }]),
        };
        assert!(config_diagnostics(&config).is_empty(), "{:?}", category);
        let router = ten_configure_log(&config);

        let deliveries = emit(&router, category, LogLevel::Warn, "m");
        assert_eq!(deliveries.len(), 1, "{:?}", category);
        assert_eq!(deliveries[0].handler, 0);
        assert_eq!(emit(&router, category, LogLevel::Fatal, "m").len(), 1, "{:?}", category);
        assert!(emit(&router, category, LogLevel::Info, "m").is_empty(), "{:?}", category);
        assert!(emit(&router, "other", LogLevel::Error, "m").is_empty(), "{:?}", category);
        assert!(emit(&router, "", LogLevel::Error, "m").is_empty(), "{:?}", category);
    }
    let plain = single_handler(AdvancedLogLevel::Info, FormatterType::Plain, false, stdout());
    let router = ten_configure_log(&plain);
    assert_eq!(
        emit(&router, "a b", LogLevel::Info, "m")[0].line,
        "1700000000.123 1(2) INFO [a b] service.rs:7 handle m\n"
    );
}
