use dev_server_proxy::logger::{log_event, parse_log_level, LogLevel};
use dev_server_proxy::types::LogEvent;

#[test]
fn log_line_format() {
    let event = LogEvent {
        timestamp: "2024-01-01T00:00:00+00:00".to_string(),
        event: "proxy".to_string(),
        req_path: "/api".to_string(),
        proxy_path: "http://h/api".to_string(),
        status: 200,
    };
    assert_eq!(
        log_event(&event),
        "[2024-01-01T00:00:00+00:00] proxy | req: /api | proxy: http://h/api | status: 200\n"
    );
}

#[test]
fn log_line_status_digits() {
    for status in [0u16, 7, 10, 502, 65535] {
        let event = LogEvent {
            timestamp: String::new(),
            event: String::new(),
            req_path: String::new(),
            proxy_path: String::new(),
            status,
        };
        assert_eq!(log_event(&event), format!("[]  | req:  | proxy:  | status: {}\n", status));
    }
}

#[test]
fn log_levels() {
    assert_eq!(parse_log_level("trace"), LogLevel::Trace);
    assert_eq!(parse_log_level("DeBuG"), LogLevel::Debug);
    assert_eq!(parse_log_level("INFO"), LogLevel::Info);
    assert_eq!(parse_log_level("warn"), LogLevel::Warn);
    assert_eq!(parse_log_level("Error"), LogLevel::Error);
    assert_eq!(parse_log_level("verbose"), LogLevel::Info);
    assert_eq!(parse_log_level(""), LogLevel::Info);
    assert_eq!(parse_log_level("warning"), LogLevel::Info);
}
