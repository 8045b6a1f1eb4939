use ai_search_mcp::config_file::ConfigFile;
use ai_search_mcp::config_ui::{
    check_connection, content_type_for, default_prompts, is_admin_password, SaveConfigRequest,
};
use ai_search_mcp::config::{DEFAULT_SPLIT_PROMPT, DEFAULT_SYSTEM_PROMPT};
use ai_search_mcp::daemon::{
    check_instance, lock_file_name, pid_file_content, pid_file_name, read_pid_file, InstanceCheck,
    PidFileRead,
};
use ai_search_mcp::middleware::{auth_decision, cors_plan, is_quiet_path, AuthDecision, CorsPlan};
use ai_search_mcp::session::SessionTable;
use ai_search_mcp::sse::{SseConnectionError, SseConnectionPool};
use ai_search_mcp::time_format::two_decimals;

fn s(x: &str) -> Option<String> {
    Some(x.to_string())
}

#[test]
fn open_paths_need_no_key() {
    for p in ["/health", "/mcp", "/", "/login", "/favicon.ico", "/static/app.js", "/api/config", "/.well-known/x"] {
        assert_eq!(auth_decision(p, &None, &None, "k"), AuthDecision::Allow, "{}", p);
    }
}

#[test]
fn keyed_paths_take_header_or_query_key() {
    for p in ["/http", "/sse"] {
        assert_eq!(auth_decision(p, &s("Bearer k"), &None, "k"), AuthDecision::Allow);
        assert_eq!(auth_decision(p, &s("k"), &None, "k"), AuthDecision::Allow);
        assert_eq!(auth_decision(p, &s("Bearer x"), &s("key=k"), "k"), AuthDecision::Unauthorized);
        assert_eq!(auth_decision(p, &None, &s("a=1&key=k"), "k"), AuthDecision::Allow);
        assert_eq!(auth_decision(p, &None, &s("key=x&key=k"), "k"), AuthDecision::Unauthorized);
        assert_eq!(auth_decision(p, &None, &s("a=1"), "k"), AuthDecision::Unauthorized);
        assert_eq!(auth_decision(p, &None, &None, "k"), AuthDecision::Unauthorized);
    }
}

#[test]
fn other_paths_need_the_header() {
    assert_eq!(auth_decision("/api/search", &s("Bearer k"), &None, "k"), AuthDecision::Allow);
    assert_eq!(auth_decision("/api/search", &None, &s("key=k"), "k"), AuthDecision::Unauthorized);
    assert_eq!(auth_decision("/api/search", &s("Bearer kk"), &None, "k"), AuthDecision::Unauthorized);
    assert_eq!(auth_decision("/api/search/stream", &None, &None, "k"), AuthDecision::Unauthorized);
}

#[test]
fn quiet_paths() {
    assert!(is_quiet_path("/health", false));
    assert!(is_quiet_path("/api/config", true));
    assert!(!is_quiet_path("/api/config", false));
    assert!(is_quiet_path("/static/a.css", false));
    assert!(!is_quiet_path("/http", true));
}

#[test]
fn cors_settings() {
    assert!(matches!(cors_plan(&None), CorsPlan::LocalOnly));
    assert!(matches!(cors_plan(&s("ANY")), CorsPlan::Any));
    match cors_plan(&s(" http://a , http://b,")) {
        CorsPlan::List(v) => assert_eq!(v, vec!["http://a", "http://b", ""]),
        _ => panic!("expected a list"),
    }
    match cors_plan(&s("http://a\u{1},http://b\u{7f},http://é\tx")) {
        CorsPlan::List(v) => assert_eq!(v, vec!["http://é\tx"]),
        _ => panic!("expected a list"),
    }
}

#[test]
fn connection_pool_limit() {
    let mut p = SseConnectionPool::new(2);
    let a = p.try_acquire().unwrap();
    let _b = p.try_acquire().unwrap();
    assert_eq!(p.current_count(), 2);
    assert_eq!(p.try_acquire().err(), Some(SseConnectionError::LimitExceeded));
    assert_eq!(SseConnectionError::LimitExceeded.message(), "SSE connection limit exceeded");
    p.release(a);
    assert_eq!(p.current_count(), 1);
    assert!(p.try_acquire().is_ok());
    let mut none = SseConnectionPool::new(0);
    assert!(none.try_acquire().is_err());
    assert_eq!(none.current_count(), 0);
}

#[test]
fn sessions() {
    let mut t: SessionTable<u32> = SessionTable::new();
    t.add_session("a".to_string(), 1, 0);
    t.add_session("b".to_string(), 2, 0);
    t.add_session("a".to_string(), 3, 0);
    assert_eq!(t.len(), 2);
    assert_eq!(t.get_session("a", 5_000_000_000), Some(&3));
    assert_eq!(t.get_session("c", 5_000_000_000), None);
    // "b" idle 11 s, "a" idle 6 s: with a 10 s timeout only "b" expires.
    assert_eq!(t.cleanup_expired(11_000_000_000, 10), 1);
    assert_eq!(t.get_session("b", 11_000_000_000), None);
    assert_eq!(t.get_session("a", 11_000_000_000), Some(&3));
    // exactly 10 whole seconds idle is not more than the timeout.
    assert_eq!(t.cleanup_expired(21_999_999_999, 10), 0);
    t.remove_session("a");
    assert_eq!(t.len(), 0);
    t.remove_session("a");
    assert_eq!(t.len(), 0);
}

#[test]
fn pid_files() {
    assert_eq!(pid_file_content(1234, 11000), "1234\n11000\n");
    assert_eq!(read_pid_file("1234\n11000\n"), PidFileRead::Record { pid: 1234, port: 11000 });
    assert_eq!(read_pid_file("1234\r\n80"), PidFileRead::Record { pid: 1234, port: 80 });
    assert_eq!(read_pid_file("1234\n"), PidFileRead::TooShort);
    assert_eq!(read_pid_file("x\n1\n"), PidFileRead::InvalidPid);
    assert_eq!(read_pid_file("1\n70000\n"), PidFileRead::InvalidPort);
    for (pid, port) in [(0u32, 0u16), (u32::MAX, u16::MAX), (42, 11000)] {
        assert_eq!(read_pid_file(&pid_file_content(pid, port)), PidFileRead::Record { pid, port });
    }
    let written = read_pid_file(&pid_file_content(42, 11000));
    assert_eq!(check_instance(written, true, 11000), InstanceCheck::SamePort { pid: 42 });
    assert_eq!(check_instance(written, true, 12000), InstanceCheck::OtherPort);
    assert_eq!(check_instance(written, false, 11000), InstanceCheck::Stale);
    assert_eq!(check_instance(PidFileRead::TooShort, true, 11000), InstanceCheck::Stale);
    assert_eq!(check_instance(PidFileRead::InvalidPid, true, 11000), InstanceCheck::InvalidPid);
    assert_eq!(check_instance(PidFileRead::InvalidPort, false, 11000), InstanceCheck::InvalidPort);
    assert_eq!(pid_file_name(), "server.pid");
    assert_eq!(lock_file_name(11000), "server-11000.lock");
}

#[test]
fn configuration_interface() {
    assert!(is_admin_password("xinchen", &None));
    assert!(!is_admin_password("secret", &None));
    assert!(is_admin_password("secret", &s("secret")));
    assert!(!is_admin_password("xinchen", &s("secret")));
    assert!(check_connection("https://a", "k").is_ok());
    assert_eq!(check_connection("a", "k").unwrap_err(), "API URL 必须以 http:// 或 https:// 开头");
    assert_eq!(check_connection("http://a", "").unwrap_err(), "API Key 不能为空");
    assert_eq!(content_type_for("a.css"), "text/css");
    assert_eq!(content_type_for("a.js"), "application/javascript");
    assert_eq!(content_type_for("a.json"), "text/plain");
    let p = default_prompts();
    assert_eq!(p.system_prompt, DEFAULT_SYSTEM_PROMPT);
    assert_eq!(p.split_prompt, DEFAULT_SPLIT_PROMPT);
    let d = ConfigFile::interface_default();
    assert_eq!((d.search_model_id.as_str(), d.timeout, d.max_query_plan), ("Grok", 180, 10));
    let req = SaveConfigRequest {
        api_url: "http://a".to_string(),
        api_key: "k".to_string(),
        search_model_id: "m".to_string(),
        analysis_model_id: None,
        timeout: 30,
        stream: false,
        filter_thinking: false,
        analysis_retry_count: 4,
        search_retry_count: 5,
        log_level: "DEBUG".to_string(),
        max_query_plan: 2,
        http_api_key: "h".to_string(),
        admin_password: "p".to_string(),
        system_prompt: None,
        split_prompt: Some("sp".to_string()),
    };
    let c = req.into_config_file();
    assert_eq!(c.retry_count, 1);
    assert_eq!(c.analysis_retry_count, 4);
    assert_eq!(c.split_prompt, Some("sp".to_string()));
    assert!(c.validate().is_ok());
}

#[test]
fn log_timestamps_keep_two_decimals() {
    assert_eq!(two_decimals("2026-03-04  03:28:09.123"), "2026-03-04  03:28:09.12");
    assert_eq!(two_decimals("no fraction"), "no fraction");
    assert_eq!(two_decimals("a.b.99x"), "a.b.99");
}
