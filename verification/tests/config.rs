use ai_search_mcp::config::{AIConfig, EnvSettings, DEFAULT_SPLIT_PROMPT, DEFAULT_SYSTEM_PROMPT};
use ai_search_mcp::config_file::{
    config_dir_in, config_path_in, default_admin_password, default_analysis_retry_count,
    default_filter_thinking, default_http_api_key, default_log_level, default_max_query_plan,
    default_retry_count, default_search_retry_count, default_stream, default_timeout, join_path,
    ConfigFile,
};
use ai_search_mcp::error::AISearchError;

fn env() -> EnvSettings {
    EnvSettings {
        api_url: Some("http://localhost:10000".to_string()),
        api_key: Some("k".to_string()),
        search_model_id: None,
        model_id: Some("m".to_string()),
        analysis_model_id: None,
        system_prompt: None,
        split_prompt: None,
        timeout: None,
        stream: None,
        filter_thinking: None,
        retry_count: None,
        analysis_retry_count: None,
        search_retry_count: None,
        log_level: None,
        max_query_plan: None,
        http_api_key: None,
        http_sse_heartbeat: None,
        http_max_sse_connections: None,
        http_max_body_size: None,
        http_mcp_channel_capacity: None,
        http_session_timeout: None,
    }
}

fn file() -> ConfigFile {
    ConfigFile {
        api_url: "https://api.example.com".to_string(),
        api_key: "key".to_string(),
        search_model_id: "model".to_string(),
        analysis_model_id: None,
        timeout: 180,
        stream: true,
        filter_thinking: true,
        retry_count: 1,
        analysis_retry_count: 1,
        search_retry_count: 0,
        log_level: "INFO".to_string(),
        max_query_plan: 10,
        http_api_key: "xinchen".to_string(),
        admin_password: "xinchen".to_string(),
        system_prompt: None,
        split_prompt: None,
    }
}

fn env_error(e: &EnvSettings) -> AISearchError {
    match AIConfig::from_env_values(e) {
        Err(err) => err,
        Ok(_) => panic!("expected a configuration error"),
    }
}

fn config_message(e: AISearchError) -> String {
    match e {
        AISearchError::Config(m) => m,
        other => panic!("not a configuration error: {:?}", other),
    }
}

#[test]
fn file_defaults() {
    assert_eq!(default_timeout(), 180);
    assert!(default_stream());
    assert!(default_filter_thinking());
    assert_eq!(default_retry_count(), 1);
    assert_eq!(default_analysis_retry_count(), 1);
    assert_eq!(default_search_retry_count(), 0);
    assert_eq!(default_log_level(), "INFO");
    assert_eq!(default_max_query_plan(), 10);
    assert_eq!(default_http_api_key(), "xinchen");
    assert_eq!(default_admin_password(), "xinchen");
}

#[test]
fn file_validation_checks_in_order() {
    assert!(file().validate().is_ok());
    let mut f = file();
    f.api_url = String::new();
    assert_eq!(config_message(f.validate().unwrap_err()), "API URL 不能为空");
    let mut f = file();
    f.api_url = "ftp://x".to_string();
    assert_eq!(config_message(f.validate().unwrap_err()), "API URL 必须以 http:// 或 https:// 开头");
    let mut f = file();
    f.api_key = String::new();
    assert_eq!(config_message(f.validate().unwrap_err()), "API Key 不能为空");
    let mut f = file();
    f.search_model_id = String::new();
    assert_eq!(config_message(f.validate().unwrap_err()), "搜索模型 ID 不能为空");
    let mut f = file();
    f.timeout = 0;
    assert_eq!(config_message(f.validate().unwrap_err()), "超时时间必须在 1-300 秒之间");
    let mut f = file();
    f.timeout = 301;
    assert!(f.validate().is_err());
    f.timeout = 300;
    assert!(f.validate().is_ok());
}

#[test]
fn configuration_directory_and_file() {
    assert_eq!(join_path("/home/u", "x"), "/home/u/x");
    assert_eq!(join_path("/home/u/", "x"), "/home/u/x");
    assert_eq!(join_path("", "x"), "x");
    assert_eq!(config_dir_in(Some("/home/u".to_string())).unwrap(), "/home/u/.ai-search-mcp");
    assert_eq!(
        config_path_in(Some("/root/".to_string())).unwrap(),
        "/root/.ai-search-mcp/config.json"
    );
    assert_eq!(config_message(config_dir_in(None).unwrap_err()), "无法获取用户主目录");
    assert_eq!(config_message(config_path_in(None).unwrap_err()), "无法获取用户主目录");
    if let Ok(p) = ConfigFile::config_path() {
        assert!(p.ends_with("/.ai-search-mcp/config.json"));
    }
    if let Ok(p) = ConfigFile::config_dir() {
        assert!(p.ends_with(".ai-search-mcp"));
    }
}

#[test]
fn configuration_from_file_takes_defaults_for_prompts_and_http() {
    let c = AIConfig::from_config_file(file());
    assert_eq!(c.system_prompt, DEFAULT_SYSTEM_PROMPT);
    assert_eq!(c.split_prompt, DEFAULT_SPLIT_PROMPT);
    assert_eq!(c.http_sse_heartbeat, 5);
    assert_eq!(c.http_max_sse_connections, 100);
    assert_eq!(c.http_max_body_size, 10 * 1024 * 1024);
    assert_eq!(c.http_mcp_channel_capacity, 100);
    assert_eq!(c.http_session_timeout, 1800);
    assert_eq!(c.timeout, 180);
    let mut f = file();
    f.system_prompt = Some("own {current_time}".to_string());
    let c = AIConfig::from_config_file(f);
    assert_eq!(c.system_prompt, "own {current_time}");
    assert!(DEFAULT_SYSTEM_PROMPT.contains("{current_time}"));
}

#[test]
fn configuration_from_environment_defaults() {
    let c = AIConfig::from_env_values(&env()).ok().unwrap();
    assert_eq!(c.api_url, "http://localhost:10000");
    assert_eq!(c.search_model_id, "m");
    assert_eq!(c.timeout, 60);
    assert!(c.stream);
    assert!(c.filter_thinking);
    assert_eq!(c.retry_count, 1);
    assert_eq!(c.analysis_retry_count, 1);
    assert_eq!(c.search_retry_count, 0);
    assert_eq!(c.log_level, "INFO");
    assert_eq!(c.max_query_plan, 1);
    assert_eq!(c.http_api_key, "xinchen");
    assert_eq!(c.http_sse_heartbeat, 5);
    assert_eq!(c.http_max_sse_connections, 100);
    assert_eq!(c.http_max_body_size, 10 * 1024 * 1024);
    assert_eq!(c.http_mcp_channel_capacity, 100);
    assert_eq!(c.http_session_timeout, 1800);
}

#[test]
fn configuration_from_environment_values() {
    let mut e = env();
    e.search_model_id = Some("s".to_string());
    e.timeout = Some("120".to_string());
    e.stream = Some("FALSE".to_string());
    e.filter_thinking = Some("TrUe".to_string());
    e.log_level = Some("debug".to_string());
    e.max_query_plan = Some("3".to_string());
    e.retry_count = Some("oops".to_string());
    e.http_max_body_size = Some("2".to_string());
    let c = AIConfig::from_env_values(&e).ok().unwrap();
    assert_eq!(c.search_model_id, "s");
    assert_eq!(c.timeout, 120);
    assert!(!c.stream);
    assert!(c.filter_thinking);
    assert_eq!(c.log_level, "DEBUG");
    assert_eq!(c.max_query_plan, 3);
    assert_eq!(c.retry_count, 1);
    assert_eq!(c.http_max_body_size, 2 * 1024 * 1024);
}

#[test]
fn configuration_from_environment_errors() {
    let mut e = env();
    e.api_url = None;
    assert_eq!(
        config_message(env_error(&e)),
        "缺少 AI_API_URL 环境变量或配置文件"
    );
    let mut e = env();
    e.api_key = None;
    assert_eq!(config_message(env_error(&e)), "缺少 AI_API_KEY 环境变量");
    let mut e = env();
    e.model_id = None;
    assert_eq!(
        config_message(env_error(&e)),
        "缺少 AI_SEARCH_MODEL_ID 或 AI_MODEL_ID 环境变量"
    );
    let mut e = env();
    e.http_api_key = Some(String::new());
    assert_eq!(config_message(env_error(&e)), "API key 不能为空");
    let mut e = env();
    e.api_url = Some("localhost".to_string());
    assert_eq!(
        config_message(env_error(&e)),
        "API URL 必须以 http:// 或 https:// 开头: localhost"
    );
    let mut e = env();
    e.timeout = Some("0".to_string());
    assert_eq!(
        config_message(env_error(&e)),
        "超时时间必须在 1-300 秒之间: 0"
    );
    let mut e = env();
    e.max_query_plan = Some("1001".to_string());
    assert_eq!(
        config_message(env_error(&e)),
        "最大子查询数必须在 1-1000 之间: 1001"
    );
}

#[test]
fn long_http_key_is_cut_to_256_bytes() {
    let mut e = env();
    e.http_api_key = Some("k".repeat(300));
    let c = AIConfig::from_env_values(&e).ok().unwrap();
    assert_eq!(c.http_api_key, "k".repeat(256));
    let mut e = env();
    e.http_api_key = Some("k".repeat(256));
    let c = AIConfig::from_env_values(&e).ok().unwrap();
    assert_eq!(c.http_api_key.len(), 256);
}

#[test]
fn configuration_validation() {
    let c = AIConfig::from_config_file(file());
    assert!(c.validate().is_ok());
    let mut c2 = c.clone();
    c2.max_query_plan = 0;
    assert_eq!(config_message(c2.validate().err().unwrap()), "最大子查询数必须在 1-1000 之间: 0");
}

#[test]
fn error_messages() {
    assert_eq!(AISearchError::Config("x".to_string()).message(), "配置错误: x");
    assert_eq!(
        AISearchError::Api { code: 429, message: "m".to_string() }.message(),
        "API 错误 (HTTP 429): m"
    );
    assert_eq!(
        AISearchError::Network { message: "a".to_string(), suggestion: "b".to_string() }.message(),
        "网络错误: a，b"
    );
    assert_eq!(AISearchError::Protocol("p".to_string()).message(), "协议错误: p");
    assert_eq!(AISearchError::Http("h".to_string()).message(), "HTTP 请求错误: h");
    assert_eq!(AISearchError::Json("j".to_string()).message(), "JSON 错误: j");
    assert_eq!(AISearchError::Io("i".to_string()).message(), "IO 错误: i");
}

#[test]
fn debug_text_hides_keys_and_prompts() {
    let mut f = file();
    f.api_key = "secret-api-key".to_string();
    f.http_api_key = "secret-http-key".to_string();
    f.analysis_model_id = Some("judge \"v2\"".to_string());
    let c = AIConfig::from_config_file(f);
    let text = c.redacted_debug();
    assert_eq!(
        text,
        "AIConfig { api_url: \"https://api.example.com\", api_key: \"***REDACTED***\", \
         search_model_id: \"model\", analysis_model_id: Some(\"judge \\\"v2\\\"\"), \
         system_prompt: \"<omitted>\", split_prompt: \"<omitted>\", timeout: 180, stream: true, \
         filter_thinking: true, retry_count: 1, analysis_retry_count: 1, search_retry_count: 0, \
         log_level: \"INFO\", max_query_plan: 10, http_api_key: \"***REDACTED***\", \
         http_sse_heartbeat: 5, http_max_sse_connections: 100, http_max_body_size: 10485760, \
         http_mcp_channel_capacity: 100, http_session_timeout: 1800 }"
    );
    assert!(!text.contains("secret"));
}

#[test]
fn log_level_is_upper_cased_in_unicode() {
    let mut e = env();
    e.log_level = Some("straße".to_string());
    let c = AIConfig::from_env_values(&e).ok().unwrap();
    assert_eq!(c.log_level, "STRASSE");
}

#[test]
fn a_loaded_file_wins_over_the_environment() {
    let mut broken = env();
    broken.api_url = None;
    broken.http_api_key = Some(format!("a{}", "é".repeat(200)));
    let c = AIConfig::from_file_or_env(Some(file()), &broken).ok().unwrap();
    assert_eq!(c.api_url, "https://api.example.com");
    assert_eq!(c.http_api_key, "xinchen");
    assert_eq!(c.timeout, 180);
    let c = AIConfig::from_file_or_env(None, &env()).ok().unwrap();
    assert_eq!(c.api_url, "http://localhost:10000");
    assert_eq!(c.search_model_id, "m");
    match AIConfig::from_file_or_env(None, &broken) {
        Err(AISearchError::Config(m)) => assert_eq!(m, "缺少 AI_API_URL 环境变量或配置文件"),
        _ => panic!("expected the missing URL error"),
    }
}

#[test]
fn missing_environment_settings_come_first() {
    assert!(AIConfig::missing_env_setting(&env()).is_none());
    let mut e = env();
    e.api_key = None;
    e.http_api_key = Some(String::new());
    assert_eq!(config_message(AIConfig::missing_env_setting(&e).unwrap()), "缺少 AI_API_KEY 环境变量");
    let mut e = env();
    e.model_id = None;
    assert_eq!(
        config_message(AIConfig::missing_env_setting(&e).unwrap()),
        "缺少 AI_SEARCH_MODEL_ID 或 AI_MODEL_ID 环境变量"
    );
    let mut e = env();
    e.http_api_key = Some(String::new());
    assert_eq!(config_message(AIConfig::missing_env_setting(&e).unwrap()), "API key 不能为空");
    // A key cut inside a character is never reached when a setting is missing.
    let mut e = env();
    e.api_url = None;
    e.http_api_key = Some(format!("a{}", "é".repeat(200)));
    assert_eq!(config_message(env_error(&e)), "缺少 AI_API_URL 环境变量或配置文件");
}
