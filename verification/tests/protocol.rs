use ai_search_mcp::config::AIConfig;
use ai_search_mcp::config_file::ConfigFile;
use ai_search_mcp::error::AISearchError;
use ai_search_mcp::error_codes;
use ai_search_mcp::mcp::{
    check_stdio_tool_call, check_tool_call, internal_error, method_not_found, no_prompts,
    no_resources, route_method, route_stdio_method, search_failed, session_endpoint,
    tool_description, McpMethod, StdioMethod, StdioToolCall, ToolCallParams, TOOL_NAME,
};
use ai_search_mcp::models::{validate_search_query, AppError, HealthResponse, SearchResponse};

fn params(is_object: bool, name: Option<&str>, query: Option<&str>) -> ToolCallParams {
    ToolCallParams {
        is_object,
        name: name.map(|s| s.to_string()),
        query: query.map(|s| s.to_string()),
    }
}

fn config(plan: u32) -> AIConfig {
    AIConfig::from_config_file(ConfigFile {
        api_url: "http://a".to_string(),
        api_key: "k".to_string(),
        search_model_id: "grok".to_string(),
        analysis_model_id: None,
        timeout: 60,
        stream: true,
        filter_thinking: true,
        retry_count: 1,
        analysis_retry_count: 1,
        search_retry_count: 0,
        log_level: "INFO".to_string(),
        max_query_plan: plan,
        http_api_key: "xinchen".to_string(),
        admin_password: "xinchen".to_string(),
        system_prompt: None,
        split_prompt: None,
    })
}

#[test]
fn error_codes_are_those_of_json_rpc() {
    assert_eq!(error_codes::PARSE_ERROR, -32700);
    assert_eq!(error_codes::INVALID_REQUEST, -32600);
    assert_eq!(error_codes::METHOD_NOT_FOUND, -32601);
    assert_eq!(error_codes::INVALID_PARAMS, -32602);
    assert_eq!(error_codes::INTERNAL_ERROR, -32603);
    assert_eq!(error_codes::SESSION_NOT_FOUND, -32001);
    assert_eq!(error_codes::SEARCH_ERROR, -32000);
}

#[test]
fn methods_are_routed() {
    assert_eq!(route_method("initialize"), McpMethod::Initialize);
    assert_eq!(route_method("tools/list"), McpMethod::ToolsList);
    assert_eq!(route_method("tools/call"), McpMethod::ToolsCall);
    assert_eq!(route_method("resources/list"), McpMethod::ResourcesList);
    assert_eq!(route_method("resources/read"), McpMethod::ResourcesRead);
    assert_eq!(route_method("prompts/list"), McpMethod::PromptsList);
    assert_eq!(route_method("prompts/get"), McpMethod::PromptsGet);
    assert_eq!(route_method("Initialize"), McpMethod::Unknown);
    let e = method_not_found("foo/bar");
    assert_eq!(e.code, -32601);
    assert_eq!(e.message, "Method not found: foo/bar");
    assert_eq!(no_resources().message, "No resources available");
    assert_eq!(no_resources().code, -32602);
    assert_eq!(no_prompts().message, "No prompts available");
}

#[test]
fn tool_calls_are_checked() {
    assert_eq!(check_tool_call(&params(true, Some("web_search"), Some("q"))).unwrap(), "q");
    let e = check_tool_call(&params(false, None, None)).unwrap_err();
    assert_eq!((e.code, e.message.as_str()), (-32602, "Invalid params"));
    let e = check_tool_call(&params(true, Some("other \"x\""), Some("q"))).unwrap_err();
    assert_eq!(e.message, "Unknown tool: Some(\"other \\\"x\\\"\")");
    let e = check_tool_call(&params(true, Some("ai_search"), Some("q"))).unwrap_err();
    assert_eq!(e.message, "Unknown tool: Some(\"ai_search\")");
    let e = check_tool_call(&params(true, None, Some("q"))).unwrap_err();
    assert_eq!(e.message, "Unknown tool: None");
    let e = check_tool_call(&params(true, Some("web_search"), None)).unwrap_err();
    assert_eq!(e.message, "Missing query parameter");
    let e = check_tool_call(&params(true, Some("web_search"), Some(""))).unwrap_err();
    assert_eq!(e.message, "Query must be between 1 and 10000 characters");
    let long = "q".repeat(10001);
    assert!(check_tool_call(&params(true, Some("web_search"), Some(&long))).is_err());
    let exact = "q".repeat(10000);
    assert!(check_tool_call(&params(true, Some("web_search"), Some(&exact))).is_ok());
}

#[test]
fn stdio_requests_are_checked() {
    let call = |p: bool, n: Option<&str>, q: Option<&str>| StdioToolCall {
        has_params: p,
        name: n.map(|s| s.to_string()),
        query: q.map(|s| s.to_string()),
    };
    assert_eq!(check_stdio_tool_call(&call(true, Some("web_search"), Some("x"))).unwrap(), "x");
    let msg = |r: Result<String, AISearchError>| match r.unwrap_err() {
        AISearchError::Protocol(m) => m,
        other => panic!("{:?}", other),
    };
    assert_eq!(msg(check_stdio_tool_call(&call(false, None, None))), "缺少参数");
    assert_eq!(msg(check_stdio_tool_call(&call(true, None, None))), "缺少工具名称");
    assert_eq!(msg(check_stdio_tool_call(&call(true, Some("x"), None))), "未知工具: x");
    assert_eq!(msg(check_stdio_tool_call(&call(true, Some("web_search"), None))), "缺少查询参数");
    assert!(matches!(route_stdio_method("initialize"), Ok(StdioMethod::Initialize)));
    assert!(matches!(route_stdio_method("tools/list"), Ok(StdioMethod::ToolsList)));
    assert!(matches!(route_stdio_method("tools/call"), Ok(StdioMethod::ToolsCall)));
    match route_stdio_method("prompts/list") {
        Err(AISearchError::Protocol(m)) => assert_eq!(m, "未知方法: prompts/list"),
        _ => panic!("expected an error"),
    }
}

#[test]
fn answers_to_failures() {
    let e = AISearchError::Protocol("x".to_string());
    let s = search_failed(&e);
    assert_eq!((s.code, s.message.as_str()), (-32000, "Search failed: 协议错误: x"));
    let i = internal_error(&e);
    assert_eq!((i.code, i.message.as_str()), (-32603, "协议错误: x"));
}

#[test]
fn tool_descriptions() {
    assert_eq!(
        tool_description(&config(1)),
        "使用 AI 模型 (grok) 进行网络搜索。直接搜索用户查询，返回详细的搜索结果。"
    );
    assert_eq!(
        tool_description(&config(5)),
        "使用 AI 模型 (grok) 进行网络搜索。\n\n多维度搜索模式：服务端自动将查询拆分成 5 个子问题并并发执行，直接返回所有子查询结果（不整合）。单次调用即可完成多维度搜索。"
    );
    assert_eq!(session_endpoint("abc"), "/mcp?session=abc");
}

#[test]
fn search_queries_are_checked() {
    assert_eq!(validate_search_query("  rust  ", 100).unwrap(), "rust");
    let msg = |r: Result<String, AppError>| match r.unwrap_err() {
        AppError::InvalidRequest(m) => m,
        other => panic!("{:?}", other),
    };
    assert_eq!(msg(validate_search_query("   ", 100)), "查询不能为空");
    assert_eq!(msg(validate_search_query("abcdef", 5)), "查询长度不能超过 5 字符");
    assert_eq!(msg(validate_search_query("a<script>", 100)), "查询包含非法字符");
    assert_eq!(msg(validate_search_query("javascript:alert", 100)), "查询包含非法字符");
    assert!(validate_search_query(" abcde ", 5).is_ok());
}

#[test]
fn http_error_answers() {
    let cases = [
        (AppError::InvalidRequest("m".to_string()), 400, "INVALID_REQUEST", "m"),
        (AppError::Unauthorized("u".to_string()), 401, "UNAUTHORIZED", "u"),
        (AppError::SearchError("s".to_string()), 500, "SEARCH_ERROR", "s"),
        (AppError::SseConnectionLimit, 503, "SSE_CONNECTION_LIMIT", "Maximum SSE connections reached"),
        (AppError::PayloadTooLarge, 413, "PAYLOAD_TOO_LARGE", "Request body exceeds size limit"),
        (AppError::InternalError("i".to_string()), 500, "INTERNAL_ERROR", "i"),
    ];
    for (e, status, code, message) in cases {
        let (s, c, m) = e.parts();
        assert_eq!((s, c.as_str(), m.as_str()), (status, code, message));
        let body = e.to_error_response("rid".to_string());
        assert_eq!(body.code, code);
        assert_eq!(body.error, message);
        assert_eq!(body.request_id, "rid");
    }
}

#[test]
fn search_and_health_answers() {
    let r = SearchResponse::new("res".to_string(), "q".to_string(), 12, &config(3), "t".to_string());
    assert_eq!(r.sub_queries, Some(3));
    assert_eq!(r.model, "grok");
    let r = SearchResponse::new("res".to_string(), "q".to_string(), 12, &config(1), "t".to_string());
    assert_eq!(r.sub_queries, None);
    let h = HealthResponse::healthy("1.0".to_string(), 7);
    assert_eq!(h.status, "healthy");
    assert_eq!(h.service, "ai-search-mcp-server");
    assert_eq!(h.uptime_seconds, 7);
}

#[test]
fn the_advertised_tool_is_the_accepted_one() {
    assert_eq!(TOOL_NAME, "web_search");
    assert_eq!(check_tool_call(&params(true, Some(TOOL_NAME), Some("q"))).unwrap(), "q");
    let call = StdioToolCall {
        has_params: true,
        name: Some(TOOL_NAME.to_string()),
        query: Some("q".to_string()),
    };
    assert_eq!(check_stdio_tool_call(&call).unwrap(), "q");
}
