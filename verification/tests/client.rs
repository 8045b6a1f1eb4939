use ai_search_mcp::chat::{ChatResponse, Choice, Delta, Message, StreamDecoder};
use ai_search_mcp::client::{
    assemble_results, chat_request, clean_split_response, endpoint_for, error_for_status,
    filter_thinking_content, parse_split_response, sub_queries_from, sub_query_of, AIClient,
    RetryState, SearchPlan,
};
use ai_search_mcp::config::AIConfig;
use ai_search_mcp::config_file::ConfigFile;
use ai_search_mcp::error::AISearchError;

fn config(plan: u32) -> AIConfig {
    let f = ConfigFile {
        api_url: "http://localhost:10000".to_string(),
        api_key: "k".to_string(),
        search_model_id: "search".to_string(),
        analysis_model_id: None,
        timeout: 60,
        stream: true,
        filter_thinking: true,
        retry_count: 1,
        analysis_retry_count: 2,
        search_retry_count: 0,
        log_level: "INFO".to_string(),
        max_query_plan: plan,
        http_api_key: "xinchen".to_string(),
        admin_password: "xinchen".to_string(),
        system_prompt: Some("now: {current_time}!".to_string()),
        split_prompt: None,
    };
    AIConfig::from_config_file(f)
}

fn protocol_message(e: AISearchError) -> String {
    match e {
        AISearchError::Protocol(m) => m,
        other => panic!("not a protocol error: {:?}", other),
    }
}

#[test]
fn status_codes_give_user_messages() {
    let cases: [(u16, &str, bool); 10] = [
        (400, "请求参数错误，请检查查询内容", false),
        (401, "认证失败，请检查 API_KEY 是否正确", false),
        (403, "访问被拒绝，请检查 API_KEY 权限", false),
        (404, "API 端点不存在，请检查 API_URL 配置", false),
        (408, "请求超时，请稍后重试", false),
        (413, "请求体过大，请减少查询内容", false),
        (429, "请求过于频繁，建议稍后重试或切换 API 渠道", false),
        (500, "服务暂时不可用，请稍后重试", true),
        (599, "服务暂时不可用，请稍后重试", true),
        (302, "请求失败，请稍后重试", true),
    ];
    for (code, msg, log) in cases {
        let (e, l) = error_for_status(code);
        match e {
            AISearchError::Api { code: c, message } => {
                assert_eq!(c, code);
                assert_eq!(message, msg);
            }
            other => panic!("{:?}", other),
        }
        assert_eq!(l, log);
    }
}

#[test]
fn endpoint_is_appended_once() {
    assert_eq!(endpoint_for("http://h:1"), "http://h:1/v1/chat/completions");
    assert_eq!(endpoint_for("http://h:1/"), "http://h:1/v1/chat/completions");
    assert_eq!(endpoint_for("http://h/v1/chat/completions"), "http://h/v1/chat/completions");
    let once = endpoint_for("http://h/api/");
    assert_eq!(endpoint_for(&once), once);
}

#[test]
fn client_builds_and_keeps_its_configuration() {
    let c = AIClient::new(config(1)).unwrap();
    assert_eq!(c.config().search_model_id, "search");
    assert_eq!(c.build_endpoint(), "http://localhost:10000/v1/chat/completions");
    assert_eq!(c.search_retry_count(), 1);
    assert_eq!(c.pool_settings(), (c.config().timeout, 100, 90));
}

#[test]
fn search_plans() {
    let direct = AIClient::new(config(1)).unwrap();
    match direct.plan_search("what is rust") {
        SearchPlan::Direct(q) => assert_eq!(q, "what is rust"),
        SearchPlan::Split(_) => panic!("split"),
    }
    let split = AIClient::new(config(3)).unwrap();
    match split.plan_search("what is rust") {
        SearchPlan::Split(n) => assert_eq!(n, 3),
        SearchPlan::Direct(_) => panic!("direct"),
    }
    match split.plan_search("[SUB_QUERY]  price of tickets ") {
        SearchPlan::Direct(q) => assert_eq!(q, "price of tickets"),
        SearchPlan::Split(_) => panic!("a sub-query is never split again"),
    }
    assert_eq!(AIClient::internal_query("[SUB_QUERY] a"), "a");
    assert_eq!(AIClient::internal_query("a "), "a ");
    assert_eq!(sub_query_of("[SUB_QUERY][SUB_QUERY] x "), "x");
}

#[test]
fn request_bodies() {
    let c = AIClient::new(config(1)).unwrap();
    let r = c.build_request_body_at("q", "2024-01-01 00:00:00 Monday");
    assert_eq!(r.model, "search");
    assert!(r.stream);
    assert_eq!(r.messages.len(), 2);
    assert_eq!(r.messages[0].role, "system");
    assert_eq!(r.messages[0].content, "now: 2024-01-01 00:00:00 Monday!");
    assert_eq!(r.messages[1].role, "user");
    assert_eq!(r.messages[1].content, "q");
    let now = c.build_request_body("q");
    assert!(!now.messages[0].content.contains("{current_time}"));
    assert!(now.messages[0].content.starts_with("now: "));
    let m = c.build_request_body_with_model("q", "sys", "other");
    assert_eq!(m.model, "other");
    assert_eq!(m.messages[0].content, "sys");
    let raw = chat_request("a", "b", "c", false);
    assert!(!raw.stream);
}

#[test]
fn split_call_uses_the_analysis_settings() {
    let c = AIClient::new(config(3)).unwrap();
    let call = c.split_call("春节票价", 3);
    assert_eq!(
        call.user_prompt,
        "将查询拆分成 3 个子问题，返回 JSON 数组。\n\n查询: 春节票价\n\n只返回 JSON 数组，格式: [\"子问题1\", \"子问题2\", \"子问题3\"]"
    );
    assert_eq!(call.model, "search");
    assert_eq!(call.retry_count, 2);
    let mut cfg = config(3);
    cfg.analysis_model_id = Some("analysis".to_string());
    let c = AIClient::new(cfg).unwrap();
    assert_eq!(c.split_call("q", 2).model, "analysis");
}

#[test]
fn thinking_is_filtered() {
    assert_eq!(
        filter_thinking_content("<think>plan\nmore</think>\n\n\n\nAnswer").unwrap(),
        "Answer"
    );
    assert_eq!(
        filter_thinking_content("a<thinking>x</thinking>b\n \n\nc").unwrap(),
        "ab\n\nc"
    );
    assert_eq!(filter_thinking_content("  plain  ").unwrap(), "plain");
    let c = AIClient::new(config(1)).unwrap();
    assert_eq!(c.postprocess("<think>x</think>ok".to_string()).unwrap(), "ok");
    let mut cfg = config(1);
    cfg.filter_thinking = false;
    let c = AIClient::new(cfg).unwrap();
    assert_eq!(c.postprocess("<think>x</think>ok".to_string()).unwrap(), "<think>x</think>ok");
}

#[test]
fn split_answers_are_read() {
    let r = parse_split_response("```json\n[\"a\", \"b\"]\n```").unwrap().unwrap();
    assert_eq!(r, vec!["[SUB_QUERY] a", "[SUB_QUERY] b"]);
    let r = parse_split_response("<think>hmm</think>[\"x\"]").unwrap().unwrap();
    assert_eq!(r, vec!["[SUB_QUERY] x"]);
    let e = parse_split_response("[]").unwrap().unwrap_err();
    assert_eq!(protocol_message(e), "未能拆分出任何子查询");
    let e = parse_split_response("not json").unwrap().unwrap_err();
    let m = protocol_message(e);
    assert!(m.starts_with("解析子查询失败: "));
    assert!(m.ends_with("，响应内容: not json"));
    assert_eq!(clean_split_response("raw", ""), "raw");
    assert_eq!(clean_split_response("raw", " ```json[1]``` "), "[1]");
    let e = sub_queries_from(Err("bad".to_string()), "c").unwrap_err();
    assert_eq!(protocol_message(e), "解析子查询失败: bad，响应内容: c");
}

#[test]
fn sub_answers_are_assembled() {
    let qs = vec!["[SUB_QUERY] one".to_string(), "[SUB_QUERY] two".to_string()];
    let results = vec![Ok("A".to_string()), Err(AISearchError::Protocol("boom".to_string()))];
    let out = assemble_results(&qs, &results).unwrap();
    assert_eq!(
        out,
        "## 子查询 1 结果\n\n**子问题**: one\n\nA\n\n## 子查询 2 失败\n\n**子问题**: two\n\n**错误**: 协议错误: boom\n\n"
    );
    let out = assemble_results(&vec![], &vec![Ok("A".to_string())]).unwrap();
    assert_eq!(out, "## 子查询 1 结果\n\n**子问题**: 未知\n\nA\n\n");
    let e = assemble_results(&qs, &vec![]).unwrap_err();
    assert_eq!(protocol_message(e), "所有子查询都失败了");
}

#[test]
fn retries_are_bounded() {
    let mut none = RetryState::new(0);
    assert!(!none.should_retry());
    let mut two = RetryState::new(2);
    assert_eq!(two.attempt(), 0);
    assert!(two.should_retry());
    assert!(two.should_retry());
    assert!(!two.should_retry());
    assert_eq!(two.attempt(), 2);
}

fn delta(content: Option<&str>) -> ChatResponse {
    ChatResponse {
        choices: vec![Choice {
            message: None,
            delta: Some(Delta { content: content.map(|s| s.to_string()) }),
        }],
    }
}

#[test]
fn chat_responses() {
    assert_eq!(delta(Some("x")).first_delta_content(), Some("x".to_string()));
    assert_eq!(delta(None).first_delta_content(), None);
    assert_eq!(ChatResponse { choices: vec![] }.first_delta_content(), None);
    let whole = ChatResponse {
        choices: vec![Choice { message: Some(Message { content: "hi".to_string() }), delta: None }],
    };
    assert_eq!(whole.first_message_content().unwrap(), "hi");
    let e = delta(Some("x")).first_message_content().unwrap_err();
    assert_eq!(protocol_message(e), "响应格式错误");
}

#[test]
fn stream_lines_are_decoded_across_pieces() {
    let mut d = StreamDecoder::new();
    let p = d.feed("data: {\"a\":1}\n: comment\ndata: [DO").unwrap();
    assert_eq!(p, vec!["{\"a\":1}"]);
    let p = d.feed("NE] \ndata: x").unwrap();
    assert_eq!(p, Vec::<String>::new());
    let p = d.feed("\n").unwrap();
    assert_eq!(p, vec!["x"]);
    d.add_content("Hel".to_string()).unwrap();
    d.add_content("lo".to_string()).unwrap();
    assert_eq!(d.finish(), "Hello");
}

#[test]
fn feeding_in_pieces_equals_feeding_at_once() {
    let text = "data: a\r\ndata: b\ndata:  [DONE]\nnoise\ndata: c\n";
    let mut whole = StreamDecoder::new();
    let all = whole.feed(text).unwrap();
    for cut in 0..text.len() {
        if !text.is_char_boundary(cut) {
            continue;
        }
        let mut d = StreamDecoder::new();
        let mut got = d.feed(&text[..cut]).unwrap();
        got.extend(d.feed(&text[cut..]).unwrap());
        assert_eq!(got, all);
    }
    assert_eq!(all, vec!["a\r", "b", "c"]);
}

#[test]
fn feeding_one_character_at_a_time_equals_feeding_at_once() {
    let text = "data: é1\ndata: [DONE]\n\ndata: ü2\ndata: 3";
    let mut whole = StreamDecoder::new();
    let all = whole.feed(text).unwrap();
    let mut d = StreamDecoder::new();
    let mut got = Vec::new();
    let mut buf = [0u8; 4];
    for ch in text.chars() {
        got.extend(d.feed(ch.encode_utf8(&mut buf)).unwrap());
    }
    assert_eq!(got, all);
    assert_eq!(all, vec!["é1", "ü2"]);
}

#[test]
fn stream_limits() {
    let mut d = StreamDecoder::new();
    let big = "x".repeat(10 * 1024 * 1024 + 1);
    let e = d.feed(&big).unwrap_err();
    assert_eq!(protocol_message(e), "单次响应缓冲区过大，超过 10 MB 限制");
    let line = "y".repeat(1024 * 1024 + 1);
    assert!(d.feed(&line).unwrap().is_empty());
    assert!(d.feed("\n").unwrap().is_empty());
    let mut d = StreamDecoder::new();
    d.add_content("z".repeat(10 * 1024 * 1024)).unwrap();
    let e = d.add_content("z".to_string()).unwrap_err();
    assert_eq!(protocol_message(e), "响应内容过大，超过 10 MB 限制");
    assert_eq!(d.finish().len(), 10 * 1024 * 1024);
}
