//! The MCP (JSON-RPC) protocol: which method a request names, how a tool
//! call is checked, and the errors that are answered.
//!
//! JSON values are read and written by the caller; this module works on what
//! they hold.

use vstd::prelude::*;
use crate::text::opt_view;
use crate::config::AIConfig;
use crate::error::AISearchError;
use crate::error_codes;
use crate::models::JsonRpcError;
use crate::number::decimal;
use crate::number::decimal_string;
use crate::text::concat2;
use crate::text::concat3;
use crate::text::debug_option;
use crate::text::debug_plain_char;
use crate::text::debug_str;
use crate::text::str_eq;
use vstd::utf8::encode_utf8;

verus! {

/// The methods that the server answers.
#[derive(Debug, Clone, Copy, PartialEq, Eq, Structural)]
pub enum McpMethod {
    Initialize,
    ToolsList,
    ToolsCall,
    ResourcesList,
    ResourcesRead,
    PromptsList,
    PromptsGet,
    Unknown,
}

/// The method that the name `m` denotes.
pub open spec fn method_spec(m: Seq<char>) -> McpMethod {
    if m == "initialize"@ {
        McpMethod::Initialize
    } else if m == "tools/list"@ {
        McpMethod::ToolsList
    } else if m == "tools/call"@ {
        McpMethod::ToolsCall
    } else if m == "resources/list"@ {
        McpMethod::ResourcesList
    } else if m == "resources/read"@ {
        McpMethod::ResourcesRead
    } else if m == "prompts/list"@ {
        McpMethod::PromptsList
    } else if m == "prompts/get"@ {
        McpMethod::PromptsGet
    } else {
        McpMethod::Unknown
    }
}

/// The method that a request names.
pub fn route_method(method: &str) -> (r: McpMethod)
    ensures
        r == method_spec(method@),
{
    if str_eq(method, "initialize") {
        McpMethod::Initialize
    } else if str_eq(method, "tools/list") {
        McpMethod::ToolsList
    } else if str_eq(method, "tools/call") {
        McpMethod::ToolsCall
    } else if str_eq(method, "resources/list") {
        McpMethod::ResourcesList
    } else if str_eq(method, "resources/read") {
        McpMethod::ResourcesRead
    } else if str_eq(method, "prompts/list") {
        McpMethod::PromptsList
    } else if str_eq(method, "prompts/get") {
        McpMethod::PromptsGet
    } else {
        McpMethod::Unknown
    }
}

/// The error answered to a method that the server does not know.
pub fn method_not_found(method: &str) -> (r: JsonRpcError)
    ensures
        r.is(error_codes::METHOD_NOT_FOUND, "Method not found: "@ + method@),
{
    JsonRpcError { code: error_codes::METHOD_NOT_FOUND, message: concat2("Method not found: ", method) }
}

/// The error answered to `resources/read`: there are no resources.
pub fn no_resources() -> (r: JsonRpcError)
    ensures
        r.is(error_codes::INVALID_PARAMS, "No resources available"@),
{
    JsonRpcError { code: error_codes::INVALID_PARAMS, message: "No resources available".to_owned() }
}

/// The error answered to `prompts/get`: there are no prompts.
pub fn no_prompts() -> (r: JsonRpcError)
    ensures
        r.is(error_codes::INVALID_PARAMS, "No prompts available"@),
{
    JsonRpcError { code: error_codes::INVALID_PARAMS, message: "No prompts available".to_owned() }
}

/// The error answered when a search fails.
pub fn search_failed(e: &AISearchError) -> (r: JsonRpcError)
    ensures
        r.is(error_codes::SEARCH_ERROR, "Search failed: "@ + e.message_spec()),
{
    let m = e.message();
    JsonRpcError { code: error_codes::SEARCH_ERROR, message: concat2("Search failed: ", m.as_str()) }
}

/// The error answered over stdio when handling a request fails.
pub fn internal_error(e: &AISearchError) -> (r: JsonRpcError)
    ensures
        r.is(error_codes::INTERNAL_ERROR, e.message_spec()),
{
    JsonRpcError { code: error_codes::INTERNAL_ERROR, message: e.message() }
}

/// What a `tools/call` request holds: whether its parameters are an
/// object, its `name` where that is a string, and its `arguments.query`
/// where that is a string.
pub struct ToolCallParams {
    pub is_object: bool,
    pub name: Option<String>,
    pub query: Option<String>,
}

/// The name of the search tool: the one that the tool lists advertise and
/// the only one that a tool call may name.
pub const TOOL_NAME: &'static str = "web_search";

/// Longest query that a tool call accepts, in bytes.
pub const MAX_TOOL_QUERY_BYTES: usize = 10000;

/// The error a tool call's parameters earn, checked in order, if any.
pub open spec fn tool_call_failure(p: ToolCallParams) -> Option<Seq<char>> {
    if !p.is_object {
        Some("Invalid params"@)
    } else if opt_view(p.name) != Some(TOOL_NAME@) {
        Some("Unknown tool: "@ + debug_option(opt_view(p.name)))
    } else if p.query is None {
        Some("Missing query parameter"@)
    } else if p.query->Some_0@.len() == 0 || encode_utf8(p.query->Some_0@).len() > 10000 {
        Some("Query must be between 1 and 10000 characters"@)
    } else {
        None
    }
}

/// Checks a tool call of the HTTP and SSE transports: it must call
/// `web_search` with a query of 1 to 10000 bytes. Every failure is an
/// `INVALID_PARAMS` error.
pub fn check_tool_call(p: &ToolCallParams) -> (r: Result<String, JsonRpcError>)
    requires
        p.query matches Some(q) ==> encode_utf8(q@).len() <= usize::MAX,
    ensures
        match r {
            Ok(q) => tool_call_failure(*p) is None && p.query == Some(q),
            Err(e) => tool_call_failure(*p) matches Some(m) && e.is(error_codes::INVALID_PARAMS, m),
        },
        p.name matches Some(n) ==> (p.is_object && n@ != TOOL_NAME@ && (forall|i: int|
            0 <= i < n@.len() ==> debug_plain_char(#[trigger] n@[i])) ==> (r matches Err(e)
            && e.message@ == "Unknown tool: Some("@ + seq!['"'] + n@ + seq!['"'] + ")"@)),
{
    if !p.is_object {
        return Err(JsonRpcError { code: error_codes::INVALID_PARAMS, message: "Invalid params".to_owned() });
    }
    let is_search = match &p.name {
        Some(n) => str_eq(n.as_str(), TOOL_NAME),
        None => false,
    };
    if !is_search {
        let shown = match &p.name {
            Some(n) => {
                let d = debug_str(n.as_str());
                let shown = concat3("Some(", d.as_str(), ")");
                proof {
                    reveal_strlit("Unknown tool: ");
                    reveal_strlit("Some(");
                    reveal_strlit("Unknown tool: Some(");
                    let target = "Unknown tool: Some("@ + seq!['"'] + n@ + seq!['"'] + ")"@;
                    if forall|i: int| 0 <= i < n@.len() ==> debug_plain_char(#[trigger] n@[i]) {
                        assert("Unknown tool: "@ + shown@ =~= target);
                    }
                }
                shown
            },
            None => "None".to_owned(),
        };
        return Err(
            JsonRpcError { code: error_codes::INVALID_PARAMS, message: concat2("Unknown tool: ", shown.as_str()) },
        );
    }
    match &p.query {
        None => Err(
            JsonRpcError {
                code: error_codes::INVALID_PARAMS,
                message: "Missing query parameter".to_owned(),
            },
        ),
        Some(q) => {
            if q.as_str().is_empty() || q.as_str().len() > MAX_TOOL_QUERY_BYTES {
                Err(
                    JsonRpcError {
                        code: error_codes::INVALID_PARAMS,
                        message: "Query must be between 1 and 10000 characters".to_owned(),
                    },
                )
            } else {
                Ok(q.clone())
            }
        },
    }
}

/// What a `tools/call` request over stdio holds: whether it has parameters,
/// its `name` where that is a string, and its `arguments.query` where that
/// is a string.
pub struct StdioToolCall {
    pub has_params: bool,
    pub name: Option<String>,
    pub query: Option<String>,
}

/// The error a stdio tool call earns, checked in order, if any.
pub open spec fn stdio_call_failure(c: StdioToolCall) -> Option<Seq<char>> {
    if !c.has_params {
        Some("缺少参数"@)
    } else if c.name is None {
        Some("缺少工具名称"@)
    } else if c.name->Some_0@ != TOOL_NAME@ {
        Some("未知工具: "@ + c.name->Some_0@)
    } else if c.query is None {
        Some("缺少查询参数"@)
    } else {
        None
    }
}

/// Checks a tool call over stdio: it must name `web_search` and carry a
/// query. Every failure is a protocol error.
pub fn check_stdio_tool_call(c: &StdioToolCall) -> (r: Result<String, AISearchError>)
    ensures
        match r {
            Ok(q) => stdio_call_failure(*c) is None && c.query == Some(q),
            Err(e) => stdio_call_failure(*c) matches Some(m) && e.is_protocol(m),
        },
{
    if !c.has_params {
        return Err(crate::error::protocol_error("缺少参数"));
    }
    let name = match &c.name {
        Some(n) => n,
        None => {
            return Err(crate::error::protocol_error("缺少工具名称"));
        },
    };
    if !str_eq(name.as_str(), TOOL_NAME) {
        return Err(AISearchError::Protocol(concat2("未知工具: ", name.as_str())));
    }
    match &c.query {
        Some(q) => Ok(q.clone()),
        None => Err(crate::error::protocol_error("缺少查询参数")),
    }
}

/// The methods that the stdio transport answers.
pub enum StdioMethod {
    Initialize,
    ToolsList,
    ToolsCall,
}

/// The method of a stdio request; any other is the protocol error
/// `未知方法: <method>`.
pub fn route_stdio_method(method: &str) -> (r: Result<StdioMethod, AISearchError>)
    ensures
        method_spec(method@) == McpMethod::Initialize ==> r matches Ok(StdioMethod::Initialize),
        method_spec(method@) == McpMethod::ToolsList ==> r matches Ok(StdioMethod::ToolsList),
        method_spec(method@) == McpMethod::ToolsCall ==> r matches Ok(StdioMethod::ToolsCall),
        method_spec(method@) != McpMethod::Initialize && method_spec(method@) != McpMethod::ToolsList
            && method_spec(method@) != McpMethod::ToolsCall ==> (r matches Err(e) && e.is_protocol(
            "未知方法: "@ + method@,
        )),
{
    match route_method(method) {
        McpMethod::Initialize => Ok(StdioMethod::Initialize),
        McpMethod::ToolsList => Ok(StdioMethod::ToolsList),
        McpMethod::ToolsCall => Ok(StdioMethod::ToolsCall),
        _ => Err(AISearchError::Protocol(concat2("未知方法: ", method))),
    }
}

/// The description of the search tool that the stdio transport lists.
pub open spec fn tool_description_spec(model: Seq<char>, plan: nat) -> Seq<char> {
    if plan == 1 {
        "使用 AI 模型 ("@ + model + ") 进行网络搜索。直接搜索用户查询，返回详细的搜索结果。"@
    } else {
        "使用 AI 模型 ("@ + model
            + ") 进行网络搜索。\n\n多维度搜索模式：服务端自动将查询拆分成 "@ + decimal(plan)
            + " 个子问题并并发执行，直接返回所有子查询结果（不整合）。单次调用即可完成多维度搜索。"@
    }
}

/// The description of the search tool: which model searches, and how many
/// sub-queries a query is split into where that is more than one.
pub fn tool_description(config: &AIConfig) -> (r: String)
    ensures
        r@ == tool_description_spec(config.search_model_id@, config.max_query_plan as nat),
{
    if config.max_query_plan == 1 {
        concat3(
            "使用 AI 模型 (",
            config.search_model_id.as_str(),
            ") 进行网络搜索。直接搜索用户查询，返回详细的搜索结果。",
        )
    } else {
        let n = decimal_string(config.max_query_plan as u64);
        let a = concat3(
            "使用 AI 模型 (",
            config.search_model_id.as_str(),
            ") 进行网络搜索。\n\n多维度搜索模式：服务端自动将查询拆分成 ",
        );
        concat3(a.as_str(), n.as_str(), " 个子问题并并发执行，直接返回所有子查询结果（不整合）。单次调用即可完成多维度搜索。")
    }
}

/// The endpoint that an SSE session posts its requests to.
pub fn session_endpoint(session_id: &str) -> (r: String)
    ensures
        r@ == "/mcp?session="@ + session_id@,
{
    concat2("/mcp?session=", session_id)
}

/// The tool that the tool lists advertise is the one that tool calls are
/// checked against: a call naming it, with a query, passes both transports'
/// checks (over HTTP and SSE, where the query is 1 to 10000 bytes).
pub proof fn lemma_advertised_tool_is_accepted(p: ToolCallParams, c: StdioToolCall)
    requires
        p.is_object,
        opt_view(p.name) == Some(TOOL_NAME@),
        p.query matches Some(q) && 0 < encode_utf8(q@).len() <= 10000,
        c.has_params,
        opt_view(c.name) == Some(TOOL_NAME@),
        c.query is Some,
    ensures
        tool_call_failure(p) is None,
        stdio_call_failure(c) is None,
{
    if p.query->Some_0@.len() == 0 {
        assert(encode_utf8(p.query->Some_0@) =~= Seq::<u8>::empty());
    }
}

} // verus!
