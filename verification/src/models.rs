//! Requests, responses and errors of the HTTP interface.

use vstd::prelude::*;
use crate::config::AIConfig;
use crate::number::decimal;
use crate::number::decimal_string;
use crate::text::concat3;
use crate::text::contains;
use crate::text::contains_spec;
use crate::text::trim;
use crate::text::trim_spec;
use vstd::utf8::encode_utf8;

verus! {

/// A search request.
#[derive(Debug, Clone)]
pub struct SearchRequest {
    pub query: String,
}

/// The answer to a search request.
#[derive(Debug, Clone)]
pub struct SearchResponse {
    pub result: String,
    pub query: String,
    pub duration_ms: u64,
    pub model: String,
    pub timestamp: String,
    pub sub_queries: Option<usize>,
}

/// The answer to a health check.
#[derive(Debug, Clone)]
pub struct HealthResponse {
    pub status: String,
    pub service: String,
    pub version: String,
    pub uptime_seconds: u64,
}

/// The body of an HTTP error answer.
#[derive(Debug, Clone)]
pub struct ErrorResponse {
    pub error: String,
    pub code: String,
    pub request_id: String,
}

/// The data of a search event stream.
#[derive(Debug, Clone)]
pub enum SseEventData {
    Start { query: String },
    Split { sub_queries: Vec<String> },
    Progress { index: usize, query: String, status: String },
    Result { index: usize, content: String },
    Complete { total: usize, duration_ms: u64, model: String, timestamp: String },
    Error { message: String, code: String },
    Ping { timestamp: String },
}

/// An error member of a JSON-RPC response.
#[derive(Debug, Clone)]
pub struct JsonRpcError {
    pub code: i32,
    pub message: String,
}

impl JsonRpcError {
    pub open spec fn is(&self, code: i32, message: Seq<char>) -> bool {
        self.code == code && self.message@ == message
    }
}

/// Errors of the HTTP interface.
#[derive(Debug, Clone)]
pub enum AppError {
    InvalidRequest(String),
    Unauthorized(String),
    SearchError(String),
    SseConnectionLimit,
    PayloadTooLarge,
    InternalError(String),
}

impl AppError {
    /// The HTTP status, the error code and the message that answer this error.
    pub open spec fn parts_spec(&self) -> (u16, Seq<char>, Seq<char>) {
        match self {
            AppError::InvalidRequest(m) => (400, "INVALID_REQUEST"@, m@),
            AppError::Unauthorized(m) => (401, "UNAUTHORIZED"@, m@),
            AppError::SearchError(m) => (500, "SEARCH_ERROR"@, m@),
            AppError::SseConnectionLimit => (
                503,
                "SSE_CONNECTION_LIMIT"@,
                "Maximum SSE connections reached"@,
            ),
            AppError::PayloadTooLarge => (413, "PAYLOAD_TOO_LARGE"@, "Request body exceeds size limit"@),
            AppError::InternalError(m) => (500, "INTERNAL_ERROR"@, m@),
        }
    }

    /// The HTTP status, the error code and the message that answer this error.
    pub fn parts(&self) -> (r: (u16, String, String))
        ensures
            r.0 == self.parts_spec().0,
            r.1@ == self.parts_spec().1,
            r.2@ == self.parts_spec().2,
    {
        match self {
            AppError::InvalidRequest(m) => (400, "INVALID_REQUEST".to_owned(), m.clone()),
            AppError::Unauthorized(m) => (401, "UNAUTHORIZED".to_owned(), m.clone()),
            AppError::SearchError(m) => (500, "SEARCH_ERROR".to_owned(), m.clone()),
            AppError::SseConnectionLimit => (
                503,
                "SSE_CONNECTION_LIMIT".to_owned(),
                "Maximum SSE connections reached".to_owned(),
            ),
            AppError::PayloadTooLarge => (
                413,
                "PAYLOAD_TOO_LARGE".to_owned(),
                "Request body exceeds size limit".to_owned(),
            ),
            AppError::InternalError(m) => (500, "INTERNAL_ERROR".to_owned(), m.clone()),
        }
    }

    /// The body that answers this error, under the request id `request_id`.
    pub fn to_error_response(&self, request_id: String) -> (r: ErrorResponse)
        ensures
            r.error@ == self.parts_spec().2,
            r.code@ == self.parts_spec().1,
            r.request_id == request_id,
    {
        let (_, code, message) = self.parts();
        ErrorResponse { error: message, code, request_id }
    }
}

/// The error, if any, that a search query earns: empty once trimmed, longer
/// than `max_len` bytes once trimmed, or holding `<script>` or `javascript:`.
pub open spec fn query_failure(query: Seq<char>, max_len: nat) -> Option<Seq<char>> {
    let q = trim_spec(query);
    if q.len() == 0 {
        Some("查询不能为空"@)
    } else if encode_utf8(q).len() > max_len {
        Some("查询长度不能超过 "@ + decimal(max_len) + " 字符"@)
    } else if contains_spec(q, "<script>"@) || contains_spec(q, "javascript:"@) {
        Some("查询包含非法字符"@)
    } else {
        None
    }
}

/// Checks a search query and gives it trimmed; each failure is an
/// `InvalidRequest` error.
pub fn validate_search_query(query: &str, max_len: usize) -> (r: Result<String, AppError>)
    requires
        encode_utf8(query@).len() <= usize::MAX,
    ensures
        match r {
            Ok(q) => query_failure(query@, max_len as nat) is None && q@ == trim_spec(query@),
            Err(e) => query_failure(query@, max_len as nat) matches Some(m) && e matches AppError::InvalidRequest(x) && x@ == m,
        },
{
    let q = trim(query);
    proof {
        crate::text::lemma_trim_encode_bound(query@);
    }
    if q.as_str().is_empty() {
        return Err(AppError::InvalidRequest("查询不能为空".to_owned()));
    }
    if q.as_str().len() > max_len {
        let n = decimal_string(max_len as u64);
        return Err(AppError::InvalidRequest(concat3("查询长度不能超过 ", n.as_str(), " 字符")));
    }
    if contains(q.as_str(), "<script>") || contains(q.as_str(), "javascript:") {
        return Err(AppError::InvalidRequest("查询包含非法字符".to_owned()));
    }
    Ok(q)
}

/// Of queries that are non-empty and within the limit once trimmed, a query
/// is refused exactly when it holds `<script>` or `javascript:`, and then as
/// holding illegal characters; every other such query is accepted, such as
/// one that names JavaScript without the colon.
pub proof fn lemma_only_script_markers_are_refused(query: Seq<char>, max_len: nat)
    requires
        trim_spec(query).len() > 0,
        encode_utf8(trim_spec(query)).len() <= max_len,
    ensures
        query_failure(query, max_len) is None <==> !(contains_spec(trim_spec(query), "<script>"@)
            || contains_spec(trim_spec(query), "javascript:"@)),
        query_failure(query, max_len) is Some ==> query_failure(query, max_len) == Some(
            "查询包含非法字符"@,
        ),
{
}

impl SearchResponse {
    /// The answer to `query`: the configured search model, and the number of
    /// sub-queries where the configuration splits queries.
    pub fn new(result: String, query: String, duration_ms: u64, config: &AIConfig, timestamp: String) -> (r:
        SearchResponse)
        ensures
            r.result == result,
            r.query == query,
            r.duration_ms == duration_ms,
            r.model == config.search_model_id,
            r.timestamp == timestamp,
            r.sub_queries == (if config.max_query_plan > 1 {
                Some(config.max_query_plan as usize)
            } else {
                None
            }),
    {
        let sub_queries = if config.max_query_plan > 1 {
            Some(config.max_query_plan as usize)
        } else {
            None
        };
        SearchResponse {
            result,
            query,
            duration_ms,
            model: config.search_model_id.clone(),
            timestamp,
            sub_queries,
        }
    }
}

impl HealthResponse {
    /// The answer of a running server.
    pub fn healthy(version: String, uptime_seconds: u64) -> (r: HealthResponse)
        ensures
            r.status@ == "healthy"@,
            r.service@ == "ai-search-mcp-server"@,
            r.version == version,
            r.uptime_seconds == uptime_seconds,
    {
        HealthResponse {
            status: "healthy".to_owned(),
            service: "ai-search-mcp-server".to_owned(),
            version,
            uptime_seconds,
        }
    }
}

} // verus!
