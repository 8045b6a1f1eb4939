//! The AI search client: what it sends, how it retries, how it splits a
//! query into sub-queries and how it puts their answers together.
//!
//! The HTTP exchanges themselves are carried out by the caller; each step
//! here takes what came back and decides what follows.

use vstd::prelude::*;
use crate::chat::ChatMessage;
use crate::chat::ChatRequest;
use crate::config::AIConfig;
use crate::error::AISearchError;
use crate::error::protocol_error;
use crate::number::decimal;
use crate::number::decimal_string;
use crate::text::concat2;
use crate::text::concat3;
use crate::text::contains_spec;
use crate::text::ends_with;
use crate::text::ends_with_spec;
use crate::text::replace;
use crate::text::replace_spec;
use crate::text::starts_with;
use crate::text::starts_with_spec;
use crate::text::strip_all_prefix;
use crate::text::strip_all_suffix;
use crate::text::trim;
use crate::text::trim_spec;
use crate::text::trim_start_matches;
use crate::text::trim_end_matches;
use crate::text::views;

verus! {

#[verifier::external_type_specification]
#[verifier::external_body]
pub struct ExHttpClient(reqwest::Client);

#[verifier::external_type_specification]
#[verifier::external_body]
pub struct ExRegex(regex::Regex);

/// `reqwest::Client::clone`: a handle on the same connection pool. The type
/// is opaque here, so nothing is stated of the copy.
pub assume_specification[ <reqwest::Client as Clone>::clone ](c: &reqwest::Client) -> reqwest::Client;

/// `reqwest::Client::builder()` with the request timeout `timeout_secs`, at
/// most `max_idle` idle connections per host, each kept `idle_secs` seconds,
/// then `build()`. On success it hands back, beside the client, the three
/// settings that were given to the builder; a build error is handed back as
/// its text. Whether building succeeds depends on the system (TLS back ends,
/// resolver); nothing is stated of it.
#[verifier::external_body]
fn build_http_client(timeout_secs: u64, max_idle: usize, idle_secs: u64) -> (r: Result<
    (reqwest::Client, u64, usize, u64),
    String,
>)
    ensures
        r matches Ok((_, t, m, i)) ==> t == timeout_secs && m == max_idle && i == idle_secs,
{
    reqwest::Client::builder()
        .timeout(std::time::Duration::from_secs(timeout_secs))
        .pool_max_idle_per_host(max_idle)
        .pool_idle_timeout(std::time::Duration::from_secs(idle_secs))
        .build()
        .map(|c| (c, timeout_secs, max_idle, idle_secs))
        .map_err(|e| e.to_string())
}

/// A character that the local-time text is made of: a digit, a letter, a
/// sign, `:` or a space.
pub open spec fn clock_char(c: char) -> bool {
    ||| '0' <= c <= '9'
    ||| 'a' <= c <= 'z'
    ||| 'A' <= c <= 'Z'
    ||| c == '-'
    ||| c == '+'
    ||| c == ':'
    ||| c == ' '
}

/// Whether `t` has the shape of a local time written with
/// `%Y-%m-%d %H:%M:%S %A`: non-empty, made of digits, letters, signs, `:`
/// and spaces, and ending with the English name of a weekday.
pub open spec fn local_time_shaped(t: Seq<char>) -> bool {
    &&& t.len() > 0
    &&& forall|i: int| 0 <= i < t.len() ==> clock_char(#[trigger] t[i])
    &&& {
        ||| ends_with_spec(t, "Sunday"@)
        ||| ends_with_spec(t, "Monday"@)
        ||| ends_with_spec(t, "Tuesday"@)
        ||| ends_with_spec(t, "Wednesday"@)
        ||| ends_with_spec(t, "Thursday"@)
        ||| ends_with_spec(t, "Friday"@)
        ||| ends_with_spec(t, "Saturday"@)
    }
}

/// The local time as `chrono::Local::now().format("%Y-%m-%d %H:%M:%S %A")`
/// writes it. Which time it is depends on the clock and the time zone and is
/// not stated; every outcome has the shape that chrono's formatting code
/// writes for these fields (zero-padded numbers, a sign on years outside
/// 0..=9999, `-`, `:` and spaces, and an English weekday name at the end).
#[verifier::external_body]
fn local_time_text() -> (r: String)
    ensures
        local_time_shaped(r@),
{
    chrono::Local::now().format("%Y-%m-%d %H:%M:%S %A").to_string()
}

/// The AI API client: the configuration and an HTTP connection pool.
#[derive(Clone)]
pub struct AIClient {
    config: AIConfig,
    client: reqwest::Client,
    request_timeout_secs: u64,
    max_idle_per_host: usize,
    idle_timeout_secs: u64,
}

/// Prefix that marks a query as a sub-query, answered directly.
pub open spec fn sub_query_marker() -> Seq<char> {
    "[SUB_QUERY]"@
}

/// The text of a sub-query: every leading marker removed, then trimmed.
pub open spec fn sub_query_text(q: Seq<char>) -> Seq<char> {
    trim_spec(strip_all_prefix(q, sub_query_marker()))
}

/// How a query is answered.
pub enum SearchPlan {
    /// Ask the API once with this text.
    Direct(String),
    /// Split the query into this many sub-queries, answer each, then put
    /// the answers together.
    Split(u32),
}

/// Path of the chat-completion endpoint.
pub open spec fn endpoint_suffix() -> Seq<char> {
    "/v1/chat/completions"@
}

/// The chat-completion endpoint for the API URL `url`.
pub open spec fn endpoint_spec(url: Seq<char>) -> Seq<char> {
    if ends_with_spec(url, endpoint_suffix()) {
        url
    } else if url.len() > 0 && url.last() == '/' {
        url + "v1/chat/completions"@
    } else {
        url + endpoint_suffix()
    }
}

/// What an HTTP error status tells the user, and whether the response body
/// is worth logging (server errors and unknown statuses).
pub open spec fn status_message(code: u16) -> (Seq<char>, bool) {
    if code == 400 {
        ("请求参数错误，请检查查询内容"@, false)
    } else if code == 401 {
        ("认证失败，请检查 API_KEY 是否正确"@, false)
    } else if code == 403 {
        ("访问被拒绝，请检查 API_KEY 权限"@, false)
    } else if code == 404 {
        ("API 端点不存在，请检查 API_URL 配置"@, false)
    } else if code == 408 {
        ("请求超时，请稍后重试"@, false)
    } else if code == 413 {
        ("请求体过大，请减少查询内容"@, false)
    } else if code == 429 {
        ("请求过于频繁，建议稍后重试或切换 API 渠道"@, false)
    } else if 500 <= code <= 599 {
        ("服务暂时不可用，请稍后重试"@, true)
    } else {
        ("请求失败，请稍后重试"@, true)
    }
}

/// The API error for HTTP status `code`, and whether the response body is
/// to be logged.
pub fn error_for_status(code: u16) -> (r: (AISearchError, bool))
    ensures
        r.0 matches AISearchError::Api { code: c, message: m } && c == code && m@ == status_message(
            code,
        ).0,
        r.1 == status_message(code).1,
{
    let (m, log) = if code == 400 {
        ("请求参数错误，请检查查询内容", false)
    } else if code == 401 {
        ("认证失败，请检查 API_KEY 是否正确", false)
    } else if code == 403 {
        ("访问被拒绝，请检查 API_KEY 权限", false)
    } else if code == 404 {
        ("API 端点不存在，请检查 API_URL 配置", false)
    } else if code == 408 {
        ("请求超时，请稍后重试", false)
    } else if code == 413 {
        ("请求体过大，请减少查询内容", false)
    } else if code == 429 {
        ("请求过于频繁，建议稍后重试或切换 API 渠道", false)
    } else if 500 <= code && code <= 599 {
        ("服务暂时不可用，请稍后重试", true)
    } else {
        ("请求失败，请稍后重试", true)
    };
    (AISearchError::Api { code, message: m.to_owned() }, log)
}

/// The chat request with a system prompt and the user's query.
pub open spec fn request_spec(
    r: ChatRequest,
    model: Seq<char>,
    system: Seq<char>,
    query: Seq<char>,
    stream: bool,
) -> bool {
    &&& r.model@ == model
    &&& r.stream == stream
    &&& r.messages@.len() == 2
    &&& r.messages@[0].role@ == "system"@
    &&& r.messages@[0].content@ == system
    &&& r.messages@[1].role@ == "user"@
    &&& r.messages@[1].content@ == query
}

/// The text that asks the analysis model to split `query` into `count` parts.
pub open spec fn split_prompt_spec(query: Seq<char>, count: nat) -> Seq<char> {
    "将查询拆分成 "@ + decimal(count) + " 个子问题，返回 JSON 数组。\n\n查询: "@ + query
        + "\n\n只返回 JSON 数组，格式: [\"子问题1\", \"子问题2\", \"子问题3\"]"@
}

/// A call of the API that splits a query.
pub struct SplitCall {
    pub user_prompt: String,
    pub system_prompt: String,
    pub model: String,
    pub retry_count: u32,
}

impl AIClient {
    pub closed spec fn config_spec(&self) -> AIConfig {
        self.config
    }

    /// The settings that the connection pool was built with: the request
    /// timeout in seconds, the idle connections kept per host, and how many
    /// seconds an idle connection is kept.
    pub closed spec fn pool_settings_spec(&self) -> (u64, usize, u64) {
        (self.request_timeout_secs, self.max_idle_per_host, self.idle_timeout_secs)
    }

    /// A client with `config` and a connection pool whose requests time out
    /// after `config.timeout` seconds, keeping up to 100 idle connections per
    /// host for 90 seconds; an error where the pool cannot be built.
    pub fn new(config: AIConfig) -> (r: Result<AIClient, AISearchError>)
        ensures
            match r {
                Ok(c) => c.config_spec() == config && c.pool_settings_spec() == (config.timeout, 100usize, 90u64),
                Err(e) => e is Http,
            },
    {
        match build_http_client(config.timeout, 100, 90) {
            Ok((client, t, m, i)) => Ok(
                AIClient {
                    config,
                    client,
                    request_timeout_secs: t,
                    max_idle_per_host: m,
                    idle_timeout_secs: i,
                },
            ),
            Err(m) => Err(AISearchError::Http(m)),
        }
    }

    /// The settings that the connection pool was built with.
    pub fn pool_settings(&self) -> (r: (u64, usize, u64))
        ensures
            r == self.pool_settings_spec(),
    {
        (self.request_timeout_secs, self.max_idle_per_host, self.idle_timeout_secs)
    }

    /// The configuration.
    pub fn config(&self) -> (r: &AIConfig)
        ensures
            *r == self.config_spec(),
    {
        &self.config
    }

    /// The HTTP connection pool that the client was built with.
    pub closed spec fn http_spec(&self) -> reqwest::Client {
        self.client
    }

    /// The HTTP connection pool.
    pub fn http(&self) -> (r: &reqwest::Client)
        ensures
            *r == self.http_spec(),
    {
        &self.client
    }

    /// How `query` is answered: a sub-query directly with its text; any
    /// other query split into `max_query_plan` sub-queries where that is
    /// more than one, and otherwise directly as it stands.
    pub fn plan_search(&self, query: &str) -> (r: SearchPlan)
        ensures
            starts_with_spec(query@, sub_query_marker()) ==> (r matches SearchPlan::Direct(t) && t@
                == sub_query_text(query@)),
            !starts_with_spec(query@, sub_query_marker()) && self.config_spec().max_query_plan > 1
                ==> (r matches SearchPlan::Split(n) && n == self.config_spec().max_query_plan),
            !starts_with_spec(query@, sub_query_marker()) && self.config_spec().max_query_plan <= 1
                ==> (r matches SearchPlan::Direct(t) && t@ == query@),
    {
        if starts_with(query, "[SUB_QUERY]") {
            SearchPlan::Direct(sub_query_of(query))
        } else if self.config.max_query_plan > 1 {
            SearchPlan::Split(self.config.max_query_plan)
        } else {
            SearchPlan::Direct(query.to_owned())
        }
    }

    /// The text that one of the concurrent sub-searches sends: a sub-query's
    /// text, or the query as it stands.
    pub fn internal_query(query: &str) -> (r: String)
        ensures
            starts_with_spec(query@, sub_query_marker()) ==> r@ == sub_query_text(query@),
            !starts_with_spec(query@, sub_query_marker()) ==> r@ == query@,
    {
        if starts_with(query, "[SUB_QUERY]") {
            sub_query_of(query)
        } else {
            query.to_owned()
        }
    }

    /// Retries allowed for a search request: the configured retry count
    /// (`AI_RETRY_COUNT`, 1 by default; 0 means no retry).
    pub fn search_retry_count(&self) -> (r: u32)
        ensures
            r == self.config_spec().retry_count,
    {
        self.config.retry_count
    }

    /// The chat-completion endpoint of the configured API URL: the URL
    /// itself where it already ends with `/v1/chat/completions`, otherwise
    /// the URL with that path appended.
    pub fn build_endpoint(&self) -> (r: String)
        ensures
            r@ == endpoint_spec(self.config_spec().api_url@),
    {
        endpoint_for(self.config.api_url.as_str())
    }

    /// The request that asks `model_id` with the system prompt `custom_prompt`.
    pub fn build_request_body_with_model(&self, query: &str, custom_prompt: &str, model_id: &str) -> (r:
        ChatRequest)
        ensures
            request_spec(r, model_id@, custom_prompt@, query@, self.config_spec().stream),
    {
        chat_request(model_id, custom_prompt, query, self.config.stream)
    }

    /// The search request at the given time: the search model, and the
    /// configured system prompt with every `{current_time}` replaced by
    /// `current_time`.
    pub fn build_request_body_at(&self, query: &str, current_time: &str) -> (r: ChatRequest)
        ensures
            request_spec(
                r,
                self.config_spec().search_model_id@,
                replace_spec(self.config_spec().system_prompt@, "{current_time}"@, current_time@),
                query@,
                self.config_spec().stream,
            ),
    {
        proof {
            reveal_strlit("{current_time}");
        }
        let system = replace(self.config.system_prompt.as_str(), "{current_time}", current_time);
        chat_request(self.config.search_model_id.as_str(), system.as_str(), query, self.config.stream)
    }

    /// The search request now: `build_request_body_at` with the local time.
    pub fn build_request_body(&self, query: &str) -> (r: ChatRequest)
        ensures
            exists|t: Seq<char>|
                local_time_shaped(t) && request_spec(
                    r,
                    self.config_spec().search_model_id@,
                    replace_spec(self.config_spec().system_prompt@, "{current_time}"@, t),
                    query@,
                    self.config_spec().stream,
                ),
    {
        let now = local_time_text();
        let r = self.build_request_body_at(query, now.as_str());
        proof {
            assert(local_time_shaped(now@) && request_spec(
                r,
                self.config_spec().search_model_id@,
                replace_spec(self.config_spec().system_prompt@, "{current_time}"@, now@),
                query@,
                self.config_spec().stream,
            ));
        }
        r
    }

    /// The call that splits `query` into `count` sub-queries: the split
    /// prompt, the configured splitting system prompt, the analysis model
    /// where one is configured (else the search model), and the analysis
    /// retry count.
    pub fn split_call(&self, query: &str, count: u32) -> (r: SplitCall)
        ensures
            r.user_prompt@ == split_prompt_spec(query@, count as nat),
            r.system_prompt == self.config_spec().split_prompt,
            r.model@ == (match self.config_spec().analysis_model_id {
                Some(m) => m@,
                None => self.config_spec().search_model_id@,
            }),
            r.retry_count == self.config_spec().analysis_retry_count,
    {
        let n = decimal_string(count as u64);
        let head = concat3("将查询拆分成 ", n.as_str(), " 个子问题，返回 JSON 数组。\n\n查询: ");
        let user_prompt = concat3(
            head.as_str(),
            query,
            "\n\n只返回 JSON 数组，格式: [\"子问题1\", \"子问题2\", \"子问题3\"]",
        );
        let model = match &self.config.analysis_model_id {
            Some(m) => m.clone(),
            None => self.config.search_model_id.clone(),
        };
        SplitCall {
            user_prompt,
            system_prompt: self.config.split_prompt.clone(),
            model,
            retry_count: self.config.analysis_retry_count,
        }
    }
}

/// The text of a sub-query.
pub fn sub_query_of(query: &str) -> (r: String)
    ensures
        r@ == sub_query_text(query@),
{
    let stripped = trim_start_matches(query, "[SUB_QUERY]");
    trim(stripped.as_str())
}

/// The chat-completion endpoint for the API URL `url`.
pub fn endpoint_for(url: &str) -> (r: String)
    ensures
        r@ == endpoint_spec(url@),
{
    if ends_with(url, "/v1/chat/completions") {
        url.to_owned()
    } else if ends_with(url, "/") {
        proof {
            reveal_strlit("/");
            assert("/"@ =~= seq!['/']);
            assert(url@.skip(url@.len() - 1)[0] == url@.last());
        }
        concat2(url, "v1/chat/completions")
    } else {
        proof {
            reveal_strlit("/");
            assert("/"@ =~= seq!['/']);
            if url@.len() > 0 {
                assert(url@.skip(url@.len() - 1) =~= seq![url@.last()]);
            }
        }
        concat2(url, "/v1/chat/completions")
    }
}

/// The request that asks `model` with a system prompt and a query.
pub fn chat_request(model: &str, system: &str, query: &str, stream: bool) -> (r: ChatRequest)
    ensures
        request_spec(r, model@, system@, query@, stream),
{
    let mut messages: Vec<ChatMessage> = Vec::new();
    messages.push(ChatMessage { role: "system".to_owned(), content: system.to_owned() });
    messages.push(ChatMessage { role: "user".to_owned(), content: query.to_owned() });
    ChatRequest { model: model.to_owned(), messages, stream }
}

// ---------------------------------------------------------------------------
// Retrying
// ---------------------------------------------------------------------------

/// Counts the attempts of one API call: the first, then up to
/// `retry_count` more after failures.
pub struct RetryState {
    attempt: u32,
    retry_count: u32,
}

impl RetryState {
    /// Index of the current attempt, from 0.
    pub closed spec fn attempt_spec(&self) -> nat {
        self.attempt as nat
    }

    pub closed spec fn retry_count_spec(&self) -> nat {
        self.retry_count as nat
    }

    /// No attempt index passes the number of retries allowed.
    #[verifier::type_invariant]
    spec fn wf(&self) -> bool {
        self.attempt <= self.retry_count
    }

    /// The state before the first attempt.
    pub fn new(retry_count: u32) -> (s: RetryState)
        ensures
            s.attempt_spec() == 0,
            s.retry_count_spec() == retry_count,
    {
        RetryState { attempt: 0, retry_count }
    }

    /// Index of the current attempt.
    pub fn attempt(&self) -> (r: u32)
        ensures
            r == self.attempt_spec(),
    {
        self.attempt
    }

    /// After a failed attempt: whether another is made. It is exactly when
    /// fewer than `retry_count` retries were made, so at most
    /// `retry_count + 1` attempts are made in all.
    pub fn should_retry(&mut self) -> (r: bool)
        ensures
            final(self).attempt_spec() <= final(self).retry_count_spec(),
            r == (old(self).attempt_spec() < old(self).retry_count_spec()),
            final(self).retry_count_spec() == old(self).retry_count_spec(),
            final(self).attempt_spec() == if r {
                old(self).attempt_spec() + 1
            } else {
                old(self).attempt_spec()
            },
    {
        proof {
            use_type_invariant(&*self);
        }
        if self.attempt < self.retry_count {
            self.attempt = self.attempt + 1;
            true
        } else {
            false
        }
    }
}

// ---------------------------------------------------------------------------
// Thinking content
// ---------------------------------------------------------------------------

/// Whether `regex::Regex::new` accepts `pattern`.
pub uninterp spec fn regex_compiles(pattern: Seq<char>) -> bool;

/// What `regex::Regex::replace_all` returns for the expression compiled from
/// `pattern`, the haystack and the replacement text.
pub uninterp spec fn regex_replaced(
    pattern: Seq<char>,
    haystack: Seq<char>,
    replacement: Seq<char>,
) -> Seq<char>;

/// `regex::Regex::new`: the expression compiled from `pattern`, or `None`
/// where the pattern is refused; which of the two is named by `regex_compiles`.
#[verifier::external_body]
fn compile_regex(pattern: &str) -> (r: Option<regex::Regex>)
    ensures
        r is Some <==> regex_compiles(pattern@),
{
    regex::Regex::new(pattern).ok()
}

/// `regex::Regex::replace_all` on the expression of `p`: every
/// non-overlapping match in `haystack` replaced by `replacement`; the result
/// is named by `regex_replaced` over the pattern that `p` was compiled from.
#[verifier::external_body]
fn regex_replace_all(p: &Pattern, haystack: &str, replacement: &str) -> (r: String)
    ensures
        r@ == regex_replaced(p.source@, haystack@, replacement@),
{
    p.re.replace_all(haystack, replacement).into_owned()
}

/// A regular expression together with the pattern it was compiled from.
pub struct Pattern {
    re: regex::Regex,
    source: String,
}

impl Pattern {
    pub closed spec fn source_spec(&self) -> Seq<char> {
        self.source@
    }

    /// The expression of `pattern`, where it compiles.
    pub fn compile(pattern: &str) -> (r: Option<Pattern>)
        ensures
            r is Some <==> regex_compiles(pattern@),
            r matches Some(p) ==> p.source_spec() == pattern@,
    {
        match compile_regex(pattern) {
            Some(re) => Some(Pattern { re, source: pattern.to_owned() }),
            None => None,
        }
    }

    /// `haystack` with every match replaced by `replacement`.
    pub fn replace_all(&self, haystack: &str, replacement: &str) -> (r: String)
        ensures
            r@ == regex_replaced(self.source_spec(), haystack@, replacement@),
    {
        regex_replace_all(self, haystack, replacement)
    }
}

/// Blocks `<think>…</think>` or `<thinking>…</thinking>`, across lines,
/// matched as short as possible.
pub open spec fn thinking_pattern() -> Seq<char> {
    "(?s)<think(?:ing)?>.*?</think(?:ing)?>"@
}

/// Two line breaks with only whitespace between them.
pub open spec fn blank_lines_pattern() -> Seq<char> {
    "\n\\s*\n"@
}

/// `content` without thinking blocks, with runs of blank lines made one
/// blank line, and trimmed.
pub open spec fn filtered_spec(content: Seq<char>) -> Seq<char> {
    trim_spec(
        regex_replaced(
            blank_lines_pattern(),
            regex_replaced(thinking_pattern(), content, Seq::empty()),
            "\n\n"@,
        ),
    )
}

/// Removes the model's thinking from `content`. `None` only where one of the
/// two fixed patterns does not compile.
pub fn filter_thinking_content(content: &str) -> (r: Option<String>)
    ensures
        r is Some <==> (regex_compiles(thinking_pattern()) && regex_compiles(blank_lines_pattern())),
        r matches Some(t) ==> t@ == filtered_spec(content@),
{
    let think = match Pattern::compile("(?s)<think(?:ing)?>.*?</think(?:ing)?>") {
        Some(p) => p,
        None => {
            return None;
        },
    };
    let blank = match Pattern::compile("\n\\s*\n") {
        Some(p) => p,
        None => {
            return None;
        },
    };
    proof {
        reveal_strlit("");
        assert(""@ =~= Seq::<char>::empty());
    }
    let a = think.replace_all(content, "");
    let b = blank.replace_all(a.as_str(), "\n\n");
    Some(trim(b.as_str()))
}

/// Filtered text is trimmed: trimming it again changes nothing.
pub proof fn lemma_filtered_is_trimmed(content: Seq<char>)
    ensures
        trim_spec(filtered_spec(content)) == filtered_spec(content),
{
    crate::text::lemma_trim_idempotent(
        regex_replaced(
            blank_lines_pattern(),
            regex_replaced(thinking_pattern(), content, Seq::empty()),
            "\n\n"@,
        ),
    );
}

impl AIClient {
    /// An answer as it is returned: without thinking where the configuration
    /// filters it, as it came otherwise. `None` only where the filter's
    /// patterns do not compile.
    pub fn postprocess(&self, raw: String) -> (r: Option<String>)
        ensures
            !self.config_spec().filter_thinking ==> r == Some(raw),
            self.config_spec().filter_thinking ==> (r is Some <==> (regex_compiles(
                thinking_pattern(),
            ) && regex_compiles(blank_lines_pattern()))),
            self.config_spec().filter_thinking ==> (r matches Some(t) ==> t@ == filtered_spec(
                raw@,
            )),
    {
        if self.config.filter_thinking {
            filter_thinking_content(raw.as_str())
        } else {
            Some(raw)
        }
    }
}

// ---------------------------------------------------------------------------
// Splitting a query
// ---------------------------------------------------------------------------

/// What `serde_json::from_str::<Vec<String>>` reads from `text`: the
/// strings of a JSON array of strings, or `None` where `text` is not one.
pub uninterp spec fn json_string_array(text: Seq<char>) -> Option<Seq<Seq<char>>>;

/// `serde_json::from_str::<Vec<String>>`: the strings of the JSON array
/// `text`, named by `json_string_array`; an error is handed back as
/// serde_json's message, of which nothing is stated.
#[verifier::external_body]
fn parse_json_strings(text: &str) -> (r: Result<Vec<String>, String>)
    ensures
        r is Ok <==> json_string_array(text@) is Some,
        r matches Ok(v) ==> json_string_array(text@) == Some(views(v@)),
{
    serde_json::from_str::<Vec<String>>(text).map_err(|e| e.to_string())
}

/// The answer text that is read as JSON: the filtered answer, or the raw
/// one where filtering left nothing; trimmed, without leading code fences
/// (`` ```json `` then `` ``` ``) and trailing ones, and trimmed again.
pub open spec fn cleaned_spec(response: Seq<char>, filtered: Seq<char>) -> Seq<char> {
    let content = if filtered.len() == 0 {
        response
    } else {
        filtered
    };
    trim_spec(
        strip_all_suffix(
            strip_all_prefix(strip_all_prefix(trim_spec(content), "```json"@), "```"@),
            "```"@,
        ),
    )
}

/// The answer text that is read as JSON.
pub fn clean_split_response(response: &str, filtered: &str) -> (r: String)
    ensures
        r@ == cleaned_spec(response@, filtered@),
{
    let content = if filtered.is_empty() {
        response
    } else {
        filtered
    };
    let t = trim(content);
    let a = trim_start_matches(t.as_str(), "```json");
    let b = trim_start_matches(a.as_str(), "```");
    let c = trim_end_matches(b.as_str(), "```");
    trim(c.as_str())
}

/// Each sub-query marked with the sub-query prefix.
pub open spec fn marked_spec(qs: Seq<Seq<char>>) -> Seq<Seq<char>> {
    qs.map_values(|q: Seq<char>| "[SUB_QUERY] "@ + q)
}

/// The sub-queries that a parsed split answer gives: an error where the text
/// `cleaned` was not a JSON array of strings or the array is empty, else
/// every string marked with `[SUB_QUERY] `.
pub fn sub_queries_from(parsed: Result<Vec<String>, String>, cleaned: &str) -> (r: Result<
    Vec<String>,
    AISearchError,
>)
    ensures
        match parsed {
            Err(m) => r matches Err(e) && e.is_protocol(
                "解析子查询失败: "@ + m@ + "，响应内容: "@ + cleaned@,
            ),
            Ok(v) => if v@.len() == 0 {
                r matches Err(e) && e.is_protocol("未能拆分出任何子查询"@)
            } else {
                r matches Ok(w) && views(w@) == marked_spec(views(v@))
            },
        },
{
    match parsed {
        Err(m) => {
            let head = concat3("解析子查询失败: ", m.as_str(), "，响应内容: ");
            Err(AISearchError::Protocol(concat2(head.as_str(), cleaned)))
        },
        Ok(v) => {
            if v.len() == 0 {
                return Err(protocol_error("未能拆分出任何子查询"));
            }
            let mut out: Vec<String> = Vec::new();
            let mut i: usize = 0;
            while i < v.len()
                invariant
                    i <= v@.len(),
                    views(out@) == marked_spec(views(v@).take(i as int)),
                decreases v@.len() - i,
            {
                let q = concat2("[SUB_QUERY] ", v[i].as_str());
                let ghost before = views(out@);
                out.push(q);
                proof {
                    assert(views(v@)[i as int] == v@[i as int]@);
                    assert(views(out@) =~= before.push(q@));
                    assert(marked_spec(views(v@).take(i + 1)) =~= marked_spec(views(v@).take(i as int)).push(
                        "[SUB_QUERY] "@ + views(v@)[i as int],
                    ));
                }
                i += 1;
            }
            proof {
                assert(views(v@).take(v@.len() as int) =~= views(v@));
            }
            Ok(out)
        },
    }
}

/// Reads the answer of a split call into marked sub-queries. `None` only
/// where the thinking filter's patterns do not compile.
pub fn parse_split_response(response: &str) -> (r: Option<Result<Vec<String>, AISearchError>>)
    ensures
        r is Some <==> (regex_compiles(thinking_pattern()) && regex_compiles(blank_lines_pattern())),
        r matches Some(res) ==> ({
            let cleaned = cleaned_spec(response@, filtered_spec(response@));
            match json_string_array(cleaned) {
                None => res matches Err(e) && e matches AISearchError::Protocol(m) && exists|x: Seq<
                    char,
                >| m@ == "解析子查询失败: "@ + x + "，响应内容: "@ + cleaned,
                Some(qs) => if qs.len() == 0 {
                    res matches Err(e) && e.is_protocol("未能拆分出任何子查询"@)
                } else {
                    res matches Ok(w) && views(w@) == marked_spec(qs)
                },
            }
        }),
{
    let filtered = match filter_thinking_content(response) {
        Some(f) => f,
        None => {
            return None;
        },
    };
    let cleaned = clean_split_response(response, filtered.as_str());
    let parsed = parse_json_strings(cleaned.as_str());
    Some(sub_queries_from(parsed, cleaned.as_str()))
}

// ---------------------------------------------------------------------------
// Putting sub-answers together
// ---------------------------------------------------------------------------

/// The question of sub-query `i`, as shown with its answer.
pub open spec fn sub_question(sq: Seq<Seq<char>>, i: int) -> Seq<char> {
    if 0 <= i < sq.len() {
        sub_query_text(sq[i])
    } else {
        "未知"@
    }
}

/// The section of the combined answer for sub-query `i`.
pub open spec fn section_spec(i: int, question: Seq<char>, result: Result<String, AISearchError>) -> Seq<
    char,
> {
    match result {
        Ok(c) => "## 子查询 "@ + decimal((i + 1) as nat) + " 结果\n\n**子问题**: "@ + question + "\n\n"@
            + c@ + "\n\n"@,
        Err(e) => "## 子查询 "@ + decimal((i + 1) as nat) + " 失败\n\n**子问题**: "@ + question
            + "\n\n**错误**: "@ + e.message_spec() + "\n\n"@,
    }
}

/// The sections of the first `n` sub-queries, in order.
pub open spec fn sections_spec(
    sq: Seq<Seq<char>>,
    results: Seq<Result<String, AISearchError>>,
    n: int,
) -> Seq<char>
    decreases n,
{
    if n <= 0 {
        Seq::empty()
    } else {
        sections_spec(sq, results, n - 1) + section_spec(n - 1, sub_question(sq, n - 1), results[n - 1])
    }
}

/// The question shown for sub-query `i`.
fn question_at(sub_queries: &Vec<String>, i: usize) -> (r: String)
    ensures
        r@ == sub_question(views(sub_queries@), i as int),
{
    if i < sub_queries.len() {
        proof {
            assert(views(sub_queries@)[i as int] == sub_queries@[i as int]@);
        }
        sub_query_of(sub_queries[i].as_str())
    } else {
        "未知".to_owned()
    }
}

/// The combined answer: one section per result, in order, each with its
/// sub-question and its answer or error. With no results at all it is the
/// protocol error `所有子查询都失败了`.
pub fn assemble_results(sub_queries: &Vec<String>, results: &Vec<Result<String, AISearchError>>) -> (r:
    Result<String, AISearchError>)
    ensures
        results@.len() == 0 ==> (r matches Err(e) && e.is_protocol("所有子查询都失败了"@)),
        results@.len() > 0 ==> (r matches Ok(s) && s@ == sections_spec(
            views(sub_queries@),
            results@,
            results@.len() as int,
        )),
{
    if results.len() == 0 {
        return Err(protocol_error("所有子查询都失败了"));
    }
    let mut out = String::new();
    let mut i: usize = 0;
    while i < results.len()
        invariant
            i <= results@.len(),
            out@ == sections_spec(views(sub_queries@), results@, i as int),
        decreases results@.len() - i,
    {
        let n = decimal_string((i + 1) as u64);
        let question = question_at(sub_queries, i);
        let section = match &results[i] {
            Ok(c) => {
                let a = concat3("## 子查询 ", n.as_str(), " 结果\n\n**子问题**: ");
                let b = concat3(a.as_str(), question.as_str(), "\n\n");
                concat3(b.as_str(), c.as_str(), "\n\n")
            },
            Err(e) => {
                let a = concat3("## 子查询 ", n.as_str(), " 失败\n\n**子问题**: ");
                let b = concat3(a.as_str(), question.as_str(), "\n\n**错误**: ");
                let m = e.message();
                concat3(b.as_str(), m.as_str(), "\n\n")
            },
        };
        out.append(section.as_str());
        i += 1;
    }
    Ok(out)
}

// ---------------------------------------------------------------------------
// Laws
// ---------------------------------------------------------------------------

/// The endpoint always ends with `/v1/chat/completions`, and deriving the
/// endpoint of an endpoint changes nothing.
pub proof fn lemma_endpoint_idempotent(url: Seq<char>)
    ensures
        ends_with_spec(endpoint_spec(url), endpoint_suffix()),
        endpoint_spec(endpoint_spec(url)) == endpoint_spec(url),
{
    reveal_strlit("/v1/chat/completions");
    reveal_strlit("v1/chat/completions");
    let suffix = endpoint_suffix();
    let e = endpoint_spec(url);
    if ends_with_spec(url, suffix) {
    } else if url.len() > 0 && url.last() == '/' {
        assert(url + "v1/chat/completions"@ =~= url.drop_last() + suffix);
        assert(e.skip(e.len() - suffix.len()) =~= suffix);
    } else {
        assert(e.skip(e.len() - suffix.len()) =~= suffix);
    }
}

/// A sub-query that splitting produces is marked, so it is answered
/// directly and never split again.
pub proof fn lemma_marked_sub_query_is_direct(q: Seq<char>)
    ensures
        starts_with_spec("[SUB_QUERY] "@ + q, sub_query_marker()),
{
    reveal_strlit("[SUB_QUERY] ");
    reveal_strlit("[SUB_QUERY]");
    assert(("[SUB_QUERY] "@ + q).take(sub_query_marker().len() as int) =~= sub_query_marker());
}

/// Time injection: where the system prompt holds `{current_time}`, the
/// system message of every search request built from it holds a non-empty
/// local-time text (`%Y-%m-%d %H:%M:%S %A`, ending with a weekday), put
/// where the placeholder stood.
pub proof fn lemma_search_request_carries_local_time(
    r: ChatRequest,
    model: Seq<char>,
    prompt: Seq<char>,
    query: Seq<char>,
    stream: bool,
    t: Seq<char>,
)
    requires
        contains_spec(prompt, "{current_time}"@),
        local_time_shaped(t),
        request_spec(r, model, replace_spec(prompt, "{current_time}"@, t), query, stream),
    ensures
        contains_spec(r.messages@[0].content@, t),
        t.len() > 0,
        r.messages@[0].content@ != replace_spec(prompt, "{current_time}"@, Seq::empty()),
{
    reveal_strlit("{current_time}");
    crate::text::lemma_replace_shows_replacement(prompt, "{current_time}"@, t);
    crate::text::lemma_replace_longer(prompt, "{current_time}"@, t);
}

/// A split answer wrapped in a code fence, plain (```` ``` ````) or marked
/// `json`, is read as the text inside it. `j` stands for a JSON text without
/// surrounding whitespace: it starts with neither a backtick nor `j` and
/// does not end with a backtick.
pub proof fn lemma_fenced_split_answer_is_unwrapped(response: Seq<char>, j: Seq<char>)
    requires
        j.len() > 0,
        !crate::text::is_ws(j[0]),
        !crate::text::is_ws(j.last()),
        j[0] != '`',
        j[0] != 'j',
        j.last() != '`',
    ensures
        cleaned_spec(response, "```"@ + j + "```"@) == j,
        cleaned_spec(response, "```json"@ + j + "```"@) == j,
{
    reveal_strlit("```");
    reveal_strlit("```json");
    let f = "```"@;
    let fj = "```json"@;
    let tail = j + f;
    // A plain fence.
    let a = f + j + f;
    assert(a[0] == '`' && a.last() == '`');
    crate::text::lemma_trim_of_trimmed(a);
    assert(a.take(7)[3] == j[0]);
    assert(!starts_with_spec(a, fj));
    assert(strip_all_prefix(a, fj) == a);
    assert(a.skip(3) =~= tail);
    assert(tail.take(3)[0] == j[0]);
    assert(!starts_with_spec(tail, f));
    assert(strip_all_prefix(tail, f) == tail);
    assert(a.take(3) =~= f);
    assert(strip_all_prefix(a, f) == tail);
    assert(tail.take(tail.len() - 3) =~= j);
    if j.len() >= 3 {
        assert(j.skip(j.len() - 3)[2] == j.last());
    }
    assert(!ends_with_spec(j, f));
    assert(strip_all_suffix(j, f) == j);
    assert(tail.skip(tail.len() - 3) =~= f);
    assert(strip_all_suffix(tail, f) == j);
    crate::text::lemma_trim_of_trimmed(j);
    // A fence marked `json`.
    let b = fj + j + f;
    assert(b[0] == '`' && b.last() == '`');
    crate::text::lemma_trim_of_trimmed(b);
    assert(b.take(7) =~= fj);
    assert(b.skip(7) =~= tail);
    if tail.len() >= 7 {
        assert(tail.take(7)[0] == j[0]);
    }
    assert(!starts_with_spec(tail, fj));
    assert(strip_all_prefix(tail, fj) == tail);
    assert(strip_all_prefix(b, fj) == tail);
}

} // verus!
