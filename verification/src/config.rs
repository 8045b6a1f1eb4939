//! The running configuration of the server, from the configuration file or
//! from environment variables.

use vstd::prelude::*;
use crate::text::opt_view;
use crate::config_file::ConfigFile;
use crate::error::AISearchError;
use crate::error::config_error;
use crate::number::decimal;
use crate::number::decimal_string;
use crate::number::parse_unsigned;
use crate::number::parse_unsigned_spec;
use crate::text::concat2;
use crate::text::concat3;
use crate::text::debug_option;
use crate::text::debug_quoted;
use crate::text::debug_str;
use crate::text::eq_ignore_ascii_case;
use crate::text::eq_ignore_ascii_case_spec;
use crate::text::starts_with;
use crate::text::starts_with_spec;
use crate::text::to_uppercase;
use crate::text::uppercase;
use crate::text::ascii_upper;
use vstd::utf8::encode_utf8;
use vstd::utf8::is_char_boundary;
use vstd::string::StringSliceAdditionalSpecFns;

verus! {

pub const DEFAULT_TIMEOUT: u64 = 60;

pub const DEFAULT_RETRY_COUNT: u32 = 1;

pub const DEFAULT_MAX_QUERY_PLAN: u32 = 1;

/// The system prompt of searches; `{current_time}` stands for the time of the request.
pub const DEFAULT_SYSTEM_PROMPT: &'static str = "你是一个专业的搜索助手,擅长联网搜索并提供准确、详细的答案。\n\n当前时间: {current_time}\n\n搜索策略:\n1. 优先使用最新、权威的信息源\n2. 对于时间敏感的查询,明确标注信息的时间\n3. 提供多个来源的信息进行交叉验证\n4. 对于技术问题,优先参考官方文档和最新版本\n\n输出要求:\n- 直接回答用户问题\n- 时间相关信息必须基于上述当前时间判断";

/// The system prompt of query splitting.
pub const DEFAULT_SPLIT_PROMPT: &'static str = "你是查询拆分助手。只返回 JSON 数组，不要任何解释、标记或其他文本。直接输出 JSON 数组。";

/// The server's configuration.
#[derive(Clone)]
pub struct AIConfig {
    pub api_url: String,
    pub api_key: String,
    pub search_model_id: String,
    pub analysis_model_id: Option<String>,
    pub system_prompt: String,
    pub split_prompt: String,
    pub timeout: u64,
    pub stream: bool,
    pub filter_thinking: bool,
    pub retry_count: u32,
    pub analysis_retry_count: u32,
    pub search_retry_count: u32,
    pub log_level: String,
    pub max_query_plan: u32,
    pub http_api_key: String,
    pub http_sse_heartbeat: u64,
    pub http_max_sse_connections: usize,
    pub http_max_body_size: usize,
    pub http_mcp_channel_capacity: usize,
    pub http_session_timeout: u64,
}

/// The environment variables that configure the server, each as read, or
/// `None` where it is unset or not Unicode.
pub struct EnvSettings {
    pub api_url: Option<String>,
    pub api_key: Option<String>,
    pub search_model_id: Option<String>,
    pub model_id: Option<String>,
    pub analysis_model_id: Option<String>,
    pub system_prompt: Option<String>,
    pub split_prompt: Option<String>,
    pub timeout: Option<String>,
    pub stream: Option<String>,
    pub filter_thinking: Option<String>,
    pub retry_count: Option<String>,
    pub analysis_retry_count: Option<String>,
    pub search_retry_count: Option<String>,
    pub log_level: Option<String>,
    pub max_query_plan: Option<String>,
    pub http_api_key: Option<String>,
    pub http_sse_heartbeat: Option<String>,
    pub http_max_sse_connections: Option<String>,
    pub http_max_body_size: Option<String>,
    pub http_mcp_channel_capacity: Option<String>,
    pub http_session_timeout: Option<String>,
}

/// The text of `o`, or `d` where it is absent.
pub open spec fn text_or(o: Option<String>, d: Seq<char>) -> Seq<char> {
    match o {
        Some(s) => s@,
        None => d,
    }
}

/// The number that `o` holds (an unsigned integer of maximum `max`), or `d`
/// where it is absent or does not parse.
pub open spec fn number_or(o: Option<String>, max: nat, d: nat) -> nat {
    match o {
        Some(s) => match parse_unsigned_spec(s@, max) {
            Some(v) => v,
            None => d,
        },
        None => d,
    }
}

/// Whether the flag `o` is on: `true` in any ASCII case, and on where absent.
pub open spec fn flag_or_true(o: Option<String>) -> bool {
    match o {
        Some(s) => eq_ignore_ascii_case_spec(s@, "true"@),
        None => true,
    }
}

/// The HTTP API key that the environment gives, before its length is checked.
pub open spec fn env_http_key(env: EnvSettings) -> Seq<char> {
    text_or(env.http_api_key, "xinchen"@)
}

/// An HTTP API key cut to its first 256 bytes where it is longer.
pub open spec fn cut_http_key(k: Seq<char>, out: Seq<char>) -> bool {
    if encode_utf8(k).len() > 256 {
        encode_utf8(out) == encode_utf8(k).take(256)
    } else {
        out == k
    }
}

/// The number `o` holds, or `d`.
pub fn number_or_default(o: &Option<String>, max: u64, d: u64) -> (r: u64)
    requires
        d <= max,
    ensures
        r == number_or(*o, max as nat, d as nat),
        r <= max,
{
    match o {
        Some(s) => match parse_unsigned(s.as_str(), max) {
            Some(v) => v,
            None => d,
        },
        None => d,
    }
}

/// Whether the flag `o` is on.
pub fn flag_on(o: &Option<String>) -> (r: bool)
    ensures
        r == flag_or_true(*o),
{
    match o {
        Some(s) => eq_ignore_ascii_case(s.as_str(), "true"),
        None => true,
    }
}

/// The text of `o`, or `d`.
pub fn text_or_default(o: &Option<String>, d: &str) -> (r: String)
    ensures
        r@ == text_or(*o, d@),
{
    match o {
        Some(s) => s.clone(),
        None => d.to_owned(),
    }
}

/// Whether the UTF-8 encoding of `s` has a character boundary at byte 256
/// (where it is longer than 256 bytes, the key is cut there), and a length
/// that a `usize` holds.
pub open spec fn http_key_cuttable(s: Seq<char>) -> bool {
    &&& encode_utf8(s).len() <= usize::MAX
    &&& encode_utf8(s).len() > 256 ==> is_char_boundary(encode_utf8(s), 256)
}

/// What the environment leaves missing or wrong, checked in order, before
/// the values themselves are checked.
pub open spec fn env_failure(env: EnvSettings) -> Option<Seq<char>> {
    if env.api_url is None {
        Some("缺少 AI_API_URL 环境变量或配置文件"@)
    } else if env.api_key is None {
        Some("缺少 AI_API_KEY 环境变量"@)
    } else if env.search_model_id is None && env.model_id is None {
        Some("缺少 AI_SEARCH_MODEL_ID 或 AI_MODEL_ID 环境变量"@)
    } else if env_http_key(env).len() == 0 {
        Some("API key 不能为空"@)
    } else {
        None
    }
}

/// The body size limit that the environment gives, in bytes.
pub open spec fn env_body_size(env: EnvSettings) -> nat {
    number_or(env.http_max_body_size, usize::MAX as nat, 10) * 1048576
}

/// What `{:?}` writes for a `bool`.
pub open spec fn debug_bool(b: bool) -> Seq<char> {
    if b {
        "true"@
    } else {
        "false"@
    }
}

/// The debug text of a configuration: every setting as `{:?}` writes it,
/// except the two keys, shown as `"***REDACTED***"`, and the two prompts,
/// shown as `"<omitted>"`.
pub open spec fn redacted_debug_spec(c: AIConfig) -> Seq<char> {
    "AIConfig { api_url: "@ + debug_quoted(c.api_url@) + ", api_key: \"***REDACTED***\", search_model_id: "@
        + debug_quoted(c.search_model_id@) + ", analysis_model_id: "@ + debug_option(
        opt_view(c.analysis_model_id),
    ) + ", system_prompt: \"<omitted>\", split_prompt: \"<omitted>\", timeout: "@ + decimal(
        c.timeout as nat,
    ) + ", stream: "@ + debug_bool(c.stream) + ", filter_thinking: "@ + debug_bool(c.filter_thinking)
        + ", retry_count: "@ + decimal(c.retry_count as nat) + ", analysis_retry_count: "@ + decimal(
        c.analysis_retry_count as nat,
    ) + ", search_retry_count: "@ + decimal(c.search_retry_count as nat) + ", log_level: "@
        + debug_quoted(c.log_level@) + ", max_query_plan: "@ + decimal(c.max_query_plan as nat)
        + ", http_api_key: \"***REDACTED***\", http_sse_heartbeat: "@ + decimal(
        c.http_sse_heartbeat as nat,
    ) + ", http_max_sse_connections: "@ + decimal(c.http_max_sse_connections as nat)
        + ", http_max_body_size: "@ + decimal(c.http_max_body_size as nat)
        + ", http_mcp_channel_capacity: "@ + decimal(c.http_mcp_channel_capacity as nat)
        + ", http_session_timeout: "@ + decimal(c.http_session_timeout as nat) + " }"@
}

/// What `{:?}` writes for an optional string.
fn debug_opt_string(o: &Option<String>) -> (r: String)
    ensures
        r@ == debug_option(opt_view(*o)),
{
    match o {
        Some(s) => {
            let q = debug_str(s.as_str());
            concat3("Some(", q.as_str(), ")")
        },
        None => "None".to_owned(),
    }
}

/// What `{:?}` writes for a `bool`.
fn debug_bool_string(b: bool) -> (r: String)
    ensures
        r@ == debug_bool(b),
{
    if b {
        "true".to_owned()
    } else {
        "false".to_owned()
    }
}

/// The debug text of a configuration depends on no key and no prompt:
/// configurations that differ only there read the same.
pub proof fn lemma_redacted_debug_hides_secrets(a: AIConfig, b: AIConfig)
    requires
        a.api_url@ == b.api_url@,
        a.search_model_id@ == b.search_model_id@,
        opt_view(a.analysis_model_id) == opt_view(b.analysis_model_id),
        a.timeout == b.timeout,
        a.stream == b.stream,
        a.filter_thinking == b.filter_thinking,
        a.retry_count == b.retry_count,
        a.analysis_retry_count == b.analysis_retry_count,
        a.search_retry_count == b.search_retry_count,
        a.log_level@ == b.log_level@,
        a.max_query_plan == b.max_query_plan,
        a.http_sse_heartbeat == b.http_sse_heartbeat,
        a.http_max_sse_connections == b.http_max_sse_connections,
        a.http_max_body_size == b.http_max_body_size,
        a.http_mcp_channel_capacity == b.http_mcp_channel_capacity,
        a.http_session_timeout == b.http_session_timeout,
    ensures
        redacted_debug_spec(a) == redacted_debug_spec(b),
{
}

impl AIConfig {
    /// The text that `{:?}` shows of the configuration, with the keys and
    /// the prompts hidden.
    pub fn redacted_debug(&self) -> (r: String)
        ensures
            r@ == redacted_debug_spec(*self),
    {
        let mut r = "AIConfig { api_url: ".to_owned();
        r.append(debug_str(self.api_url.as_str()).as_str());
        r.append(", api_key: \"***REDACTED***\", search_model_id: ");
        r.append(debug_str(self.search_model_id.as_str()).as_str());
        r.append(", analysis_model_id: ");
        r.append(debug_opt_string(&self.analysis_model_id).as_str());
        r.append(", system_prompt: \"<omitted>\", split_prompt: \"<omitted>\", timeout: ");
        r.append(decimal_string(self.timeout).as_str());
        r.append(", stream: ");
        r.append(debug_bool_string(self.stream).as_str());
        r.append(", filter_thinking: ");
        r.append(debug_bool_string(self.filter_thinking).as_str());
        r.append(", retry_count: ");
        r.append(decimal_string(self.retry_count as u64).as_str());
        r.append(", analysis_retry_count: ");
        r.append(decimal_string(self.analysis_retry_count as u64).as_str());
        r.append(", search_retry_count: ");
        r.append(decimal_string(self.search_retry_count as u64).as_str());
        r.append(", log_level: ");
        r.append(debug_str(self.log_level.as_str()).as_str());
        r.append(", max_query_plan: ");
        r.append(decimal_string(self.max_query_plan as u64).as_str());
        r.append(", http_api_key: \"***REDACTED***\", http_sse_heartbeat: ");
        r.append(decimal_string(self.http_sse_heartbeat).as_str());
        r.append(", http_max_sse_connections: ");
        r.append(decimal_string(self.http_max_sse_connections as u64).as_str());
        r.append(", http_max_body_size: ");
        r.append(decimal_string(self.http_max_body_size as u64).as_str());
        r.append(", http_mcp_channel_capacity: ");
        r.append(decimal_string(self.http_mcp_channel_capacity as u64).as_str());
        r.append(", http_session_timeout: ");
        r.append(decimal_string(self.http_session_timeout).as_str());
        r.append(" }");
        r
    }
    /// The message of the first check that the configuration fails, if any.
    pub open spec fn validation_failure(&self) -> Option<Seq<char>> {
        if !(starts_with_spec(self.api_url@, "http://"@) || starts_with_spec(
            self.api_url@,
            "https://"@,
        )) {
            Some("API URL 必须以 http:// 或 https:// 开头: "@ + self.api_url@)
        } else if self.timeout < 1 || self.timeout > 300 {
            Some("超时时间必须在 1-300 秒之间: "@ + decimal(self.timeout as nat))
        } else if self.max_query_plan < 1 || self.max_query_plan > 1000 {
            Some("最大子查询数必须在 1-1000 之间: "@ + decimal(self.max_query_plan as nat))
        } else {
            None
        }
    }

    /// Checks the configuration: an `http://` or `https://` API URL, a
    /// timeout of 1 to 300 seconds and 1 to 1000 sub-queries.
    pub fn validate(&self) -> (r: Result<(), AISearchError>)
        ensures
            match r {
                Ok(_) => self.validation_failure() is None,
                Err(e) => self.validation_failure() matches Some(m) && e.is_config(m),
            },
    {
        if !starts_with(self.api_url.as_str(), "http://") && !starts_with(
            self.api_url.as_str(),
            "https://",
        ) {
            let m = concat2("API URL 必须以 http:// 或 https:// 开头: ", self.api_url.as_str());
            return Err(AISearchError::Config(m));
        }
        if self.timeout < 1 || self.timeout > 300 {
            let n = decimal_string(self.timeout);
            let m = concat2("超时时间必须在 1-300 秒之间: ", n.as_str());
            return Err(AISearchError::Config(m));
        }
        if self.max_query_plan < 1 || self.max_query_plan > 1000 {
            let n = decimal_string(self.max_query_plan as u64);
            let m = concat2("最大子查询数必须在 1-1000 之间: ", n.as_str());
            return Err(AISearchError::Config(m));
        }
        Ok(())
    }

    /// The configuration that a configuration file gives: its values, the
    /// default prompts where it names none, and the fixed HTTP settings
    /// (heartbeat 5 s, 100 SSE connections, 10 MiB bodies, channels of 100,
    /// sessions of 1800 s).
    pub fn from_config_file(cf: ConfigFile) -> (c: AIConfig)
        ensures
            c.from_file_spec(cf),
    {
        let system_prompt = text_or_default(&cf.system_prompt, DEFAULT_SYSTEM_PROMPT);
        let split_prompt = text_or_default(&cf.split_prompt, DEFAULT_SPLIT_PROMPT);
        AIConfig {
            api_url: cf.api_url,
            api_key: cf.api_key,
            search_model_id: cf.search_model_id,
            analysis_model_id: cf.analysis_model_id,
            system_prompt,
            split_prompt,
            timeout: cf.timeout,
            stream: cf.stream,
            filter_thinking: cf.filter_thinking,
            retry_count: cf.retry_count,
            analysis_retry_count: cf.analysis_retry_count,
            search_retry_count: cf.search_retry_count,
            log_level: cf.log_level,
            max_query_plan: cf.max_query_plan,
            http_api_key: cf.http_api_key,
            http_sse_heartbeat: 5,
            http_max_sse_connections: 100,
            http_max_body_size: 10 * 1024 * 1024,
            http_mcp_channel_capacity: 100,
            http_session_timeout: 1800,
        }
    }

    /// The configuration that environment variables give. Missing required
    /// variables and an empty HTTP API key are errors, checked in the order
    /// of `env_failure`; then the values are checked by `validate`.
    /// Numbers that are absent or do not parse take their defaults, flags are
    /// on unless set to something other than `true`, the log level is upper
    /// case and an HTTP API key over 256 bytes is cut to 256 bytes.
    pub fn from_env_values(env: &EnvSettings) -> (r: Result<AIConfig, AISearchError>)
        requires
            env_failure(*env) is None ==> http_key_cuttable(env_http_key(*env)),
            env_failure(*env) is None ==> env_body_size(*env) <= usize::MAX,
        ensures
            env_failure(*env) matches Some(m) ==> r matches Err(e) && e.is_config(m),
            env_failure(*env) is None ==> match r {
                Ok(c) => c.validation_failure() is None && c.from_env_spec(*env),
                Err(e) => e matches AISearchError::Config(m) && exists|c: AIConfig|
                    c.from_env_spec(*env) && c.validation_failure() == Some(m@),
            },
            r matches Ok(c) ==> opt_view(c.analysis_model_id) == opt_view(env.analysis_model_id),
            r matches Ok(c) ==> opt_view(env.api_url) == Some(c.api_url@) && opt_view(env.api_key)
                == Some(c.api_key@),
            r matches Ok(c) ==> opt_view(env.search_model_id) == Some(c.search_model_id@) || (
            env.search_model_id is None && opt_view(env.model_id) == Some(c.search_model_id@)),
    {
        let api_url = match &env.api_url {
            Some(s) => s.clone(),
            None => {
                return Err(config_error("缺少 AI_API_URL 环境变量或配置文件"));
            },
        };
        let api_key = match &env.api_key {
            Some(s) => s.clone(),
            None => {
                return Err(config_error("缺少 AI_API_KEY 环境变量"));
            },
        };
        let search_model_id = match &env.search_model_id {
            Some(s) => s.clone(),
            None => match &env.model_id {
                Some(s) => s.clone(),
                None => {
                    return Err(config_error("缺少 AI_SEARCH_MODEL_ID 或 AI_MODEL_ID 环境变量"));
                },
            },
        };
        let analysis_model_id = env.analysis_model_id.clone();
        let system_prompt = text_or_default(&env.system_prompt, DEFAULT_SYSTEM_PROMPT);
        let split_prompt = text_or_default(&env.split_prompt, DEFAULT_SPLIT_PROMPT);
        let timeout = number_or_default(&env.timeout, u64::MAX, DEFAULT_TIMEOUT);
        let stream = flag_on(&env.stream);
        let filter_thinking = flag_on(&env.filter_thinking);
        let retry_count = number_or_default(&env.retry_count, 4294967295, 1) as u32;
        let analysis_retry_count = number_or_default(&env.analysis_retry_count, 4294967295, 1) as u32;
        let search_retry_count = number_or_default(&env.search_retry_count, 4294967295, 0) as u32;
        let level = text_or_default(&env.log_level, "INFO");
        let log_level = to_uppercase(level.as_str());
        let max_query_plan = number_or_default(&env.max_query_plan, 4294967295, 1) as u32;
        let key = text_or_default(&env.http_api_key, "xinchen");
        if key.as_str().is_empty() {
            return Err(config_error("API key 不能为空"));
        }
        let http_api_key = if key.as_str().len() > 256 {
            let (head, _) = key.as_str().split_at(256);
            let h = head.to_owned();
            assert(head.spec_bytes() == encode_utf8(head@));
            assert(h@ == head@);
            assert(encode_utf8(h@) == encode_utf8(key@).take(256));
            h
        } else {
            key
        };
        let http_sse_heartbeat = number_or_default(&env.http_sse_heartbeat, u64::MAX, 5);
        let usize_max: u64 = usize::MAX as u64;
        let http_max_sse_connections = number_or_default(&env.http_max_sse_connections, usize_max, 100) as usize;
        let mb = number_or_default(&env.http_max_body_size, usize_max, 10) as usize;
        let http_max_body_size = mb * 1024 * 1024;
        let http_mcp_channel_capacity = number_or_default(&env.http_mcp_channel_capacity, usize_max, 100) as usize;
        let http_session_timeout = number_or_default(&env.http_session_timeout, u64::MAX, 1800);
        let config = AIConfig {
            api_url,
            api_key,
            search_model_id,
            analysis_model_id,
            system_prompt,
            split_prompt,
            timeout,
            stream,
            filter_thinking,
            retry_count,
            analysis_retry_count,
            search_retry_count,
            log_level,
            max_query_plan,
            http_api_key,
            http_sse_heartbeat,
            http_max_sse_connections,
            http_max_body_size,
            http_mcp_channel_capacity,
            http_session_timeout,
        };
        proof {
            if encode_utf8(key@).len() > 256 {
                assert(encode_utf8(http_api_key@) == encode_utf8(key@).take(256));
            }
            assert(cut_http_key(env_http_key(*env), http_api_key@));
            assert(config.from_env_spec(*env));
        }
        match config.validate() {
            Ok(()) => Ok(config),
            Err(e) => Err(e),
        }
    }

    /// The first required environment setting that is missing or empty, as
    /// the configuration error that it gives; `None` where all are there.
    pub fn missing_env_setting(env: &EnvSettings) -> (r: Option<AISearchError>)
        ensures
            match env_failure(*env) {
                Some(m) => r matches Some(e) && e.is_config(m),
                None => r is None,
            },
    {
        if env.api_url.is_none() {
            return Some(config_error("缺少 AI_API_URL 环境变量或配置文件"));
        }
        if env.api_key.is_none() {
            return Some(config_error("缺少 AI_API_KEY 环境变量"));
        }
        if env.search_model_id.is_none() && env.model_id.is_none() {
            return Some(config_error("缺少 AI_SEARCH_MODEL_ID 或 AI_MODEL_ID 环境变量"));
        }
        let empty_key = match &env.http_api_key {
            Some(k) => k.as_str().is_empty(),
            None => false,
        };
        proof {
            reveal_strlit("xinchen");
        }
        if empty_key {
            return Some(config_error("API key 不能为空"));
        }
        None
    }

    /// The configuration: the configuration file's where one was loaded,
    /// whatever the environment holds; else the environment's.
    pub fn from_file_or_env(file: Option<ConfigFile>, env: &EnvSettings) -> (r: Result<
        AIConfig,
        AISearchError,
    >)
        requires
            file is None && env_failure(*env) is None ==> http_key_cuttable(env_http_key(*env)),
            file is None && env_failure(*env) is None ==> env_body_size(*env) <= usize::MAX,
        ensures
            file matches Some(f) ==> r matches Ok(c) && c.from_file_spec(f),
            file is None ==> (env_failure(*env) matches Some(m) ==> r matches Err(e) && e.is_config(m)),
            file is None && env_failure(*env) is None ==> match r {
                Ok(c) => c.validation_failure() is None && c.from_env_spec(*env),
                Err(e) => e matches AISearchError::Config(m) && exists|c: AIConfig|
                    c.from_env_spec(*env) && c.validation_failure() == Some(m@),
            },
    {
        match file {
            Some(f) => Ok(AIConfig::from_config_file(f)),
            None => AIConfig::from_env_values(env),
        }
    }

    /// Whether this configuration holds the values of the configuration file
    /// `cf`: its settings, the default prompts where it sets none, and the
    /// default HTTP settings.
    pub open spec fn from_file_spec(&self, cf: ConfigFile) -> bool {
        &&& self.api_url == cf.api_url
        &&& self.api_key == cf.api_key
        &&& self.search_model_id == cf.search_model_id
        &&& self.analysis_model_id == cf.analysis_model_id
        &&& self.system_prompt@ == text_or(cf.system_prompt, DEFAULT_SYSTEM_PROMPT@)
        &&& self.split_prompt@ == text_or(cf.split_prompt, DEFAULT_SPLIT_PROMPT@)
        &&& self.timeout == cf.timeout
        &&& self.stream == cf.stream
        &&& self.filter_thinking == cf.filter_thinking
        &&& self.retry_count == cf.retry_count
        &&& self.analysis_retry_count == cf.analysis_retry_count
        &&& self.search_retry_count == cf.search_retry_count
        &&& self.log_level == cf.log_level
        &&& self.max_query_plan == cf.max_query_plan
        &&& self.http_api_key == cf.http_api_key
        &&& self.http_sse_heartbeat == 5
        &&& self.http_max_sse_connections == 100
        &&& self.http_max_body_size == 10485760
        &&& self.http_mcp_channel_capacity == 100
        &&& self.http_session_timeout == 1800
    }

    /// Whether this configuration holds the values that `env` gives.
    pub open spec fn from_env_spec(&self, env: EnvSettings) -> bool {
        &&& opt_view(env.api_url) == Some(self.api_url@)
        &&& opt_view(env.api_key) == Some(self.api_key@)
        &&& self.search_model_id@ == (match env.search_model_id {
            Some(s) => s@,
            None => text_or(env.model_id, Seq::empty()),
        })
        &&& opt_view(self.analysis_model_id) == opt_view(env.analysis_model_id)
        &&& self.system_prompt@ == text_or(env.system_prompt, DEFAULT_SYSTEM_PROMPT@)
        &&& self.split_prompt@ == text_or(env.split_prompt, DEFAULT_SPLIT_PROMPT@)
        &&& self.timeout == number_or(env.timeout, u64::MAX as nat, 60)
        &&& self.stream == flag_or_true(env.stream)
        &&& self.filter_thinking == flag_or_true(env.filter_thinking)
        &&& self.retry_count == number_or(env.retry_count, u32::MAX as nat, 1)
        &&& self.analysis_retry_count == number_or(env.analysis_retry_count, u32::MAX as nat, 1)
        &&& self.search_retry_count == number_or(env.search_retry_count, u32::MAX as nat, 0)
        &&& self.log_level@ == uppercase(text_or(env.log_level, "INFO"@))
        &&& vstd::utf8::is_ascii_chars(text_or(env.log_level, "INFO"@)) ==> self.log_level@
            == text_or(env.log_level, "INFO"@).map_values(|c: char| ascii_upper(c))
        &&& self.max_query_plan == number_or(env.max_query_plan, u32::MAX as nat, 1)
        &&& cut_http_key(env_http_key(env), self.http_api_key@)
        &&& self.http_sse_heartbeat == number_or(env.http_sse_heartbeat, u64::MAX as nat, 5)
        &&& self.http_max_sse_connections == number_or(
            env.http_max_sse_connections,
            usize::MAX as nat,
            100,
        )
        &&& self.http_max_body_size == env_body_size(env)
        &&& self.http_mcp_channel_capacity == number_or(
            env.http_mcp_channel_capacity,
            usize::MAX as nat,
            100,
        )
        &&& self.http_session_timeout == number_or(env.http_session_timeout, u64::MAX as nat, 1800)
    }
}

/// What the environment sets is what the configuration holds: the API URL
/// and key, the search model (`AI_SEARCH_MODEL_ID`, else `AI_MODEL_ID`),
/// and the analysis model that splits queries (`AI_ANALYSIS_MODEL_ID`,
/// absent where it is unset).
pub proof fn lemma_env_models_are_kept(c: AIConfig, env: EnvSettings)
    requires
        c.from_env_spec(env),
    ensures
        opt_view(c.analysis_model_id) == opt_view(env.analysis_model_id),
        opt_view(env.api_url) == Some(c.api_url@),
        opt_view(env.api_key) == Some(c.api_key@),
        env.search_model_id is Some ==> opt_view(env.search_model_id) == Some(c.search_model_id@),
        env.search_model_id is None && env.model_id is Some ==> opt_view(env.model_id) == Some(
            c.search_model_id@,
        ),
{
}

} // verus!
