//! The configuration file: its fields, defaults, location and validation.
//!
//! Reading and writing the file is left to the caller; this module decides
//! where it lives and whether its contents are acceptable.

use vstd::prelude::*;
use crate::error::AISearchError;
use crate::error::config_error;
use crate::text::starts_with_spec;
use crate::text::starts_with;
use crate::text::concat2;
use crate::text::concat3;
use crate::text::ends_with;

verus! {

/// Contents of the configuration file.
#[derive(Debug, Clone)]
pub struct ConfigFile {
    pub api_url: String,
    pub api_key: String,
    pub search_model_id: String,
    pub analysis_model_id: Option<String>,
    pub timeout: u64,
    pub stream: bool,
    pub filter_thinking: bool,
    pub retry_count: u32,
    pub analysis_retry_count: u32,
    pub search_retry_count: u32,
    pub log_level: String,
    pub max_query_plan: u32,
    pub http_api_key: String,
    pub admin_password: String,
    pub system_prompt: Option<String>,
    pub split_prompt: Option<String>,
}

/// Default request timeout, in seconds, of a configuration file.
pub fn default_timeout() -> (r: u64)
    ensures
        r == 180,
{
    180
}

pub fn default_stream() -> (r: bool)
    ensures
        r,
{
    true
}

pub fn default_filter_thinking() -> (r: bool)
    ensures
        r,
{
    true
}

pub fn default_retry_count() -> (r: u32)
    ensures
        r == 1,
{
    1
}

pub fn default_analysis_retry_count() -> (r: u32)
    ensures
        r == 1,
{
    1
}

pub fn default_search_retry_count() -> (r: u32)
    ensures
        r == 0,
{
    0
}

pub fn default_log_level() -> (r: String)
    ensures
        r@ == "INFO"@,
{
    "INFO".to_owned()
}

pub fn default_max_query_plan() -> (r: u32)
    ensures
        r == 10,
{
    10
}

pub fn default_http_api_key() -> (r: String)
    ensures
        r@ == "xinchen"@,
{
    "xinchen".to_owned()
}

pub fn default_admin_password() -> (r: String)
    ensures
        r@ == "xinchen"@,
{
    "xinchen".to_owned()
}

/// `base` joined with the relative component `comp`, with `'/'` as separator
/// (what `Path::join` gives on Unix for a relative component).
pub open spec fn join_path_spec(base: Seq<char>, comp: Seq<char>) -> Seq<char> {
    if base.len() == 0 || base.last() == '/' {
        base + comp
    } else {
        base + seq!['/'] + comp
    }
}

/// `base` joined with the relative component `comp`.
pub fn join_path(base: &str, comp: &str) -> (r: String)
    ensures
        r@ == join_path_spec(base@, comp@),
{
    proof {
        reveal_strlit("/");
        assert("/"@ =~= seq!['/']);
    }
    let has_sep = base.is_empty() || ends_with(base, "/");
    if has_sep {
        proof {
            if base@.len() > 0 {
                assert(base@.skip(base@.len() - 1)[0] == base@.last());
            }
        }
        concat2(base, comp)
    } else {
        proof {
            if base@.len() > 0 {
                assert(base@.skip(base@.len() - 1) =~= seq![base@.last()]);
            }
        }
        let r = concat3(base, "/", comp);
        r
    }
}

/// The user's home directory, through `dirs::home_dir`, as text.
///
/// It depends on the environment and the user database; nothing is stated of it.
#[verifier::external_body]
fn home_dir() -> Option<String> {
    dirs::home_dir().map(|p| p.to_string_lossy().into_owned())
}

/// Name of the directory under the home directory that holds the
/// configuration.
pub open spec fn config_dir_name() -> Seq<char> {
    ".ai-search-mcp"@
}

/// What `config_dir` gives for a home directory that was or was not found.
pub open spec fn config_dir_spec(home: Option<Seq<char>>) -> Option<Seq<char>> {
    match home {
        Some(h) => Some(join_path_spec(h, config_dir_name())),
        None => None,
    }
}

/// The configuration directory under `home`.
pub fn config_dir_in(home: Option<String>) -> (r: Result<String, AISearchError>)
    ensures
        match r {
            Ok(p) => home is Some && p@ == join_path_spec(home->Some_0@, config_dir_name()),
            Err(e) => home is None && e.is_config("无法获取用户主目录"@),
        },
{
    match home {
        Some(h) => Ok(join_path(h.as_str(), ".ai-search-mcp")),
        None => Err(config_error("无法获取用户主目录")),
    }
}

/// The configuration file under `home`.
pub fn config_path_in(home: Option<String>) -> (r: Result<String, AISearchError>)
    ensures
        match r {
            Ok(p) => home is Some && p@ == join_path_spec(
                join_path_spec(home->Some_0@, config_dir_name()),
                "config.json"@,
            ),
            Err(e) => home is None && e.is_config("无法获取用户主目录"@),
        },
{
    let dir = config_dir_in(home)?;
    Ok(join_path(dir.as_str(), "config.json"))
}

impl ConfigFile {
    /// The directory that holds the configuration file: `.ai-search-mcp`
    /// under the user's home directory.
    pub fn config_dir() -> (r: Result<String, AISearchError>)
        ensures
            match r {
                Ok(p) => exists|h: Seq<char>| p@ == join_path_spec(h, config_dir_name()),
                Err(e) => e.is_config("无法获取用户主目录"@),
            },
    {
        config_dir_in(home_dir())
    }

    /// The configuration file: `config.json` in `config_dir`.
    pub fn config_path() -> (r: Result<String, AISearchError>)
        ensures
            match r {
                Ok(p) => exists|h: Seq<char>|
                    p@ == join_path_spec(join_path_spec(h, config_dir_name()), "config.json"@),
                Err(e) => e.is_config("无法获取用户主目录"@),
            },
    {
        config_path_in(home_dir())
    }

    /// The message of the first check that the file fails, if any.
    pub open spec fn validation_failure(&self) -> Option<Seq<char>> {
        if self.api_url@.len() == 0 {
            Some("API URL 不能为空"@)
        } else if !(starts_with_spec(self.api_url@, "http://"@) || starts_with_spec(
            self.api_url@,
            "https://"@,
        )) {
            Some("API URL 必须以 http:// 或 https:// 开头"@)
        } else if self.api_key@.len() == 0 {
            Some("API Key 不能为空"@)
        } else if self.search_model_id@.len() == 0 {
            Some("搜索模型 ID 不能为空"@)
        } else if self.timeout < 1 || self.timeout > 300 {
            Some("超时时间必须在 1-300 秒之间"@)
        } else {
            None
        }
    }

    /// Checks the contents: a non-empty `http://` or `https://` API URL, a
    /// non-empty API key and search model, and a timeout of 1 to 300 seconds.
    pub fn validate(&self) -> (r: Result<(), AISearchError>)
        ensures
            match r {
                Ok(_) => self.validation_failure() is None,
                Err(e) => self.validation_failure() matches Some(m) && e.is_config(m),
            },
    {
        if self.api_url.as_str().is_empty() {
            return Err(config_error("API URL 不能为空"));
        }
        if !starts_with(self.api_url.as_str(), "http://") && !starts_with(
            self.api_url.as_str(),
            "https://",
        ) {
            return Err(config_error("API URL 必须以 http:// 或 https:// 开头"));
        }
        if self.api_key.as_str().is_empty() {
            return Err(config_error("API Key 不能为空"));
        }
        if self.search_model_id.as_str().is_empty() {
            return Err(config_error("搜索模型 ID 不能为空"));
        }
        if self.timeout < 1 || self.timeout > 300 {
            return Err(config_error("超时时间必须在 1-300 秒之间"));
        }
        Ok(())
    }
}

} // verus!
