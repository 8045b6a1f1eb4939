//! Decisions of the web configuration interface: who is logged in, what a
//! connection test checks, what a saved form becomes, and how assets are
//! served.

use vstd::prelude::*;
use crate::config::DEFAULT_SPLIT_PROMPT;
use crate::config::DEFAULT_SYSTEM_PROMPT;
use crate::config_file::ConfigFile;
use crate::text::ends_with;
use crate::text::ends_with_spec;
use crate::text::starts_with;
use crate::text::starts_with_spec;
use crate::text::str_eq;

verus! {

/// The administrator password in force: the configuration file's, or
/// `xinchen` where the file cannot be loaded.
pub open spec fn admin_password_spec(stored: Option<String>) -> Seq<char> {
    match stored {
        Some(p) => p@,
        None => "xinchen"@,
    }
}

/// Whether `presented` (a login key or a session cookie) is the
/// administrator password in force.
pub fn is_admin_password(presented: &str, stored: &Option<String>) -> (r: bool)
    ensures
        r == (presented@ == admin_password_spec(*stored)),
{
    match stored {
        Some(p) => str_eq(presented, p.as_str()),
        None => str_eq(presented, "xinchen"),
    }
}

/// The message, if any, that a connection test fails with.
pub open spec fn connection_test_failure(api_url: Seq<char>, api_key: Seq<char>) -> Option<Seq<char>> {
    if !(starts_with_spec(api_url, "http://"@) || starts_with_spec(api_url, "https://"@)) {
        Some("API URL 必须以 http:// 或 https:// 开头"@)
    } else if api_key.len() == 0 {
        Some("API Key 不能为空"@)
    } else {
        None
    }
}

/// A connection test: an `http://` or `https://` URL and a non-empty key.
pub fn check_connection(api_url: &str, api_key: &str) -> (r: Result<(), String>)
    ensures
        match r {
            Ok(_) => connection_test_failure(api_url@, api_key@) is None,
            Err(m) => connection_test_failure(api_url@, api_key@) == Some(m@),
        },
{
    if !starts_with(api_url, "http://") && !starts_with(api_url, "https://") {
        return Err("API URL 必须以 http:// 或 https:// 开头".to_owned());
    }
    if api_key.is_empty() {
        return Err("API Key 不能为空".to_owned());
    }
    Ok(())
}

/// The content type of an asset, by its name.
pub open spec fn content_type_spec(file: Seq<char>) -> Seq<char> {
    if ends_with_spec(file, ".css"@) {
        "text/css"@
    } else if ends_with_spec(file, ".js"@) {
        "application/javascript"@
    } else {
        "text/plain"@
    }
}

/// The content type of an asset, by its name.
pub fn content_type_for(file: &str) -> (r: String)
    ensures
        r@ == content_type_spec(file@),
{
    if ends_with(file, ".css") {
        "text/css".to_owned()
    } else if ends_with(file, ".js") {
        "application/javascript".to_owned()
    } else {
        "text/plain".to_owned()
    }
}

/// The settings of the configuration form.
pub struct SaveConfigRequest {
    pub api_url: String,
    pub api_key: String,
    pub search_model_id: String,
    pub analysis_model_id: Option<String>,
    pub timeout: u64,
    pub stream: bool,
    pub filter_thinking: bool,
    pub analysis_retry_count: u32,
    pub search_retry_count: u32,
    pub log_level: String,
    pub max_query_plan: u32,
    pub http_api_key: String,
    pub admin_password: String,
    pub system_prompt: Option<String>,
    pub split_prompt: Option<String>,
}

impl SaveConfigRequest {
    /// The configuration file that the form saves: its settings, with the
    /// general retry count fixed at 1.
    pub fn into_config_file(self) -> (c: ConfigFile)
        ensures
            c.api_url == self.api_url,
            c.api_key == self.api_key,
            c.search_model_id == self.search_model_id,
            c.analysis_model_id == self.analysis_model_id,
            c.timeout == self.timeout,
            c.stream == self.stream,
            c.filter_thinking == self.filter_thinking,
            c.retry_count == 1,
            c.analysis_retry_count == self.analysis_retry_count,
            c.search_retry_count == self.search_retry_count,
            c.log_level == self.log_level,
            c.max_query_plan == self.max_query_plan,
            c.http_api_key == self.http_api_key,
            c.admin_password == self.admin_password,
            c.system_prompt == self.system_prompt,
            c.split_prompt == self.split_prompt,
    {
        ConfigFile {
            api_url: self.api_url,
            api_key: self.api_key,
            search_model_id: self.search_model_id,
            analysis_model_id: self.analysis_model_id,
            timeout: self.timeout,
            stream: self.stream,
            filter_thinking: self.filter_thinking,
            retry_count: 1,
            analysis_retry_count: self.analysis_retry_count,
            search_retry_count: self.search_retry_count,
            log_level: self.log_level,
            max_query_plan: self.max_query_plan,
            http_api_key: self.http_api_key,
            admin_password: self.admin_password,
            system_prompt: self.system_prompt,
            split_prompt: self.split_prompt,
        }
    }
}

impl ConfigFile {
    /// The settings that the interface shows where no configuration file can
    /// be loaded.
    pub fn interface_default() -> (c: ConfigFile)
        ensures
            c.api_url@.len() == 0,
            c.api_key@.len() == 0,
            c.search_model_id@ == "Grok"@,
            c.analysis_model_id is None,
            c.timeout == 180,
            c.stream,
            c.filter_thinking,
            c.retry_count == 1,
            c.analysis_retry_count == 1,
            c.search_retry_count == 0,
            c.log_level@ == "INFO"@,
            c.max_query_plan == 10,
            c.http_api_key@ == "xinchen"@,
            c.admin_password@ == "xinchen"@,
            c.system_prompt is None,
            c.split_prompt is None,
    {
        ConfigFile {
            api_url: String::new(),
            api_key: String::new(),
            search_model_id: "Grok".to_owned(),
            analysis_model_id: None,
            timeout: 180,
            stream: true,
            filter_thinking: true,
            retry_count: 1,
            analysis_retry_count: 1,
            search_retry_count: 0,
            log_level: "INFO".to_owned(),
            max_query_plan: 10,
            http_api_key: "xinchen".to_owned(),
            admin_password: "xinchen".to_owned(),
            system_prompt: None,
            split_prompt: None,
        }
    }
}

/// The default prompts, as the interface offers them.
pub struct DefaultPrompts {
    pub system_prompt: String,
    pub split_prompt: String,
}

/// The default prompts.
pub fn default_prompts() -> (r: DefaultPrompts)
    ensures
        r.system_prompt@ == DEFAULT_SYSTEM_PROMPT@,
        r.split_prompt@ == DEFAULT_SPLIT_PROMPT@,
{
    DefaultPrompts {
        system_prompt: DEFAULT_SYSTEM_PROMPT.to_owned(),
        split_prompt: DEFAULT_SPLIT_PROMPT.to_owned(),
    }
}

} // verus!
