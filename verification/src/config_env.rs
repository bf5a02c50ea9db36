//! Environment overrides of a loaded configuration.
//!
//! The application reads the `BASANGO_*` variables; the library decides what
//! each value means and whether it is acceptable.

use vstd::prelude::*;

use crate::bindings::{parsed_url, url_parse};
use crate::config::CrawlerConfig;
use crate::domain::UpdateDirection;
use crate::error::{concat3, CrawlError};
use crate::text::{
    append_str, ascii_lowercase, ascii_lowercase_of, chars_of, owned, parse_u32, parse_u64,
    parse_unsigned, str_eq, string_from_chars, trim, trimmed,
};

verus! {

/// The raw values of the environment variables that override configuration,
/// as read (`None` when a variable is unset).
#[derive(Debug, Clone, Default, PartialEq, Eq)]
pub struct EnvOverrides {
    /// `BASANGO_API_CRAWLER_ENDPOINT`
    pub api_endpoint: Option<String>,
    /// `BASANGO_API_CRAWLER_TOKEN`
    pub api_token: Option<String>,
    /// `BASANGO_CRAWLER_REDIS_URL`
    pub redis_url: Option<String>,
    /// `BASANGO_CRAWLER_QUEUE_DISCOVERY`
    pub queue_discovery: Option<String>,
    /// `BASANGO_CRAWLER_QUEUE_ARTICLES`
    pub queue_articles: Option<String>,
    /// `BASANGO_CRAWLER_RETAIN_COMPLETED`
    pub retain_completed: Option<String>,
    /// `BASANGO_CRAWLER_RETAIN_FAILED`
    pub retain_failed: Option<String>,
    /// `BASANGO_CRAWLER_FETCH_USER_AGENT`
    pub user_agent: Option<String>,
    /// `BASANGO_CRAWLER_FETCH_MAX_RETRIES`
    pub max_retries: Option<String>,
    /// `BASANGO_CRAWLER_FETCH_RESPECT_RETRY_AFTER`
    pub respect_retry_after: Option<String>,
    /// `BASANGO_CRAWLER_UPDATE_DIRECTION`
    pub update_direction: Option<String>,
    /// `BASANGO_CRAWLER_DATA_PATH`
    pub data_path: Option<String>,
    /// `BASANGO_CRAWLER_ROOT_PATH`
    pub root_path: Option<String>,
    /// `BASANGO_CRAWLER_SQLITE_PATH`
    pub sqlite_path: Option<String>,
}

/// A variable's effective value: trimmed, and absent when blank.
pub open spec fn env_setting(raw: Option<String>) -> Option<Seq<char>> {
    match raw {
        Some(s) => if trim(s@).len() > 0 {
            Some(trim(s@))
        } else {
            None
        },
        None => None,
    }
}

/// A variable's effective value.
pub fn env_value(raw: &Option<String>) -> (r: Option<String>)
    ensures
        r matches Some(s) ==> env_setting(*raw) == Some(s@),
        r is None ==> env_setting(*raw) is None,
{
    match raw {
        Some(s) => {
            let t = trimmed(s.as_str());
            if t.as_str().is_empty() {
                None
            } else {
                Some(t)
            }
        },
        None => None,
    }
}

/// Replaces `target` with the setting when there is one.
pub fn set_string(raw: &Option<String>, target: &mut String)
    ensures
        env_setting(*raw) matches Some(v) ==> final(target)@ == v,
        env_setting(*raw) is None ==> final(target)@ == old(target)@,
{
    if let Some(value) = env_value(raw) {
        *target = value;
    }
}

/// The meaning of a boolean setting, ignoring ASCII case.
pub open spec fn bool_setting(value: Seq<char>) -> Option<bool> {
    let v = ascii_lowercase(value);
    if v == "1"@ || v == "true"@ || v == "yes"@ || v == "on"@ {
        Some(true)
    } else if v == "0"@ || v == "false"@ || v == "no"@ || v == "off"@ {
        Some(false)
    } else {
        None
    }
}

/// Reads a boolean setting: `1`, `true`, `yes`, `on` or `0`, `false`, `no`,
/// `off`, in any ASCII case.
pub fn parse_bool(name: &str, raw: &str) -> (r: Result<bool, CrawlError>)
    ensures
        bool_setting(raw@) matches Some(b) ==> r == Ok::<bool, CrawlError>(b),
        bool_setting(raw@) is None ==> (r matches Err(e) && e == CrawlError::Configuration(
            e->Configuration_0,
        ) && e->Configuration_0@ == "environment variable "@ + name@ + " must be a boolean, got '"@
            + raw@ + "'"@),
{
    let v = chars_of(raw);
    let lower = ascii_lowercase_of(&v);
    let s = string_from_chars(&lower);
    let t = s.as_str();
    if str_eq(t, "1") || str_eq(t, "true") || str_eq(t, "yes") || str_eq(t, "on") {
        Ok(true)
    } else if str_eq(t, "0") || str_eq(t, "false") || str_eq(t, "no") || str_eq(t, "off") {
        Ok(false)
    } else {
        let mut message = concat3("environment variable ", name, " must be a boolean, got '");
        append_str(&mut message, raw);
        append_str(&mut message, "'");
        Err(CrawlError::Configuration(message))
    }
}

/// The error for a number setting that does not parse.
pub open spec fn invalid_value_message(name: Seq<char>, value: Seq<char>) -> Seq<char> {
    "environment variable "@ + name + " has invalid value '"@ + value + "'"@
}

fn invalid_value(name: &str, value: &str) -> (e: CrawlError)
    ensures
        e == CrawlError::Configuration(e->Configuration_0),
        e->Configuration_0@ == invalid_value_message(name@, value@),
{
    let mut message = concat3("environment variable ", name, " has invalid value '");
    append_str(&mut message, value);
    append_str(&mut message, "'");
    CrawlError::Configuration(message)
}

/// Reads an unsigned 64-bit setting, leaving `current` when unset.
pub fn set_parsed_u64(name: &str, raw: &Option<String>, current: u64) -> (r: Result<u64, CrawlError>)
    ensures
        env_setting(*raw) is None ==> r == Ok::<u64, CrawlError>(current),
        env_setting(*raw) matches Some(v) ==> (match parse_unsigned(v, u64::MAX as int) {
            Some(n) => r matches Ok(x) && x as int == n,
            None => r matches Err(e) && e == CrawlError::Configuration(e->Configuration_0)
                && e->Configuration_0@ == invalid_value_message(name@, v),
        }),
{
    match env_value(raw) {
        Some(value) => match parse_u64(value.as_str()) {
            Some(n) => Ok(n),
            None => Err(invalid_value(name, value.as_str())),
        },
        None => Ok(current),
    }
}

/// Reads an unsigned 32-bit setting, leaving `current` when unset.
pub fn set_parsed_u32(name: &str, raw: &Option<String>, current: u32) -> (r: Result<u32, CrawlError>)
    ensures
        env_setting(*raw) is None ==> r == Ok::<u32, CrawlError>(current),
        env_setting(*raw) matches Some(v) ==> (match parse_unsigned(v, u32::MAX as int) {
            Some(n) => r matches Ok(x) && x as int == n,
            None => r matches Err(e) && e == CrawlError::Configuration(e->Configuration_0)
                && e->Configuration_0@ == invalid_value_message(name@, v),
        }),
{
    match env_value(raw) {
        Some(value) => match parse_u32(value.as_str()) {
            Some(n) => Ok(n),
            None => Err(invalid_value(name, value.as_str())),
        },
        None => Ok(current),
    }
}

/// The direction a setting names: exactly `forward` or `backward`.
pub open spec fn direction_setting(value: Seq<char>) -> Option<UpdateDirection> {
    if value == "forward"@ {
        Some(UpdateDirection::Forward)
    } else if value == "backward"@ {
        Some(UpdateDirection::Backward)
    } else {
        None
    }
}

/// Whether every override that must be parsed is acceptable (the
/// endpoint's, when set, is checked by its own rule).
pub open spec fn overrides_acceptable(env: EnvOverrides) -> bool {
    &&& env_setting(env.api_endpoint) matches Some(v) ==> parsed_url(v) is Some
    &&& env_setting(env.retain_completed) matches Some(v) ==> parse_unsigned(v, u64::MAX as int) is Some
    &&& env_setting(env.retain_failed) matches Some(v) ==> parse_unsigned(v, u64::MAX as int) is Some
    &&& env_setting(env.max_retries) matches Some(v) ==> parse_unsigned(v, u32::MAX as int) is Some
    &&& env_setting(env.respect_retry_after) matches Some(v) ==> bool_setting(v) is Some
    &&& env_setting(env.update_direction) matches Some(v) ==> direction_setting(v) is Some
}

pub open spec fn number_error(name: Seq<char>, raw: Option<String>, max: int) -> Option<Seq<char>> {
    match env_setting(raw) {
        Some(v) => if parse_unsigned(v, max) is None {
            Some(invalid_value_message(name, v))
        } else {
            None
        },
        None => None,
    }
}

pub open spec fn bool_error(raw: Option<String>) -> Option<Seq<char>> {
    match env_setting(raw) {
        Some(v) => if bool_setting(v) is None {
            Some(
                "environment variable "@ + "BASANGO_CRAWLER_FETCH_RESPECT_RETRY_AFTER"@
                    + " must be a boolean, got '"@ + v + "'"@,
            )
        } else {
            None
        },
        None => None,
    }
}

pub open spec fn direction_error(raw: Option<String>) -> Option<Seq<char>> {
    match env_setting(raw) {
        Some(v) => if direction_setting(v) is None {
            Some(
                "BASANGO_CRAWLER_UPDATE_DIRECTION must be 'forward' or 'backward', got '"@ + v
                    + "'"@,
            )
        } else {
            None
        },
        None => None,
    }
}

/// The error message of the first unacceptable override that is not the
/// endpoint, in the order the overrides are applied.
pub open spec fn later_override_error(env: EnvOverrides) -> Option<Seq<char>> {
    let completed = number_error("BASANGO_CRAWLER_RETAIN_COMPLETED"@, env.retain_completed, u64::MAX as int);
    let failed = number_error("BASANGO_CRAWLER_RETAIN_FAILED"@, env.retain_failed, u64::MAX as int);
    let retries = number_error("BASANGO_CRAWLER_FETCH_MAX_RETRIES"@, env.max_retries, u32::MAX as int);
    if completed is Some {
        completed
    } else if failed is Some {
        failed
    } else if retries is Some {
        retries
    } else if bool_error(env.respect_retry_after) is Some {
        bool_error(env.respect_retry_after)
    } else {
        direction_error(env.update_direction)
    }
}

/// A string field after an override.
pub open spec fn overridden(raw: Option<String>, current: Seq<char>) -> Seq<char> {
    match env_setting(raw) {
        Some(v) => v,
        None => current,
    }
}

/// The configuration once every override is applied.
pub open spec fn applied_config(old: CrawlerConfig, new: CrawlerConfig, env: EnvOverrides) -> bool {
    &&& new.ingestion.endpoint matches Some(e) ==> (env_setting(env.api_endpoint) matches Some(v)
        && parsed_url(v) == Some(e@)) || (env_setting(env.api_endpoint) is None
        && old.ingestion.endpoint == new.ingestion.endpoint)
    &&& new.ingestion.endpoint is None ==> env_setting(env.api_endpoint) is None
        && old.ingestion.endpoint is None
    &&& new.ingestion.token@ == overridden(env.api_token, old.ingestion.token@)
    &&& new.queue.redis_url@ == overridden(env.redis_url, old.queue.redis_url@)
    &&& new.queue.queues.discovery@ == overridden(env.queue_discovery, old.queue.queues.discovery@)
    &&& new.queue.queues.articles@ == overridden(env.queue_articles, old.queue.queues.articles@)
    &&& new.queue.queues.delivery == old.queue.queues.delivery
    &&& new.queue.prefix == old.queue.prefix
    &&& new.queue.retention.completed as int == match env_setting(env.retain_completed) {
        Some(v) => parse_unsigned(v, u64::MAX as int)->0,
        None => old.queue.retention.completed as int,
    }
    &&& new.queue.retention.failed as int == match env_setting(env.retain_failed) {
        Some(v) => parse_unsigned(v, u64::MAX as int)->0,
        None => old.queue.retention.failed as int,
    }
    &&& new.http.user_agent@ == overridden(env.user_agent, old.http.user_agent@)
    &&& new.http.max_retries as int == match env_setting(env.max_retries) {
        Some(v) => parse_unsigned(v, u32::MAX as int)->0,
        None => old.http.max_retries as int,
    }
    &&& new.http.respect_retry_after == match env_setting(env.respect_retry_after) {
        Some(v) => bool_setting(v)->0,
        None => old.http.respect_retry_after,
    }
    &&& new.http.backoff == old.http.backoff
    &&& new.http.follow_redirects == old.http.follow_redirects
    &&& new.http.rotate == old.http.rotate
    &&& new.http.timeout == old.http.timeout
    &&& new.http.verify_ssl == old.http.verify_ssl
    &&& new.runtime.direction == match env_setting(env.update_direction) {
        Some(v) => direction_setting(v)->0,
        None => old.runtime.direction,
    }
    &&& new.runtime.worker_concurrency == old.runtime.worker_concurrency
    &&& new.paths.data@ == overridden(env.data_path, old.paths.data@)
    &&& new.paths.root@ == overridden(env.root_path, old.paths.root@)
    &&& new.paths.sqlite matches Some(p) ==> (env_setting(env.sqlite_path) matches Some(v)
        && p@ == v) || (env_setting(env.sqlite_path) is None && old.paths.sqlite == new.paths.sqlite)
    &&& new.paths.sqlite is None ==> env_setting(env.sqlite_path) is None && old.paths.sqlite is None
    &&& new.sources == old.sources
}

impl CrawlerConfig {
    /// Applies environment overrides. When a value is unacceptable the
    /// configuration is left as it was and the first such value, in the order
    /// the variables are listed in [`EnvOverrides`], is reported.
    pub fn apply_environment(&mut self, env: &EnvOverrides) -> (r: Result<(), CrawlError>)
        ensures
            r is Ok <==> overrides_acceptable(*env),
            r is Ok ==> applied_config(*old(self), *final(self), *env),
            r is Err ==> *final(self) == *old(self),
            r matches Err(e) ==> e is Configuration,
            r matches Err(e) ==> (env_setting(env.api_endpoint) matches Some(v) && parsed_url(v) is None
                && e->Configuration_0@.take(32) == "invalid ingestion API endpoint: "@) || (
            (env_setting(env.api_endpoint) matches Some(v) ==> parsed_url(v) is Some)
                && later_override_error(*env) == Some(e->Configuration_0@)),
    {
        let endpoint = match env_value(&env.api_endpoint) {
            Some(raw) => match url_parse(raw.as_str()) {
                Ok(url) => Some(url),
                Err(error) => {
                    let message = concat3("invalid ingestion API endpoint: ", error.as_str(), "");
                    proof {
                        reveal_strlit("");
                        reveal_strlit("invalid ingestion API endpoint: ");
                        assert(message@.take(32) =~= "invalid ingestion API endpoint: "@);
                    }
                    return Err(CrawlError::Configuration(message));
                },
            },
            None => None,
        };
        let completed = set_parsed_u64(
            "BASANGO_CRAWLER_RETAIN_COMPLETED",
            &env.retain_completed,
            self.queue.retention.completed,
        )?;
        let failed = set_parsed_u64(
            "BASANGO_CRAWLER_RETAIN_FAILED",
            &env.retain_failed,
            self.queue.retention.failed,
        )?;
        let max_retries = set_parsed_u32(
            "BASANGO_CRAWLER_FETCH_MAX_RETRIES",
            &env.max_retries,
            self.http.max_retries,
        )?;
        let respect = match env_value(&env.respect_retry_after) {
            Some(raw) => parse_bool("BASANGO_CRAWLER_FETCH_RESPECT_RETRY_AFTER", raw.as_str())?,
            None => self.http.respect_retry_after,
        };
        let direction = match env_value(&env.update_direction) {
            Some(raw) => {
                proof {
                    reveal_strlit("forward");
                    reveal_strlit("backward");
                }
                if str_eq(raw.as_str(), "forward") {
                    UpdateDirection::Forward
                } else if str_eq(raw.as_str(), "backward") {
                    UpdateDirection::Backward
                } else {
                    let message = concat3(
                        "BASANGO_CRAWLER_UPDATE_DIRECTION must be 'forward' or 'backward', got '",
                        raw.as_str(),
                        "'",
                    );
                    return Err(CrawlError::Configuration(message));
                }
            },
            None => self.runtime.direction,
        };
        if let Some(url) = endpoint {
            self.ingestion.endpoint = Some(url);
        }
        set_string(&env.api_token, &mut self.ingestion.token);
        set_string(&env.redis_url, &mut self.queue.redis_url);
        set_string(&env.queue_discovery, &mut self.queue.queues.discovery);
        set_string(&env.queue_articles, &mut self.queue.queues.articles);
        self.queue.retention.completed = completed;
        self.queue.retention.failed = failed;
        set_string(&env.user_agent, &mut self.http.user_agent);
        self.http.max_retries = max_retries;
        self.http.respect_retry_after = respect;
        self.runtime.direction = direction;
        set_string(&env.data_path, &mut self.paths.data);
        set_string(&env.root_path, &mut self.paths.root);
        if let Some(path) = env_value(&env.sqlite_path) {
            self.paths.sqlite = Some(path);
        }
        Ok(())
    }
}

} // verus!
