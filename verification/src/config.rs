//! Application configuration, from the values of environment variables.
use vstd::prelude::*;
use crate::number::{parse_unsigned, parse_u16, parse_u64, parse_usize};
use crate::text::{opt_slice_view, opt_str_view, str_eq};

verus! {

/// Application configuration.
#[derive(Debug, Clone)]
pub struct Config {
    /// Server listen port (default: 1200, same as RSSHub)
    pub port: u16,
    /// Cache expiry in seconds (default: 300 = 5 minutes)
    pub cache_expire: u64,
    /// Cache backend: "memory" or "redis"
    pub cache_type: CacheType,
    /// Redis URL (when cache_type = Redis)
    pub redis_url: Option<String>,
    /// Access key for authentication (None = open access)
    pub access_key: Option<String>,
    /// Request timeout in seconds
    pub request_timeout: u64,
    /// Max items per feed (default: 50)
    pub item_limit: usize,
}

#[derive(Debug, Clone, Copy, PartialEq, Eq, Structural)]
pub enum CacheType {
    Memory,
    Redis,
}

/// The value of a variable read as a number up to `max`, or the default when
/// it is unset or does not parse.
pub open spec fn number_or(v: Option<Seq<char>>, max: int, default: int) -> int {
    match v {
        Some(s) => match parse_unsigned(s, max) {
            Some(n) => n,
            None => default,
        },
        None => default,
    }
}

/// `redis` selects the Redis backend; anything else, or nothing, memory.
pub open spec fn spec_cache_type(v: Option<Seq<char>>) -> CacheType {
    if v == Some("redis"@) {
        CacheType::Redis
    } else {
        CacheType::Memory
    }
}

/// A variable that is set to a non-empty value.
pub open spec fn non_empty(v: Option<Seq<char>>) -> Option<Seq<char>> {
    match v {
        Some(s) => if s.len() > 0 {
            Some(s)
        } else {
            None
        },
        None => None,
    }
}

/// A `u16` variable, or its default.
pub fn env_parse_u16(value: Option<&str>, default: u16) -> (n: u16)
    ensures
        n == number_or(opt_slice_view(value), u16::MAX as int, default as int),
{
    match value {
        Some(v) => match parse_u16(v) {
            Some(n) => n,
            None => default,
        },
        None => default,
    }
}

/// A `u64` variable, or its default.
pub fn env_parse_u64(value: Option<&str>, default: u64) -> (n: u64)
    ensures
        n == number_or(opt_slice_view(value), u64::MAX as int, default as int),
{
    match value {
        Some(v) => match parse_u64(v) {
            Some(n) => n,
            None => default,
        },
        None => default,
    }
}

/// A `usize` variable, or its default.
pub fn env_parse_usize(value: Option<&str>, default: usize) -> (n: usize)
    ensures
        n == number_or(opt_slice_view(value), usize::MAX as int, default as int),
{
    match value {
        Some(v) => match parse_usize(v) {
            Some(n) => n,
            None => default,
        },
        None => default,
    }
}

/// The cache backend a `CACHE_TYPE` value selects.
pub fn cache_type_from(value: Option<&str>) -> (t: CacheType)
    ensures
        t == spec_cache_type(opt_slice_view(value)),
{
    match value {
        Some(v) => if str_eq(v, "redis") {
            CacheType::Redis
        } else {
            CacheType::Memory
        },
        None => CacheType::Memory,
    }
}

fn owned(value: Option<&str>) -> (r: Option<String>)
    ensures
        opt_str_view(r) == opt_slice_view(value),
{
    match value {
        Some(v) => Some(String::from_str(v)),
        None => None,
    }
}

impl Config {
    /// The configuration read from the values of `PORT`, `CACHE_EXPIRE`,
    /// `CACHE_TYPE`, `REDIS_URL`, `ACCESS_KEY`, `REQUEST_TIMEOUT` and
    /// `MAX_ITEM_COUNT` (`None` where a variable is unset): numbers fall back
    /// to 1200, 300, 30 and 50 when unset or malformed, and an empty access
    /// key means open access.
    pub fn from_values(
        port: Option<&str>,
        cache_expire: Option<&str>,
        cache_type: Option<&str>,
        redis_url: Option<&str>,
        access_key: Option<&str>,
        request_timeout: Option<&str>,
        max_item_count: Option<&str>,
    ) -> (c: Config)
        ensures
            c.port == number_or(opt_slice_view(port), u16::MAX as int, 1200),
            c.cache_expire == number_or(opt_slice_view(cache_expire), u64::MAX as int, 300),
            c.cache_type == spec_cache_type(opt_slice_view(cache_type)),
            opt_str_view(c.redis_url) == opt_slice_view(redis_url),
            opt_str_view(c.access_key) == non_empty(opt_slice_view(access_key)),
            c.request_timeout == number_or(opt_slice_view(request_timeout), u64::MAX as int, 30),
            c.item_limit == number_or(opt_slice_view(max_item_count), usize::MAX as int, 50),
    {
        let key = match access_key {
            Some(k) => if k.unicode_len() > 0 {
                Some(String::from_str(k))
            } else {
                None
            },
            None => None,
        };
        Config {
            port: env_parse_u16(port, 1200),
            cache_expire: env_parse_u64(cache_expire, 300),
            cache_type: cache_type_from(cache_type),
            redis_url: owned(redis_url),
            access_key: key,
            request_timeout: env_parse_u64(request_timeout, 30),
            item_limit: env_parse_usize(max_item_count, 50),
        }
    }
}

} // verus!
