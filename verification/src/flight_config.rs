//! Endpoint settings and admission arithmetic for `SearchStrategyFlow` Flight materialization.
use vstd::prelude::*;
use crate::text::{chars_of, is_blank, is_blank_vec};

verus! {

/// Per-route request timeout used until a caller sets another.
pub const DEFAULT_TIMEOUT_SECONDS: u64 = 30;

/// Network endpoint settings for Rust-owned `SearchStrategyFlow` Flight
/// materialization.
#[derive(Clone, Debug, PartialEq, Eq)]
pub struct SearchStrategyFlowFlightMaterializationConfig {
    /// Base URL of the Studio Arrow Flight endpoint.
    pub base_url: String,
    /// Repo id used by native Wendao Flight query contracts.
    pub repo_id: String,
    /// Per-route request timeout in seconds.
    pub timeout_seconds: u64,
}

impl SearchStrategyFlowFlightMaterializationConfig {
    /// Creates a Flight materialization config; a blank endpoint or repo id is refused.
    pub fn new(base_url: String, repo_id: String) -> (r: Result<Self, String>)
        ensures
            match r {
                Ok(c) => !is_blank(base_url@) && !is_blank(repo_id@) && c.base_url@ == base_url@
                    && c.repo_id@ == repo_id@ && c.timeout_seconds == DEFAULT_TIMEOUT_SECONDS,
                Err(e) => if is_blank(base_url@) {
                    e@ == "SearchStrategyFlow Flight base URL must not be blank"@
                } else {
                    is_blank(repo_id@) && e@ == "SearchStrategyFlow Flight repo id must not be blank"@
                },
            },
    {
        if is_blank_vec(&chars_of(base_url.as_str())) {
            return Err("SearchStrategyFlow Flight base URL must not be blank".to_owned());
        }
        if is_blank_vec(&chars_of(repo_id.as_str())) {
            return Err("SearchStrategyFlow Flight repo id must not be blank".to_owned());
        }
        Ok(Self { base_url, repo_id, timeout_seconds: DEFAULT_TIMEOUT_SECONDS })
    }

    /// Sets the per-route request timeout, at least one second.
    pub fn with_timeout_seconds(self, timeout_seconds: u64) -> (r: Self)
        ensures
            r.base_url == self.base_url,
            r.repo_id == self.repo_id,
            r.timeout_seconds == if timeout_seconds >= 1 {
                timeout_seconds
            } else {
                1
            },
    {
        let mut s = self;
        s.timeout_seconds = if timeout_seconds >= 1 {
            timeout_seconds
        } else {
            1
        };
        s
    }
}

/// `value` as a `u32`, or `u32::MAX` when it does not fit.
pub fn saturating_usize_to_u32(value: usize) -> (r: u32)
    ensures
        r as int == if value <= u32::MAX {
            value as int
        } else {
            u32::MAX as int
        },
{
    if value <= 0xFFFF_FFFF {
        value as u32
    } else {
        u32::MAX
    }
}

/// The timeout in milliseconds, saturating at `u32::MAX`.
pub fn saturating_timeout_millis(timeout_seconds: u64) -> (r: u32)
    ensures
        r as int == if timeout_seconds * 1000 <= u32::MAX {
            timeout_seconds * 1000
        } else {
            u32::MAX as int
        },
{
    if timeout_seconds <= 4_294_967 {
        (timeout_seconds * 1000) as u32
    } else {
        u32::MAX
    }
}

} // verus!
