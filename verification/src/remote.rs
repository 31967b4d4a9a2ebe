//! What the engine sends to the remote retrieval service and how it reads
//! the answers: endpoints, proxy, retry policy, and the answers to an upload
//! and to a search.

use crate::config::{AcemcpConfig, IndexError};
use crate::coordinator::BatchOutcome;
use crate::strings::str_eq;
use crate::text::{
    chars_of, contains, decimal, decimal_digits, has_substring, push_all, push_str, to_string,
    trim, trimmed,
};
use vstd::arithmetic::power2::{lemma_pow2_pos, lemma_pow2_unfold, pow2};
use vstd::prelude::*;

verus! {

/// Attempts at one upload or one search.
pub const MAX_ATTEMPTS: usize = 3;

/// Wait before the second attempt at an upload, in milliseconds.
pub const UPLOAD_BASE_DELAY_MS: u64 = 1000;

/// Wait before the second attempt at a search, in milliseconds.
pub const SEARCH_BASE_DELAY_MS: u64 = 2000;

/// Seconds before a request is given up.
pub const REQUEST_TIMEOUT_SECS: u64 = 60;

/// What to do after an attempt failed.
#[derive(Clone, Copy, Debug, PartialEq, Eq, Structural)]
pub enum RetryDecision {
    /// Report the failure.
    GiveUp,
    /// Wait so many milliseconds, then try again.
    RetryAfter(u64),
}

/// The answer to an upload: the entries of its `blob_names` list, if it has
/// one; an entry that is no string is `None`.
pub struct UploadResponse {
    pub blob_names: Option<Vec<Option<String>>>,
}

/// The answer to a search: its `formatted_retrieval` text, if it has one.
pub struct SearchResponse {
    pub formatted_retrieval: Option<String>,
}

/// How to reach the service through a proxy.
pub struct ProxySettings {
    /// `type://host:port`.
    pub url: String,
    /// The user to sign in as, if any.
    pub username: Option<String>,
    /// The password that goes with `username`.
    pub password: String,
}

/// The error text speaks of a passing condition.
pub open spec fn is_transient(error: Seq<char>) -> bool {
    ||| has_substring(error, "timeout"@)
    ||| has_substring(error, "connection"@)
    ||| has_substring(error, "network"@)
    ||| has_substring(error, "temporary"@)
}

/// The wait after the failed attempt number `attempt` (from 1): the base
/// delay, doubled for each earlier failure, and no more than `u64::MAX`.
pub open spec fn backoff_ms(base_ms: u64, attempt: nat) -> int {
    let delay = base_ms * pow2((attempt - 1) as nat);
    if delay > u64::MAX {
        u64::MAX as int
    } else {
        delay
    }
}

/// What follows the failed attempt number `attempt` of `max_attempts`.
pub open spec fn retry_decision(
    attempt: nat,
    max_attempts: nat,
    base_ms: u64,
    error: Seq<char>,
) -> RetryDecision {
    if attempt >= max_attempts || !is_transient(error) {
        RetryDecision::GiveUp
    } else {
        RetryDecision::RetryAfter(backoff_ms(base_ms, attempt) as u64)
    }
}

/// The strings among the first `n` entries, in order.
pub open spec fn present_names(entries: Seq<Option<String>>, n: int) -> Seq<Seq<char>>
    decreases n,
{
    if n <= 0 {
        Seq::empty()
    } else {
        match entries[n - 1] {
            Some(name) => present_names(entries, n - 1).push(name@),
            None => present_names(entries, n - 1),
        }
    }
}

/// The text that stands for a search without result.
pub open spec fn no_context_text() -> Seq<char> {
    "No relevant code context found for your query."@
}

/// Whether the error text speaks of a passing condition: a timeout, the
/// connection, the network, something temporary.
pub fn is_retryable_error(error: &str) -> (r: bool)
    ensures
        r == is_transient(error@),
{
    let e = chars_of(error);
    contains(&e, &chars_of("timeout")) || contains(&e, &chars_of("connection")) || contains(
        &e,
        &chars_of("network"),
    ) || contains(&e, &chars_of("temporary"))
}

/// The wait after the failed attempt number `attempt`, in milliseconds.
pub fn backoff_delay_ms(base_ms: u64, attempt: usize) -> (delay: u64)
    requires
        attempt >= 1,
    ensures
        delay == backoff_ms(base_ms, attempt as nat),
{
    let mut delay: u64 = base_ms;
    let mut k: usize = 1;
    proof {
        assert(pow2(0) == 1) by {
            lemma_pow2_unfold(1);
            vstd::arithmetic::power2::lemma2_to64();
        }
        assert(base_ms * pow2(0) == base_ms);
    }
    while k < attempt
        invariant
            1 <= k <= attempt,
            delay == backoff_ms(base_ms, k as nat),
        decreases attempt - k,
    {
        proof {
            lemma_pow2_unfold(k as nat);
            lemma_pow2_pos((k - 1) as nat);
            let p = pow2((k - 1) as nat);
            assert(base_ms * (2 * p) == 2 * (base_ms * p)) by (nonlinear_arith);
        }
        delay = if delay > u64::MAX / 2 {
            u64::MAX
        } else {
            delay * 2
        };
        k = k + 1;
    }
    delay
}

/// What to do after attempt number `attempt` (from 1) of `max_attempts`
/// failed with `error`: give up after the last attempt or on an error that is
/// not transient, else wait and try again.
pub fn after_failure(attempt: usize, max_attempts: usize, base_ms: u64, error: &str) -> (r:
    RetryDecision)
    requires
        attempt >= 1,
    ensures
        r == retry_decision(attempt as nat, max_attempts as nat, base_ms, error@),
{
    if attempt >= max_attempts || !is_retryable_error(error) {
        RetryDecision::GiveUp
    } else {
        RetryDecision::RetryAfter(backoff_delay_ms(base_ms, attempt))
    }
}

/// Where batches are uploaded to.
pub fn upload_url(base_url: &str) -> (url: String)
    ensures
        url@ == base_url@ + "/batch-upload"@,
{
    let mut u = chars_of(base_url);
    push_str(&mut u, "/batch-upload");
    to_string(&u)
}

/// Where searches are sent to.
pub fn search_url(base_url: &str) -> (url: String)
    ensures
        url@ == base_url@ + "/agents/codebase-retrieval"@,
{
    let mut u = chars_of(base_url);
    push_str(&mut u, "/agents/codebase-retrieval");
    to_string(&u)
}

/// The value of the authorization header.
pub fn bearer(token: &str) -> (header: String)
    ensures
        header@ == "Bearer "@ + token@,
{
    let mut h = chars_of("Bearer ");
    push_str(&mut h, token);
    to_string(&h)
}

/// Reads the answer to an upload. The batch went through where the answer
/// lists at least one name; the entries that are no strings are passed over.
pub fn batch_outcome(answer: Result<UploadResponse, String>) -> (outcome: BatchOutcome)
    ensures
        match answer {
            Err(e) => outcome matches BatchOutcome::Failed(reason) && reason@ == e@,
            Ok(response) => match response.blob_names {
                None => outcome matches BatchOutcome::Failed(reason) && reason@
                    == "响应中缺少blob_names字段"@,
                Some(entries) => {
                    let names = present_names(entries@, entries@.len() as int);
                    if names.len() == 0 {
                        outcome matches BatchOutcome::Failed(reason) && reason@
                            == "返回了空的blob名称列表"@
                    } else {
                        outcome matches BatchOutcome::Uploaded(got) && got.deep_view() == names
                    }
                },
            },
        },
{
    match answer {
        Err(e) => BatchOutcome::Failed(e),
        Ok(response) => match response.blob_names {
            None => BatchOutcome::Failed("响应中缺少blob_names字段".to_owned()),
            Some(entries) => {
                let mut names: Vec<String> = Vec::new();
                let mut i: usize = 0;
                while i < entries.len()
                    invariant
                        i <= entries@.len(),
                        names.deep_view() == present_names(entries@, i as int),
                    decreases entries.len() - i,
                {
                    let ghost before = names.deep_view();
                    match &entries[i] {
                        Some(name) => {
                            names.push(name.clone());
                            proof {
                                assert(names.deep_view() =~= before.push(name@));
                            }
                        },
                        None => {},
                    }
                    i = i + 1;
                }
                if names.len() == 0 {
                    BatchOutcome::Failed("返回了空的blob名称列表".to_owned())
                } else {
                    BatchOutcome::Uploaded(names)
                }
            },
        },
    }
}

/// Reads the answer to a search: its text, or the text that stands for "no
/// relevant context" where it has none or an empty one.
pub fn search_text(response: &SearchResponse) -> (text: String)
    ensures
        text@ == match response.formatted_retrieval {
            Some(t) => if t@.len() == 0 {
                no_context_text()
            } else {
                t@
            },
            None => no_context_text(),
        },
        text@.len() > 0,
{
    proof {
        reveal_strlit("No relevant code context found for your query.");
    }
    match &response.formatted_retrieval {
        Some(t) => {
            if t.as_str().is_empty() {
                "No relevant code context found for your query.".to_owned()
            } else {
                t.clone()
            }
        },
        None => "No relevant code context found for your query.".to_owned(),
    }
}

/// The proxy type is one that the engine can use.
pub open spec fn supported_proxy_type(kind: Seq<char>) -> bool {
    kind == "http"@ || kind == "https"@ || kind == "socks5"@
}

/// The proxy that `config` asks for, if it asks for one: host `127.0.0.1`,
/// port 7890 and type `http` where it names none; a user only where the name
/// is more than white space.
pub fn proxy_settings(config: &AcemcpConfig) -> (r: Result<Option<ProxySettings>, IndexError>)
    ensures
        match r {
            Err(e) => {
                &&& e == IndexError::UnsupportedProxyType
                &&& config.proxy_enabled == Some(true)
                &&& config.proxy_type matches Some(kind) && !supported_proxy_type(kind@)
            },
            Ok(None) => config.proxy_enabled != Some(true),
            Ok(Some(p)) => {
                let kind = match config.proxy_type {
                    Some(k) => k@,
                    None => "http"@,
                };
                let host = match config.proxy_host {
                    Some(h) => h@,
                    None => "127.0.0.1"@,
                };
                let port = match config.proxy_port {
                    Some(n) => n,
                    None => 7890u16,
                };
                &&& config.proxy_enabled == Some(true)
                &&& supported_proxy_type(kind)
                &&& p.url@ == kind + "://"@ + host + ":"@ + decimal(port as nat)
                &&& match config.proxy_username {
                    Some(u) => if trimmed(u@).len() > 0 {
                        p.username matches Some(name) && name@ == trimmed(u@)
                    } else {
                        p.username is None
                    },
                    None => p.username is None,
                }
                &&& p.password@ == match config.proxy_password {
                    Some(w) => w@,
                    None => Seq::<char>::empty(),
                }
            },
        },
{
    let enabled = match config.proxy_enabled {
        Some(b) => b,
        None => false,
    };
    if !enabled {
        return Ok(None);
    }
    let kind: String = match &config.proxy_type {
        Some(k) => k.clone(),
        None => "http".to_owned(),
    };
    if !(str_eq(kind.as_str(), "http") || str_eq(kind.as_str(), "https") || str_eq(
        kind.as_str(),
        "socks5",
    )) {
        proof {
            if config.proxy_type is None {
                assert(kind@ == "http"@);
            }
        }
        return Err(IndexError::UnsupportedProxyType);
    }
    let mut url = chars_of(kind.as_str());
    push_str(&mut url, "://");
    match &config.proxy_host {
        Some(h) => push_str(&mut url, h.as_str()),
        None => push_str(&mut url, "127.0.0.1"),
    }
    push_str(&mut url, ":");
    let port: u16 = match config.proxy_port {
        Some(n) => n,
        None => 7890,
    };
    let digits = decimal_digits(port as u64);
    push_all(&mut url, &digits);
    let username: Option<String> = match &config.proxy_username {
        Some(u) => {
            let t = trim(&chars_of(u.as_str()));
            if t.len() > 0 {
                Some(to_string(&t))
            } else {
                None
            }
        },
        None => None,
    };
    let password: String = match &config.proxy_password {
        Some(w) => w.clone(),
        None => String::new(),
    };
    Ok(Some(ProxySettings { url: to_string(&url), username, password }))
}

} // verus!
