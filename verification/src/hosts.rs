//! Code-hosting hosts: their tokens, rate limits and connection checks.

use vstd::prelude::*;
use crate::forge::ForgeType;
use crate::models::opt_str_view;
use crate::settings::{parse_u32, parse_u32_chars};
use crate::text::{
    chars_of, concat, contains_str, eq_ascii_ci, eq_chars, eq_ignore_ascii_case, has_substring, lowercase,
    lowercase_chars, string_of, trim, trim_chars,
};

verus! {

fn owned(s: &str) -> (r: String)
    ensures
        r@ == s@,
{
    string_of(&chars_of(s))
}

/// A host's stored token and last known rate limit.
#[derive(Debug)]
pub struct HostTokenEntry {
    pub host: String,
    pub token: String,
    pub rate_limit_remaining: Option<u32>,
    pub rate_limit_limit: Option<u32>,
    pub rate_limit_reset: Option<i64>,
    pub updated_at: i64,
}

/// The outcome of a connection check against a host.
#[derive(Debug)]
pub struct HostRateLimitStatus {
    pub host: String,
    pub is_connected: bool,
    pub rate_limit_remaining: Option<u32>,
    pub rate_limit_limit: Option<u32>,
    pub message: Option<String>,
}

/// The platform a search names: Codeberg, Gitea or Forgejo, GitLab; GitHub otherwise.
pub open spec fn forge_of_name(name: Seq<char>) -> ForgeType {
    let l = lowercase(name);
    if l == "codeberg"@ {
        ForgeType::Codeberg
    } else if l == "gitea"@ || l == "forgejo"@ {
        ForgeType::Gitea
    } else if l == "gitlab"@ {
        ForgeType::GitLab
    } else {
        ForgeType::GitHub
    }
}

pub fn forge_type_of_name(name: &str) -> (r: ForgeType)
    ensures
        r == forge_of_name(name@),
{
    let l = lowercase_chars(&chars_of(name));
    if eq_chars(&l, &chars_of("codeberg")) {
        ForgeType::Codeberg
    } else if eq_chars(&l, &chars_of("gitea")) || eq_chars(&l, &chars_of("forgejo")) {
        ForgeType::Gitea
    } else if eq_chars(&l, &chars_of("gitlab")) {
        ForgeType::GitLab
    } else {
        ForgeType::GitHub
    }
}

/// A host as stored: trimmed and lower-cased (github.com when none is given).
pub open spec fn clean_host_of(host: Option<Seq<char>>) -> Seq<char> {
    lowercase(
        trim(
            match host {
                Some(h) => h,
                None => "github.com"@,
            },
        ),
    )
}

pub fn clean_host(host: Option<&str>) -> (r: String)
    ensures
        r@ == clean_host_of(crate::watch::opt_ref_view(host)),
{
    let h = match host {
        Some(h) => chars_of(h),
        None => chars_of("github.com"),
    };
    string_of(&lowercase_chars(&trim_chars(&h)))
}

/// Hosts checked through the GitHub API.
pub fn is_github_host(clean_host: &str) -> (r: bool)
    ensures
        r == has_substring(clean_host@, "github.com"@),
{
    contains_str(&chars_of(clean_host), &chars_of("github.com"))
}

/// Setting or removing the github.com token also changes the token in use.
pub fn is_github_dot_com(host: &str) -> (r: bool)
    ensures
        r == eq_ascii_ci(host@, "github.com"@),
{
    eq_ignore_ascii_case(&chars_of(host), &chars_of("github.com"))
}

/// The token a connection check uses: the one given unless blank (trimmed);
/// else, when none is given, the stored one.
pub open spec fn effective_token_of(given: Option<Seq<char>>, stored: Option<Seq<char>>) -> Option<Seq<char>> {
    match given {
        Some(t) => if trim(t).len() > 0 {
            Some(trim(t))
        } else {
            None
        },
        None => stored,
    }
}

pub fn effective_token(given: Option<&str>, stored: Option<String>) -> (r: Option<String>)
    ensures
        opt_str_view(r) == effective_token_of(crate::watch::opt_ref_view(given), opt_str_view(stored)),
{
    match given {
        Some(t) => {
            let c = trim_chars(&chars_of(t));
            if c.len() > 0 {
                Some(string_of(&c))
            } else {
                None
            }
        },
        None => stored,
    }
}

/// The address a connection check asks: GitHub's rate limit, or the
/// instance's version for other hosts.
pub fn connection_check_url(clean_host: &str) -> (r: String)
    ensures
        r@ == if has_substring(clean_host@, "github.com"@) {
            "https://api.github.com/rate_limit"@
        } else {
            "https://"@ + clean_host@ + "/api/v1/version"@
        },
{
    if is_github_host(clean_host) {
        owned("https://api.github.com/rate_limit")
    } else {
        string_of(&concat(&concat(&chars_of("https://"), &chars_of(clean_host)), &chars_of("/api/v1/version")))
    }
}

/// A rate-limit header read as a number; 5000 when missing or unreadable.
pub open spec fn rate_limit_header_of(v: Option<Seq<char>>) -> u32 {
    match v {
        Some(t) => match parse_u32(t) {
            Some(n) => n,
            None => 5000,
        },
        None => 5000,
    }
}

pub fn rate_limit_header(value: Option<&str>) -> (r: u32)
    ensures
        r == rate_limit_header_of(crate::watch::opt_ref_view(value)),
{
    match value {
        Some(t) => match parse_u32_chars(&chars_of(t)) {
            Some(n) => n,
            None => 5000,
        },
        None => 5000,
    }
}

/// A successful connection check.
pub fn connected_status(clean_host: String, remaining: Option<u32>, limit: Option<u32>) -> (r: HostRateLimitStatus)
    ensures
        r.host@ == clean_host@,
        r.is_connected,
        r.rate_limit_remaining == remaining,
        r.rate_limit_limit == limit,
        opt_str_view(r.message) == Some(
            if has_substring(clean_host@, "github.com"@) {
                "连接 GitHub API 成功"@
            } else {
                "连接 Gitea/Codeberg API 成功"@
            },
        ),
{
    let github = is_github_host(clean_host.as_str());
    let message = if github {
        owned("连接 GitHub API 成功")
    } else {
        owned("连接 Gitea/Codeberg API 成功")
    };
    HostRateLimitStatus {
        host: clean_host,
        is_connected: true,
        rate_limit_remaining: remaining,
        rate_limit_limit: limit,
        message: Some(message),
    }
}

/// A failed connection check: refused with an HTTP status, or not answered.
pub fn failed_status(clean_host: String, http_status: Option<&str>, error: &str) -> (r: HostRateLimitStatus)
    ensures
        r.host@ == clean_host@,
        !r.is_connected,
        r.rate_limit_remaining is None,
        r.rate_limit_limit is None,
        opt_str_view(r.message) == Some(
            match http_status {
                Some(s) => "HTTP 状态码: "@ + s@,
                None => if has_substring(clean_host@, "github.com"@) {
                    "网络请求失败: "@ + error@
                } else {
                    "连接超时或失败: "@ + error@
                },
            },
        ),
{
    let github = is_github_host(clean_host.as_str());
    let message = match http_status {
        Some(s) => string_of(&concat(&chars_of("HTTP 状态码: "), &chars_of(s))),
        None => if github {
            string_of(&concat(&chars_of("网络请求失败: "), &chars_of(error)))
        } else {
            string_of(&concat(&chars_of("连接超时或失败: "), &chars_of(error)))
        },
    };
    HostRateLimitStatus {
        host: clean_host,
        is_connected: false,
        rate_limit_remaining: None,
        rate_limit_limit: None,
        message: Some(message),
    }
}

/// The position of a host among the stored entries (ASCII case ignored).
pub fn find_host_entry(entries: &Vec<HostTokenEntry>, clean_host: &str) -> (r: Option<usize>)
    ensures
        match r {
            Some(k) => k < entries@.len() && eq_ascii_ci(entries@[k as int].host@, clean_host@) && forall|j: int|
                0 <= j < k ==> !eq_ascii_ci(#[trigger] entries@[j].host@, clean_host@),
            None => forall|k: int| 0 <= k < entries@.len() ==> !eq_ascii_ci(#[trigger] entries@[k].host@, clean_host@),
        },
{
    let h = chars_of(clean_host);
    let mut i: usize = 0;
    while i < entries.len()
        invariant
            i <= entries@.len(),
            h@ == clean_host@,
            forall|j: int| 0 <= j < i ==> !eq_ascii_ci(#[trigger] entries@[j].host@, clean_host@),
        decreases entries@.len() - i,
    {
        if eq_ignore_ascii_case(&chars_of(entries[i].host.as_str()), &h) {
            return Some(i);
        }
        i = i + 1;
    }
    None
}

/// The entry shown for a host with nothing stored: its token, no rate limit.
pub fn new_host_entry(clean_host: &str, token: Option<String>, now: i64) -> (r: HostTokenEntry)
    ensures
        r.host@ == clean_host@,
        r.token@ == match token {
            Some(t) => t@,
            None => Seq::<char>::empty(),
        },
        r.rate_limit_remaining is None && r.rate_limit_limit is None && r.rate_limit_reset is None,
        r.updated_at == now,
{
    HostTokenEntry {
        host: owned(clean_host),
        token: match token {
            Some(t) => t,
            None => String::new(),
        },
        rate_limit_remaining: None,
        rate_limit_limit: None,
        rate_limit_reset: None,
        updated_at: now,
    }
}

} // verus!
