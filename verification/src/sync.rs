//! Keeping the catalog current: where it is read from, how an unchanged
//! local file is recognised, what the user is told; and when cached data is
//! still fresh.

use vstd::prelude::*;
use crate::models::opt_str_view;
use crate::settings::{decimal_digits, u64_to_string};
use crate::text::{
    chars_of, concat, contains_str, has_substring, is_prefix, slice_chars, starts_with, string_of, strip_leading,
    strip_leading_chars, trim, trim_chars,
};

verus! {

fn owned(s: &str) -> (r: String)
    ensures
        r@ == s@,
{
    string_of(&chars_of(s))
}

/// The catalog address in use: the stored one unless blank or on the retired
/// `gitmirror.com`, else the configured default.
pub open spec fn catalog_source_of(stored: Option<Seq<char>>, default_url: Seq<char>) -> Seq<char> {
    match stored {
        Some(s) => if trim(s).len() > 0 && !has_substring(s, "gitmirror.com"@) {
            s
        } else {
            default_url
        },
        None => default_url,
    }
}

pub fn catalog_source_url(stored: Option<&str>, default_url: &str) -> (r: String)
    ensures
        r@ == catalog_source_of(crate::watch::opt_ref_view(stored), default_url@),
{
    match stored {
        Some(s) => {
            let c = chars_of(s);
            if trim_chars(&c).len() > 0 && !contains_str(&c, &chars_of("gitmirror.com")) {
                string_of(&c)
            } else {
                owned(default_url)
            }
        },
        None => owned(default_url),
    }
}

/// A catalog address names a local file when it uses `file://` or no web scheme.
pub open spec fn is_local_source(url: Seq<char>) -> bool {
    is_prefix("file://"@, url) || (!is_prefix("http://"@, url) && !is_prefix("https://"@, url))
}

/// The path of a local catalog: after `file://`, the path itself, with its
/// leading slashes dropped when it starts with a drive letter (`C:`).
pub open spec fn local_catalog_path(url: Seq<char>) -> Seq<char> {
    if is_prefix("file://"@, url) {
        let stripped = url.skip(7);
        let t = strip_leading(stripped, '/');
        if t.len() >= 2 && t[1] == ':' {
            t
        } else {
            stripped
        }
    } else {
        url
    }
}

/// Where the catalog is read from.
#[derive(Debug, PartialEq, Eq)]
pub enum CatalogLocation {
    /// A file, by its path.
    Local(String),
    /// A web address, fetched with a conditional request.
    Remote,
}

pub fn catalog_location(url: &str) -> (r: CatalogLocation)
    ensures
        match r {
            CatalogLocation::Local(p) => is_local_source(url@) && p@ == local_catalog_path(url@),
            CatalogLocation::Remote => !is_local_source(url@),
        },
{
    let u = chars_of(url);
    proof {
        reveal_strlit("file://");
    }
    let file = starts_with(&u, &chars_of("file://"));
    if !(file || (!starts_with(&u, &chars_of("http://")) && !starts_with(&u, &chars_of("https://")))) {
        return CatalogLocation::Remote;
    }
    if file {
        let stripped = slice_chars(&u, 7, u.len());
        let t = strip_leading_chars(&stripped, '/');
        if t.len() >= 2 && t[1] == ':' {
            CatalogLocation::Local(string_of(&t))
        } else {
            CatalogLocation::Local(string_of(&stripped))
        }
    } else {
        CatalogLocation::Local(string_of(&u))
    }
}

/// The version tag of a local catalog file: its modification time.
pub open spec fn local_etag_of(mtime: u64) -> Seq<char> {
    "W/\"local-"@ + decimal_digits(mtime as nat) + "\""@
}

pub fn local_catalog_etag(mtime_seconds: u64) -> (r: String)
    ensures
        r@ == local_etag_of(mtime_seconds),
{
    let d = u64_to_string(mtime_seconds);
    string_of(&concat(&concat(&chars_of("W/\"local-"), &chars_of(d.as_str())), &chars_of("\"")))
}

/// The error for a local catalog file that does not exist.
pub fn missing_local_catalog(path: &str) -> (r: String)
    ensures
        r@ == "本地收录清单文件不存在: "@ + path@,
{
    string_of(&concat(&chars_of("本地收录清单文件不存在: "), &chars_of(path)))
}

/// The result of a catalog synchronisation, as shown.
#[derive(Debug)]
pub struct SyncCatalogResult {
    pub updated: bool,
    pub count: usize,
    pub message: String,
}

/// A synchronisation that brought `new_count` entries, or none when the
/// catalog was unchanged (then `current_count` are held).
pub fn sync_outcome(new_count: Option<usize>, current_count: usize) -> (r: SyncCatalogResult)
    ensures
        match new_count {
            Some(n) => r.updated && r.count == n && r.message@ == "成功同步收录清单，当前共 "@ + decimal_digits(
                n as nat,
            ) + " 个精选应用"@,
            None => !r.updated && r.count == current_count && r.message@ == "收录清单已是最新，共 "@
                + decimal_digits(current_count as nat) + " 个应用"@,
        },
{
    match new_count {
        Some(n) => {
            let d = u64_to_string(n as u64);
            SyncCatalogResult {
                updated: true,
                count: n,
                message: string_of(
                    &concat(&concat(&chars_of("成功同步收录清单，当前共 "), &chars_of(d.as_str())), &chars_of(" 个精选应用")),
                ),
            }
        },
        None => {
            let d = u64_to_string(current_count as u64);
            SyncCatalogResult {
                updated: false,
                count: current_count,
                message: string_of(
                    &concat(&concat(&chars_of("收录清单已是最新，共 "), &chars_of(d.as_str())), &chars_of(" 个应用")),
                ),
            }
        },
    }
}

/// A synchronisation that fell back to a local file at `path` with `count` entries.
pub fn local_fallback_outcome(path: &str, count: usize) -> (r: SyncCatalogResult)
    ensures
        r.updated,
        r.count == count,
        r.message@ == "远程源未就绪，已自动从本地 "@ + path@ + " 载入 "@ + decimal_digits(count as nat)
            + " 款应用（本地开发模式）"@,
{
    let d = u64_to_string(count as u64);
    SyncCatalogResult {
        updated: true,
        count,
        message: string_of(
            &concat(
                &concat(
                    &concat(&concat(&chars_of("远程源未就绪，已自动从本地 "), &chars_of(path)), &chars_of(" 载入 ")),
                    &chars_of(d.as_str()),
                ),
                &chars_of(" 款应用（本地开发模式）"),
            ),
        ),
    }
}

/// Whether a cached entry stored at `cached_at` is still fresh at `now`: with
/// no lifetime, always; a lifetime of 0 means never; a positive lifetime
/// holds for that many seconds.
pub open spec fn entry_fresh(ttl: Option<i64>, cached_at: i64, now: i64) -> bool {
    match ttl {
        Some(t) => if t > 0 {
            crate::watch::saturating_elapsed(now, cached_at) < t
        } else {
            t != 0
        },
        None => true,
    }
}

pub fn cache_is_fresh(ttl: Option<i64>, cached_at: i64, now: i64) -> (r: bool)
    ensures
        r == entry_fresh(ttl, cached_at, now),
{
    match ttl {
        Some(t) => {
            if t > 0 {
                let d: i128 = now as i128 - cached_at as i128;
                let e: i128 = if d > i64::MAX as i128 {
                    i64::MAX as i128
                } else if d < i64::MIN as i128 {
                    i64::MIN as i128
                } else {
                    d
                };
                e < t as i128
            } else {
                t != 0
            }
        },
        None => true,
    }
}

/// A cache lifetime in seconds.
pub fn ttl_seconds(minutes: i64) -> (r: i64)
    requires
        i64::MIN <= minutes * 60 <= i64::MAX,
    ensures
        r == minutes * 60,
{
    minutes * 60
}

/// A lifetime of 0 makes every cached entry stale.
pub proof fn law_zero_ttl_never_fresh(cached_at: i64, now: i64)
    ensures
        !entry_fresh(Some(0i64), cached_at, now),
{
}

/// An entry fresh under some lifetime stays fresh under any longer one.
pub proof fn law_freshness_monotone(a: i64, b: i64, cached_at: i64, now: i64)
    requires
        0 < a <= b,
        entry_fresh(Some(a), cached_at, now),
    ensures
        entry_fresh(Some(b), cached_at, now),
{
}

} // verus!
