//! Project configuration: network timeouts, history limits, OAuth client and
//! catalog source, with their built-in defaults.

use vstd::prelude::*;
use crate::text::{chars_of, concat, is_prefix, slice_chars, string_of, strip_leading, strip_leading_chars, starts_with, eq_chars};

verus! {

/// Detail-cache settings.
pub struct CacheConfig {
    /// How long a cached application detail stays fresh, in minutes.
    pub detail_ttl_minutes: i64,
}

/// Network timeouts.
pub struct NetworkConfig {
    pub connect_timeout_seconds: u64,
    pub download_timeout_seconds: u64,
    pub chunk_timeout_seconds: u64,
    pub api_timeout_seconds: u64,
    pub ping_timeout_ms: u64,
}

/// Sizes of histories and result pages.
pub struct LimitsConfig {
    pub search_history_limit: usize,
    pub view_history_limit: usize,
    pub online_search_page_size: usize,
}

/// OAuth settings.
pub struct OauthConfig {
    pub default_client_id: String,
}

/// Where the catalog comes from.
pub struct CatalogConfig {
    pub local_path: String,
    pub default_source_url: String,
}

/// The whole configuration.
pub struct ProjectConfig {
    pub cache: CacheConfig,
    pub network: NetworkConfig,
    pub limits: LimitsConfig,
    pub oauth: OauthConfig,
    pub catalog: CatalogConfig,
}

pub fn default_detail_ttl_minutes() -> (r: i64)
    ensures
        r == 30,
{
    30
}

pub fn default_connect_timeout_seconds() -> (r: u64)
    ensures
        r == 15,
{
    15
}

pub fn default_download_timeout_seconds() -> (r: u64)
    ensures
        r == 300,
{
    300
}

pub fn default_chunk_timeout_seconds() -> (r: u64)
    ensures
        r == 30,
{
    30
}

pub fn default_api_timeout_seconds() -> (r: u64)
    ensures
        r == 12,
{
    12
}

pub fn default_ping_timeout_ms() -> (r: u64)
    ensures
        r == 4000,
{
    4000
}

pub fn default_search_history_limit() -> (r: usize)
    ensures
        r == 20,
{
    20
}

pub fn default_view_history_limit() -> (r: usize)
    ensures
        r == 30,
{
    30
}

pub fn default_online_search_page_size() -> (r: usize)
    ensures
        r == 12,
{
    12
}

pub open spec fn oauth_client_id_default() -> Seq<char> {
    "Ov23lik0b7fDGMLTiOYH"@
}

pub open spec fn local_path_default() -> Seq<char> {
    "../catalog.json"@
}

pub open spec fn source_url_default() -> Seq<char> {
    "https://gh-proxy.com/https://raw.githubusercontent.com/supermc/z-store/main/catalog.json"@
}

pub fn default_oauth_client_id() -> (r: String)
    ensures
        r@ == oauth_client_id_default(),
{
    string_of(&chars_of("Ov23lik0b7fDGMLTiOYH"))
}

pub fn default_local_path() -> (r: String)
    ensures
        r@ == local_path_default(),
{
    string_of(&chars_of("../catalog.json"))
}

pub fn default_source_url() -> (r: String)
    ensures
        r@ == source_url_default(),
{
    string_of(&chars_of("https://gh-proxy.com/https://raw.githubusercontent.com/supermc/z-store/main/catalog.json"))
}

impl Default for CacheConfig {
    fn default() -> (r: Self)
        ensures
            r.detail_ttl_minutes == 30,
    {
        CacheConfig { detail_ttl_minutes: default_detail_ttl_minutes() }
    }
}

impl Default for NetworkConfig {
    fn default() -> (r: Self)
        ensures
            r.connect_timeout_seconds == 15,
            r.download_timeout_seconds == 300,
            r.chunk_timeout_seconds == 30,
            r.api_timeout_seconds == 12,
            r.ping_timeout_ms == 4000,
    {
        NetworkConfig {
            connect_timeout_seconds: default_connect_timeout_seconds(),
            download_timeout_seconds: default_download_timeout_seconds(),
            chunk_timeout_seconds: default_chunk_timeout_seconds(),
            api_timeout_seconds: default_api_timeout_seconds(),
            ping_timeout_ms: default_ping_timeout_ms(),
        }
    }
}

impl Default for LimitsConfig {
    fn default() -> (r: Self)
        ensures
            r.search_history_limit == 20,
            r.view_history_limit == 30,
            r.online_search_page_size == 12,
    {
        LimitsConfig {
            search_history_limit: default_search_history_limit(),
            view_history_limit: default_view_history_limit(),
            online_search_page_size: default_online_search_page_size(),
        }
    }
}

impl Default for OauthConfig {
    fn default() -> (r: Self)
        ensures
            r.default_client_id@ == oauth_client_id_default(),
    {
        OauthConfig { default_client_id: default_oauth_client_id() }
    }
}

impl Default for CatalogConfig {
    fn default() -> (r: Self)
        ensures
            r.local_path@ == local_path_default(),
            r.default_source_url@ == source_url_default(),
    {
        CatalogConfig { local_path: default_local_path(), default_source_url: default_source_url() }
    }
}

/// The configuration built into the application.
pub open spec fn is_builtin_config(c: ProjectConfig) -> bool {
    &&& c.cache.detail_ttl_minutes == 30
    &&& c.network.connect_timeout_seconds == 15
    &&& c.network.download_timeout_seconds == 300
    &&& c.network.chunk_timeout_seconds == 30
    &&& c.network.api_timeout_seconds == 12
    &&& c.network.ping_timeout_ms == 4000
    &&& c.limits.search_history_limit == 20
    &&& c.limits.view_history_limit == 30
    &&& c.limits.online_search_page_size == 12
    &&& c.oauth.default_client_id@ == oauth_client_id_default()
    &&& c.catalog.local_path@ == local_path_default()
    &&& c.catalog.default_source_url@ == source_url_default()
}

impl Default for ProjectConfig {
    fn default() -> (r: Self)
        ensures
            is_builtin_config(r),
    {
        ProjectConfig {
            cache: CacheConfig::default(),
            network: NetworkConfig::default(),
            limits: LimitsConfig::default(),
            oauth: OauthConfig::default(),
            catalog: CatalogConfig::default(),
        }
    }
}

/// A path is relative when it does not start at the root.
pub open spec fn is_relative_path(p: Seq<char>) -> bool {
    !(p.len() > 0 && p[0] == '/')
}

/// The path below a leading `..` component, if the path starts with one.
pub open spec fn below_parent(p: Seq<char>) -> Option<Seq<char>> {
    if p == ".."@ {
        Some(Seq::empty())
    } else if is_prefix("../"@, p) {
        Some(strip_leading(p.skip(3), '/'))
    } else {
        None
    }
}

/// Where to look for the local catalog, in order: the configured path; for a
/// relative path, also that path without a leading `..` and that path below `..`.
pub open spec fn catalog_path_candidates(p: Seq<char>) -> Seq<Seq<char>> {
    if is_relative_path(p) {
        match below_parent(p) {
            Some(q) => seq![p, q, "../"@ + p],
            None => seq![p, "../"@ + p],
        }
    } else {
        seq![p]
    }
}

impl CatalogConfig {
    /// The paths at which the local catalog may be found, most preferred first.
    pub fn local_path_candidates(&self) -> (r: Vec<String>)
        ensures
            r@.len() == catalog_path_candidates(self.local_path@).len(),
            forall|i: int| 0 <= i < r@.len() ==> (#[trigger] r@[i])@ == catalog_path_candidates(self.local_path@)[i],
    {
        let p = chars_of(self.local_path.as_str());
        let mut out: Vec<String> = Vec::new();
        out.push(string_of(&p));
        if p.len() > 0 && p[0] == '/' {
            return out;
        }
        let dotdot = chars_of("..");
        let prefix = chars_of("../");
        proof {
            reveal_strlit("../");
        }
        if eq_chars(&p, &dotdot) {
            out.push(String::new());
        } else if starts_with(&p, &prefix) {
            let rest = slice_chars(&p, 3, p.len());
            assert(rest@ == self.local_path@.skip(3));
            out.push(string_of(&strip_leading_chars(&rest, '/')));
        }
        out.push(string_of(&concat(&prefix, &p)));
        out
    }

    /// The local catalog file to read: the first candidate path (see
    /// `local_path_candidates`) that `is_file` marks as an existing file;
    /// `is_file[i]` answers for the `i`-th candidate.
    pub fn resolve_local_path(&self, is_file: &Vec<bool>) -> (r: Option<String>)
        ensures
            match r {
                Some(path) => exists|i: int|
                    0 <= i < catalog_path_candidates(self.local_path@).len() && i < is_file@.len() && #[trigger] is_file@[i]
                        && path@ == catalog_path_candidates(self.local_path@)[i] && forall|j: int|
                        0 <= j < i ==> !(#[trigger] is_file@[j]),
                None => forall|i: int|
                    0 <= i < catalog_path_candidates(self.local_path@).len() && i < is_file@.len() ==> !(
                    #[trigger] is_file@[i]),
            },
    {
        let candidates = self.local_path_candidates();
        let mut i: usize = 0;
        while i < candidates.len() && i < is_file.len()
            invariant
                i <= candidates@.len(),
                candidates@.len() == catalog_path_candidates(self.local_path@).len(),
                forall|k: int| 0 <= k < candidates@.len() ==> (#[trigger] candidates@[k])@ == catalog_path_candidates(
                    self.local_path@,
                )[k],
                forall|j: int| 0 <= j < i && j < is_file@.len() ==> !(#[trigger] is_file@[j]),
            decreases candidates@.len() - i,
        {
            if is_file[i] {
                return Some(string_of(&chars_of(candidates[i].as_str())));
            }
            i = i + 1;
        }
        None
    }
}

} // verus!
