//! Plain data records exchanged between the library and its callers.

use vstd::prelude::*;

verus! {

/// A user's version policy for one installed application.
#[derive(Debug)]
pub struct UpdateRule {
    pub app_id: String,
    /// A release the user chose to skip.
    pub skipped_version: Option<String>,
    /// Never offer updates while set.
    pub is_frozen: bool,
    /// Hidden from update lists and search results.
    pub is_hidden: bool,
    pub updated_at: i64,
}

/// One downloadable file of a release.
#[derive(Debug)]
pub struct ReleaseAsset {
    pub name: String,
    pub download_url: String,
    pub size_bytes: u64,
    pub sha256: Option<String>,
    pub os: String,
    pub arch: String,
    pub kind: String,
}

/// The outcome of a connectivity test through a proxy.
#[derive(Debug)]
pub struct ProxyTestResult {
    pub success: bool,
    pub latency_ms: u32,
    pub message: String,
}

/// Everything the detail page of an application shows.
#[derive(Debug)]
pub struct AppDetail {
    pub id: String,
    pub name: String,
    pub owner: String,
    pub repo: String,
    pub icon: String,
    pub icon_bg: String,
    pub description: String,
    pub stars: u64,
    pub forks: u64,
    pub license: String,
    pub latest_version: String,
    pub changelog: String,
    pub is_verified: bool,
    pub signature_fingerprint: Option<String>,
    pub readme_markdown: String,
    /// Release files, the one best suited to this system first.
    pub releases: Vec<ReleaseAsset>,
    pub category: String,
    pub category_name: String,
    pub forge: Option<String>,
    pub forge_host: Option<String>,
    /// When the detail was fetched, in seconds since the Unix epoch.
    pub cached_at: Option<i64>,
    /// Set when the detail is an old copy shown because fetching failed.
    pub is_stale_fallback: Option<bool>,
    pub homepage: Option<String>,
    pub platforms: Vec<String>,
}

} // verus!

verus! {

pub open spec fn opt_str_view(o: Option<String>) -> Option<Seq<char>> {
    match o {
        Some(s) => Some(s@),
        None => None,
    }
}

pub open spec fn strs_view(v: Seq<String>) -> Seq<Seq<char>> {
    v.map_values(|s: String| s@)
}

/// An application as listed in search results and category pages.
#[derive(Debug)]
pub struct AppSummary {
    pub id: String,
    pub name: String,
    pub owner: String,
    pub repo: String,
    pub icon: String,
    pub icon_bg: String,
    pub description: String,
    pub stars: u64,
    pub forks: u64,
    pub license: String,
    pub latest_version: String,
    pub category: String,
    pub category_name: String,
    pub is_verified: bool,
    pub is_installed: Option<bool>,
    pub has_update: Option<bool>,
    pub installed_version: Option<String>,
    pub forge: Option<String>,
    pub forge_host: Option<String>,
    pub homepage: Option<String>,
    pub platforms: Vec<String>,
}

/// Mathematical value of an application summary.
pub struct SummaryView {
    pub id: Seq<char>,
    pub name: Seq<char>,
    pub owner: Seq<char>,
    pub repo: Seq<char>,
    pub icon: Seq<char>,
    pub icon_bg: Seq<char>,
    pub description: Seq<char>,
    pub stars: u64,
    pub forks: u64,
    pub license: Seq<char>,
    pub latest_version: Seq<char>,
    pub category: Seq<char>,
    pub category_name: Seq<char>,
    pub is_verified: bool,
    pub is_installed: Option<bool>,
    pub has_update: Option<bool>,
    pub installed_version: Option<Seq<char>>,
    pub forge: Option<Seq<char>>,
    pub forge_host: Option<Seq<char>>,
    pub homepage: Option<Seq<char>>,
    pub platforms: Seq<Seq<char>>,
}

impl View for AppSummary {
    type V = SummaryView;

    open spec fn view(&self) -> SummaryView {
        SummaryView {
            id: self.id@,
            name: self.name@,
            owner: self.owner@,
            repo: self.repo@,
            icon: self.icon@,
            icon_bg: self.icon_bg@,
            description: self.description@,
            stars: self.stars,
            forks: self.forks,
            license: self.license@,
            latest_version: self.latest_version@,
            category: self.category@,
            category_name: self.category_name@,
            is_verified: self.is_verified,
            is_installed: self.is_installed,
            has_update: self.has_update,
            installed_version: opt_str_view(self.installed_version),
            forge: opt_str_view(self.forge),
            forge_host: opt_str_view(self.forge_host),
            homepage: opt_str_view(self.homepage),
            platforms: strs_view(self.platforms@),
        }
    }
}

pub open spec fn summaries_view(v: Seq<AppSummary>) -> Seq<SummaryView> {
    v.map_values(|s: AppSummary| s@)
}

/// Copy of a string.
pub fn clone_string(s: &String) -> (r: String)
    ensures
        r == *s,
{
    s.clone()
}

pub fn clone_opt_string(s: &Option<String>) -> (r: Option<String>)
    ensures
        r == *s,
{
    match s {
        Some(x) => Some(x.clone()),
        None => None,
    }
}

pub fn clone_strings(v: &Vec<String>) -> (r: Vec<String>)
    ensures
        r@ == v@,
{
    let mut r: Vec<String> = Vec::new();
    let mut i: usize = 0;
    while i < v.len()
        invariant
            i <= v.len(),
            r@ == v@.subrange(0, i as int),
        decreases v.len() - i,
    {
        r.push(v[i].clone());
        i = i + 1;
        assert(r@ =~= v@.subrange(0, i as int));
    }
    assert(v@.subrange(0, i as int) =~= v@);
    r
}

} // verus!
