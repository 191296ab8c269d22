//! Assembling the detail page of an application from what its platform
//! answered: the release, its checksum file, the README and the repository
//! figures.

use vstd::prelude::*;
use crate::catalog::{
    community_icon_bg, first_with_id, is_first_match, no_match, opt_str_ref_view, repo_coordinates, stats_updated, CatalogItem,
    CatalogItemView, CatalogService, CoordinatesView,
};
use crate::detail::{checksum_for, detail_icon, detail_icon_of, homepage_of, latest_count, latest_homepage, latest_license};
use crate::installer::{arch_score, asset_score_of, classify, kind_bonus, kind_name, release_asset_from};
use crate::markdown::{logo_extraction, readme_rewritten};
use crate::models::{clone_opt_string, clone_string, clone_strings, opt_str_view, strs_view, AppDetail, ReleaseAsset};
use crate::ranking::{positions_increase, rank_entries, ranks_before, strictly_ranked, Ranked};
use crate::settings::{pairs_map, pairs_view};
use crate::forge::{forge_icon, forge_name, UniversalRepoCoord};
use crate::remote::{ForgeReleaseInfo, ForgeRepoInfo};
use crate::text::{chars_of, concat, has_substring, contains_str, string_of};

verus! {

/// A release as a platform answered it: its tag, its notes and its files,
/// each given by name, download address and size in bytes.
pub struct ReleasePayload {
    pub tag_name: String,
    pub body: Option<String>,
    pub assets: Vec<(String, String, u64)>,
}

/// Figures of a repository fetched with its release; a figure is missing when
/// the platform gave none or could not be reached.
pub struct RepoFigures {
    pub stars: Option<u64>,
    pub forks: Option<u64>,
    pub license: Option<String>,
    pub homepage: Option<String>,
}

/// How well a release file, known by its name, suits the target system: the
/// score used to pick the file to install.
pub open spec fn name_score(name: Seq<char>, os: Seq<char>, arch: Seq<char>) -> int {
    let c = classify(name);
    (if c.1 == os { 100int } else { 0int }) + arch_score(c.2, arch) + kind_bonus(os, kind_name(c.0))
}

pub open spec fn release_scores(assets: Seq<(String, String, u64)>, os: Seq<char>, arch: Seq<char>) -> Seq<int> {
    assets.map_values(|a: (String, String, u64)| name_score(a.0@, os, arch))
}

/// `p` lists the positions of `scores` from the highest score down, positions
/// of equal score in the order they came.
pub open spec fn by_descending_score(scores: Seq<int>, p: Seq<int>) -> bool {
    &&& p.len() == scores.len()
    &&& forall|k: int| 0 <= k < p.len() ==> 0 <= #[trigger] p[k] < scores.len()
    &&& forall|k: int, l: int|
        0 <= k < l < p.len() ==> scores[#[trigger] p[k]] > scores[#[trigger] p[l]] || (scores[p[k]] == scores[p[l]]
            && p[k] < p[l])
}

/// The hash a checksum file gives for a file name.
pub open spec fn checksum_of(sums: Map<Seq<char>, Seq<char>>, name: Seq<char>) -> Option<Seq<char>> {
    if sums.contains_key(name) {
        Some(sums[name])
    } else {
        None
    }
}

/// `r` describes the release file `a`: its name, address and size, the kind,
/// system and architecture its name tells, and the hash the checksums give.
pub open spec fn release_entry(r: ReleaseAsset, a: (String, String, u64), sums: Map<Seq<char>, Seq<char>>) -> bool {
    &&& r.name@ == a.0@
    &&& r.download_url@ == a.1@
    &&& r.size_bytes == a.2
    &&& r.os@ == classify(a.0@).1
    &&& r.arch@ == classify(a.0@).2
    &&& r.kind@ == kind_name(classify(a.0@).0)
    &&& opt_str_view(r.sha256) == checksum_of(sums, a.0@)
}

/// `r` describes the release files `assets`, the best suited to the target
/// system first, files of equal score in the order given.
pub open spec fn releases_listed(
    r: Seq<ReleaseAsset>,
    assets: Seq<(String, String, u64)>,
    sums: Map<Seq<char>, Seq<char>>,
    os: Seq<char>,
    arch: Seq<char>,
) -> bool {
    exists|p: Seq<int>|
        #[trigger] by_descending_score(release_scores(assets, os, arch), p) && r.len() == p.len() && forall|k: int|
            0 <= k < r.len() ==> release_entry(#[trigger] r[k], assets[p[k]], sums)
}

/// The release files of a detail page come best suited first: no file scores
/// higher on the target system than the first, and files of equal score keep
/// the order the platform gave.
pub proof fn law_best_release_first(
    r: Seq<ReleaseAsset>,
    assets: Seq<(String, String, u64)>,
    sums: Map<Seq<char>, Seq<char>>,
    os: Seq<char>,
    arch: Seq<char>,
    k: int,
)
    requires
        releases_listed(r, assets, sums, os, arch),
        0 < k < r.len(),
    ensures
        name_score(r[0].name@, os, arch) >= name_score(r[k].name@, os, arch),
        name_score(r[0].name@, os, arch) == name_score(r[k].name@, os, arch) ==> exists|i: int, j: int|
            0 <= i < j < assets.len() && assets[i].0@ == r[0].name@ && assets[j].0@ == r[k].name@,
{
    let scores = release_scores(assets, os, arch);
    let p = choose|p: Seq<int>|
        #[trigger] by_descending_score(scores, p) && r.len() == p.len() && forall|m: int|
            0 <= m < r.len() ==> release_entry(#[trigger] r[m], assets[p[m]], sums);
    assert(release_entry(r[0], assets[p[0]], sums));
    assert(release_entry(r[k], assets[p[k]], sums));
    assert(0 <= p[0] < scores.len());
    assert(0 <= p[k] < scores.len());
    assert(scores[p[0]] == name_score(assets[p[0]].0@, os, arch));
    assert(scores[p[k]] == name_score(assets[p[k]].0@, os, arch));
    assert(scores[p[0]] > scores[p[k]] || (scores[p[0]] == scores[p[k]] && p[0] < p[k]));
}

fn build_release(a: &(String, String, u64), checksums: &Vec<(String, String)>) -> (r: ReleaseAsset)
    ensures
        release_entry(r, *a, pairs_map(pairs_view(checksums@))),
{
    let mut r = release_asset_from(clone_string(&a.0), clone_string(&a.1), a.2);
    r.sha256 = checksum_for(checksums, a.0.as_str());
    r
}

/// The release files of a detail page, with their hashes, the one best suited
/// to the target system first.
pub fn detail_releases(
    assets: &Vec<(String, String, u64)>,
    checksums: &Vec<(String, String)>,
    target_os: &str,
    target_arch: &str,
) -> (r: Vec<ReleaseAsset>)
    ensures
        releases_listed(r@, assets@, pairs_map(pairs_view(checksums@)), target_os@, target_arch@),
{
    let ghost scores = release_scores(assets@, target_os@, target_arch@);
    let ghost sums = pairs_map(pairs_view(checksums@));
    let mut entries: Vec<Ranked> = Vec::new();
    let mut i: usize = 0;
    while i < assets.len()
        invariant
            i <= assets@.len(),
            scores == release_scores(assets@, target_os@, target_arch@),
            entries@.len() == i,
            forall|j: int|
                0 <= j < i ==> (#[trigger] entries@[j]).0 == scores[j] && entries@[j].1 == 0 && entries@[j].2 == j,
        decreases assets.len() - i,
    {
        let b = build_release(&assets[i], checksums);
        let s = asset_score_of(&b, target_os, target_arch);
        entries.push((s, 0, i));
        i = i + 1;
    }
    assert(positions_increase(entries@));
    let ranked = rank_entries(&entries);
    let n = assets.len();
    proof {
        assert forall|k: int| 0 <= k < ranked@.len() implies (#[trigger] ranked@[k]).2 < n && ranked@[k].0
            == scores[ranked@[k].2 as int] && ranked@[k].1 == 0 by {
            assert(ranked@.contains(ranked@[k]));
            assert(entries@.contains(ranked@[k]));
            let j = choose|j: int| 0 <= j < entries@.len() && entries@[j] == ranked@[k];
            assert(entries@[j].2 == j);
        }
    }
    let ghost p = ranked@.map_values(|e: Ranked| e.2 as int);
    let mut out: Vec<ReleaseAsset> = Vec::new();
    let mut k: usize = 0;
    while k < ranked.len()
        invariant
            k <= ranked@.len(),
            ranked@.len() == n,
            n == assets@.len(),
            out@.len() == k,
            sums == pairs_map(pairs_view(checksums@)),
            p == ranked@.map_values(|e: Ranked| e.2 as int),
            forall|k2: int| 0 <= k2 < ranked@.len() ==> (#[trigger] ranked@[k2]).2 < n,
            forall|m: int| 0 <= m < k ==> release_entry(#[trigger] out@[m], assets@[p[m]], sums),
        decreases ranked@.len() - k,
    {
        let idx = ranked[k].2;
        out.push(build_release(&assets[idx], checksums));
        k = k + 1;
    }
    proof {
        assert forall|a: int, b: int| 0 <= a < b < p.len() implies scores[#[trigger] p[a]] > scores[#[trigger] p[b]]
            || (scores[p[a]] == scores[p[b]] && p[a] < p[b]) by {
            assert(ranks_before(ranked@[a], ranked@[b]));
        }
        assert(by_descending_score(scores, p));
    }
    out
}

/// The detail of a catalog application, given its coordinates `c`, its
/// catalog entry (first of exactly its id), and what its platform answered.
pub open spec fn github_detail(
    d: AppDetail,
    id: Seq<char>,
    c: CoordinatesView,
    item: Option<CatalogItemView>,
    release: ReleasePayload,
    sums: Map<Seq<char>, Seq<char>>,
    raw_readme: Seq<char>,
    figures: RepoFigures,
    os: Seq<char>,
    arch: Seq<char>,
    now: i64,
) -> bool {
    let (owner, repo, name, description, icon, icon_bg) = c;
    let logo = logo_extraction(raw_readme, owner, repo);
    &&& d.id@ == id
    &&& d.name@ == name
    &&& d.owner@ == owner
    &&& d.repo@ == repo
    &&& d.icon@ == detail_icon_of(icon, logo.0, owner)
    &&& d.icon_bg@ == icon_bg
    &&& d.description@ == description
    &&& d.stars == latest_figure(figures.stars, item_stars(item))
    &&& d.forks == latest_figure(figures.forks, item_forks(item))
    &&& d.license@ == match opt_str_view(figures.license) {
        Some(l) => l,
        None => match item {
            Some(it) => it.license,
            None => "FLOSS"@,
        },
    }
    &&& d.latest_version@ == release.tag_name@
    &&& d.changelog@ == match release.body {
        Some(b) => b@,
        None => Seq::empty(),
    }
    &&& d.is_verified == match item {
        Some(it) => it.is_verified,
        None => false,
    }
    &&& opt_str_view(d.signature_fingerprint) == match item {
        Some(it) => it.publisher_fingerprint,
        None => None,
    }
    &&& d.readme_markdown@ == readme_rewritten(logo.1, owner, repo)
    &&& releases_listed(d.releases@, release.assets@, sums, os, arch)
    &&& d.category@ == match item {
        Some(it) => it.category,
        None => "system"@,
    }
    &&& d.category_name@ == match item {
        Some(it) => it.category_name,
        None => "系统实用"@,
    }
    &&& opt_str_view(d.forge) == Some("github"@)
    &&& opt_str_view(d.forge_host) == Some("github.com"@)
    &&& d.cached_at == Some(now)
    &&& d.is_stale_fallback is None
    &&& opt_str_view(d.homepage) == homepage_of(
        opt_str_view(figures.homepage),
        match item {
            Some(it) => it.homepage,
            None => None,
        },
    )
    &&& strs_view(d.platforms@) == match item {
        Some(it) => it.platforms,
        None => seq!["windows"@],
    }
}

pub open spec fn latest_figure(remote: Option<u64>, catalog: Option<u64>) -> u64 {
    match remote {
        Some(n) => n,
        None => match catalog {
            Some(n) => n,
            None => 0,
        },
    }
}

pub open spec fn item_stars(item: Option<CatalogItemView>) -> Option<u64> {
    match item {
        Some(it) => Some(it.stars),
        None => None,
    }
}

pub open spec fn item_forks(item: Option<CatalogItemView>) -> Option<u64> {
    match item {
        Some(it) => Some(it.forks),
        None => None,
    }
}

fn owned(s: &str) -> (r: String)
    ensures
        r@ == s@,
{
    string_of(&chars_of(s))
}


pub open spec fn text_or_empty(o: Option<String>) -> Seq<char> {
    match o {
        Some(s) => s@,
        None => Seq::empty(),
    }
}

fn take_or_empty(o: Option<String>) -> (r: String)
    ensures
        r@ == text_or_empty(o),
{
    match o {
        Some(s) => s,
        None => {
            proof {
                reveal_strlit("");
            }
            owned("")
        },
    }
}

/// The detail of a repository on a platform other than GitHub, built from
/// the repository and release the platform answered, fetched at `now`.
pub fn external_app_detail(
    id: &str,
    coord: UniversalRepoCoord,
    repo_info: ForgeRepoInfo,
    release: ForgeReleaseInfo,
    now: i64,
) -> (r: AppDetail)
    ensures
        r.id@ == id@,
        r.name@ == repo_info.name@,
        r.owner@ == coord.owner@,
        r.repo@ == coord.repo@,
        r.icon@ == forge_icon(coord.forge),
        r.icon_bg@ == community_icon_bg(),
        r.description@ == text_or_empty(repo_info.description),
        r.stars == repo_info.stars,
        r.forks == repo_info.forks,
        r.license@ == "OpenSource"@,
        r.latest_version@ == release.tag_name@,
        r.changelog@ == text_or_empty(release.body),
        !r.is_verified,
        r.signature_fingerprint is None,
        r.readme_markdown@ == "# "@ + repo_info.name@ + "\n\n"@ + text_or_empty(repo_info.description),
        r.releases == release.assets,
        r.category@ == "external"@,
        r.category_name@ == "跨平台开源"@,
        opt_str_view(r.forge) == Some(forge_name(coord.forge)),
        opt_str_view(r.forge_host) == Some(coord.host@),
        r.cached_at == Some(now),
        r.is_stale_fallback is None,
        opt_str_view(r.homepage) == opt_str_view(repo_info.homepage),
        strs_view(r.platforms@) == seq!["windows"@],
{
    let description = take_or_empty(repo_info.description);
    let readme = crate::detail::default_readme(repo_info.name.as_str(), description.as_str());
    AppDetail {
        id: owned(id),
        name: repo_info.name,
        owner: coord.owner,
        repo: coord.repo,
        icon: owned(coord.forge.icon()),
        icon_bg: owned("linear-gradient(135deg, #475569, #334155)"),
        description,
        stars: repo_info.stars,
        forks: repo_info.forks,
        license: owned("OpenSource"),
        latest_version: release.tag_name,
        changelog: take_or_empty(release.body),
        is_verified: false,
        signature_fingerprint: None,
        readme_markdown: readme,
        releases: release.assets,
        category: owned("external"),
        category_name: owned("跨平台开源"),
        forge: Some(owned(coord.forge.as_str())),
        forge_host: Some(coord.host),
        cached_at: Some(now),
        is_stale_fallback: None,
        homepage: repo_info.homepage,
        platforms: crate::catalog::default_platforms(),
    }
}

impl AppDetail {
    /// The cached detail reused as fresh, at `now`.
    pub fn refreshed(self, now: i64) -> (r: AppDetail)
        ensures
            r == (AppDetail { cached_at: Some(now), is_stale_fallback: None, ..self }),
    {
        AppDetail { cached_at: Some(now), is_stale_fallback: None, ..self }
    }

    /// An old copy shown under the id asked for, marked stale.
    pub fn stale_copy(self, id: &str) -> (r: AppDetail)
        ensures
            r.id@ == id@,
            r == (AppDetail { id: r.id, is_stale_fallback: Some(true), ..self }),
    {
        AppDetail { id: owned(id), is_stale_fallback: Some(true), ..self }
    }

    /// A cached detail served under the id asked for, with the fingerprint of
    /// the catalog entry when there is one.
    pub fn served_from_cache(self, id: &str, entry_fingerprint: Option<Option<String>>) -> (r: AppDetail)
        ensures
            r.id@ == id@,
            r == (AppDetail {
                id: r.id,
                signature_fingerprint: match entry_fingerprint {
                    Some(f) => f,
                    None => self.signature_fingerprint,
                },
                ..self
            }),
    {
        let fingerprint = match entry_fingerprint {
            Some(f) => f,
            None => self.signature_fingerprint,
        };
        AppDetail { id: owned(id), signature_fingerprint: fingerprint, ..self }
    }

    /// Keeps the release files of the cached copy when the new detail lists
    /// none and the cached copy lists some.
    pub fn keep_cached_releases(&mut self, cached: Option<Vec<ReleaseAsset>>)
        ensures
            final(self).releases == match cached {
                Some(old_releases) => if old(self).releases@.len() == 0 && old_releases@.len() > 0 {
                    old_releases
                } else {
                    old(self).releases
                },
                None => old(self).releases,
            },
            *final(self) == (AppDetail { releases: final(self).releases, ..*old(self) }),
    {
        match cached {
            Some(old_releases) => {
                if self.releases.len() == 0 && old_releases.len() > 0 {
                    self.releases = old_releases;
                }
            },
            None => {},
        }
    }

    /// Whether the repository's `z-store.toml` is looked for: only for
    /// applications on github.com (a missing platform or host counts as such).
    pub fn wants_store_meta(&self) -> (r: bool)
        ensures
            r == ((match self.forge {
                Some(f) => f@ == "github"@,
                None => true,
            }) && (match self.forge_host {
                Some(h) => has_substring(h@, "github.com"@),
                None => true,
            })),
    {
        let forge_ok = match &self.forge {
            Some(f) => crate::text::eq_chars(&chars_of(f.as_str()), &chars_of("github")),
            None => true,
        };
        let host_ok = match &self.forge_host {
            Some(h) => contains_str(&chars_of(h.as_str()), &chars_of("github.com")),
            None => true,
        };
        forge_ok && host_ok
    }
}

impl CatalogService {
    /// Builds the detail page of the application `id` from what GitHub
    /// answered, and refreshes the entry's statistics in the catalog with
    /// the figures shown. Fails, changing nothing, when `id` has no coordinates.
    #[verifier::rlimit(40)]
    pub fn assemble_app_detail(
        &mut self,
        id: &str,
        release: ReleasePayload,
        checksums: &Vec<(String, String)>,
        raw_readme: &str,
        figures: RepoFigures,
        target_os: &str,
        target_arch: &str,
        now: i64,
    ) -> (r: Result<AppDetail, String>)
        ensures
            match repo_coordinates(old(self)@, id@) {
                Err(e) => r matches Err(m) && m@ == e && final(self)@ == old(self)@,
                Ok(c) => r matches Ok(d) && github_detail(
                    d,
                    id@,
                    c,
                    first_with_id(old(self)@, id@),
                    release,
                    pairs_map(pairs_view(checksums@)),
                    raw_readme@,
                    figures,
                    target_os@,
                    target_arch@,
                    now,
                ) && (no_match(old(self)@, id@) ==> final(self)@ == old(self)@) && (forall|k: int|
                    is_first_match(old(self)@, id@, k) ==> final(self)@ == old(self)@.update(
                        k,
                        stats_updated(old(self)@[k], Some(d.stars), Some(d.forks), Some(release.tag_name@)),
                    )),
            },
    {
        let (owner, repo, name, description, icon, icon_bg) = match self.get_endpoints(id) {
            Ok(e) => e,
            Err(e) => {
                return Err(e);
            },
        };
        let item = self.item_with_id(id);
        let ghost iv = first_with_id(self@, id@);
        let (it_stars, it_forks, it_license, it_homepage) = match &item {
            Some(it) => (Some(it.stars), Some(it.forks), Some(clone_string(&it.license)), clone_opt_string(&it.homepage)),
            None => (None, None, None, None),
        };
        let stars = latest_count(figures.stars, it_stars);
        let forks = latest_count(figures.forks, it_forks);
        let license = latest_license(figures.license, it_license);
        let homepage = latest_homepage(figures.homepage, it_homepage);
        self.update_catalog_item_stats(id, Some(stars), Some(forks), Some(release.tag_name.as_str()));
        let (logo, cleaned) = CatalogService::extract_and_strip_logo_from_readme(raw_readme, owner.as_str(), repo.as_str());
        let readme_markdown = CatalogService::rewrite_readme_images(cleaned.as_str(), owner.as_str(), repo.as_str());
        let releases = detail_releases(&release.assets, checksums, target_os, target_arch);
        let final_icon = detail_icon(icon, logo, owner.as_str());
        let changelog = match release.body {
            Some(b) => b,
            None => {
                proof {
                    reveal_strlit("");
                }
                owned("")
            },
        };
        assert(changelog@ == match release.body {
            Some(b) => b@,
            None => Seq::<char>::empty(),
        });
        let (is_verified, signature_fingerprint, category, category_name, platforms) = match item {
            Some(it) => (it.is_verified, it.publisher_fingerprint, it.category, it.category_name, it.platforms),
            None => (false, None, owned("system"), owned("系统实用"), crate::catalog::default_platforms()),
        };
        Ok(
            AppDetail {
                id: owned(id),
                name,
                owner,
                repo,
                icon: final_icon,
                icon_bg,
                description,
                stars,
                forks,
                license,
                latest_version: release.tag_name,
                changelog,
                is_verified,
                signature_fingerprint,
                readme_markdown,
                releases,
                category,
                category_name,
                forge: Some(owned("github")),
                forge_host: Some(owned("github.com")),
                cached_at: Some(now),
                is_stale_fallback: None,
                homepage,
                platforms,
            },
        )
    }
}

} // verus!
