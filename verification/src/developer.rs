//! Developer profiles and starred repositories: how a platform's answers are
//! matched against the catalog, and what stands in when it does not answer.

use vstd::prelude::*;
use crate::catalog::{is_first_match, item_matches, no_match, summary_of, CatalogItem, CatalogItemView, CatalogService};
use crate::models::{clone_opt_string, clone_string, opt_str_view, summaries_view, AppSummary, SummaryView};
use crate::settings::{decimal_digits, u64_to_string};
use crate::text::{chars_of, concat, eq_ascii_ci, eq_ignore_ascii_case, string_of, trim, trim_chars};

verus! {

/// Repositories asked for on a developer's page.
pub const DEVELOPER_REPOS_PAGE_SIZE: u64 = 30;
/// Starred repositories asked for at once, the most GitHub allows.
pub const GITHUB_STARRED_MAX_PAGE_SIZE: u64 = 100;

/// A repository on a developer's page or in a starred list.
#[derive(Debug)]
pub struct DeveloperRepoItem {
    pub id: String,
    pub name: String,
    pub full_name: String,
    pub description: Option<String>,
    pub html_url: String,
    pub stars: u64,
    pub forks: u64,
    pub language: Option<String>,
    pub has_releases: bool,
    pub in_catalog: bool,
    pub latest_release_tag: Option<String>,
}

fn owned(s: &str) -> (r: String)
    ensures
        r@ == s@,
{
    string_of(&chars_of(s))
}

fn cat3(a: &[char], b: &[char], c: &[char]) -> (r: Vec<char>)
    ensures
        r@ == a@ + b@ + c@,
{
    concat(&concat(a, b), c)
}

/// The developer's account, trimmed; an error when blank.
pub fn developer_account(developer: &str) -> (r: Result<String, String>)
    ensures
        match r {
            Ok(d) => trim(developer@).len() > 0 && d@ == trim(developer@),
            Err(e) => trim(developer@).len() == 0 && e@ == "开发者账号不能为空"@,
        },
{
    let d = trim_chars(&chars_of(developer));
    if d.len() == 0 {
        Err(owned("开发者账号不能为空"))
    } else {
        Ok(string_of(&d))
    }
}

/// API addresses of a developer and of their recently updated repositories.
pub fn developer_urls(dev: &str) -> (r: (String, String))
    ensures
        r.0@ == "https://api.github.com/users/"@ + dev@,
        r.1@ == "https://api.github.com/users/"@ + dev@ + "/repos?sort=updated&per_page="@ + decimal_digits(
            DEVELOPER_REPOS_PAGE_SIZE as nat,
        ),
{
    let user = concat(&chars_of("https://api.github.com/users/"), &chars_of(dev));
    let size = u64_to_string(DEVELOPER_REPOS_PAGE_SIZE);
    let repos = cat3(&user, &chars_of("/repos?sort=updated&per_page="), &chars_of(size.as_str()));
    (string_of(&user), string_of(&repos))
}

/// The catalog entry a developer's repository is: same id as the full name,
/// or same owner and repository name (ASCII case ignored).
pub open spec fn developer_repo_matches(it: CatalogItemView, dev: Seq<char>, full_name: Seq<char>, repo_name: Seq<char>) -> bool {
    eq_ascii_ci(it.id, full_name) || (eq_ascii_ci(it.owner, dev) && eq_ascii_ci(it.repo, repo_name))
}

/// Entries owned by `dev`, ASCII case ignored.
pub open spec fn owned_by(dev: Seq<char>) -> spec_fn(CatalogItemView) -> bool {
    |it: CatalogItemView| eq_ascii_ci(it.owner, dev)
}

/// A catalog entry as listed on its developer's page when the platform gives
/// no repositories.
pub open spec fn listed_from_catalog(r: DeveloperRepoItem, it: CatalogItemView) -> bool {
    &&& r.id@ == it.id
    &&& r.name@ == it.name
    &&& r.full_name@ == it.owner + "/"@ + it.repo
    &&& opt_str_view(r.description) == Some(it.description)
    &&& r.html_url@ == "https://github.com/"@ + it.owner + "/"@ + it.repo
    &&& r.stars == it.stars
    &&& r.forks == it.forks
    &&& opt_str_view(r.language) == Some("Rust / C++"@)
    &&& r.has_releases && r.in_catalog
    &&& opt_str_view(r.latest_release_tag) == Some(it.default_version)
}

/// Avatar and profile addresses of a developer.
pub open spec fn avatar_of(dev: Seq<char>) -> Seq<char> {
    "https://avatars.githubusercontent.com/"@ + dev
}

pub open spec fn profile_url_of(dev: Seq<char>) -> Seq<char> {
    "https://github.com/"@ + dev
}

impl CatalogService {
    /// The first entry a developer's repository is, if any.
    pub fn developer_repo_entry(&self, dev: &str, full_name: &str, repo_name: &str) -> (r: Option<usize>)
        ensures
            match r {
                Some(k) => k < self@.len() && developer_repo_matches(self@[k as int], dev@, full_name@, repo_name@)
                    && forall|j: int| 0 <= j < k ==> !developer_repo_matches(#[trigger] self@[j], dev@, full_name@, repo_name@),
                None => forall|j: int| 0 <= j < self@.len() ==> !developer_repo_matches(#[trigger] self@[j], dev@, full_name@, repo_name@),
            },
    {
        let items = self.get_catalog_items();
        let d = chars_of(dev);
        let f = chars_of(full_name);
        let n = chars_of(repo_name);
        let mut i: usize = 0;
        while i < items.len()
            invariant
                i <= items@.len(),
                crate::catalog::items_view(items@) == self@,
                d@ == dev@,
                f@ == full_name@,
                n@ == repo_name@,
                forall|j: int| 0 <= j < i ==> !developer_repo_matches(#[trigger] self@[j], dev@, full_name@, repo_name@),
            decreases items@.len() - i,
        {
            assert(self@[i as int] == items@[i as int]@);
            let it = &items[i];
            if eq_ignore_ascii_case(&chars_of(it.id.as_str()), &f) || (eq_ignore_ascii_case(&chars_of(it.owner.as_str()), &d)
                && eq_ignore_ascii_case(&chars_of(it.repo.as_str()), &n)) {
                return Some(i);
            }
            i = i + 1;
        }
        None
    }

    /// A developer's repository as listed: named and versioned after its
    /// catalog entry when it is one; the full name defaults to `dev/name`
    /// and the address to its GitHub page.
    pub fn developer_repo_item(
        &self,
        dev: &str,
        name: Option<String>,
        full_name: Option<String>,
        description: Option<String>,
        html_url: Option<String>,
        stars: Option<u64>,
        forks: Option<u64>,
        language: Option<String>,
    ) -> (r: DeveloperRepoItem)
        ensures
            ({
                let repo_name = match name {
                    Some(n) => n@,
                    None => Seq::<char>::empty(),
                };
                let full = match full_name {
                    Some(f) => f@,
                    None => dev@ + "/"@ + repo_name,
                };
                let found = exists|k: int| 0 <= k < self@.len() && developer_repo_matches(#[trigger] self@[k], dev@, full, repo_name);
                &&& r.id@ == full
                &&& r.full_name@ == full
                &&& opt_str_view(r.description) == opt_str_view(description)
                &&& r.html_url@ == match html_url {
                    Some(u) => u@,
                    None => "https://github.com/"@ + dev@ + "/"@ + repo_name,
                }
                &&& r.stars == match stars {
                    Some(s) => s,
                    None => 0,
                }
                &&& r.forks == match forks {
                    Some(f) => f,
                    None => 0,
                }
                &&& opt_str_view(r.language) == opt_str_view(language)
                &&& r.in_catalog == found
                &&& r.has_releases == found
                &&& (!found ==> r.name@ == repo_name && r.latest_release_tag is None)
                &&& (found ==> exists|k: int| 0 <= k < self@.len() && developer_repo_matches(self@[k], dev@, full, repo_name)
                    && (forall|j: int| 0 <= j < k ==> !developer_repo_matches(#[trigger] self@[j], dev@, full, repo_name))
                    && r.name@ == self@[k].name && opt_str_view(r.latest_release_tag) == Some(self@[k].default_version))
            }),
    {
        let repo_name = match name {
            Some(n) => n,
            None => String::new(),
        };
        let full = match full_name {
            Some(f) => f,
            None => string_of(&cat3(&chars_of(dev), &chars_of("/"), &chars_of(repo_name.as_str()))),
        };
        let url = match html_url {
            Some(u) => u,
            None => string_of(
                &concat(&cat3(&chars_of("https://github.com/"), &chars_of(dev), &chars_of("/")), &chars_of(repo_name.as_str())),
            ),
        };
        let entry = self.developer_repo_entry(dev, full.as_str(), repo_name.as_str());
        let items = self.get_catalog_items();
        let (shown_name, tag, found) = match entry {
            Some(k) => {
                assert(self@[k as int] == items@[k as int]@);
                (clone_string(&items[k].name), Some(clone_string(&items[k].default_version)), true)
            },
            None => (clone_string(&repo_name), None, false),
        };
        DeveloperRepoItem {
            id: clone_string(&full),
            name: shown_name,
            full_name: full,
            description,
            html_url: url,
            stars: match stars {
                Some(s) => s,
                None => 0,
            },
            forks: match forks {
                Some(f) => f,
                None => 0,
            },
            language,
            has_releases: found,
            in_catalog: found,
            latest_release_tag: tag,
        }
    }

    /// The developer's catalog entries (owner equal, ASCII case ignored), as
    /// listed when the platform gives no repositories.
    pub fn catalog_repos_of(&self, dev: &str) -> (r: Vec<DeveloperRepoItem>)
        ensures
            r@.len() == self@.filter(owned_by(dev@)).len(),
            forall|k: int| 0 <= k < r@.len() ==> {
                let it = #[trigger] self@.filter(owned_by(dev@))[k];
                listed_from_catalog(r@[k], it)
            },
    {
        let items = self.get_catalog_items();
        let ghost iv = crate::catalog::items_view(items@);
        let ghost pred = owned_by(dev@);
        let d = chars_of(dev);
        let mut out: Vec<DeveloperRepoItem> = Vec::new();
        let mut i: usize = 0;
        while i < items.len()
            invariant
                i <= items@.len(),
                iv == crate::catalog::items_view(items@),
                iv == self@,
                d@ == dev@,
                pred == owned_by(dev@),
                out@.len() == iv.take(i as int).filter(pred).len(),
                forall|k: int| 0 <= k < out@.len() ==> {
                    let it = #[trigger] iv.take(i as int).filter(pred)[k];
                    listed_from_catalog(out@[k], it)
                },
            decreases items@.len() - i,
        {
            reveal(Seq::filter);
            assert(iv.take(i + 1).drop_last() =~= iv.take(i as int));
            assert(iv.take(i + 1).last() == items@[i as int]@);
            let it = &items[i];
            if eq_ignore_ascii_case(&chars_of(it.owner.as_str()), &d) {
                let slug = cat3(&chars_of(it.owner.as_str()), &chars_of("/"), &chars_of(it.repo.as_str()));
                out.push(DeveloperRepoItem {
                    id: clone_string(&it.id),
                    name: clone_string(&it.name),
                    full_name: string_of(&slug),
                    description: Some(clone_string(&it.description)),
                    html_url: string_of(&concat(&chars_of("https://github.com/"), &slug)),
                    stars: it.stars,
                    forks: it.forks,
                    language: Some(owned("Rust / C++")),
                    has_releases: true,
                    in_catalog: true,
                    latest_release_tag: Some(clone_string(&it.default_version)),
                });
                assert("https://github.com/"@ + slug@ =~= "https://github.com/"@ + it.owner@ + "/"@ + it.repo@);
                assert(listed_from_catalog(out@[out@.len() - 1], items@[i as int]@));
            }
            i = i + 1;
        }
        assert(iv.take(i as int) =~= iv);
        out
    }
}

/// The public repository count shown: the platform's, or the number listed when it says 0.
pub fn shown_public_repos(reported: u64, listed: usize) -> (r: u64)
    ensures
        r == if reported == 0 {
            listed as u64
        } else {
            reported
        },
{
    if reported == 0 {
        listed as u64
    } else {
        reported
    }
}

/// What the platform says of a developer; any field may be missing.
#[derive(Debug)]
pub struct GitHubUser {
    pub login: String,
    pub name: Option<String>,
    pub avatar_url: Option<String>,
    pub html_url: Option<String>,
    pub bio: Option<String>,
    pub company: Option<String>,
    pub blog: Option<String>,
    pub location: Option<String>,
    pub public_repos: Option<u64>,
    pub followers: Option<u64>,
    pub following: Option<u64>,
}

/// A developer's page.
#[derive(Debug)]
pub struct DeveloperProfile {
    pub login: String,
    pub name: Option<String>,
    pub avatar_url: String,
    pub html_url: String,
    pub bio: Option<String>,
    pub company: Option<String>,
    pub blog: Option<String>,
    pub location: Option<String>,
    pub public_repos: u64,
    pub followers: u64,
    pub following: u64,
    pub repos: Vec<DeveloperRepoItem>,
}

/// The record that stands for a successful answer whose body could not be
/// read: the account as login, the default addresses, every count 0.
pub fn unreadable_user(dev: &str) -> (u: GitHubUser)
    ensures
        u.login@ == dev@,
        u.name is None,
        opt_str_view(u.avatar_url) == Some(avatar_of(dev@)),
        opt_str_view(u.html_url) == Some(profile_url_of(dev@)),
        u.bio is None && u.company is None && u.blog is None && u.location is None,
        u.public_repos == Some(0u64) && u.followers == Some(0u64) && u.following == Some(0u64),
{
    GitHubUser {
        login: owned(dev),
        name: None,
        avatar_url: Some(string_of(&concat(&chars_of("https://avatars.githubusercontent.com/"), &chars_of(dev)))),
        html_url: Some(string_of(&concat(&chars_of("https://github.com/"), &chars_of(dev)))),
        bio: None,
        company: None,
        blog: None,
        location: None,
        public_repos: Some(0),
        followers: Some(0),
        following: Some(0),
    }
}

pub open spec fn or_zero(o: Option<u64>) -> u64 {
    match o {
        Some(v) => v,
        None => 0,
    }
}

pub open spec fn or_default(o: Option<String>, d: Seq<char>) -> Seq<char> {
    match o {
        Some(v) => v@,
        None => d,
    }
}

/// The text shown as biography when the platform does not answer.
pub open spec fn fallback_bio(dev: Seq<char>) -> Seq<char> {
    "GitHub 知名开源贡献者/团队 "@ + dev
}

/// The header of a developer's page: from the account record when the
/// platform answered, else made up from the account name, with the number of
/// catalog entries the developer owns as repository count and 100 followers.
/// A repository count of 0 is replaced by the number of repositories listed.
pub open spec fn profile_header(
    p: DeveloperProfile,
    dev: Seq<char>,
    user: Option<GitHubUser>,
    owned_count: nat,
    listed: nat,
) -> bool {
    match user {
        Some(u) => {
            &&& p.login@ == u.login@
            &&& opt_str_view(p.name) == opt_str_view(u.name)
            &&& p.avatar_url@ == or_default(u.avatar_url, avatar_of(dev))
            &&& p.html_url@ == or_default(u.html_url, profile_url_of(dev))
            &&& opt_str_view(p.bio) == opt_str_view(u.bio)
            &&& opt_str_view(p.company) == opt_str_view(u.company)
            &&& opt_str_view(p.blog) == opt_str_view(u.blog)
            &&& opt_str_view(p.location) == opt_str_view(u.location)
            &&& p.public_repos == if or_zero(u.public_repos) == 0 {
                listed
            } else {
                or_zero(u.public_repos) as nat
            }
            &&& p.followers == or_zero(u.followers)
            &&& p.following == or_zero(u.following)
        },
        None => {
            &&& p.login@ == dev
            &&& opt_str_view(p.name) == Some(dev)
            &&& p.avatar_url@ == avatar_of(dev)
            &&& p.html_url@ == profile_url_of(dev)
            &&& opt_str_view(p.bio) == Some(fallback_bio(dev))
            &&& p.company is None && p.blog is None && p.location is None
            &&& p.public_repos == if owned_count == 0 {
                listed
            } else {
                owned_count
            }
            &&& p.followers == 100
            &&& p.following == 0
        },
    }
}

impl CatalogService {
    /// A developer's page from the platform's answers: `user` is the account
    /// record when that request succeeded, `repos` the repositories the
    /// platform listed; when it listed none, the developer's catalog entries
    /// stand in.
    pub fn developer_profile(&self, dev: &str, user: Option<GitHubUser>, repos: Vec<DeveloperRepoItem>) -> (p: DeveloperProfile)
        ensures
            repos@.len() > 0 ==> p.repos@ == repos@,
            repos@.len() == 0 ==> p.repos@.len() == self@.filter(owned_by(dev@)).len() && forall|k: int|
                0 <= k < p.repos@.len() ==> listed_from_catalog(
                    #[trigger] p.repos@[k],
                    self@.filter(owned_by(dev@))[k],
                ),
            profile_header(p, dev@, user, self@.filter(owned_by(dev@)).len(), p.repos@.len()),
    {
        let from_catalog = self.catalog_repos_of(dev);
        let owned_count = from_catalog.len();
        let listed = if repos.len() == 0 {
            from_catalog
        } else {
            repos
        };
        let n = listed.len();
        match user {
            Some(u) => {
                let avatar = match u.avatar_url {
                    Some(a) => a,
                    None => string_of(&concat(&chars_of("https://avatars.githubusercontent.com/"), &chars_of(dev))),
                };
                let page = match u.html_url {
                    Some(h) => h,
                    None => string_of(&concat(&chars_of("https://github.com/"), &chars_of(dev))),
                };
                let reported = match u.public_repos {
                    Some(c) => c,
                    None => 0,
                };
                DeveloperProfile {
                    login: u.login,
                    name: u.name,
                    avatar_url: avatar,
                    html_url: page,
                    bio: u.bio,
                    company: u.company,
                    blog: u.blog,
                    location: u.location,
                    public_repos: shown_public_repos(reported, n),
                    followers: match u.followers {
                        Some(c) => c,
                        None => 0,
                    },
                    following: match u.following {
                        Some(c) => c,
                        None => 0,
                    },
                    repos: listed,
                }
            },
            None => DeveloperProfile {
                login: owned(dev),
                name: Some(owned(dev)),
                avatar_url: string_of(&concat(&chars_of("https://avatars.githubusercontent.com/"), &chars_of(dev))),
                html_url: string_of(&concat(&chars_of("https://github.com/"), &chars_of(dev))),
                bio: Some(string_of(&concat(&chars_of("GitHub 知名开源贡献者/团队 "), &chars_of(dev)))),
                company: None,
                blog: None,
                location: None,
                public_repos: shown_public_repos(owned_count as u64, n),
                followers: 100,
                following: 0,
                repos: listed,
            },
        }
    }
}

/// A repository as the platform lists it; any field may be missing.
#[derive(Debug)]
pub struct GitHubRepo {
    pub name: Option<String>,
    pub full_name: Option<String>,
    pub html_url: Option<String>,
    pub description: Option<String>,
    pub stargazers_count: Option<u64>,
    pub forks_count: Option<u64>,
    pub language: Option<String>,
}

/// What a starred list holds: its length, the catalog entries among it, and
/// the other repositories.
#[derive(Debug)]
pub struct StarredSyncResult {
    pub total_starred: usize,
    pub catalog_matches: Vec<AppSummary>,
    pub other_repos: Vec<DeveloperRepoItem>,
}

pub open spec fn full_name_of(g: GitHubRepo) -> Seq<char> {
    match g.full_name {
        Some(f) => f@,
        None => Seq::empty(),
    }
}

/// A starred repository is a catalog entry when its full name names one (the
/// entry's id or `owner/repo`, ASCII case ignored): a fork with the same
/// repository name is not.
pub open spec fn starred_in_catalog(items: Seq<CatalogItemView>) -> spec_fn(GitHubRepo) -> bool {
    |g: GitHubRepo| !no_match(items, full_name_of(g))
}

pub open spec fn starred_outside(items: Seq<CatalogItemView>) -> spec_fn(GitHubRepo) -> bool {
    |g: GitHubRepo| no_match(items, full_name_of(g))
}

/// The summary of the first entry that `id` names.
pub open spec fn first_match_summary(items: Seq<CatalogItemView>, id: Seq<char>) -> SummaryView {
    summary_of(items[choose|k: int| is_first_match(items, id, k)])
}

/// A starred repository outside the catalog, as listed.
pub open spec fn other_repo_from(r: DeveloperRepoItem, g: GitHubRepo) -> bool {
    &&& r.id@ == full_name_of(g)
    &&& r.full_name@ == full_name_of(g)
    &&& r.name@ == match g.name {
        Some(n) => n@,
        None => Seq::<char>::empty(),
    }
    &&& opt_str_view(r.description) == opt_str_view(g.description)
    &&& r.html_url@ == match g.html_url {
        Some(u) => u@,
        None => "https://github.com/"@ + full_name_of(g),
    }
    &&& r.stars == or_zero(g.stargazers_count)
    &&& r.forks == or_zero(g.forks_count)
    &&& opt_str_view(r.language) == opt_str_view(g.language)
    &&& !r.has_releases && !r.in_catalog && r.latest_release_tag is None
}

proof fn lemma_first_match_unique(items: Seq<CatalogItemView>, id: Seq<char>, k: int)
    requires
        is_first_match(items, id, k),
    ensures
        (choose|j: int| is_first_match(items, id, j)) == k,
{
    let c = choose|j: int| is_first_match(items, id, j);
    assert(is_first_match(items, id, c));
    if c < k {
        assert(!item_matches(items[c], id));
    } else if k < c {
        assert(!item_matches(items[k], id));
    }
}

/// Every starred repository is either a catalog entry or another repository:
/// the two lists together are as long as the starred list.
pub proof fn law_starred_partition(items: Seq<CatalogItemView>, starred: Seq<GitHubRepo>)
    ensures
        starred.filter(starred_in_catalog(items)).len() + starred.filter(starred_outside(items)).len()
            == starred.len(),
    decreases starred.len(),
{
    reveal(Seq::filter);
    if starred.len() > 0 {
        law_starred_partition(items, starred.drop_last());
    }
}

impl CatalogService {
    /// Sorts a starred list into catalog entries (as summaries, in list order)
    /// and other repositories.
    pub fn sync_starred(&self, starred: &Vec<GitHubRepo>) -> (r: StarredSyncResult)
        ensures
            r.total_starred == starred@.len(),
            summaries_view(r.catalog_matches@) == starred@.filter(starred_in_catalog(self@)).map_values(
                |g: GitHubRepo| first_match_summary(self@, full_name_of(g)),
            ),
            r.other_repos@.len() == starred@.filter(starred_outside(self@)).len(),
            forall|k: int|
                0 <= k < r.other_repos@.len() ==> other_repo_from(
                    #[trigger] r.other_repos@[k],
                    starred@.filter(starred_outside(self@))[k],
                ),
    {
        let ghost inside = starred_in_catalog(self@);
        let ghost outside = starred_outside(self@);
        let ghost summary = |g: GitHubRepo| first_match_summary(self@, full_name_of(g));
        let mut matches: Vec<AppSummary> = Vec::new();
        let mut others: Vec<DeveloperRepoItem> = Vec::new();
        let mut i: usize = 0;
        while i < starred.len()
            invariant
                i <= starred@.len(),
                inside == starred_in_catalog(self@),
                outside == starred_outside(self@),
                summary == (|g: GitHubRepo| first_match_summary(self@, full_name_of(g))),
                summaries_view(matches@) == starred@.take(i as int).filter(inside).map_values(summary),
                others@.len() == starred@.take(i as int).filter(outside).len(),
                forall|k: int|
                    0 <= k < others@.len() ==> other_repo_from(
                        #[trigger] others@[k],
                        starred@.take(i as int).filter(outside)[k],
                    ),
            decreases starred@.len() - i,
        {
            reveal(Seq::filter);
            let ghost before = starred@.take(i as int);
            assert(starred@.take(i + 1).drop_last() =~= before);
            assert(starred@.take(i + 1).last() == starred@[i as int]);
            let g = &starred[i];
            let full = match &g.full_name {
                Some(f) => clone_string(f),
                None => String::new(),
            };
            assert(full@ == full_name_of(*g));
            match self.get_catalog_item(full.as_str()) {
                Some(it) => {
                    proof {
                        let k = choose|k: int| is_first_match(self@, full@, k) && it@ == self@[k];
                        lemma_first_match_unique(self@, full@, k);
                    }
                    let sm = it.to_summary();
                    let ghost old_m = matches@;
                    matches.push(sm);
                    assert(starred@.take(i + 1).filter(inside) =~= before.filter(inside).push(*g));
                    assert(starred@.take(i + 1).filter(outside) =~= before.filter(outside));
                    assert(summaries_view(matches@) =~= summaries_view(old_m).push(sm@));
                    assert(starred@.take(i + 1).filter(inside).map_values(summary) =~= before.filter(inside).map_values(
                        summary,
                    ).push(summary(*g)));
                },
                None => {
                    let o = starred_other_repo(
                        clone_opt_string(&g.full_name),
                        clone_opt_string(&g.name),
                        clone_opt_string(&g.description),
                        clone_opt_string(&g.html_url),
                        g.stargazers_count,
                        g.forks_count,
                        clone_opt_string(&g.language),
                    );
                    others.push(o);
                    assert(starred@.take(i + 1).filter(outside) =~= before.filter(outside).push(*g));
                    assert(starred@.take(i + 1).filter(inside) =~= before.filter(inside));
                    assert(other_repo_from(others@[others@.len() - 1], *g));
                },
            }
            i = i + 1;
        }
        assert(starred@.take(i as int) =~= starred@);
        StarredSyncResult { total_starred: starred.len(), catalog_matches: matches, other_repos: others }
    }
}

pub open spec fn starred_account_error() -> Seq<char> {
    "请提供 GitHub 用户名或在设置中配置个人访问令牌 (PAT)"@
}

/// Which starred list to read: the signed-in user's when a token is set and
/// no name is given; else the named user's; an error without either.
pub open spec fn starred_url_of(username: Option<Seq<char>>, has_token: bool) -> Result<Seq<char>, Seq<char>> {
    let blank = match username {
        Some(u) => trim(u).len() == 0,
        None => true,
    };
    if has_token && blank {
        Ok("https://api.github.com/user/starred?per_page="@ + decimal_digits(GITHUB_STARRED_MAX_PAGE_SIZE as nat))
    } else if blank {
        Err(starred_account_error())
    } else {
        Ok(
            "https://api.github.com/users/"@ + trim(username->0) + "/starred?per_page="@ + decimal_digits(
                GITHUB_STARRED_MAX_PAGE_SIZE as nat,
            ),
        )
    }
}

pub fn starred_url(username: Option<&str>, has_token: bool) -> (r: Result<String, String>)
    ensures
        crate::install::result_view(r) == starred_url_of(crate::watch::opt_ref_view(username), has_token),
{
    let size = u64_to_string(GITHUB_STARRED_MAX_PAGE_SIZE);
    let name = match username {
        Some(u) => trim_chars(&chars_of(u)),
        None => Vec::new(),
    };
    if has_token && name.len() == 0 {
        Ok(string_of(&concat(&chars_of("https://api.github.com/user/starred?per_page="), &chars_of(size.as_str()))))
    } else if name.len() == 0 {
        Err(owned("请提供 GitHub 用户名或在设置中配置个人访问令牌 (PAT)"))
    } else {
        Ok(
            string_of(
                &concat(
                    &cat3(&chars_of("https://api.github.com/users/"), &name, &chars_of("/starred?per_page=")),
                    &chars_of(size.as_str()),
                ),
            ),
        )
    }
}

/// The error for a refused starred-list request, by HTTP status.
pub open spec fn starred_error_of(code: u16, username: Option<Seq<char>>, reason: Option<Seq<char>>) -> Seq<char> {
    if code == 401 {
        "GitHub 认证失败 (401): 个人访问令牌 (Token) 无效或已过期，请在「设置」中重新配置。"@
    } else if code == 403 {
        "GitHub API 限额已耗尽 (403): 触发了未登录 API 每小时 60 次的速率限制。请在「设置」中填入个人 GitHub Token (PAT) 即可免费提升至 5000 次/小时配额。"@
    } else if code == 404 {
        "未在 GitHub 上找到用户「"@ + match username {
            Some(u) => u,
            None => "当前用户"@,
        } + "」，请检查用户名拼写是否正确。"@
    } else {
        "GitHub API 响应异常 (HTTP "@ + decimal_digits(code as nat) + "): "@ + match reason {
            Some(r) => r,
            None => "未知错误"@,
        }
    }
}

pub fn starred_http_error(code: u16, username: Option<&str>, reason: Option<&str>) -> (r: String)
    ensures
        r@ == starred_error_of(code, crate::watch::opt_ref_view(username), crate::watch::opt_ref_view(reason)),
{
    if code == 401 {
        owned("GitHub 认证失败 (401): 个人访问令牌 (Token) 无效或已过期，请在「设置」中重新配置。")
    } else if code == 403 {
        owned(
            "GitHub API 限额已耗尽 (403): 触发了未登录 API 每小时 60 次的速率限制。请在「设置」中填入个人 GitHub Token (PAT) 即可免费提升至 5000 次/小时配额。",
        )
    } else if code == 404 {
        let u = match username {
            Some(u) => chars_of(u),
            None => chars_of("当前用户"),
        };
        string_of(&cat3(&chars_of("未在 GitHub 上找到用户「"), &u, &chars_of("」，请检查用户名拼写是否正确。")))
    } else {
        let c = u64_to_string(code as u64);
        let rs = match reason {
            Some(r) => chars_of(r),
            None => chars_of("未知错误"),
        };
        string_of(&concat(&cat3(&chars_of("GitHub API 响应异常 (HTTP "), &chars_of(c.as_str()), &chars_of("): ")), &rs))
    }
}

/// A starred repository outside the catalog, as listed.
pub fn starred_other_repo(
    full_name: Option<String>,
    name: Option<String>,
    description: Option<String>,
    html_url: Option<String>,
    stars: Option<u64>,
    forks: Option<u64>,
    language: Option<String>,
) -> (r: DeveloperRepoItem)
    ensures
        ({
            let full = match full_name {
                Some(f) => f@,
                None => Seq::<char>::empty(),
            };
            &&& r.id@ == full
            &&& r.full_name@ == full
            &&& r.name@ == match name {
                Some(n) => n@,
                None => Seq::<char>::empty(),
            }
            &&& opt_str_view(r.description) == opt_str_view(description)
            &&& r.html_url@ == match html_url {
                Some(u) => u@,
                None => "https://github.com/"@ + full,
            }
            &&& r.stars == match stars {
                Some(s) => s,
                None => 0,
            }
            &&& r.forks == match forks {
                Some(f) => f,
                None => 0,
            }
            &&& opt_str_view(r.language) == opt_str_view(language)
            &&& !r.has_releases && !r.in_catalog && r.latest_release_tag is None
        }),
{
    let full = match full_name {
        Some(f) => f,
        None => String::new(),
    };
    let url = match html_url {
        Some(u) => u,
        None => string_of(&concat(&chars_of("https://github.com/"), &chars_of(full.as_str()))),
    };
    DeveloperRepoItem {
        id: clone_string(&full),
        name: match name {
            Some(n) => n,
            None => String::new(),
        },
        full_name: full,
        description,
        html_url: url,
        stars: match stars {
            Some(s) => s,
            None => 0,
        },
        forks: match forks {
            Some(f) => f,
            None => 0,
        },
        language,
        has_releases: false,
        in_catalog: false,
        latest_release_tag: None,
    }
}

} // verus!
