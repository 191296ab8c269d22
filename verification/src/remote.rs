//! Requests to code-hosting platforms: the addresses asked, the credentials
//! sent, and how the answers become repository and release records.

use vstd::prelude::*;
use crate::forge::{ForgeType, UniversalRepoCoord, CoordView};
use crate::installer::{classify, kind_name, release_asset_from};
use crate::models::{clone_string, opt_str_view, ReleaseAsset};
use crate::settings::{decimal_digits, u64_to_string};
use crate::text::{chars_of, concat, string_of, trim, trim_chars};
use crate::urlcodec::{percent_encoded, url_encode};
use vstd::utf8::encode_utf8;

verus! {

/// A repository as a platform describes it.
#[derive(Debug)]
pub struct ForgeRepoInfo {
    pub coord: UniversalRepoCoord,
    pub name: String,
    pub description: Option<String>,
    pub stars: u64,
    pub forks: u64,
    pub language: Option<String>,
    pub default_branch: String,
    pub homepage: Option<String>,
}

/// A release as a platform describes it.
#[derive(Debug)]
pub struct ForgeReleaseInfo {
    pub tag_name: String,
    pub name: Option<String>,
    pub body: Option<String>,
    pub published_at: Option<String>,
    pub assets: Vec<ReleaseAsset>,
}

/// GitHub.
pub struct GitHubProvider;

/// GitLab, on gitlab.com or a self-hosted instance.
pub struct GitLabProvider;

/// Gitea or Forgejo, including Codeberg.
pub struct GiteaProvider {
    pub forge_type: ForgeType,
}

/// What every platform provider tells about itself; the requests it makes
/// are sent by the application around this library.
pub trait ForgeProvider {
    /// The platform served.
    fn forge_type(&self) -> ForgeType;

    /// The platform's public host.
    fn default_host(&self) -> &str;
}

impl ForgeProvider for GitHubProvider {
    fn forge_type(&self) -> (r: ForgeType)
        ensures
            r == ForgeType::GitHub,
    {
        ForgeType::GitHub
    }

    fn default_host(&self) -> (r: &str)
        ensures
            r@ == "github.com"@,
    {
        "github.com"
    }
}

impl ForgeProvider for GitLabProvider {
    fn forge_type(&self) -> (r: ForgeType)
        ensures
            r == ForgeType::GitLab,
    {
        ForgeType::GitLab
    }

    fn default_host(&self) -> (r: &str)
        ensures
            r@ == "gitlab.com"@,
    {
        "gitlab.com"
    }
}

impl GiteaProvider {
    /// A provider for the given platform.
    pub fn new(forge_type: ForgeType) -> (r: GiteaProvider)
        ensures
            r.forge_type == forge_type,
    {
        GiteaProvider { forge_type }
    }
}

impl ForgeProvider for GiteaProvider {
    fn forge_type(&self) -> (r: ForgeType)
        ensures
            r == self.forge_type,
    {
        self.forge_type
    }

    /// `codeberg.org` for Codeberg, `gitea.com` otherwise.
    fn default_host(&self) -> (r: &str)
        ensures
            r@ == if self.forge_type == ForgeType::Codeberg {
                "codeberg.org"@
            } else {
                "gitea.com"@
            },
    {
        match self.forge_type {
            ForgeType::Codeberg => "codeberg.org",
            _ => "gitea.com",
        }
    }
}

/// The `Authorization` header for a token: the scheme, a space and the trimmed
/// token; none for a missing or blank token.
pub open spec fn auth_value(scheme: Seq<char>, token: Option<&str>) -> Option<Seq<char>> {
    match token {
        Some(t) => if trim(t@).len() > 0 {
            Some(scheme + " "@ + trim(t@))
        } else {
            None
        },
        None => None,
    }
}

pub fn auth_header_value(scheme: &str, token: Option<&str>) -> (r: Option<String>)
    ensures
        opt_str_view(r) == auth_value(scheme@, token),
{
    match token {
        Some(t) => {
            let c = trim_chars(&chars_of(t));
            if c.len() > 0 {
                Some(string_of(&concat(&concat(&chars_of(scheme), &chars_of(" ")), &c)))
            } else {
                None
            }
        },
        None => None,
    }
}

/// How a platform's API names a repository: `owner/repo`, or for GitLab the
/// percent-encoded owner and repository joined by `%2F`.
pub open spec fn api_repo_path(forge: ForgeType, owner: Seq<char>, repo: Seq<char>) -> Seq<char> {
    if forge == ForgeType::GitLab {
        percent_encoded(encode_utf8(owner)) + "%2F"@ + percent_encoded(encode_utf8(repo))
    } else {
        owner + "/"@ + repo
    }
}

/// The API address of a repository.
pub open spec fn repo_api_url(forge: ForgeType, host: Seq<char>, owner: Seq<char>, repo: Seq<char>) -> Seq<char> {
    match forge {
        ForgeType::GitHub => "https://api.github.com/repos/"@ + api_repo_path(forge, owner, repo),
        ForgeType::GitLab => "https://"@ + host + "/api/v4/projects/"@ + api_repo_path(forge, owner, repo),
        _ => "https://"@ + host + "/api/v1/repos/"@ + api_repo_path(forge, owner, repo),
    }
}

/// The API address of a repository's latest release.
pub open spec fn latest_release_api_url(forge: ForgeType, host: Seq<char>, owner: Seq<char>, repo: Seq<char>) -> Seq<char> {
    if forge == ForgeType::GitLab {
        repo_api_url(forge, host, owner, repo) + "/releases/permalink/latest"@
    } else {
        repo_api_url(forge, host, owner, repo) + "/releases/latest"@
    }
}

/// The API address of a repository search; GitHub pages by ten.
pub open spec fn search_api_url(forge: ForgeType, host: Seq<char>, query: Seq<char>, page_size: u64) -> Seq<char> {
    let q = percent_encoded(encode_utf8(query));
    match forge {
        ForgeType::GitHub => "https://api.github.com/search/repositories?q="@ + q + "&per_page=10"@,
        ForgeType::GitLab => "https://"@ + host + "/api/v4/projects?search="@ + q + "&per_page="@ + decimal_digits(
            page_size as nat,
        ),
        _ => "https://"@ + host + "/api/v1/repos/search?q="@ + q + "&limit="@ + decimal_digits(page_size as nat),
    }
}

fn cat3(a: &[char], b: &[char], c: &[char]) -> (r: Vec<char>)
    ensures
        r@ == a@ + b@ + c@,
{
    concat(&concat(a, b), c)
}

fn repo_path(forge: ForgeType, owner: &str, repo: &str) -> (r: Vec<char>)
    ensures
        r@ == api_repo_path(forge, owner@, repo@),
{
    if forge == ForgeType::GitLab {
        let o = url_encode(owner);
        let r = url_encode(repo);
        cat3(&chars_of(o.as_str()), &chars_of("%2F"), &chars_of(r.as_str()))
    } else {
        cat3(&chars_of(owner), &chars_of("/"), &chars_of(repo))
    }
}

/// API address of a repository.
pub fn forge_repo_url(forge: ForgeType, host: &str, owner: &str, repo: &str) -> (r: String)
    ensures
        r@ == repo_api_url(forge, host@, owner@, repo@),
{
    let path = repo_path(forge, owner, repo);
    let head = match forge {
        ForgeType::GitHub => chars_of("https://api.github.com/repos/"),
        ForgeType::GitLab => cat3(&chars_of("https://"), &chars_of(host), &chars_of("/api/v4/projects/")),
        _ => cat3(&chars_of("https://"), &chars_of(host), &chars_of("/api/v1/repos/")),
    };
    string_of(&concat(&head, &path))
}

/// API address of a repository's latest release.
pub fn forge_latest_release_url(forge: ForgeType, host: &str, owner: &str, repo: &str) -> (r: String)
    ensures
        r@ == latest_release_api_url(forge, host@, owner@, repo@),
{
    let base = forge_repo_url(forge, host, owner, repo);
    let tail = if forge == ForgeType::GitLab {
        chars_of("/releases/permalink/latest")
    } else {
        chars_of("/releases/latest")
    };
    string_of(&concat(&chars_of(base.as_str()), &tail))
}

/// API address of the newest release in a GitLab project's release list,
/// asked when the project has no latest-release link.
pub fn gitlab_release_list_url(host: &str, owner: &str, repo: &str) -> (r: String)
    ensures
        r@ == repo_api_url(ForgeType::GitLab, host@, owner@, repo@) + "/releases?per_page=1"@,
{
    let base = forge_repo_url(ForgeType::GitLab, host, owner, repo);
    string_of(&concat(&chars_of(base.as_str()), &chars_of("/releases?per_page=1")))
}

/// API address of a repository search.
pub fn forge_search_url(forge: ForgeType, host: &str, query: &str, page_size: u64) -> (r: String)
    ensures
        r@ == search_api_url(forge, host@, query@, page_size),
{
    let q = url_encode(query);
    let qc = chars_of(q.as_str());
    let size = u64_to_string(page_size);
    let sc = chars_of(size.as_str());
    let v = match forge {
        ForgeType::GitHub => cat3(&chars_of("https://api.github.com/search/repositories?q="), &qc, &chars_of("&per_page=10")),
        ForgeType::GitLab => concat(
            &cat3(&cat3(&chars_of("https://"), &chars_of(host), &chars_of("/api/v4/projects?search=")), &qc, &chars_of("&per_page=")),
            &sc,
        ),
        _ => concat(
            &cat3(&cat3(&chars_of("https://"), &chars_of(host), &chars_of("/api/v1/repos/search?q=")), &qc, &chars_of("&limit=")),
            &sc,
        ),
    };
    string_of(&v)
}

/// The host searched on a platform: always github.com for GitHub, else the
/// given host or the platform's public one.
pub open spec fn search_host(forge: ForgeType, host: Option<&str>) -> Seq<char> {
    match forge {
        ForgeType::GitHub => "github.com"@,
        _ => match host {
            Some(h) => h@,
            None => crate::forge::forge_default_host(forge),
        },
    }
}

/// Dispatches requests to the provider of each platform.
pub struct ForgeRegistry;

impl ForgeRegistry {
    /// The host a search on `forge` goes to.
    pub fn search_host(forge: ForgeType, host: Option<&str>) -> (r: String)
        ensures
            r@ == search_host(forge, host),
    {
        match forge {
            ForgeType::GitHub => string_of(&chars_of("github.com")),
            _ => match host {
                Some(h) => string_of(&chars_of(h)),
                None => string_of(&chars_of(forge.default_host())),
            },
        }
    }
}

/// A non-blank value, else none.
pub open spec fn non_blank(o: Option<String>) -> Option<Seq<char>> {
    match o {
        Some(s) => if trim(s@).len() > 0 {
            Some(s@)
        } else {
            None
        },
        None => None,
    }
}

fn keep_non_blank(o: Option<String>) -> (r: Option<String>)
    ensures
        opt_str_view(r) == non_blank(o),
{
    match o {
        Some(s) => {
            if trim_chars(&chars_of(s.as_str())).len() > 0 {
                Some(s)
            } else {
                None
            }
        },
        None => None,
    }
}

/// A repository record from the fields a platform answered: missing counts
/// are 0, a missing default branch is `main`, a blank homepage is none.
pub fn repo_info_from(
    coord: UniversalRepoCoord,
    name: String,
    description: Option<String>,
    stars: Option<u64>,
    forks: Option<u64>,
    language: Option<String>,
    default_branch: Option<String>,
    homepage: Option<String>,
) -> (r: ForgeRepoInfo)
    ensures
        r.coord@ == coord@,
        r.name@ == name@,
        opt_str_view(r.description) == opt_str_view(description),
        r.stars == match stars {
            Some(s) => s,
            None => 0,
        },
        r.forks == match forks {
            Some(f) => f,
            None => 0,
        },
        opt_str_view(r.language) == opt_str_view(language),
        r.default_branch@ == match default_branch {
            Some(b) => b@,
            None => "main"@,
        },
        opt_str_view(r.homepage) == non_blank(homepage),
{
    let branch = match default_branch {
        Some(b) => b,
        None => string_of(&chars_of("main")),
    };
    ForgeRepoInfo {
        coord,
        name,
        description,
        stars: match stars {
            Some(s) => s,
            None => 0,
        },
        forks: match forks {
            Some(f) => f,
            None => 0,
        },
        language,
        default_branch: branch,
        homepage: keep_non_blank(homepage),
    }
}

/// A release file given by name, download address and size, described as
/// `release_asset_from` describes it.
pub open spec fn asset_from(r: ReleaseAsset, a: (String, String, u64)) -> bool {
    &&& r.name@ == a.0@
    &&& r.download_url@ == a.1@
    &&& r.size_bytes == a.2
    &&& r.sha256 is None
    &&& r.os@ == classify(a.0@).1
    &&& r.arch@ == classify(a.0@).2
    &&& r.kind@ == kind_name(classify(a.0@).0)
}

/// A release record from the fields a platform answered; its files keep their
/// order, each classified by its name.
pub fn release_info_from(
    tag_name: String,
    name: Option<String>,
    body: Option<String>,
    published_at: Option<String>,
    assets: Vec<(String, String, u64)>,
) -> (r: ForgeReleaseInfo)
    ensures
        r.tag_name == tag_name,
        r.name == name,
        r.body == body,
        r.published_at == published_at,
        r.assets@.len() == assets@.len(),
        forall|i: int| 0 <= i < assets@.len() ==> asset_from(#[trigger] r.assets@[i], assets@[i]),
{
    let mut out: Vec<ReleaseAsset> = Vec::new();
    let mut i: usize = 0;
    while i < assets.len()
        invariant
            i <= assets@.len(),
            out@.len() == i,
            forall|j: int| 0 <= j < i ==> asset_from(#[trigger] out@[j], assets@[j]),
        decreases assets@.len() - i,
    {
        let a = &assets[i];
        out.push(release_asset_from(clone_string(&a.0), clone_string(&a.1), a.2));
        i = i + 1;
    }
    ForgeReleaseInfo { tag_name, name, body, published_at, assets: out }
}

/// A GitLab release link as a release file: its direct address when it has
/// one, else its address; GitLab gives no size, so 0.
pub fn gitlab_link_asset(name: String, url: String, direct_asset_url: Option<String>) -> (r: (String, String, u64))
    ensures
        r.0 == name,
        r.1 == match direct_asset_url {
            Some(d) => d,
            None => url,
        },
        r.2 == 0,
{
    let u = match direct_asset_url {
        Some(d) => d,
        None => url,
    };
    (name, u, 0)
}

/// The authorization scheme a platform takes: `token` for Gitea and Codeberg,
/// `Bearer` for GitHub and GitLab.
pub open spec fn forge_auth_scheme(forge: ForgeType) -> Seq<char> {
    match forge {
        ForgeType::Codeberg | ForgeType::Gitea => "token"@,
        ForgeType::GitHub | ForgeType::GitLab => "Bearer"@,
    }
}

/// The `Authorization` header sent to a platform's API for a token.
pub fn forge_auth_header(forge: ForgeType, token: Option<&str>) -> (r: Option<String>)
    ensures
        opt_str_view(r) == auth_value(forge_auth_scheme(forge), token),
{
    let scheme = match forge {
        ForgeType::Codeberg | ForgeType::Gitea => "token",
        ForgeType::GitHub | ForgeType::GitLab => "Bearer",
    };
    auth_header_value(scheme, token)
}

} // verus!
