//! Searching GitHub beyond the catalog: which queries name a repository, the
//! search address, and how found repositories are listed.

use vstd::prelude::*;
use crate::models::{clone_string, opt_str_view, AppSummary, SummaryView};
use crate::settings::{decimal_digits, u64_to_string};
use crate::text::{chars_of, concat, contains_char, split, split_chars, string_of, trim, trim_chars};
use crate::urlcodec::{percent_encoded, url_encode};
use vstd::utf8::encode_utf8;

verus! {

fn owned(s: &str) -> (r: String)
    ensures
        r@ == s@,
{
    string_of(&chars_of(s))
}

/// A trimmed query of the form `owner/repo`, without spaces, names one repository.
pub open spec fn owner_repo_of(query: Seq<char>) -> Option<(Seq<char>, Seq<char>)> {
    let q = trim(query);
    let parts = split(q, seq!['/']);
    if q.contains('/') && !q.contains(' ') && parts.len() == 2 {
        Some((parts[0], parts[1]))
    } else {
        None
    }
}

pub fn owner_repo_query(query: &str) -> (r: Option<(String, String)>)
    ensures
        match r {
            Some(p) => owner_repo_of(query@) == Some((p.0@, p.1@)),
            None => owner_repo_of(query@) is None,
        },
{
    let q = trim_chars(&chars_of(query));
    if contains_char(&q, '/') && !contains_char(&q, ' ') {
        let seps = vec!['/'];
        assert(seps@ =~= seq!['/']);
        let parts = split_chars(&q, &seps);
        if parts.len() == 2 {
            assert(crate::text::seqs_of(parts@)[0] == parts@[0]@);
            assert(crate::text::seqs_of(parts@)[1] == parts@[1]@);
            return Some((string_of(&parts[0]), string_of(&parts[1])));
        }
    }
    None
}

/// The GitHub search for repositories whose name or description matches,
/// by stars.
pub open spec fn online_search_url_of(query: Seq<char>, per_page: u64) -> Seq<char> {
    "https://api.github.com/search/repositories?q="@ + percent_encoded(encode_utf8(trim(query)))
        + "+in:name,description&sort=stars&order=desc&per_page="@ + decimal_digits(per_page as nat)
}

pub fn online_search_url(query: &str, per_page: u64) -> (r: String)
    ensures
        r@ == online_search_url_of(query@, per_page),
{
    let q = string_of(&trim_chars(&chars_of(query)));
    let enc = url_encode(q.as_str());
    let size = u64_to_string(per_page);
    string_of(
        &concat(
            &concat(
                &concat(&chars_of("https://api.github.com/search/repositories?q="), &chars_of(enc.as_str())),
                &chars_of("+in:name,description&sort=stars&order=desc&per_page="),
            ),
            &chars_of(size.as_str()),
        ),
    )
}

/// The second `/`-separated part of a full name, or nothing.
pub open spec fn repo_part(full_name: Seq<char>) -> Seq<char> {
    let parts = split(full_name, seq!['/']);
    if parts.len() > 1 {
        parts[1]
    } else {
        Seq::empty()
    }
}

/// A repository found by the online search, as listed.
pub open spec fn search_hit_summary(
    full_name: Seq<char>,
    name: Seq<char>,
    owner: Seq<char>,
    description: Option<Seq<char>>,
    stars: u64,
    forks: u64,
) -> SummaryView {
    SummaryView {
        id: full_name,
        name: name,
        owner: owner,
        repo: repo_part(full_name),
        icon: "https://github.com/"@ + owner + ".png"@,
        icon_bg: "linear-gradient(135deg, #0ea5e9, #2563eb)"@,
        description: match description {
            Some(d) => d,
            None => "开源软件项目"@,
        },
        stars: stars,
        forks: forks,
        license: "OpenSource"@,
        latest_version: "latest"@,
        category: "dev"@,
        category_name: "开发工具"@,
        is_verified: false,
        is_installed: None,
        has_update: None,
        installed_version: None,
        forge: Some("github"@),
        forge_host: Some("github.com"@),
        homepage: None,
        platforms: seq!["windows"@],
    }
}

fn windows_only() -> (r: Vec<String>)
    ensures
        crate::models::strs_view(r@) == seq!["windows"@],
{
    let r = vec![owned("windows")];
    assert(crate::models::strs_view(r@) =~= seq!["windows"@]);
    r
}

fn avatar(owner: &str) -> (r: String)
    ensures
        r@ == "https://github.com/"@ + owner@ + ".png"@,
{
    string_of(&concat(&concat(&chars_of("https://github.com/"), &chars_of(owner)), &chars_of(".png")))
}

pub fn search_hit(
    full_name: String,
    name: String,
    owner: String,
    description: Option<String>,
    stars: u64,
    forks: u64,
) -> (r: AppSummary)
    ensures
        r@ == search_hit_summary(full_name@, name@, owner@, opt_str_view(description), stars, forks),
{
    let seps = vec!['/'];
    assert(seps@ =~= seq!['/']);
    let parts = split_chars(&chars_of(full_name.as_str()), &seps);
    let repo = if parts.len() > 1 {
        assert(crate::text::seqs_of(parts@)[1] == parts@[1]@);
        string_of(&parts[1])
    } else {
        String::new()
    };
    let icon = avatar(owner.as_str());
    AppSummary {
        id: full_name,
        name,
        owner,
        repo,
        icon,
        icon_bg: owned("linear-gradient(135deg, #0ea5e9, #2563eb)"),
        description: match description {
            Some(d) => d,
            None => owned("开源软件项目"),
        },
        stars,
        forks,
        license: owned("OpenSource"),
        latest_version: owned("latest"),
        category: owned("dev"),
        category_name: owned("开发工具"),
        is_verified: false,
        is_installed: None,
        has_update: None,
        installed_version: None,
        forge: Some(owned("github")),
        forge_host: Some(owned("github.com")),
        homepage: None,
        platforms: windows_only(),
    }
}

/// A repository looked up by `owner/repo`, as listed.
pub open spec fn online_repo_summary(
    owner: Seq<char>,
    repo: Seq<char>,
    name: Option<Seq<char>>,
    description: Option<Seq<char>>,
    stars: Option<u64>,
    forks: Option<u64>,
    license: Option<Seq<char>>,
    homepage: Option<Seq<char>>,
) -> SummaryView {
    SummaryView {
        id: owner + "/"@ + repo,
        name: match name {
            Some(n) => n,
            None => repo,
        },
        owner: owner,
        repo: repo,
        icon: "https://github.com/"@ + owner + ".png"@,
        icon_bg: "linear-gradient(135deg, #0284c7, #0369a1)"@,
        description: match description {
            Some(d) => d,
            None => Seq::empty(),
        },
        stars: match stars {
            Some(s) => s,
            None => 0,
        },
        forks: match forks {
            Some(f) => f,
            None => 0,
        },
        license: match license {
            Some(l) => l,
            None => "FLOSS"@,
        },
        latest_version: "latest"@,
        category: "system"@,
        category_name: "系统实用"@,
        is_verified: false,
        is_installed: None,
        has_update: None,
        installed_version: None,
        forge: Some("github"@),
        forge_host: Some("github.com"@),
        homepage: homepage,
        platforms: seq!["windows"@],
    }
}

pub fn online_repo(
    owner: &str,
    repo: &str,
    name: Option<String>,
    description: Option<String>,
    stars: Option<u64>,
    forks: Option<u64>,
    license: Option<String>,
    homepage: Option<String>,
) -> (r: AppSummary)
    ensures
        r@ == online_repo_summary(
            owner@,
            repo@,
            opt_str_view(name),
            opt_str_view(description),
            stars,
            forks,
            opt_str_view(license),
            opt_str_view(homepage),
        ),
{
    AppSummary {
        id: string_of(&concat(&concat(&chars_of(owner), &chars_of("/")), &chars_of(repo))),
        name: match name {
            Some(n) => n,
            None => owned(repo),
        },
        owner: owned(owner),
        repo: owned(repo),
        icon: avatar(owner),
        icon_bg: owned("linear-gradient(135deg, #0284c7, #0369a1)"),
        description: match description {
            Some(d) => d,
            None => String::new(),
        },
        stars: match stars {
            Some(s) => s,
            None => 0,
        },
        forks: match forks {
            Some(f) => f,
            None => 0,
        },
        license: match license {
            Some(l) => l,
            None => owned("FLOSS"),
        },
        latest_version: owned("latest"),
        category: owned("system"),
        category_name: owned("系统实用"),
        is_verified: false,
        is_installed: None,
        has_update: None,
        installed_version: None,
        forge: Some(owned("github")),
        forge_host: Some(owned("github.com")),
        homepage,
        platforms: windows_only(),
    }
}

/// The error for a repository GitHub does not know.
pub fn repo_not_found_message(owner: &str, repo: &str) -> (r: String)
    ensures
        r@ == "未找到该 GitHub 仓库: "@ + owner@ + "/"@ + repo@,
{
    string_of(&concat(&concat(&concat(&chars_of("未找到该 GitHub 仓库: "), &chars_of(owner)), &chars_of("/")), &chars_of(repo)))
}

} // verus!
