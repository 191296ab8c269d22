//! Code-hosting platforms and the coordinates of a repository on one of them.

use vstd::prelude::*;
use crate::text::{
    before_first, before_first_chars, chars_of, concat, contains_char, contains_str, ends_with,
    eq_chars, find_char, has_substring, is_prefix, is_suffix, lowercase, lowercase_chars, seqs_of,
    slice_chars, split_nonempty, split_nonempty_chars, starts_with, string_of, trim, trim_chars,
    first_index, is_ws, lemma_first_index, lemma_split_three, lemma_split_two, split, trim_end, trim_start,
    lemma_split_extend,
};

verus! {

/// A supported code-hosting platform.
#[derive(Clone, Copy, PartialEq, Eq, Debug, Structural)]
pub enum ForgeType {
    GitHub,
    Codeberg,
    Gitea,
    GitLab,
}

pub open spec fn forge_name(f: ForgeType) -> Seq<char> {
    match f {
        ForgeType::GitHub => "github"@,
        ForgeType::Codeberg => "codeberg"@,
        ForgeType::Gitea => "gitea"@,
        ForgeType::GitLab => "gitlab"@,
    }
}

pub open spec fn forge_default_host(f: ForgeType) -> Seq<char> {
    match f {
        ForgeType::GitHub => "github.com"@,
        ForgeType::Codeberg => "codeberg.org"@,
        ForgeType::Gitea => "gitea.com"@,
        ForgeType::GitLab => "gitlab.com"@,
    }
}

/// The emoji shown for a platform.
pub open spec fn forge_icon(f: ForgeType) -> Seq<char> {
    match f {
        ForgeType::GitHub => "🐙"@,
        ForgeType::Codeberg => "🏔️"@,
        ForgeType::Gitea => "🍵"@,
        ForgeType::GitLab => "🦊"@,
    }
}

impl ForgeType {
    /// Short lower-case identifier used in application ids (`codeberg:owner/repo`).
    pub fn as_str(&self) -> (r: &'static str)
        ensures
            r@ == forge_name(*self),
    {
        match self {
            ForgeType::GitHub => "github",
            ForgeType::Codeberg => "codeberg",
            ForgeType::Gitea => "gitea",
            ForgeType::GitLab => "gitlab",
        }
    }

    /// Host of the platform's public instance.
    pub fn default_host(&self) -> (r: &'static str)
        ensures
            r@ == forge_default_host(*self),
    {
        match self {
            ForgeType::GitHub => "github.com",
            ForgeType::Codeberg => "codeberg.org",
            ForgeType::Gitea => "gitea.com",
            ForgeType::GitLab => "gitlab.com",
        }
    }

    /// Name shown to users.
    pub fn display_name(&self) -> (r: &'static str)
        ensures
            r@ == match *self {
                ForgeType::GitHub => "GitHub"@,
                ForgeType::Codeberg => "Codeberg"@,
                ForgeType::Gitea => "Gitea / Forgejo"@,
                ForgeType::GitLab => "GitLab"@,
            },
    {
        match self {
            ForgeType::GitHub => "GitHub",
            ForgeType::Codeberg => "Codeberg",
            ForgeType::Gitea => "Gitea / Forgejo",
            ForgeType::GitLab => "GitLab",
        }
    }

    /// Emoji shown next to the platform's repositories.
    pub fn icon(&self) -> (r: &'static str)
        ensures
            r@ == forge_icon(*self),
    {
        match self {
            ForgeType::GitHub => "🐙",
            ForgeType::Codeberg => "🏔️",
            ForgeType::Gitea => "🍵",
            ForgeType::GitLab => "🦊",
        }
    }
}

/// Where a repository lives: platform, host, owner and name.
#[derive(Debug)]
pub struct UniversalRepoCoord {
    pub forge: ForgeType,
    pub host: String,
    pub owner: String,
    pub repo: String,
}

/// Mathematical value of a repository coordinate.
pub struct CoordView {
    pub forge: ForgeType,
    pub host: Seq<char>,
    pub owner: Seq<char>,
    pub repo: Seq<char>,
}

impl View for UniversalRepoCoord {
    type V = CoordView;

    open spec fn view(&self) -> CoordView {
        CoordView { forge: self.forge, host: self.host@, owner: self.owner@, repo: self.repo@ }
    }
}

pub open spec fn coord_option_view(c: Option<UniversalRepoCoord>) -> Option<CoordView> {
    match c {
        Some(x) => Some(x@),
        None => None,
    }
}

/// The application id of a repository: `owner/repo` on github.com,
/// `forge:owner/repo` on a platform's public host, `forge:host/owner/repo` elsewhere.
pub open spec fn app_id_of(c: CoordView) -> Seq<char> {
    if c.forge == ForgeType::GitHub && c.host == "github.com"@ {
        c.owner + "/"@ + c.repo
    } else if c.host == forge_default_host(c.forge) {
        forge_name(c.forge) + ":"@ + c.owner + "/"@ + c.repo
    } else {
        forge_name(c.forge) + ":"@ + c.host + "/"@ + c.owner + "/"@ + c.repo
    }
}

pub open spec fn web_url_of(c: CoordView) -> Seq<char> {
    "https://"@ + c.host + "/"@ + c.owner + "/"@ + c.repo
}

pub open spec fn repo_key_of(c: CoordView) -> Seq<char> {
    lowercase(c.host + "/"@ + c.owner + "/"@ + c.repo)
}

impl UniversalRepoCoord {
    /// The application id under which the store knows this repository.
    pub fn to_app_id(&self) -> (r: String)
        ensures
            r@ == app_id_of(self@),
    {
        let slash = chars_of("/");
        let colon = chars_of(":");
        let host = chars_of(self.host.as_str());
        let owner = chars_of(self.owner.as_str());
        let repo = chars_of(self.repo.as_str());
        let gh = chars_of("github.com");
        let dh = chars_of(self.forge.default_host());
        let name = chars_of(self.forge.as_str());
        let is_github = match self.forge {
            ForgeType::GitHub => true,
            _ => false,
        };
        if is_github && eq_chars(&host, &gh) {
            let r = concat(&concat(&owner, &slash), &repo);
            string_of(&r)
        } else if eq_chars(&host, &dh) {
            let r = concat(&concat(&concat(&concat(&name, &colon), &owner), &slash), &repo);
            string_of(&r)
        } else {
            let r = concat(
                &concat(&concat(&concat(&concat(&concat(&name, &colon), &host), &slash), &owner), &slash),
                &repo,
            );
            string_of(&r)
        }
    }

    /// The repository's web page.
    pub fn web_url(&self) -> (r: String)
        ensures
            r@ == web_url_of(self@),
    {
        let slash = chars_of("/");
        let r = concat(
            &concat(
                &concat(&concat(&concat(&chars_of("https://"), &chars_of(self.host.as_str())), &slash), &chars_of(self.owner.as_str())),
                &slash,
            ),
            &chars_of(self.repo.as_str()),
        );
        string_of(&r)
    }

    /// Case-insensitive cache key `host/owner/repo`.
    pub fn to_repo_key(&self) -> (r: String)
        ensures
            r@ == repo_key_of(self@),
    {
        let slash = chars_of("/");
        let r = concat(
            &concat(&concat(&concat(&chars_of(self.host.as_str()), &slash), &chars_of(self.owner.as_str())), &slash),
            &chars_of(self.repo.as_str()),
        );
        string_of(&lowercase_chars(&r))
    }
}

/// A repository name as written after its owner: cut at `?` and `#`, one `.git` suffix removed.
pub open spec fn clean_repo(part: Seq<char>) -> Seq<char> {
    let b = before_first(before_first(part, '?'), '#');
    if is_suffix(".git"@, b) {
        b.subrange(0, b.len() - 4)
    } else {
        b
    }
}

/// The platform a web host belongs to; unknown hosts are taken for Gitea/Forgejo instances.
pub open spec fn forge_of_host(host: Seq<char>) -> ForgeType {
    if has_substring(host, "github.com"@) {
        ForgeType::GitHub
    } else if has_substring(host, "codeberg.org"@) {
        ForgeType::Codeberg
    } else if has_substring(host, "gitlab.com"@) {
        ForgeType::GitLab
    } else {
        ForgeType::Gitea
    }
}

/// The platform named by a short-syntax prefix (`codeberg:`, `gh:`, ...).
pub open spec fn forge_of_prefix(lower: Seq<char>) -> Option<ForgeType> {
    if lower == "codeberg"@ || lower == "cb"@ {
        Some(ForgeType::Codeberg)
    } else if lower == "github"@ || lower == "gh"@ {
        Some(ForgeType::GitHub)
    } else if lower == "gitea"@ || lower == "gt"@ {
        Some(ForgeType::Gitea)
    } else if lower == "gitlab"@ || lower == "gl"@ {
        Some(ForgeType::GitLab)
    } else {
        None
    }
}

/// A full web URL `http(s)://host/owner/repo[/...]`.
pub open spec fn parse_web_url(s: Seq<char>) -> Option<CoordView> {
    if is_prefix("https://"@, s) || is_prefix("http://"@, s) {
        let rest = if is_prefix("https://"@, s) {
            s.subrange(8, s.len() as int)
        } else {
            s.subrange(7, s.len() as int)
        };
        let parts = split_nonempty(rest, seq!['/']);
        if parts.len() >= 3 {
            let host = lowercase(parts[0]);
            Some(CoordView { forge: forge_of_host(host), host: host, owner: parts[1], repo: clean_repo(parts[2]) })
        } else {
            None
        }
    } else {
        None
    }
}

/// Short syntax `forge:owner/repo` or `forge:host/owner/repo`.
pub open spec fn parse_short(s: Seq<char>) -> Option<CoordView> {
    match first_index_colon(s) {
        Some(i) => {
            let prefix = s.subrange(0, i);
            let rest = s.subrange(i + 1, s.len() as int);
            match forge_of_prefix(lowercase(prefix)) {
                Some(f) => {
                    let parts = split_nonempty(rest, seq!['/']);
                    if parts.len() == 2 {
                        Some(CoordView { forge: f, host: forge_default_host(f), owner: trim(parts[0]), repo: clean_repo(trim(parts[1])) })
                    } else if parts.len() == 3 {
                        Some(CoordView { forge: f, host: trim(parts[0]), owner: trim(parts[1]), repo: clean_repo(trim(parts[2])) })
                    } else {
                        None
                    }
                },
                None => None,
            }
        },
        None => None,
    }
}

pub open spec fn first_index_colon(s: Seq<char>) -> Option<int> {
    crate::text::first_index(s, ':')
}

/// Classic `owner/repo`, taken for a GitHub repository.
pub open spec fn parse_owner_repo(s: Seq<char>) -> Option<CoordView> {
    if s.contains('/') && !s.contains(' ') && !s.contains(':') {
        let parts = split_nonempty(s, seq!['/']);
        if parts.len() == 2 {
            let owner = trim(parts[0]);
            let repo = clean_repo(trim(parts[1]));
            if owner.len() > 0 && repo.len() > 0 {
                Some(CoordView { forge: ForgeType::GitHub, host: "github.com"@, owner: owner, repo: repo })
            } else {
                None
            }
        } else {
            None
        }
    } else {
        None
    }
}

/// What `RepositoryUrlParser::parse` recognises in `input`: a web URL first,
/// then the short `forge:` syntax, then `owner/repo`.
pub open spec fn parse_repository(input: Seq<char>) -> Option<CoordView> {
    let s = trim(input);
    if s.len() == 0 {
        None
    } else if parse_web_url(s) is Some {
        parse_web_url(s)
    } else if parse_short(s) is Some {
        parse_short(s)
    } else {
        parse_owner_repo(s)
    }
}

/// A part of a repository reference that reads back as written: not empty,
/// without white space and without `/`, `:`, `?` or `#`.
pub open spec fn plain_part(s: Seq<char>) -> bool {
    &&& s.len() > 0
    &&& forall|i: int|
        0 <= i < s.len() ==> !is_ws(#[trigger] s[i]) && s[i] != '/' && s[i] != ':' && s[i] != '?' && s[i] != '#'
}

/// Coordinates whose host, owner and repository name are plain, the name not
/// ending in `.git`.
pub open spec fn plain_coord(c: CoordView) -> bool {
    plain_part(c.host) && plain_part(c.owner) && plain_part(c.repo) && !is_suffix(".git"@, c.repo)
}

proof fn lemma_trim_plain(s: Seq<char>)
    requires
        s.len() > 0,
        !is_ws(s[0]),
        !is_ws(s.last()),
    ensures
        trim(s) == s,
{
}

proof fn lemma_clean_plain(r: Seq<char>)
    requires
        plain_part(r),
        !is_suffix(".git"@, r),
    ensures
        clean_repo(r) == r,
{
    lemma_first_index(r, '?');
    lemma_first_index(r, '#');
}

proof fn lemma_pieces_two(a: Seq<char>, b: Seq<char>)
    requires
        plain_part(a),
        plain_part(b),
    ensures
        split_nonempty(a + "/"@ + b, seq!['/']) == seq![a, b],
{
    reveal_strlit("/");
    assert("/"@ == seq!['/']);
    assert(seq!['/'][0] == '/');
    assert forall|i: int| 0 <= i < a.len() implies !seq!['/'].contains(#[trigger] a[i]) by {
        assert(a[i] != '/');
    }
    assert forall|i: int| 0 <= i < b.len() implies !seq!['/'].contains(#[trigger] b[i]) by {
        assert(b[i] != '/');
    }
    lemma_split_two(a, '/', b, seq!['/']);
    reveal_with_fuel(Seq::filter, 3);
    assert(seq![a, b].filter(|p: Seq<char>| p.len() > 0) =~= seq![a, b]);
}

proof fn lemma_pieces_three(a: Seq<char>, b: Seq<char>, c: Seq<char>)
    requires
        plain_part(a),
        plain_part(b),
        plain_part(c),
    ensures
        split_nonempty(a + "/"@ + b + "/"@ + c, seq!['/']) == seq![a, b, c],
{
    reveal_strlit("/");
    assert("/"@ == seq!['/']);
    assert(seq!['/'][0] == '/');
    assert forall|i: int| 0 <= i < a.len() implies !seq!['/'].contains(#[trigger] a[i]) by {
        assert(a[i] != '/');
    }
    assert forall|i: int| 0 <= i < b.len() implies !seq!['/'].contains(#[trigger] b[i]) by {
        assert(b[i] != '/');
    }
    assert forall|i: int| 0 <= i < c.len() implies !seq!['/'].contains(#[trigger] c[i]) by {
        assert(c[i] != '/');
    }
    lemma_split_three(a, b, '/', c, seq!['/']);
    reveal_with_fuel(Seq::filter, 4);
    assert(seq![a, b, c].filter(|p: Seq<char>| p.len() > 0) =~= seq![a, b, c]);
}

proof fn lemma_pieces_four(a: Seq<char>, b: Seq<char>, c: Seq<char>, d: Seq<char>)
    requires
        plain_part(a),
        plain_part(b),
        plain_part(c),
        plain_part(d),
    ensures
        split_nonempty(a + "/"@ + b + "/"@ + c + "/"@ + d, seq!['/']) == seq![a, b, c, d],
{
    reveal_strlit("/");
    let seps = seq!['/'];
    assert("/"@ == seps);
    assert(seps[0] == '/');
    assert(seps.contains('/'));
    assert forall|i: int| 0 <= i < a.len() implies !seps.contains(#[trigger] a[i]) by {
        assert(a[i] != '/');
    }
    assert forall|i: int| 0 <= i < b.len() implies !seps.contains(#[trigger] b[i]) by {
        assert(b[i] != '/');
    }
    assert forall|i: int| 0 <= i < c.len() implies !seps.contains(#[trigger] c[i]) by {
        assert(c[i] != '/');
    }
    assert forall|i: int| 0 <= i < d.len() implies !seps.contains(#[trigger] d[i]) by {
        assert(d[i] != '/');
    }
    let e = Seq::<char>::empty();
    lemma_split_three(a, b, '/', c, seps);
    let abc = a + seq!['/'] + b + seq!['/'] + c;
    let abc1 = abc.push('/');
    assert(abc1.drop_last() =~= abc);
    assert(split(abc1, seps) == seq![a, b, c].push(e));
    lemma_split_extend(abc1, d, seps);
    assert(a + "/"@ + b + "/"@ + c + "/"@ + d =~= abc1 + d);
    assert(seq![a, b, c].push(e).update(3, e + d) =~= seq![a, b, c, d]);
    reveal_with_fuel(Seq::filter, 5);
    assert(seq![a, b, c, d].filter(|p: Seq<char>| p.len() > 0) =~= seq![a, b, c, d]);
}

/// A web address `https://host/owner/repo` names the repository `repo` of
/// `owner` on `host` (the host lower-cased, the platform read from it), and
/// further path segments after the repository, as in a link to its releases,
/// name the same repository.
pub proof fn law_web_url_names_repository(h: Seq<char>, o: Seq<char>, r: Seq<char>, x: Seq<char>)
    requires
        plain_part(h),
        plain_part(o),
        plain_part(r),
        plain_part(x),
    ensures
        parse_repository("https://"@ + h + "/"@ + o + "/"@ + r) == Some(
            CoordView { forge: forge_of_host(lowercase(h)), host: lowercase(h), owner: o, repo: clean_repo(r) },
        ),
        parse_repository("https://"@ + h + "/"@ + o + "/"@ + r + "/"@ + x) == parse_repository(
            "https://"@ + h + "/"@ + o + "/"@ + r,
        ),
{
    reveal_strlit("https://");
    reveal_strlit("/");
    let pre = "https://"@;
    assert(pre.len() == 8 && pre[0] == 'h');
    let tail3 = h + "/"@ + o + "/"@ + r;
    let tail4 = tail3 + "/"@ + x;
    let s3 = pre + tail3;
    let s4 = pre + tail4;
    assert(s3 =~= "https://"@ + h + "/"@ + o + "/"@ + r);
    assert(s4 =~= "https://"@ + h + "/"@ + o + "/"@ + r + "/"@ + x);
    assert(s3[0] == 'h' && s4[0] == 'h');
    assert(s3.last() == r.last());
    assert(s4.last() == x.last());
    lemma_trim_plain(s3);
    lemma_trim_plain(s4);
    assert(is_prefix(pre, s3)) by {
        assert(s3.subrange(0, 8) =~= pre);
    }
    assert(is_prefix(pre, s4)) by {
        assert(s4.subrange(0, 8) =~= pre);
    }
    assert(s3.subrange(8, s3.len() as int) =~= tail3);
    assert(s4.subrange(8, s4.len() as int) =~= h + "/"@ + o + "/"@ + r + "/"@ + x);
    lemma_pieces_three(h, o, r);
    lemma_pieces_four(h, o, r, x);
}

proof fn lemma_forge_names()
    ensures
        forall|f: ForgeType| forge_of_prefix(#[trigger] forge_name(f)) == Some(f),
        forall|f: ForgeType|
            (#[trigger] forge_name(f)).len() > 0 && !is_ws(forge_name(f)[0]) && forge_name(f)[0] != 'h' && forall|
                i: int,
            | 0 <= i < forge_name(f).len() ==> forge_name(f)[i] != ':',
{
    reveal_strlit("github");
    reveal_strlit("codeberg");
    reveal_strlit("gitea");
    reveal_strlit("gitlab");
    reveal_strlit("gh");
    reveal_strlit("cb");
    reveal_strlit("gt");
    reveal_strlit("gl");
    assert("github"@.len() == 6 && "codeberg"@.len() == 8 && "cb"@.len() == 2 && "gh"@.len() == 2);
    assert("gitea"@.len() == 5 && "gitlab"@.len() == 6 && "gt"@.len() == 2 && "gl"@.len() == 2);
    assert("github"@ != "codeberg"@ && "github"@ != "cb"@);
    assert("gitea"@ != "codeberg"@ && "gitea"@ != "cb"@ && "gitea"@ != "github"@ && "gitea"@ != "gh"@);
    assert("gitea"@[3] != "gitlab"@[3]);
    assert("gitlab"@ != "codeberg"@ && "gitlab"@ != "cb"@ && "gitlab"@ != "github"@ && "gitlab"@ != "gh"@);
    assert("gitlab"@ != "gitea"@ && "gitlab"@ != "gt"@);
    assert forall|f: ForgeType| forge_of_prefix(#[trigger] forge_name(f)) == Some(f) by {
        match f {
            ForgeType::GitHub => {},
            ForgeType::Codeberg => {},
            ForgeType::Gitea => {},
            ForgeType::GitLab => {},
        }
    }
}

/// The short form `forge:rest` of a reference reads back as the platform `f`
/// and the pieces of `rest`.
proof fn lemma_short_form(f: ForgeType, rest: Seq<char>)
    requires
        lowercase(forge_name(f)) == forge_name(f),
    ensures
        ({
            let s = forge_name(f) + ":"@ + rest;
            &&& first_index_colon(s) == Some(forge_name(f).len() as int)
            &&& s.subrange(0, forge_name(f).len() as int) == forge_name(f)
            &&& s.subrange(forge_name(f).len() as int + 1, s.len() as int) == rest
            &&& forge_of_prefix(lowercase(forge_name(f))) == Some(f)
            &&& parse_web_url(s) is None
        }),
{
    lemma_forge_names();
    reveal_strlit(":");
    reveal_strlit("https://");
    reveal_strlit("http://");
    let n = forge_name(f);
    let s = n + ":"@ + rest;
    assert(s[n.len() as int] == ':');
    lemma_first_index(s, ':');
    assert(s.subrange(0, n.len() as int) =~= n);
    assert(s.subrange(n.len() as int + 1, s.len() as int) =~= rest);
    assert(s[0] == n[0]);
    assert(!is_prefix("https://"@, s)) by {
        if is_prefix("https://"@, s) {
            assert(s.subrange(0, 8)[0] == s[0]);
        }
    }
    assert(!is_prefix("http://"@, s)) by {
        if is_prefix("http://"@, s) {
            assert(s.subrange(0, 7)[0] == s[0]);
        }
    }
}

/// The application id of a repository reads back as the same repository
/// when its host, owner and name are plain. The platform's name is ASCII
/// lower case, which `lowercase` keeps, as `str::to_lowercase` does.
pub proof fn law_app_id_parses_back(c: CoordView)
    requires
        plain_coord(c),
        lowercase(forge_name(c.forge)) == forge_name(c.forge),
    ensures
        parse_repository(app_id_of(c)) == Some(c),
{
    reveal_strlit("/");
    reveal_strlit(":");
    reveal_strlit("https://");
    reveal_strlit("http://");
    reveal_strlit(".git");
    lemma_forge_names();
    lemma_clean_plain(c.repo);
    lemma_trim_plain(c.owner);
    lemma_trim_plain(c.repo);
    lemma_trim_plain(c.host);
    let s = app_id_of(c);
    if c.forge == ForgeType::GitHub && c.host == "github.com"@ {
        assert(s == c.owner + "/"@ + c.repo);
        assert forall|i: int| 0 <= i < s.len() implies s[i] != ':' && !is_ws(#[trigger] s[i]) by {
            if i < c.owner.len() {
                assert(s[i] == c.owner[i]);
            } else if i > c.owner.len() {
                assert(s[i] == c.repo[i - c.owner.len() - 1]);
            }
        }
        lemma_trim_plain(s);
        assert(s[c.owner.len() as int] == '/');
        assert(s.contains('/'));
        assert(!s.contains(' '));
        assert(!s.contains(':'));
        assert(!is_prefix("https://"@, s)) by {
            if is_prefix("https://"@, s) {
                assert(s.subrange(0, 8)[5] == s[5]);
            }
        }
        assert(!is_prefix("http://"@, s)) by {
            if is_prefix("http://"@, s) {
                assert(s.subrange(0, 7)[4] == s[4]);
            }
        }
        lemma_first_index(s, ':');
        lemma_pieces_two(c.owner, c.repo);
    } else if c.host == forge_default_host(c.forge) {
        let rest = c.owner + "/"@ + c.repo;
        assert(s == forge_name(c.forge) + ":"@ + rest);
        assert(s[0] == forge_name(c.forge)[0]);
        assert(s.last() == c.repo.last());
        lemma_trim_plain(s);
        lemma_short_form(c.forge, rest);
        lemma_pieces_two(c.owner, c.repo);
    } else {
        let rest = c.host + "/"@ + c.owner + "/"@ + c.repo;
        assert(s == forge_name(c.forge) + ":"@ + rest);
        assert(s[0] == forge_name(c.forge)[0]);
        assert(s.last() == c.repo.last());
        lemma_trim_plain(s);
        lemma_short_form(c.forge, rest);
        lemma_pieces_three(c.host, c.owner, c.repo);
    }
}

/// Recognises repository references in user input.
pub struct RepositoryUrlParser;

fn clean_repo_chars(part: &[char]) -> (r: Vec<char>)
    ensures
        r@ == clean_repo(part@),
{
    let a = before_first_chars(part, '?');
    let b = before_first_chars(&a, '#');
    proof {
        reveal_strlit(".git");
    }
    if ends_with(&b, &chars_of(".git")) {
        slice_chars(&b, 0, b.len() - 4)
    } else {
        b
    }
}

fn forge_of_host_chars(host: &[char]) -> (r: ForgeType)
    ensures
        r == forge_of_host(host@),
{
    if contains_str(host, &chars_of("github.com")) {
        ForgeType::GitHub
    } else if contains_str(host, &chars_of("codeberg.org")) {
        ForgeType::Codeberg
    } else if contains_str(host, &chars_of("gitlab.com")) {
        ForgeType::GitLab
    } else {
        ForgeType::Gitea
    }
}

fn forge_of_prefix_chars(lower: &[char]) -> (r: Option<ForgeType>)
    ensures
        r == forge_of_prefix(lower@),
{
    if eq_chars(lower, &chars_of("codeberg")) || eq_chars(lower, &chars_of("cb")) {
        Some(ForgeType::Codeberg)
    } else if eq_chars(lower, &chars_of("github")) || eq_chars(lower, &chars_of("gh")) {
        Some(ForgeType::GitHub)
    } else if eq_chars(lower, &chars_of("gitea")) || eq_chars(lower, &chars_of("gt")) {
        Some(ForgeType::Gitea)
    } else if eq_chars(lower, &chars_of("gitlab")) || eq_chars(lower, &chars_of("gl")) {
        Some(ForgeType::GitLab)
    } else {
        None
    }
}

fn make_coord(forge: ForgeType, host: &[char], owner: &[char], repo: &[char]) -> (r: UniversalRepoCoord)
    ensures
        r@ == (CoordView { forge: forge, host: host@, owner: owner@, repo: repo@ }),
{
    UniversalRepoCoord { forge, host: string_of(host), owner: string_of(owner), repo: string_of(repo) }
}

fn parse_web_url_chars(s: &[char]) -> (r: Option<UniversalRepoCoord>)
    ensures
        coord_option_view(r) == parse_web_url(s@),
{
    let https = chars_of("https://");
    let http = chars_of("http://");
    proof {
        reveal_strlit("https://");
        reveal_strlit("http://");
    }
    let rest = if starts_with(s, &https) {
        slice_chars(s, 8, s.len())
    } else if starts_with(s, &http) {
        slice_chars(s, 7, s.len())
    } else {
        return None;
    };
    let parts = split_nonempty_chars(&rest, '/');
    if parts.len() >= 3 {
        assert(seqs_of(parts@)[0] == parts@[0]@);
        assert(seqs_of(parts@)[1] == parts@[1]@);
        assert(seqs_of(parts@)[2] == parts@[2]@);
        let host = lowercase_chars(&parts[0]);
        let forge = forge_of_host_chars(&host);
        let repo = clean_repo_chars(&parts[2]);
        Some(make_coord(forge, &host, &parts[1], &repo))
    } else {
        None
    }
}

fn parse_short_chars(s: &[char]) -> (r: Option<UniversalRepoCoord>)
    ensures
        coord_option_view(r) == parse_short(s@),
{
    let i = match find_char(s, ':') {
        Some(i) => i,
        None => {
            return None;
        },
    };
    let prefix = slice_chars(s, 0, i);
    let rest = slice_chars(s, i + 1, s.len());
    let forge = match forge_of_prefix_chars(&lowercase_chars(&prefix)) {
        Some(f) => f,
        None => {
            return None;
        },
    };
    let parts = split_nonempty_chars(&rest, '/');
    if parts.len() == 2 {
        assert(seqs_of(parts@)[0] == parts@[0]@);
        assert(seqs_of(parts@)[1] == parts@[1]@);
        let owner = trim_chars(&parts[0]);
        let repo = clean_repo_chars(&trim_chars(&parts[1]));
        let host = chars_of(forge.default_host());
        Some(make_coord(forge, &host, &owner, &repo))
    } else if parts.len() == 3 {
        assert(seqs_of(parts@)[0] == parts@[0]@);
        assert(seqs_of(parts@)[1] == parts@[1]@);
        assert(seqs_of(parts@)[2] == parts@[2]@);
        let host = trim_chars(&parts[0]);
        let owner = trim_chars(&parts[1]);
        let repo = clean_repo_chars(&trim_chars(&parts[2]));
        Some(make_coord(forge, &host, &owner, &repo))
    } else {
        None
    }
}

fn parse_owner_repo_chars(s: &[char]) -> (r: Option<UniversalRepoCoord>)
    ensures
        coord_option_view(r) == parse_owner_repo(s@),
{
    if contains_char(s, '/') && !contains_char(s, ' ') && !contains_char(s, ':') {
        let parts = split_nonempty_chars(s, '/');
        if parts.len() == 2 {
            assert(seqs_of(parts@)[0] == parts@[0]@);
            assert(seqs_of(parts@)[1] == parts@[1]@);
            let owner = trim_chars(&parts[0]);
            let repo = clean_repo_chars(&trim_chars(&parts[1]));
            if owner.len() > 0 && repo.len() > 0 {
                return Some(make_coord(ForgeType::GitHub, &chars_of("github.com"), &owner, &repo));
            }
        }
    }
    None
}

impl RepositoryUrlParser {
    /// Recognises a repository in a web URL (`https://codeberg.org/owner/repo`),
    /// the short syntax (`codeberg:owner/repo`, `gitea:host/owner/repo`) or `owner/repo`.
    pub fn parse(input: &str) -> (r: Option<UniversalRepoCoord>)
        ensures
            coord_option_view(r) == parse_repository(input@),
    {
        let s = trim_chars(&chars_of(input));
        if s.len() == 0 {
            return None;
        }
        let web = parse_web_url_chars(&s);
        if web.is_some() {
            return web;
        }
        let short = parse_short_chars(&s);
        if short.is_some() {
            return short;
        }
        parse_owner_repo_chars(&s)
    }
}

} // verus!
