//! Building an application's detail page: where its release data comes from,
//! which repository figures win, and the checksums published with a release.

use vstd::prelude::*;
use crate::models::opt_str_view;
use crate::settings::{keys_distinct, pairs_map, pairs_view};
use crate::text::{
    chars_of, concat, contains_str, ends_with, has_substring, is_prefix, is_suffix, lowercase, lowercase_chars,
    nonempty_pieces, seqs_of, split, split_chars, split_nonempty, starts_with, string_of, strip_leading,
    strip_leading_chars, trim, trim_chars,
};

verus! {

/// How the request for the latest release ended.
#[derive(Debug, Clone, Copy, PartialEq, Eq, Structural)]
pub enum ReleaseResponse {
    /// The release is unchanged since the cached copy (HTTP 304).
    NotModified,
    /// A fresh release arrived.
    Fresh,
    /// No usable answer: offline, timed out or refused.
    Failed,
}

/// Where the release data of a detail page comes from.
#[derive(Debug, Clone, Copy, PartialEq, Eq, Structural)]
pub enum ReleaseSource {
    /// The cached detail is complete and still current: reuse it as it is.
    ReuseCachedDetail,
    /// Read the cached release payload.
    CachedPayload,
    /// The server said nothing changed but nothing is cached.
    MissingCache,
    /// Use the release that just arrived.
    FreshRelease,
    /// Offline: show the cached detail, marked stale.
    StaleDetail,
    /// Offline and nothing cached: show a placeholder release.
    Placeholder,
}

/// A cached detail can stand in for a fresh one when it lists releases and
/// has a README.
pub open spec fn detail_complete(release_count: nat, readme: Seq<char>) -> bool {
    release_count > 0 && trim(readme).len() > 0
}

pub fn cached_detail_complete(release_count: usize, readme: &str) -> (r: bool)
    ensures
        r == detail_complete(release_count as nat, readme@),
{
    release_count > 0 && trim_chars(&chars_of(readme)).len() > 0
}

pub open spec fn release_source(
    response: ReleaseResponse,
    has_cached_detail: bool,
    cached_detail_complete: bool,
    has_cached_payload: bool,
) -> ReleaseSource {
    match response {
        ReleaseResponse::NotModified => if has_cached_detail && cached_detail_complete {
            ReleaseSource::ReuseCachedDetail
        } else if has_cached_payload {
            ReleaseSource::CachedPayload
        } else {
            ReleaseSource::MissingCache
        },
        ReleaseResponse::Fresh => ReleaseSource::FreshRelease,
        ReleaseResponse::Failed => if has_cached_detail {
            ReleaseSource::StaleDetail
        } else if has_cached_payload {
            ReleaseSource::CachedPayload
        } else {
            ReleaseSource::Placeholder
        },
    }
}

/// Chooses where the release data of a detail page comes from.
pub fn plan_release_source(
    response: ReleaseResponse,
    has_cached_detail: bool,
    cached_detail_complete: bool,
    has_cached_payload: bool,
) -> (r: ReleaseSource)
    ensures
        r == release_source(response, has_cached_detail, cached_detail_complete, has_cached_payload),
{
    match response {
        ReleaseResponse::NotModified => {
            if has_cached_detail && cached_detail_complete {
                ReleaseSource::ReuseCachedDetail
            } else if has_cached_payload {
                ReleaseSource::CachedPayload
            } else {
                ReleaseSource::MissingCache
            }
        },
        ReleaseResponse::Fresh => ReleaseSource::FreshRelease,
        ReleaseResponse::Failed => {
            if has_cached_detail {
                ReleaseSource::StaleDetail
            } else if has_cached_payload {
                ReleaseSource::CachedPayload
            } else {
                ReleaseSource::Placeholder
            }
        },
    }
}

fn owned(s: &str) -> (r: String)
    ensures
        r@ == s@,
{
    string_of(&chars_of(s))
}

pub open spec fn missing_cache_message() -> Seq<char> {
    "304 响应但本地未找到缓存数据"@
}

pub fn missing_cache_error() -> (r: String)
    ensures
        r@ == missing_cache_message(),
{
    owned("304 响应但本地未找到缓存数据")
}

pub open spec fn offline_changelog() -> Seq<char> {
    "离线模式，暂无法直连获取 GitHub Release 变更日志。"@
}

/// The release shown offline with nothing cached: the catalog's default
/// version (else `v1.0.0`) and a note that the change log is unavailable.
pub fn placeholder_release(catalog_version: Option<&str>) -> (r: (String, String))
    ensures
        r.0@ == match catalog_version {
            Some(v) => v@,
            None => "v1.0.0"@,
        },
        r.1@ == offline_changelog(),
{
    let tag = match catalog_version {
        Some(v) => owned(v),
        None => owned("v1.0.0"),
    };
    (tag, owned("离线模式，暂无法直连获取 GitHub Release 变更日志。"))
}

/// The cached README is reused when the cached detail has one and its
/// version is the latest release's.
pub open spec fn reuse_readme(cached: Option<(Seq<char>, Seq<char>)>, latest_tag: Seq<char>) -> bool {
    match cached {
        Some(c) => c.0 == latest_tag && trim(c.1).len() > 0,
        None => false,
    }
}

pub fn should_reuse_cached_readme(cached_version: Option<&str>, cached_readme: Option<&str>, latest_tag: &str) -> (r: bool)
    requires
        cached_version is Some <==> cached_readme is Some,
    ensures
        r == reuse_readme(
            match cached_version {
                Some(v) => Some((v@, cached_readme->0@)),
                None => None,
            },
            latest_tag@,
        ),
{
    match (cached_version, cached_readme) {
        (Some(v), Some(readme)) => {
            let same = crate::text::eq_chars(&chars_of(v), &chars_of(latest_tag));
            same && trim_chars(&chars_of(readme)).len() > 0
        },
        _ => false,
    }
}

/// The README shown when none can be fetched: the name as a heading, then the description.
pub fn default_readme(name: &str, description: &str) -> (r: String)
    ensures
        r@ == "# "@ + name@ + "\n\n"@ + description@,
{
    string_of(&concat(&concat(&concat(&chars_of("# "), &chars_of(name)), &chars_of("\n\n")), &chars_of(description)))
}

/// A count from the repository, else the catalog's, else 0.
pub fn latest_count(remote: Option<u64>, catalog: Option<u64>) -> (r: u64)
    ensures
        r == match remote {
            Some(n) => n,
            None => match catalog {
                Some(n) => n,
                None => 0,
            },
        },
{
    match remote {
        Some(n) => n,
        None => match catalog {
            Some(n) => n,
            None => 0,
        },
    }
}

/// The licence from the repository, else the catalog's, else `FLOSS`.
pub fn latest_license(remote: Option<String>, catalog: Option<String>) -> (r: String)
    ensures
        r@ == match remote {
            Some(l) => l@,
            None => match catalog {
                Some(l) => l@,
                None => "FLOSS"@,
            },
        },
{
    match remote {
        Some(l) => l,
        None => match catalog {
            Some(l) => l,
            None => owned("FLOSS"),
        },
    }
}

pub open spec fn blank_to_none(o: Option<Seq<char>>) -> Option<Seq<char>> {
    match o {
        Some(s) => if trim(s).len() > 0 {
            Some(s)
        } else {
            None
        },
        None => None,
    }
}

/// The homepage: the repository's unless blank, else the catalog's unless
/// blank; trimmed, with `https://` added when it has no scheme.
pub open spec fn homepage_of(remote: Option<Seq<char>>, catalog: Option<Seq<char>>) -> Option<Seq<char>> {
    let chosen = match blank_to_none(remote) {
        Some(h) => Some(h),
        None => blank_to_none(catalog),
    };
    match chosen {
        Some(h) => {
            let t = trim(h);
            if is_prefix("http://"@, t) || is_prefix("https://"@, t) {
                Some(t)
            } else {
                Some("https://"@ + t)
            }
        },
        None => None,
    }
}

pub fn latest_homepage(remote: Option<String>, catalog: Option<String>) -> (r: Option<String>)
    ensures
        opt_str_view(r) == homepage_of(opt_str_view(remote), opt_str_view(catalog)),
{
    let chosen = match remote {
        Some(h) if trim_chars(&chars_of(h.as_str())).len() > 0 => Some(h),
        _ => match catalog {
            Some(h) if trim_chars(&chars_of(h.as_str())).len() > 0 => Some(h),
            _ => None,
        },
    };
    match chosen {
        Some(h) => {
            let t = trim_chars(&chars_of(h.as_str()));
            if starts_with(&t, &chars_of("http://")) || starts_with(&t, &chars_of("https://")) {
                Some(string_of(&t))
            } else {
                Some(string_of(&concat(&chars_of("https://"), &t)))
            }
        },
        None => None,
    }
}

/// The icon of a detail page: a catalog icon that is an http(s) address, else
/// the logo found in the README, else the owner's avatar.
pub open spec fn detail_icon_of(icon: Seq<char>, readme_logo: Option<Seq<char>>, owner: Seq<char>) -> Seq<char> {
    if is_prefix("http://"@, icon) || is_prefix("https://"@, icon) {
        icon
    } else {
        match readme_logo {
            Some(l) => l,
            None => "https://github.com/"@ + owner + ".png"@,
        }
    }
}

pub fn detail_icon(icon: String, readme_logo: Option<String>, owner: &str) -> (r: String)
    ensures
        r@ == detail_icon_of(icon@, opt_str_view(readme_logo), owner@),
{
    let ic = chars_of(icon.as_str());
    if starts_with(&ic, &chars_of("http://")) || starts_with(&ic, &chars_of("https://")) {
        icon
    } else {
        match readme_logo {
            Some(l) => l,
            None => string_of(&concat(&concat(&chars_of("https://github.com/"), &chars_of(owner)), &chars_of(".png"))),
        }
    }
}

/// A release file that holds checksums: its lower-cased name mentions
/// `checksum` or `sha256`, or ends with `.sha256`.
pub open spec fn is_checksum_name(name: Seq<char>) -> bool {
    let n = lowercase(name);
    has_substring(n, "checksum"@) || has_substring(n, "sha256"@) || is_suffix(".sha256"@, n)
}

pub fn is_checksum_asset(name: &str) -> (r: bool)
    ensures
        r == is_checksum_name(name@),
{
    let n = lowercase_chars(&chars_of(name));
    contains_str(&n, &chars_of("checksum")) || contains_str(&n, &chars_of("sha256")) || ends_with(
        &n,
        &chars_of(".sha256"),
    )
}

/// The characters `char::is_whitespace` accepts.
pub open spec fn ws_chars() -> Seq<char> {
    seq![
        '\u{9}', '\u{a}', '\u{b}', '\u{c}', '\u{d}', ' ', '\u{85}', '\u{a0}', '\u{1680}', '\u{2000}', '\u{2001}',
        '\u{2002}', '\u{2003}', '\u{2004}', '\u{2005}', '\u{2006}', '\u{2007}', '\u{2008}', '\u{2009}', '\u{200a}',
        '\u{2028}', '\u{2029}', '\u{202f}', '\u{205f}', '\u{3000}'
    ]
}

pub fn ws_vec() -> (r: Vec<char>)
    ensures
        r@ == ws_chars(),
{
    let r = vec![
        '\u{9}', '\u{a}', '\u{b}', '\u{c}', '\u{d}', ' ', '\u{85}', '\u{a0}', '\u{1680}', '\u{2000}', '\u{2001}',
        '\u{2002}', '\u{2003}', '\u{2004}', '\u{2005}', '\u{2006}', '\u{2007}', '\u{2008}', '\u{2009}', '\u{200a}',
        '\u{2028}', '\u{2029}', '\u{202f}', '\u{205f}', '\u{3000}'
    ];
    assert(r@ =~= ws_chars());
    r
}

/// Bytes a character takes in UTF-8.
pub open spec fn utf8_width(c: char) -> nat {
    if (c as u32) < 0x80 {
        1
    } else if (c as u32) < 0x800 {
        2
    } else if (c as u32) < 0x10000 {
        3
    } else {
        4
    }
}

/// Bytes a text takes in UTF-8.
pub open spec fn utf8_len(s: Seq<char>) -> nat
    decreases s.len(),
{
    if s.len() == 0 {
        0
    } else {
        utf8_len(s.drop_last()) + utf8_width(s.last())
    }
}

proof fn lemma_utf8_len_prefix(s: Seq<char>, i: int)
    requires
        0 <= i <= s.len(),
    ensures
        utf8_len(s.take(i)) <= utf8_len(s),
    decreases s.len() - i,
{
    if i < s.len() {
        lemma_utf8_len_prefix(s, i + 1);
        assert(s.take(i + 1).drop_last() =~= s.take(i));
    } else {
        assert(s.take(i) =~= s);
    }
}

/// Whether a text takes exactly 64 bytes in UTF-8.
fn utf8_len_is_64(v: &[char]) -> (r: bool)
    ensures
        r == (utf8_len(v@) == 64),
{
    let mut n: u64 = 0;
    let mut i: usize = 0;
    while i < v.len()
        invariant
            i <= v@.len(),
            n as nat == utf8_len(v@.take(i as int)),
            n <= 64,
        decreases v@.len() - i,
    {
        assert(v@.take(i + 1).drop_last() =~= v@.take(i as int));
        let c = v[i];
        let w: u64 = if (c as u32) < 0x80 {
            1
        } else if (c as u32) < 0x800 {
            2
        } else if (c as u32) < 0x10000 {
            3
        } else {
            4
        };
        n = n + w;
        i = i + 1;
        if n > 64 {
            proof {
                lemma_utf8_len_prefix(v@, i as int);
            }
            return false;
        }
    }
    assert(v@.take(i as int) =~= v@);
    n == 64
}

/// The checksum a line gives, if it gives one: a first word of 64 bytes (the
/// hash, lower-cased) and a second word (the file name, leading `*` dropped).
pub open spec fn checksum_line(line: Seq<char>) -> Option<(Seq<char>, Seq<char>)> {
    let words = split_nonempty(line, ws_chars());
    if words.len() >= 2 && utf8_len(words[0]) == 64 {
        Some((strip_leading(words[1], '*'), lowercase(words[0])))
    } else {
        None
    }
}

/// The checksums of a checksum file, line by line, as (file name, hash).
pub open spec fn checksum_entries(text: Seq<char>) -> Seq<(Seq<char>, Seq<char>)> {
    split(text, seq!['\n']).filter_map(|line: Seq<char>| checksum_line(line))
}

fn checksum_of_line(line: &[char], ws: &Vec<char>) -> (r: Option<(String, String)>)
    requires
        ws@ == ws_chars(),
    ensures
        match r {
            Some(p) => checksum_line(line@) == Some((p.0@, p.1@)),
            None => checksum_line(line@) is None,
        },
{
    let words = nonempty_pieces(split_chars(line, ws));
    let ghost wv = seqs_of(words@);
    assert(wv == split_nonempty(line@, ws_chars()));
    if words.len() >= 2 {
        assert(wv[0] == words@[0]@);
        assert(wv[1] == words@[1]@);
        if utf8_len_is_64(&words[0]) {
            let name = strip_leading_chars(&words[1], '*');
            let hash = lowercase_chars(&words[0]);
            return Some((string_of(&name), string_of(&hash)));
        }
    }
    None
}

/// Reads a checksum file into (file name, hash) pairs, in order.
pub fn parse_checksums(text: &str) -> (r: Vec<(String, String)>)
    ensures
        pairs_view(r@) == checksum_entries(text@),
{
    let tc = chars_of(text);
    let seps = vec!['\n'];
    assert(seps@ =~= seq!['\n']);
    let lines = split_chars(&tc, &seps);
    let ghost ls = seqs_of(lines@);
    let ws = ws_vec();
    let mut out: Vec<(String, String)> = Vec::new();
    let mut i: usize = 0;
    assert(ls.take(0) =~= Seq::<Seq<char>>::empty());
    while i < lines.len()
        invariant
            i <= lines@.len(),
            ls == seqs_of(lines@),
            ls == split(text@, seq!['\n']),
            ls.len() == lines@.len(),
            ws@ == ws_chars(),
            pairs_view(out@) == ls.take(i as int).filter_map(|line: Seq<char>| checksum_line(line)),
        decreases lines@.len() - i,
    {
        assert(ls[i as int] == lines@[i as int]@);
        let got = checksum_of_line(&lines[i], &ws);
        assert(ls.take(i + 1).drop_last() =~= ls.take(i as int));
        assert(ls.take(i + 1).last() == ls[i as int]);
        match got {
            Some(p) => {
                out.push(p);
            },
            None => {},
        }
        assert(pairs_view(out@) =~= ls.take(i + 1).filter_map(|line: Seq<char>| checksum_line(line)));
        i = i + 1;
    }
    assert(ls.take(i as int) =~= ls);
    out
}

proof fn lemma_last_occurrence(s: Seq<(Seq<char>, Seq<char>)>, k: Seq<char>, j: int)
    requires
        0 <= j < s.len(),
        s[j].0 == k,
        forall|l: int| j < l < s.len() ==> (#[trigger] s[l]).0 != k,
    ensures
        pairs_map(s).contains_key(k),
        pairs_map(s)[k] == s[j].1,
    decreases s.len(),
{
    if j < s.len() - 1 {
        let d = s.drop_last();
        assert(d[j] == s[j]);
        assert forall|l: int| j < l < d.len() implies (#[trigger] d[l]).0 != k by {
            assert(d[l] == s[l]);
        }
        lemma_last_occurrence(d, k, j);
        assert(s.last().0 != k);
    }
}

/// The hash a checksum file gives for `name`; a later line wins.
pub fn checksum_for(entries: &Vec<(String, String)>, name: &str) -> (r: Option<String>)
    ensures
        match r {
            Some(h) => pairs_map(pairs_view(entries@)).contains_key(name@) && h@ == pairs_map(pairs_view(entries@))[name@],
            None => !pairs_map(pairs_view(entries@)).contains_key(name@),
        },
{
    let ghost pv = pairs_view(entries@);
    let n = chars_of(name);
    let mut i: usize = entries.len();
    while i > 0
        invariant
            i <= entries@.len(),
            pv == pairs_view(entries@),
            n@ == name@,
            forall|l: int| i <= l < pv.len() ==> (#[trigger] pv[l]).0 != name@,
        decreases i,
    {
        let ghost at = (i - 1) as int;
        assert(pv[at] == (entries@[at].0@, entries@[at].1@));
        let key = chars_of(entries[i - 1].0.as_str());
        assert(key@ == pv[at].0);
        if crate::text::eq_chars(&key, &n) {
            proof {
                lemma_last_occurrence(pv, name@, at);
            }
            return Some(entries[i - 1].1.clone());
        }
        i = i - 1;
    }
    proof {
        crate::settings::lemma_pairs_map_keys(pv, name@);
    }
    None
}

} // verus!
