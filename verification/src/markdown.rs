//! README images: where an image address of a repository's README really
//! points, and how it is fetched through a mirror.

use vstd::prelude::*;
use crate::catalog::CatalogService;
use crate::models::opt_str_view;
use crate::text::{
    chars_of, concat, contains_char, contains_str, eq_chars, has_substring, is_prefix, slice_chars, split,
    split_chars, starts_with, string_of, trim, trim_chars,
};
use crate::urlcodec::{percent_encoded, url_encode};
use vstd::utf8::encode_utf8;

verus! {

/// The groups of the leftmost-first match of a regular expression in a text,
/// group 0 being the whole match; none when nothing matches.
pub uninterp spec fn regex_captures_of(pattern: Seq<char>, text: Seq<char>) -> Option<Seq<Option<Seq<char>>>>;

pub open spec fn groups_view(g: Seq<Option<String>>) -> Seq<Option<Seq<char>>> {
    g.map_values(|o: Option<String>| opt_str_view(o))
}

/// `regex::Regex::new(pattern)` followed by `Regex::captures(text)`: the
/// groups of the first match, named by `regex_captures_of`. Nothing is
/// stated of which text matches; a pattern that does not compile gives none.
#[verifier::external_body]
fn regex_captures(pattern: &str, text: &str) -> (r: Option<Vec<Option<String>>>)
    ensures
        match r {
            Some(g) => regex_captures_of(pattern@, text@) == Some(groups_view(g@)),
            None => regex_captures_of(pattern@, text@) is None,
        },
{
    let re = regex::Regex::new(pattern).ok()?;
    let caps = re.captures(text)?;
    Some(caps.iter().map(|m| m.map(|m| m.as_str().to_string())).collect())
}

/// A GitHub page address of a file: `github.com/{owner}/{repo}/blob/{branch}/{path}`.
pub open spec fn blob_pattern() -> Seq<char> {
    "(?i)^https?://github\\.com/([^/]+)/([^/]+)/blob/([^/]+)/([^?#]+)(?:[?#].*)?$"@
}

/// A GitHub download address of a file: `github.com/{owner}/{repo}/raw/{branch}/{path}`.
pub open spec fn raw_pattern() -> Seq<char> {
    "(?i)^https?://github\\.com/([^/]+)/([^/]+)/raw/([^/]+)/([^?#]+)(?:[?#].*)?$"@
}

/// Owner, repository, branch and path of a match, when all four groups are present.
pub open spec fn file_parts(c: Option<Seq<Option<Seq<char>>>>) -> Option<(Seq<char>, Seq<char>, Seq<char>, Seq<char>)> {
    match c {
        Some(g) => if g.len() >= 5 && g[1] is Some && g[2] is Some && g[3] is Some && g[4] is Some {
            Some((g[1]->0, g[2]->0, g[3]->0, g[4]->0))
        } else {
            None
        },
        None => None,
    }
}

fn parts_of(c: Option<Vec<Option<String>>>) -> (r: Option<(String, String, String, String)>)
    ensures
        match r {
            Some(p) => file_parts(
                match c {
                    Some(g) => Some(groups_view(g@)),
                    None => None,
                },
            ) == Some((p.0@, p.1@, p.2@, p.3@)),
            None => file_parts(
                match c {
                    Some(g) => Some(groups_view(g@)),
                    None => None,
                },
            ) is None,
        },
{
    match c {
        Some(g) => {
            if g.len() >= 5 {
                let ghost gv = groups_view(g@);
                assert(gv[1] == opt_str_view(g@[1]));
                assert(gv[2] == opt_str_view(g@[2]));
                assert(gv[3] == opt_str_view(g@[3]));
                assert(gv[4] == opt_str_view(g@[4]));
                match (&g[1], &g[2], &g[3], &g[4]) {
                    (Some(a), Some(b), Some(c), Some(d)) => Some((a.clone(), b.clone(), c.clone(), d.clone())),
                    _ => None,
                }
            } else {
                None
            }
        },
        None => None,
    }
}

pub open spec fn is_angle(c: char) -> bool {
    c == '<' || c == '>'
}

pub open spec fn strip_angles_start(s: Seq<char>) -> Seq<char>
    decreases s.len(),
{
    if s.len() > 0 && is_angle(s[0]) {
        strip_angles_start(s.drop_first())
    } else {
        s
    }
}

pub open spec fn strip_angles_end(s: Seq<char>) -> Seq<char>
    decreases s.len(),
{
    if s.len() > 0 && is_angle(s.last()) {
        strip_angles_end(s.drop_last())
    } else {
        s
    }
}

/// Drops every leading copy of `p` (not empty).
pub open spec fn strip_prefix_all(s: Seq<char>, p: Seq<char>) -> Seq<char>
    decreases s.len(),
{
    if p.len() > 0 && is_prefix(p, s) {
        strip_prefix_all(s.skip(p.len() as int), p)
    } else {
        s
    }
}

/// Each space written as `%20`.
pub open spec fn spaces_escaped(s: Seq<char>) -> Seq<char>
    decreases s.len(),
{
    if s.len() == 0 {
        s
    } else {
        spaces_escaped(s.drop_last()) + if s.last() == ' ' {
            "%20"@
        } else {
            seq![s.last()]
        }
    }
}

/// A path segment made safe for an address: percent-encoded, unless it is
/// already (it holds a `%`), in which case only its spaces are escaped.
pub open spec fn encoded_segment(seg: Seq<char>) -> Seq<char> {
    if seg.contains('%') {
        spaces_escaped(seg)
    } else {
        percent_encoded(encode_utf8(seg))
    }
}

/// Segments joined by `/`.
pub open spec fn joined(segs: Seq<Seq<char>>) -> Seq<char>
    decreases segs.len(),
{
    if segs.len() == 0 {
        Seq::empty()
    } else if segs.len() == 1 {
        segs[0]
    } else {
        joined(segs.drop_last()) + "/"@ + segs.last()
    }
}

/// A relative path of the repository, cleaned of leading `./`, `../` and `/`,
/// each segment encoded.
pub open spec fn encoded_relative_path(path: Seq<char>) -> Seq<char> {
    let a = crate::text::strip_leading(strip_prefix_all(path, "./"@), '/');
    let b = crate::text::strip_leading(strip_prefix_all(a, "../"@), '/');
    joined(split(b, seq!['/']).map_values(|seg: Seq<char>| encoded_segment(seg)))
}

/// Asset addresses that must be fetched directly, never through a mirror.
pub open spec fn is_direct_asset(u: Seq<char>) -> bool {
    is_prefix("https://user-images.githubusercontent.com/"@, u) || is_prefix("http://user-images.githubusercontent.com/"@, u)
        || is_prefix("https://camo.githubusercontent.com/"@, u) || is_prefix("http://camo.githubusercontent.com/"@, u)
        || is_prefix("https://github.com/user-attachments/assets/"@, u) || is_prefix(
        "http://github.com/user-attachments/assets/"@,
        u,
    ) || is_prefix("https://avatars.githubusercontent.com/"@, u) || (has_substring(u, "github.com/"@) && has_substring(
        u,
        "/assets/"@,
    ))
}

/// The mirror prefix, ending with `/` unless empty.
pub open spec fn mirror_prefix_of(m: Seq<char>) -> Seq<char> {
    if m.len() == 0 || m.last() == '/' {
        m
    } else {
        m + "/"@
    }
}

pub open spec fn raw_file_url(o: Seq<char>, r: Seq<char>, b: Seq<char>, p: Seq<char>) -> Seq<char> {
    "https://raw.githubusercontent.com/"@ + o + "/"@ + r + "/"@ + b + "/"@ + p
}

/// Where a README image address points, fetched through `mirror`: links and
/// inline data are kept; direct assets are kept (without a stray mirror
/// prefix); GitHub file pages become raw file addresses behind the mirror;
/// raw addresses go behind the mirror; other absolute addresses are kept; a
/// relative path becomes the raw file at `HEAD`, behind the mirror.
pub open spec fn cleaned_image_url(url: Seq<char>, owner: Seq<char>, repo: Seq<char>, mirror: Seq<char>) -> Seq<char> {
    let t = image_target(url);
    cleaned_image_url_given(
        url,
        owner,
        repo,
        mirror,
        regex_captures_of(blob_pattern(), t),
        regex_captures_of(raw_pattern(), t),
    )
}

/// An image address without surrounding white space and angle brackets.
pub open spec fn image_target(url: Seq<char>) -> Seq<char> {
    strip_angles_end(strip_angles_start(trim(url)))
}

pub open spec fn opt_groups_view(c: Option<Vec<Option<String>>>) -> Option<Seq<Option<Seq<char>>>> {
    match c {
        Some(g) => Some(groups_view(g@)),
        None => None,
    }
}

/// `cleaned_image_url`, given what the file-page and raw-address patterns
/// matched in the address.
pub open spec fn cleaned_image_url_given(
    url: Seq<char>,
    owner: Seq<char>,
    repo: Seq<char>,
    mirror: Seq<char>,
    blob: Option<Seq<Option<Seq<char>>>>,
    raw: Option<Seq<Option<Seq<char>>>>,
) -> Seq<char> {
    let t = image_target(url);
    let prefix = mirror_prefix_of(mirror);
    if t.len() == 0 || t[0] == '#' || is_prefix("mailto:"@, t) || is_prefix("data:"@, t) || is_prefix(
        "javascript:"@,
        t,
    ) {
        t
    } else if is_direct_asset(t) {
        if is_prefix("https://gh-proxy.com/"@, t) {
            t.skip(21)
        } else {
            t
        }
    } else if prefix.len() > 0 && is_prefix(prefix, t) {
        t
    } else {
        match file_parts(blob) {
            Some(p) => prefix + raw_file_url(p.0, p.1, p.2, p.3),
            None => match file_parts(raw) {
                Some(p) => prefix + raw_file_url(p.0, p.1, p.2, p.3),
                None => if is_prefix("https://raw.githubusercontent.com/"@, t) || is_prefix(
                    "http://raw.githubusercontent.com/"@,
                    t,
                ) {
                    prefix + t
                } else if is_prefix("http://"@, t) || is_prefix("https://"@, t) {
                    t
                } else {
                    prefix + "https://raw.githubusercontent.com/"@ + owner + "/"@ + repo + "/HEAD/"@
                        + encoded_relative_path(t)
                },
            },
        }
    }
}

fn strip_angles(v: &[char]) -> (r: Vec<char>)
    ensures
        r@ == strip_angles_end(strip_angles_start(v@)),
{
    let mut i: usize = 0;
    assert(v@.skip(0) =~= v@);
    while i < v.len() && (v[i] == '<' || v[i] == '>')
        invariant
            i <= v.len(),
            strip_angles_start(v@) == strip_angles_start(v@.skip(i as int)),
        decreases v.len() - i,
    {
        assert(v@.skip(i as int).drop_first() =~= v@.skip(i + 1));
        i = i + 1;
    }
    let mid = slice_chars(v, i, v.len());
    assert(mid@ =~= v@.skip(i as int));
    let mut n: usize = mid.len();
    assert(mid@.take(n as int) =~= mid@);
    while n > 0 && (mid[n - 1] == '<' || mid[n - 1] == '>')
        invariant
            n <= mid@.len(),
            strip_angles_end(mid@) == strip_angles_end(mid@.take(n as int)),
        decreases n,
    {
        assert(mid@.take(n as int).drop_last() =~= mid@.take(n - 1));
        n = n - 1;
    }
    let r = slice_chars(&mid, 0, n);
    assert(r@ =~= mid@.take(n as int));
    r
}

fn strip_prefix_repeated(v: &[char], p: &[char]) -> (r: Vec<char>)
    requires
        p@.len() > 0,
    ensures
        r@ == strip_prefix_all(v@, p@),
{
    let mut cur: Vec<char> = slice_chars(v, 0, v.len());
    assert(cur@ =~= v@);
    while starts_with(&cur, p)
        invariant
            p@.len() > 0,
            strip_prefix_all(v@, p@) == strip_prefix_all(cur@, p@),
        decreases cur@.len(),
    {
        let next = slice_chars(&cur, p.len(), cur.len());
        assert(next@ =~= cur@.skip(p@.len() as int));
        cur = next;
    }
    cur
}

fn escape_spaces(v: &[char]) -> (r: Vec<char>)
    ensures
        r@ == spaces_escaped(v@),
{
    let mut out: Vec<char> = Vec::new();
    let mut i: usize = 0;
    proof {
        reveal_strlit("%20");
    }
    while i < v.len()
        invariant
            i <= v.len(),
            out@ == spaces_escaped(v@.take(i as int)),
        decreases v.len() - i,
    {
        assert(v@.take(i + 1).drop_last() =~= v@.take(i as int));
        assert(v@.take(i + 1).last() == v@[i as int]);
        proof {
            reveal_strlit("%20");
        }
        if v[i] == ' ' {
            out.push('%');
            out.push('2');
            out.push('0');
        } else {
            out.push(v[i]);
        }
        assert(out@ =~= spaces_escaped(v@.take(i + 1)));
        i = i + 1;
    }
    assert(v@.take(i as int) =~= v@);
    out
}

fn encode_segment(seg: &[char]) -> (r: Vec<char>)
    ensures
        r@ == encoded_segment(seg@),
{
    if contains_char(seg, '%') {
        escape_spaces(seg)
    } else {
        let s = string_of(seg);
        let e = url_encode(s.as_str());
        chars_of(e.as_str())
    }
}

fn encode_relative_path(path: &[char]) -> (r: Vec<char>)
    ensures
        r@ == encoded_relative_path(path@),
{
    proof {
        reveal_strlit("./");
        reveal_strlit("../");
    }
    let a = crate::text::strip_leading_chars(&strip_prefix_repeated(path, &chars_of("./")), '/');
    let b = crate::text::strip_leading_chars(&strip_prefix_repeated(&a, &chars_of("../")), '/');
    let seps = vec!['/'];
    assert(seps@ =~= seq!['/']);
    let parts = split_chars(&b, &seps);
    let ghost ps = crate::text::seqs_of(parts@);
    let ghost enc = ps.map_values(|seg: Seq<char>| encoded_segment(seg));
    let mut out: Vec<char> = Vec::new();
    let mut i: usize = 0;
    while i < parts.len()
        invariant
            i <= parts@.len(),
            ps == crate::text::seqs_of(parts@),
            enc == ps.map_values(|seg: Seq<char>| encoded_segment(seg)),
            out@ == joined(enc.take(i as int)),
        decreases parts@.len() - i,
    {
        assert(ps[i as int] == parts@[i as int]@);
        let e = encode_segment(&parts[i]);
        assert(enc.take(i + 1).drop_last() =~= enc.take(i as int));
        assert(enc.take(i + 1).last() == e@);
        if i == 0 {
            out = e;
            assert(enc.take(1) =~= seq![e@]);
        } else {
            out = concat(&concat(&out, &chars_of("/")), &e);
        }
        i = i + 1;
    }
    assert(enc.take(i as int) =~= enc);
    out
}

/// An image address without surrounding white space and angle brackets.
pub fn image_url_target(url: &str) -> (r: String)
    ensures
        r@ == image_target(url@),
{
    string_of(&strip_angles(&trim_chars(&chars_of(url))))
}

/// Where a README image address points, fetched through `mirror_prefix`,
/// given what the file-page and raw-address patterns matched in it.
pub fn clean_image_url_given(
    url: &str,
    owner: &str,
    repo: &str,
    mirror_prefix: &str,
    blob: Option<Vec<Option<String>>>,
    raw: Option<Vec<Option<String>>>,
) -> (r: String)
    ensures
        r@ == cleaned_image_url_given(url@, owner@, repo@, mirror_prefix@, opt_groups_view(blob), opt_groups_view(raw)),
{
    let t = strip_angles(&trim_chars(&chars_of(url)));
    proof {
        reveal_strlit("https://gh-proxy.com/");
    }
    if t.len() == 0 || t[0] == '#' || starts_with(&t, &chars_of("mailto:")) || starts_with(&t, &chars_of("data:"))
        || starts_with(&t, &chars_of("javascript:")) {
        return string_of(&t);
    }
    let m = chars_of(mirror_prefix);
    let prefix = if m.len() == 0 || m[m.len() - 1] == '/' {
        m
    } else {
        concat(&m, &chars_of("/"))
    };
    let direct = starts_with(&t, &chars_of("https://user-images.githubusercontent.com/")) || starts_with(
        &t,
        &chars_of("http://user-images.githubusercontent.com/"),
    ) || starts_with(&t, &chars_of("https://camo.githubusercontent.com/")) || starts_with(
        &t,
        &chars_of("http://camo.githubusercontent.com/"),
    ) || starts_with(&t, &chars_of("https://github.com/user-attachments/assets/")) || starts_with(
        &t,
        &chars_of("http://github.com/user-attachments/assets/"),
    ) || starts_with(&t, &chars_of("https://avatars.githubusercontent.com/")) || (contains_str(
        &t,
        &chars_of("github.com/"),
    ) && contains_str(&t, &chars_of("/assets/")));
    if direct {
        if starts_with(&t, &chars_of("https://gh-proxy.com/")) {
            return string_of(&slice_chars(&t, 21, t.len()));
        }
        return string_of(&t);
    }
    if prefix.len() > 0 && starts_with(&t, &prefix) {
        return string_of(&t);
    }
    let parts = match parts_of(blob) {
        Some(p) => Some(p),
        None => parts_of(raw),
    };
    match parts {
        Some(p) => {
            let raw = concat(
                &concat(
                    &concat(
                        &concat(
                            &concat(
                                &concat(&concat(&chars_of("https://raw.githubusercontent.com/"), &chars_of(p.0.as_str())), &chars_of("/")),
                                &chars_of(p.1.as_str()),
                            ),
                            &chars_of("/"),
                        ),
                        &chars_of(p.2.as_str()),
                    ),
                    &chars_of("/"),
                ),
                &chars_of(p.3.as_str()),
            );
            return string_of(&concat(&prefix, &raw));
        },
        None => {},
    }
    if starts_with(&t, &chars_of("https://raw.githubusercontent.com/")) || starts_with(&t, &chars_of("http://raw.githubusercontent.com/")) {
        return string_of(&concat(&prefix, &t));
    }
    if starts_with(&t, &chars_of("http://")) || starts_with(&t, &chars_of("https://")) {
        return string_of(&t);
    }
    let path = encode_relative_path(&t);
    let head = concat(
        &concat(
            &concat(&concat(&chars_of("https://raw.githubusercontent.com/"), &chars_of(owner)), &chars_of("/")),
            &chars_of(repo),
        ),
        &chars_of("/HEAD/"),
    );
    string_of(&concat(&concat(&prefix, &head), &path))
}



/// The matches of a regular expression in a text, in order and without
/// overlap, each with the text between it and the previous one; then the text
/// after the last match.
pub uninterp spec fn regex_segments_of(pattern: Seq<char>, text: Seq<char>) -> (Seq<(Seq<char>, Seq<Option<Seq<char>>>)>, Seq<char>);

pub open spec fn segments_view(v: Seq<(String, Vec<Option<String>>)>) -> Seq<(Seq<char>, Seq<Option<Seq<char>>>)> {
    v.map_values(|p: (String, Vec<Option<String>>)| (p.0@, groups_view(p.1@)))
}

/// `regex::Regex::new(pattern)` followed by `Regex::captures_iter(text)`:
/// each match's groups with the text before it, and the text after the last
/// match, named by `regex_segments_of`. A pattern that does not compile
/// gives no match.
#[verifier::external_body]
fn regex_segments(pattern: &str, text: &str) -> (r: (Vec<(String, Vec<Option<String>>)>, String))
    ensures
        regex_segments_of(pattern@, text@) == (segments_view(r.0@), r.1@),
{
    let Ok(re) = regex::Regex::new(pattern) else { return (Vec::new(), text.to_string()) };
    let mut segs = Vec::new();
    let mut last: usize = 0;
    for caps in re.captures_iter(text) {
        let Some(m) = caps.get(0) else { continue };
        segs.push((text[last..m.start()].to_string(), caps.iter().map(|g| g.map(|g| g.as_str().to_string())).collect()));
        last = m.end();
    }
    (segs, text[last..].to_string())
}

/// Group `k` of a match, or nothing when it did not take part.
pub open spec fn group(g: Seq<Option<Seq<char>>>, k: int) -> Seq<char> {
    if 0 <= k < g.len() && g[k] is Some {
        g[k]->0
    } else {
        Seq::empty()
    }
}

fn group_of(g: &Vec<Option<String>>, k: usize) -> (r: Vec<char>)
    ensures
        r@ == group(groups_view(g@), k as int),
{
    if k < g.len() {
        assert(groups_view(g@)[k as int] == opt_str_view(g@[k as int]));
        match &g[k] {
            Some(x) => chars_of(x.as_str()),
            None => Vec::new(),
        }
    } else {
        Vec::new()
    }
}

/// The rewriting passes over a README.
#[derive(Debug, Clone, Copy, PartialEq, Eq, Structural)]
pub enum ReadmePass {
    /// Markdown images `![alt](url "title")`.
    MarkdownImage,
    /// Reference definitions `[ref]: url`.
    ReferenceLink,
    /// HTML `<img src="...">`.
    HtmlImage,
    /// HTML `<source srcset="...">`.
    HtmlSource,
}

pub open spec fn pass_pattern(p: ReadmePass) -> Seq<char> {
    match p {
        ReadmePass::MarkdownImage => "!\\[(.*?)\\]\\((\\s*<)?([^\\s\\)>]+)(>)?(\\s+.*?)?\\)"@,
        ReadmePass::ReferenceLink => "(?m)^(\\s*\\[[^\\]]+\\]:\\s*)(\\S+)(\\s*.*)$"@,
        ReadmePass::HtmlImage => "(?i)<img\\s+([^>]*?)src=[\"']([^\"']+)[\"']([^>]*?)>"@,
        ReadmePass::HtmlSource => "(?i)<source\\s+([^>]*?)srcset=[\"']([^\"']+)[\"']([^>]*?)>"@,
    }
}

fn pass_pattern_exec(p: ReadmePass) -> (r: &'static str)
    ensures
        r@ == pass_pattern(p),
{
    match p {
        ReadmePass::MarkdownImage => "!\\[(.*?)\\]\\((\\s*<)?([^\\s\\)>]+)(>)?(\\s+.*?)?\\)",
        ReadmePass::ReferenceLink => "(?m)^(\\s*\\[[^\\]]+\\]:\\s*)(\\S+)(\\s*.*)$",
        ReadmePass::HtmlImage => "(?i)<img\\s+([^>]*?)src=[\"']([^\"']+)[\"']([^>]*?)>",
        ReadmePass::HtmlSource => "(?i)<source\\s+([^>]*?)srcset=[\"']([^\"']+)[\"']([^>]*?)>",
    }
}

/// A reference definition whose target is taken for an image: an image file
/// ending, a GitHub file page or raw file, or a relative path.
pub open spec fn is_image_reference(url: Seq<char>) -> bool {
    let l = crate::text::lowercase(url);
    crate::text::is_suffix(".png"@, l) || crate::text::is_suffix(".svg"@, l) || crate::text::is_suffix(".jpg"@, l)
        || crate::text::is_suffix(".jpeg"@, l) || crate::text::is_suffix(".gif"@, l) || crate::text::is_suffix(
        ".webp"@,
        l,
    ) || crate::text::is_suffix(".ico"@, l) || crate::text::is_suffix(".avif"@, l) || has_substring(l, "/blob/"@)
        || has_substring(l, "/raw/"@) || (!is_prefix("http://"@, url) && !is_prefix("https://"@, url) && !is_prefix(
        "#"@,
        url,
    ) && !is_prefix("mailto:"@, url))
}

fn is_image_reference_exec(url: &[char]) -> (r: bool)
    ensures
        r == is_image_reference(url@),
{
    let l = crate::text::lowercase_chars(url);
    crate::text::ends_with(&l, &chars_of(".png")) || crate::text::ends_with(&l, &chars_of(".svg")) || crate::text::ends_with(
        &l,
        &chars_of(".jpg"),
    ) || crate::text::ends_with(&l, &chars_of(".jpeg")) || crate::text::ends_with(&l, &chars_of(".gif"))
        || crate::text::ends_with(&l, &chars_of(".webp")) || crate::text::ends_with(&l, &chars_of(".ico"))
        || crate::text::ends_with(&l, &chars_of(".avif")) || contains_str(&l, &chars_of("/blob/")) || contains_str(
        &l,
        &chars_of("/raw/"),
    ) || (!starts_with(url, &chars_of("http://")) && !starts_with(url, &chars_of("https://")) && !starts_with(
        url,
        &chars_of("#"),
    ) && !starts_with(url, &chars_of("mailto:")))
}

/// Words joined by single spaces.
pub open spec fn joined_words(w: Seq<Seq<char>>) -> Seq<char>
    decreases w.len(),
{
    if w.len() == 0 {
        Seq::empty()
    } else if w.len() == 1 {
        w[0]
    } else {
        joined_words(w.drop_last()) + " "@ + w.last()
    }
}

/// One candidate of a `srcset`: its address rewritten, its descriptors kept.
pub open spec fn srcset_candidate(cand: Seq<char>, owner: Seq<char>, repo: Seq<char>) -> Seq<char> {
    let parts = crate::text::split_nonempty(cand, crate::detail::ws_chars());
    if parts.len() == 0 {
        cand
    } else if parts.len() > 1 {
        cleaned_image_url(parts[0], owner, repo, "https://gh-proxy.com/"@) + " "@ + joined_words(parts.skip(1))
    } else {
        cleaned_image_url(parts[0], owner, repo, "https://gh-proxy.com/"@)
    }
}

/// Candidates joined by `, `.
pub open spec fn joined_candidates(c: Seq<Seq<char>>) -> Seq<char>
    decreases c.len(),
{
    if c.len() == 0 {
        Seq::empty()
    } else if c.len() == 1 {
        c[0]
    } else {
        joined_candidates(c.drop_last()) + ", "@ + c.last()
    }
}

pub open spec fn rewritten_srcset(srcset: Seq<char>, owner: Seq<char>, repo: Seq<char>) -> Seq<char> {
    joined_candidates(split(srcset, seq![',']).map_values(|c: Seq<char>| srcset_candidate(c, owner, repo)))
}

/// What one match becomes in a pass.
pub open spec fn replacement(p: ReadmePass, g: Seq<Option<Seq<char>>>, owner: Seq<char>, repo: Seq<char>) -> Seq<char> {
    let mirror = "https://gh-proxy.com/"@;
    match p {
        ReadmePass::MarkdownImage => {
            let title = group(g, 5);
            "!["@ + group(g, 1) + "]("@ + cleaned_image_url(group(g, 3), owner, repo, mirror) + title + ")"@
        },
        ReadmePass::ReferenceLink => {
            let url = group(g, 2);
            group(g, 1) + (if is_image_reference(url) {
                cleaned_image_url(url, owner, repo, mirror)
            } else {
                url
            }) + group(g, 3)
        },
        ReadmePass::HtmlImage => "<img "@ + group(g, 1) + "src=\""@ + cleaned_image_url(group(g, 2), owner, repo, mirror)
            + "\""@ + group(g, 3) + ">"@,
        ReadmePass::HtmlSource => "<source "@ + group(g, 1) + "srcset=\""@ + rewritten_srcset(group(g, 2), owner, repo)
            + "\""@ + group(g, 3) + ">"@,
    }
}

/// A text put back together from its segments, each match replaced.
pub open spec fn rebuilt(
    p: ReadmePass,
    segs: Seq<(Seq<char>, Seq<Option<Seq<char>>>)>,
    tail: Seq<char>,
    owner: Seq<char>,
    repo: Seq<char>,
) -> Seq<char>
    decreases segs.len(),
{
    if segs.len() == 0 {
        tail
    } else {
        segs[0].0 + replacement(p, segs[0].1, owner, repo) + rebuilt(p, segs.drop_first(), tail, owner, repo)
    }
}

proof fn lemma_rebuilt_prefix(
    p: ReadmePass,
    segs: Seq<(Seq<char>, Seq<Option<Seq<char>>>)>,
    tail: Seq<char>,
    owner: Seq<char>,
    repo: Seq<char>,
    i: int,
)
    requires
        0 <= i < segs.len(),
    ensures
        rebuilt(p, segs.skip(i), tail, owner, repo) == segs[i].0 + replacement(p, segs[i].1, owner, repo) + rebuilt(
            p,
            segs.skip(i + 1),
            tail,
            owner,
            repo,
        ),
{
    assert(segs.skip(i).drop_first() =~= segs.skip(i + 1));
    assert(segs.skip(i)[0] == segs[i]);
}

fn joined_words_exec(w: &Vec<Vec<char>>, from: usize) -> (r: Vec<char>)
    requires
        from <= w@.len(),
    ensures
        r@ == joined_words(crate::text::seqs_of(w@).skip(from as int)),
{
    let ghost ws = crate::text::seqs_of(w@).skip(from as int);
    let mut out: Vec<char> = Vec::new();
    let mut i: usize = from;
    assert(ws.take(0) =~= Seq::<Seq<char>>::empty());
    while i < w.len()
        invariant
            from <= i <= w@.len(),
            ws == crate::text::seqs_of(w@).skip(from as int),
            out@ == joined_words(ws.take(i - from)),
        decreases w@.len() - i,
    {
        assert(ws.take(i - from + 1).drop_last() =~= ws.take(i - from));
        assert(ws.take(i - from + 1).last() == w@[i as int]@);
        if i == from {
            out = slice_chars(&w[i], 0, w[i].len());
            assert(ws.take(1) =~= seq![w@[i as int]@]);
        } else {
            out = concat(&concat(&out, &chars_of(" ")), &w[i]);
        }
        i = i + 1;
    }
    assert(ws.take(i - from) =~= ws);
    out
}

fn srcset_candidate_exec(cand: &[char], owner: &str, repo: &str, ws: &Vec<char>) -> (r: Vec<char>)
    requires
        ws@ == crate::detail::ws_chars(),
    ensures
        r@ == srcset_candidate(cand@, owner@, repo@),
{
    let parts = crate::text::nonempty_pieces(split_chars(cand, ws));
    let ghost pv = crate::text::seqs_of(parts@);
    if parts.len() == 0 {
        return slice_chars(cand, 0, cand.len());
    }
    assert(pv[0] == parts@[0]@);
    let first = string_of(&parts[0]);
    let c = CatalogService::clean_image_url(first.as_str(), owner, repo);
    if parts.len() > 1 {
        let rest = joined_words_exec(&parts, 1);
        concat(&concat(&chars_of(c.as_str()), &chars_of(" ")), &rest)
    } else {
        chars_of(c.as_str())
    }
}

fn rewrite_srcset(srcset: &[char], owner: &str, repo: &str) -> (r: Vec<char>)
    ensures
        r@ == rewritten_srcset(srcset@, owner@, repo@),
{
    let ws = crate::detail::ws_vec();
    let seps = vec![','];
    assert(seps@ =~= seq![',']);
    let cands = split_chars(srcset, &seps);
    let ghost cs = crate::text::seqs_of(cands@);
    let ghost mapped = cs.map_values(|c: Seq<char>| srcset_candidate(c, owner@, repo@));
    let mut out: Vec<char> = Vec::new();
    let mut i: usize = 0;
    while i < cands.len()
        invariant
            i <= cands@.len(),
            cs == crate::text::seqs_of(cands@),
            mapped == cs.map_values(|c: Seq<char>| srcset_candidate(c, owner@, repo@)),
            ws@ == crate::detail::ws_chars(),
            out@ == joined_candidates(mapped.take(i as int)),
        decreases cands@.len() - i,
    {
        assert(cs[i as int] == cands@[i as int]@);
        let e = srcset_candidate_exec(&cands[i], owner, repo, &ws);
        assert(mapped.take(i + 1).drop_last() =~= mapped.take(i as int));
        assert(mapped.take(i + 1).last() == e@);
        if i == 0 {
            out = e;
            assert(mapped.take(1) =~= seq![e@]);
        } else {
            out = concat(&concat(&out, &chars_of(", ")), &e);
        }
        i = i + 1;
    }
    assert(mapped.take(i as int) =~= mapped);
    out
}

fn replacement_exec(p: ReadmePass, g: &Vec<Option<String>>, owner: &str, repo: &str) -> (r: Vec<char>)
    ensures
        r@ == replacement(p, groups_view(g@), owner@, repo@),
{
    match p {
        ReadmePass::MarkdownImage => {
            let url = string_of(&group_of(g, 3));
            let c = CatalogService::clean_image_url(url.as_str(), owner, repo);
            concat(
                &concat(
                    &concat(&concat(&concat(&chars_of("!["), &group_of(g, 1)), &chars_of("](")), &chars_of(c.as_str())),
                    &group_of(g, 5),
                ),
                &chars_of(")"),
            )
        },
        ReadmePass::ReferenceLink => {
            let url = group_of(g, 2);
            let target = if is_image_reference_exec(&url) {
                let u = string_of(&url);
                chars_of(CatalogService::clean_image_url(u.as_str(), owner, repo).as_str())
            } else {
                url
            };
            concat(&concat(&group_of(g, 1), &target), &group_of(g, 3))
        },
        ReadmePass::HtmlImage => {
            let url = string_of(&group_of(g, 2));
            let c = CatalogService::clean_image_url(url.as_str(), owner, repo);
            concat(
                &concat(
                    &concat(
                        &concat(&concat(&chars_of("<img "), &group_of(g, 1)), &chars_of("src=\"")),
                        &chars_of(c.as_str()),
                    ),
                    &concat(&chars_of("\""), &group_of(g, 3)),
                ),
                &chars_of(">"),
            )
        },
        ReadmePass::HtmlSource => {
            let set = rewrite_srcset(&group_of(g, 2), owner, repo);
            concat(
                &concat(
                    &concat(&concat(&concat(&chars_of("<source "), &group_of(g, 1)), &chars_of("srcset=\"")), &set),
                    &concat(&chars_of("\""), &group_of(g, 3)),
                ),
                &chars_of(">"),
            )
        },
    }
}

/// One pass over a text, given its segments: each match replaced, the text
/// between matches kept.
pub fn rewrite_pass_given(
    p: ReadmePass,
    segments: &Vec<(String, Vec<Option<String>>)>,
    tail: &str,
    owner: &str,
    repo: &str,
) -> (r: String)
    ensures
        r@ == rebuilt(p, segments_view(segments@), tail@, owner@, repo@),
{
    let ghost sv = segments_view(segments@);
    let mut pieces: Vec<Vec<char>> = Vec::new();
    let mut i: usize = 0;
    while i < segments.len()
        invariant
            i <= segments@.len(),
            sv == segments_view(segments@),
            pieces@.len() == i,
            forall|k: int| 0 <= k < i ==> (#[trigger] pieces@[k])@ == sv[k].0 + replacement(p, sv[k].1, owner@, repo@),
        decreases segments@.len() - i,
    {
        assert(sv[i as int] == (segments@[i as int].0@, groups_view(segments@[i as int].1@)));
        let rep = replacement_exec(p, &segments[i].1, owner, repo);
        pieces.push(concat(&chars_of(segments[i].0.as_str()), &rep));
        i = i + 1;
    }
    let mut out: Vec<char> = chars_of(tail);
    let mut k: usize = pieces.len();
    assert(sv.skip(sv.len() as int) =~= Seq::<(Seq<char>, Seq<Option<Seq<char>>>)>::empty());
    while k > 0
        invariant
            k <= pieces@.len(),
            pieces@.len() == sv.len(),
            forall|m: int| 0 <= m < pieces@.len() ==> (#[trigger] pieces@[m])@ == sv[m].0 + replacement(p, sv[m].1, owner@, repo@),
            out@ == rebuilt(p, sv.skip(k as int), tail@, owner@, repo@),
        decreases k,
    {
        k = k - 1;
        proof {
            lemma_rebuilt_prefix(p, sv, tail@, owner@, repo@, k as int);
        }
        out = concat(&pieces[k], &out);
    }
    assert(sv.skip(0) =~= sv);
    string_of(&out)
}

/// One pass over a text: the pass's pattern is matched and each match replaced.
pub open spec fn pass_result(p: ReadmePass, text: Seq<char>, owner: Seq<char>, repo: Seq<char>) -> Seq<char> {
    let s = regex_segments_of(pass_pattern(p), text);
    rebuilt(p, s.0, s.1, owner, repo)
}

fn rewrite_pass(p: ReadmePass, text: &str, owner: &str, repo: &str) -> (r: String)
    ensures
        r@ == pass_result(p, text@, owner@, repo@),
{
    let (segs, tail) = regex_segments(pass_pattern_exec(p), text);
    rewrite_pass_given(p, &segs, tail.as_str(), owner, repo)
}

/// A README with its image addresses rewritten: Markdown images, image
/// reference definitions, HTML images and `srcset`s, in that order.
pub open spec fn readme_rewritten(md: Seq<char>, owner: Seq<char>, repo: Seq<char>) -> Seq<char> {
    let t1 = pass_result(ReadmePass::MarkdownImage, md, owner, repo);
    let t2 = pass_result(ReadmePass::ReferenceLink, t1, owner, repo);
    let t3 = pass_result(ReadmePass::HtmlImage, t2, owner, repo);
    pass_result(ReadmePass::HtmlSource, t3, owner, repo)
}


/// `str::lines`: split at `\n`, a `\r` before it dropped, no final empty line.
pub open spec fn lines_of(text: Seq<char>) -> Seq<Seq<char>> {
    let pieces = split(text, seq!['\n']);
    let body = pieces.drop_last().map_values(strip_cr_fn());
    if pieces.last().len() == 0 {
        body
    } else {
        body.push(pieces.last())
    }
}

pub open spec fn strip_cr_fn() -> spec_fn(Seq<char>) -> Seq<char> {
    |l: Seq<char>| strip_cr(l)
}

pub open spec fn strip_cr(l: Seq<char>) -> Seq<char> {
    if l.len() > 0 && l.last() == '\r' {
        l.drop_last()
    } else {
        l
    }
}

/// Lines joined by `\n`.
pub open spec fn joined_lines(ls: Seq<Seq<char>>) -> Seq<char>
    decreases ls.len(),
{
    if ls.len() == 0 {
        Seq::empty()
    } else if ls.len() == 1 {
        ls[0]
    } else {
        joined_lines(ls.drop_last()) + "\n"@ + ls.last()
    }
}

/// The first 40 lines of a README, where its logo is looked for.
pub open spec fn readme_head(md: Seq<char>) -> Seq<char> {
    let ls = lines_of(md);
    joined_lines(if ls.len() > 40 { ls.take(40) } else { ls })
}

fn readme_head_exec(md: &str) -> (r: String)
    ensures
        r@ == readme_head(md@),
{
    let seps = vec!['\n'];
    assert(seps@ =~= seq!['\n']);
    let pieces = split_chars(&chars_of(md), &seps);
    let ghost ps = crate::text::seqs_of(pieces@);
    proof {
        crate::text::lemma_split_len(md@, seq!['\n']);
    }
    let ghost ls = lines_of(md@);
    let n = pieces.len();
    let last_empty = pieces[n - 1].len() == 0;
    assert(ps.last() == pieces@[n - 1]@);
    let count: usize = if last_empty { n - 1 } else { n };
    let limit: usize = if count > 40 { 40 } else { count };
    assert(ls.len() == count);
    let mut out: Vec<char> = Vec::new();
    let mut i: usize = 0;
    while i < limit
        invariant
            i <= limit <= count,
            count == ls.len(),
            n == pieces@.len(),
            n >= 1,
            ps == crate::text::seqs_of(pieces@),
            ps == split(md@, seq!['\n']),
            ls == lines_of(md@),
            count == (if last_empty { n - 1 } else { n as int }),
            last_empty == (ps.last().len() == 0),
            out@ == joined_lines(ls.take(i as int)),
        decreases limit - i,
    {
        assert(ps[i as int] == pieces@[i as int]@);
        let line = if i + 1 < n {
            let l = &pieces[i];
            if l.len() > 0 && l[l.len() - 1] == '\r' {
                slice_chars(l, 0, l.len() - 1)
            } else {
                slice_chars(l, 0, l.len())
            }
        } else {
            slice_chars(&pieces[i], 0, pieces[i].len())
        };
        assert(line@ == ls[i as int]) by {
            let body = ps.drop_last().map_values(strip_cr_fn());
            assert(body.len() == n - 1);
            if i + 1 < n {
                assert(ps.drop_last()[i as int] == ps[i as int]);
                assert(ls[i as int] == body[i as int]);
                assert(line@ =~= strip_cr(ps[i as int]));
            } else {
                assert(!last_empty);
                assert(ls == body.push(ps.last()));
                assert(ls[i as int] == ps.last());
                assert(ps.last() == ps[i as int]);
                assert(line@ =~= ps[i as int]);
            }
        }
        assert(ls.take(i + 1).drop_last() =~= ls.take(i as int));
        assert(ls.take(i + 1).last() == line@);
        if i == 0 {
            out = line;
            assert(ls.take(1) =~= seq![ls[0]]);
        } else {
            out = concat(&concat(&out, &chars_of("\n")), &line);
        }
        i = i + 1;
    }
    assert(ls.take(limit as int) =~= (if ls.len() > 40 { ls.take(40) } else { ls }));
    string_of(&out)
}

/// The characters that have a meaning in a regular expression.
pub open spec fn is_regex_meta(c: char) -> bool {
    c == '\\' || c == '.' || c == '+' || c == '*' || c == '?' || c == '(' || c == ')' || c == '|' || c == '['
        || c == ']' || c == '{' || c == '}' || c == '^' || c == '$' || c == '#' || c == '&' || c == '-' || c == '~'
}

/// A regular expression that matches `s` literally: every meta character
/// preceded by a backslash.
pub open spec fn regex_escaped(s: Seq<char>) -> Seq<char>
    decreases s.len(),
{
    if s.len() == 0 {
        Seq::empty()
    } else {
        regex_escaped(s.drop_last()) + if is_regex_meta(s.last()) {
            seq!['\\', s.last()]
        } else {
            seq![s.last()]
        }
    }
}

/// `regex::escape`: `s` with a backslash put before each meta character
/// (`regex_syntax::is_meta_character`), as its source does.
#[verifier::external_body]
fn regex_escape(s: &str) -> (r: String)
    ensures
        r@ == regex_escaped(s@),
{
    regex::escape(s)
}

/// Whether a regular expression matches somewhere in a text; none when the
/// pattern does not compile.
pub uninterp spec fn regex_is_match_of(pattern: Seq<char>, text: Seq<char>) -> Option<bool>;

/// `regex::Regex::new(pattern)` followed by `Regex::is_match(text)`, named by
/// `regex_is_match_of`.
#[verifier::external_body]
fn regex_is_match(pattern: &str, text: &str) -> (r: Option<bool>)
    ensures
        r == regex_is_match_of(pattern@, text@),
{
    match regex::Regex::new(pattern) {
        Ok(re) => Some(re.is_match(text)),
        Err(_) => None,
    }
}

/// A text with the first match of a regular expression removed; none when
/// the pattern does not compile.
pub uninterp spec fn regex_removed_first_of(pattern: Seq<char>, text: Seq<char>) -> Option<Seq<char>>;

/// `regex::Regex::new(pattern)` followed by `Regex::replace(text, "")`, named
/// by `regex_removed_first_of`.
#[verifier::external_body]
fn regex_remove_first(pattern: &str, text: &str) -> (r: Option<String>)
    ensures
        opt_str_view(r) == regex_removed_first_of(pattern@, text@),
{
    match regex::Regex::new(pattern) {
        Ok(re) => Some(re.replace(text, "").into_owned()),
        Err(_) => None,
    }
}

pub open spec fn logo_html_pattern() -> Seq<char> {
    "(?i)<img\\s+[^>]*?src=[\"']([^\"']+)[\"'][^>]*>"@
}

/// Image addresses that are badges, not logos.
pub open spec fn badge_like(l: Seq<char>) -> bool {
    has_substring(l, "badge"@) || has_substring(l, "shields.io"@) || has_substring(l, "workflow"@) || has_substring(
        l,
        "license"@,
    )
}

pub open spec fn image_file_like(l: Seq<char>) -> bool {
    crate::text::is_suffix(".png"@, l) || crate::text::is_suffix(".svg"@, l)
}

/// An HTML image taken for the logo.
pub open spec fn html_logo_candidate(src: Seq<char>) -> bool {
    let l = crate::text::lowercase(src);
    !badge_like(l) && (has_substring(l, "logo"@) || has_substring(l, "icon"@) || has_substring(l, "app"@)
        || has_substring(l, "brand"@) || has_substring(l, "splash"@) || image_file_like(l))
}

/// A Markdown image taken for the logo.
pub open spec fn md_logo_candidate(alt: Seq<char>, src: Seq<char>) -> bool {
    let a = crate::text::lowercase(alt);
    let l = crate::text::lowercase(src);
    !badge_like(l) && (has_substring(a, "logo"@) || has_substring(a, "icon"@) || has_substring(a, "app"@)
        || has_substring(a, "brand"@) || has_substring(l, "logo"@) || has_substring(l, "icon"@) || image_file_like(l))
}

/// The first match whose image is taken for the logo.
pub open spec fn first_logo(segs: Seq<(Seq<char>, Seq<Option<Seq<char>>>)>, html: bool) -> Option<Seq<Option<Seq<char>>>>
    decreases segs.len(),
{
    if segs.len() == 0 {
        None
    } else {
        let g = segs[0].1;
        let hit = if html {
            html_logo_candidate(group(g, 1))
        } else {
            md_logo_candidate(group(g, 1), group(g, 3))
        };
        if hit {
            Some(g)
        } else {
            first_logo(segs.drop_first(), html)
        }
    }
}

/// The position of the first match whose image is taken for the logo (HTML
/// images when `html`, Markdown images otherwise).
pub fn first_logo_match(segs: &Vec<(String, Vec<Option<String>>)>, html: bool) -> (r: Option<usize>)
    ensures
        match r {
            Some(k) => k < segs@.len() && first_logo(segments_view(segs@), html) == Some(groups_view(segs@[k as int].1@)),
            None => first_logo(segments_view(segs@), html) is None,
        },
{
    let ghost sv = segments_view(segs@);
    let mut i: usize = 0;
    assert(sv.skip(0) =~= sv);
    while i < segs.len()
        invariant
            i <= segs@.len(),
            sv == segments_view(segs@),
            first_logo(sv, html) == first_logo(sv.skip(i as int), html),
        decreases segs@.len() - i,
    {
        assert(sv.skip(i as int)[0] == sv[i as int]);
        assert(sv.skip(i as int).drop_first() =~= sv.skip(i + 1));
        assert(sv[i as int] == (segs@[i as int].0@, groups_view(segs@[i as int].1@)));
        let g = &segs[i].1;
        let hit = if html {
            let l = crate::text::lowercase_chars(&group_of(g, 1));
            !badge_exec(&l) && (contains_str(&l, &chars_of("logo")) || contains_str(&l, &chars_of("icon")) || contains_str(
                &l,
                &chars_of("app"),
            ) || contains_str(&l, &chars_of("brand")) || contains_str(&l, &chars_of("splash")) || crate::text::ends_with(
                &l,
                &chars_of(".png"),
            ) || crate::text::ends_with(&l, &chars_of(".svg")))
        } else {
            let a = crate::text::lowercase_chars(&group_of(g, 1));
            let l = crate::text::lowercase_chars(&group_of(g, 3));
            !badge_exec(&l) && (contains_str(&a, &chars_of("logo")) || contains_str(&a, &chars_of("icon")) || contains_str(
                &a,
                &chars_of("app"),
            ) || contains_str(&a, &chars_of("brand")) || contains_str(&l, &chars_of("logo")) || contains_str(
                &l,
                &chars_of("icon"),
            ) || crate::text::ends_with(&l, &chars_of(".png")) || crate::text::ends_with(&l, &chars_of(".svg")))
        };
        if hit {
            return Some(i);
        }
        i = i + 1;
    }
    None
}

fn badge_exec(l: &[char]) -> (r: bool)
    ensures
        r == badge_like(l@),
{
    contains_str(l, &chars_of("badge")) || contains_str(l, &chars_of("shields.io")) || contains_str(l, &chars_of("workflow"))
        || contains_str(l, &chars_of("license"))
}

/// A centred paragraph or block holding only the given (escaped) tag.
pub open spec fn centred_container_pattern(escaped_tag: Seq<char>, block: Seq<char>) -> Seq<char> {
    "(?is)<"@ + block + "\\s+align=[\"']center[\"']>\\s*"@ + escaped_tag + "\\s*(?:<br\\s*/?>)?\\s*</"@ + block + ">"@
}

/// The logo of a README, as a cleaned address, and the README without the
/// centred container that held only the logo (else unchanged). An HTML image
/// in the first 40 lines is preferred to a Markdown one.
pub open spec fn logo_extraction(md: Seq<char>, owner: Seq<char>, repo: Seq<char>) -> (Option<Seq<char>>, Seq<char>) {
    let head = readme_head(md);
    let mirror = "https://gh-proxy.com/"@;
    match first_logo(regex_segments_of(logo_html_pattern(), head).0, true) {
        Some(g) => {
            let cleaned = cleaned_image_url(group(g, 1), owner, repo, mirror);
            let tag = regex_escaped(group(g, 0));
            let pp = centred_container_pattern(tag, "p"@);
            let dp = centred_container_pattern(tag, "div"@);
            if regex_is_match_of(pp, md) == Some(true) && regex_removed_first_of(pp, md) is Some {
                (Some(cleaned), regex_removed_first_of(pp, md)->0)
            } else if regex_is_match_of(dp, md) == Some(true) && regex_removed_first_of(dp, md) is Some {
                (Some(cleaned), regex_removed_first_of(dp, md)->0)
            } else {
                (Some(cleaned), md)
            }
        },
        None => match first_logo(regex_segments_of(pass_pattern(ReadmePass::MarkdownImage), head).0, false) {
            Some(g) => (Some(cleaned_image_url(group(g, 3), owner, repo, mirror)), md),
            None => (None, md),
        },
    }
}

fn container_pattern(escaped: &str, block: &str) -> (r: String)
    ensures
        r@ == centred_container_pattern(escaped@, block@),
{
    let v = concat(
        &concat(
            &concat(
                &concat(
                    &concat(&concat(&chars_of("(?is)<"), &chars_of(block)), &chars_of("\\s+align=[\"']center[\"']>\\s*")),
                    &chars_of(escaped),
                ),
                &chars_of("\\s*(?:<br\\s*/?>)?\\s*</"),
            ),
            &chars_of(block),
        ),
        &chars_of(">"),
    );
    string_of(&v)
}



impl CatalogService {
    /// Where a README image address points, fetched through `mirror_prefix`.
    pub fn clean_image_url_with_mirror(url: &str, owner: &str, repo: &str, mirror_prefix: &str) -> (r: String)
        ensures
            r@ == cleaned_image_url(url@, owner@, repo@, mirror_prefix@),
    {
        let t = image_url_target(url);
        let blob = regex_captures("(?i)^https?://github\\.com/([^/]+)/([^/]+)/blob/([^/]+)/([^?#]+)(?:[?#].*)?$", t.as_str());
        let raw = regex_captures("(?i)^https?://github\\.com/([^/]+)/([^/]+)/raw/([^/]+)/([^?#]+)(?:[?#].*)?$", t.as_str());
        proof {
            reveal_strlit("(?i)^https?://github\\.com/([^/]+)/([^/]+)/blob/([^/]+)/([^?#]+)(?:[?#].*)?$");
            reveal_strlit("(?i)^https?://github\\.com/([^/]+)/([^/]+)/raw/([^/]+)/([^?#]+)(?:[?#].*)?$");
        }
        clean_image_url_given(url, owner, repo, mirror_prefix, blob, raw)
    }

    /// Where a README image address points, through the public GitHub mirror.
    pub fn clean_image_url(url: &str, owner: &str, repo: &str) -> (r: String)
        ensures
            r@ == cleaned_image_url(url@, owner@, repo@, "https://gh-proxy.com/"@),
    {
        CatalogService::clean_image_url_with_mirror(url, owner, repo, "https://gh-proxy.com/")
    }

    /// Points the images of a README at their raw files, through the mirror.
    pub fn rewrite_readme_images(raw_markdown: &str, owner: &str, repo: &str) -> (r: String)
        ensures
            r@ == readme_rewritten(raw_markdown@, owner@, repo@),
    {
        let t1 = rewrite_pass(ReadmePass::MarkdownImage, raw_markdown, owner, repo);
        let t2 = rewrite_pass(ReadmePass::ReferenceLink, t1.as_str(), owner, repo);
        let t3 = rewrite_pass(ReadmePass::HtmlImage, t2.as_str(), owner, repo);
        rewrite_pass(ReadmePass::HtmlSource, t3.as_str(), owner, repo)
    }

    /// Finds the logo of a README and removes it when it stands alone in a
    /// centred container.
    pub fn extract_and_strip_logo_from_readme(raw_markdown: &str, owner: &str, repo: &str) -> (r: (Option<String>, String))
        ensures
            (opt_str_view(r.0), r.1@) == logo_extraction(raw_markdown@, owner@, repo@),
    {
        let head = readme_head_exec(raw_markdown);
        let (html_segs, _) = regex_segments("(?i)<img\\s+[^>]*?src=[\"']([^\"']+)[\"'][^>]*>", head.as_str());
        match first_logo_match(&html_segs, true) {
            Some(k) => {
                let g = &html_segs[k].1;
                let src = string_of(&group_of(g, 1));
                let cleaned = CatalogService::clean_image_url(src.as_str(), owner, repo);
                let full = string_of(&group_of(g, 0));
                let tag = regex_escape(full.as_str());
                let pp = container_pattern(tag.as_str(), "p");
                if regex_is_match(pp.as_str(), raw_markdown) == Some(true) {
                    match regex_remove_first(pp.as_str(), raw_markdown) {
                        Some(stripped) => {
                            return (Some(cleaned), stripped);
                        },
                        None => {},
                    }
                }
                let dp = container_pattern(tag.as_str(), "div");
                if regex_is_match(dp.as_str(), raw_markdown) == Some(true) {
                    match regex_remove_first(dp.as_str(), raw_markdown) {
                        Some(stripped) => {
                            return (Some(cleaned), stripped);
                        },
                        None => {},
                    }
                }
                return (Some(cleaned), string_of(&chars_of(raw_markdown)));
            },
            None => {},
        }
        let (md_segs, _) = regex_segments(pass_pattern_exec(ReadmePass::MarkdownImage), head.as_str());
        match first_logo_match(&md_segs, false) {
            Some(k) => {
                let src = string_of(&group_of(&md_segs[k].1, 3));
                (Some(CatalogService::clean_image_url(src.as_str(), owner, repo)), string_of(&chars_of(raw_markdown)))
            },
            None => (None, string_of(&chars_of(raw_markdown))),
        }
    }

    /// The logo of a README, if it has one.
    pub fn extract_logo_from_readme(raw_markdown: &str, owner: &str, repo: &str) -> (r: Option<String>)
        ensures
            opt_str_view(r) == logo_extraction(raw_markdown@, owner@, repo@).0,
    {
        CatalogService::extract_and_strip_logo_from_readme(raw_markdown, owner, repo).0
    }
}

} // verus!
