//! The `zstore://` URL scheme: what a link asks the store to do.

use vstd::prelude::*;
use vstd::utf8::{decode_utf8, encode_utf8, is_char_boundary};
use vstd::string::StringSliceAdditionalSpecFns;
use crate::text::{
    chars_of, eq_ascii_ci, eq_chars, eq_ignore_ascii_case, find_char, first_index,
    is_prefix, lemma_first_index, lowercase, lowercase_chars, seqs_of, slice_chars,
    split, split_chars, starts_with, string_of, strip_leading, strip_leading_chars, strip_trailing,
    trim, trim_chars,
};
use crate::urlcodec::{decode_or_keep, url_decode, url_decoded};

verus! {

broadcast use vstd::utf8::group_utf8_lib;

/// What a deep link asks the store to do.
#[derive(Debug, PartialEq, Eq)]
pub enum DeepLinkAction {
    AppDetail { app_id: String },
    InstallApp { app_id: String },
    Search { query: String },
    DeveloperProfile { owner: String },
    OpenView { view: String },
}

/// Mathematical value of a deep-link action.
pub enum ActionView {
    AppDetail(Seq<char>),
    InstallApp(Seq<char>),
    Search(Seq<char>),
    DeveloperProfile(Seq<char>),
    OpenView(Seq<char>),
}

impl View for DeepLinkAction {
    type V = ActionView;

    open spec fn view(&self) -> ActionView {
        match self {
            DeepLinkAction::AppDetail { app_id } => ActionView::AppDetail(app_id@),
            DeepLinkAction::InstallApp { app_id } => ActionView::InstallApp(app_id@),
            DeepLinkAction::Search { query } => ActionView::Search(query@),
            DeepLinkAction::DeveloperProfile { owner } => ActionView::DeveloperProfile(owner@),
            DeepLinkAction::OpenView { view } => ActionView::OpenView(view@),
        }
    }
}

pub open spec fn action_option_view(a: Option<DeepLinkAction>) -> Option<ActionView> {
    match a {
        Some(x) => Some(x@),
        None => None,
    }
}

/// The bytes of `zstore://`.
pub open spec fn scheme_bytes() -> Seq<u8> {
    seq![0x7au8, 0x73u8, 0x74u8, 0x6fu8, 0x72u8, 0x65u8, 0x3au8, 0x2fu8, 0x2fu8]
}

pub open spec fn lower_byte(b: u8) -> u8 {
    if 0x41 <= b && b <= 0x5a {
        (b + 32) as u8
    } else {
        b
    }
}

/// The first nine bytes spell `zstore://`, ignoring ASCII case.
pub open spec fn has_scheme(b: Seq<u8>) -> bool {
    b.len() >= 9 && forall|i: int| 0 <= i < 9 ==> lower_byte(b[i]) == scheme_bytes()[i]
}

/// The link can be cut after its ninth byte. Where it cannot, the scheme check
/// would slice through a character.
pub open spec fn deep_link_sliceable(raw: Seq<char>) -> bool {
    let b = encode_utf8(trim(raw));
    b.len() < 9 || is_char_boundary(b, 9)
}

/// The part of a link after `zstore://`.
pub open spec fn after_scheme(raw: Seq<char>) -> Option<Seq<char>> {
    let s = trim(raw);
    let b = encode_utf8(s);
    if s.len() == 0 {
        None
    } else if has_scheme(b) {
        Some(decode_utf8(b.subrange(9, b.len() as int)))
    } else {
        None
    }
}

/// A query pair whose key is `q` or `query` (ASCII case ignored).
pub open spec fn query_matches(piece: Seq<char>) -> bool {
    match first_index(piece, '=') {
        Some(i) => eq_ascii_ci(piece.subrange(0, i), "q"@) || eq_ascii_ci(piece.subrange(0, i), "query"@),
        None => false,
    }
}

pub open spec fn query_value(piece: Seq<char>) -> Seq<char> {
    match first_index(piece, '=') {
        Some(i) => piece.subrange(i + 1, piece.len() as int),
        None => piece,
    }
}

pub open spec fn plus_to_space(v: Seq<char>) -> Seq<char> {
    v.map_values(|c: char| if c == '+' { ' ' } else { c })
}

/// The search text of a query string: the value of its first `q`/`query` pair,
/// `+` read as a space and percent-decoded; empty when there is no such pair.
pub open spec fn search_value(q: Seq<char>) -> Seq<char> {
    let pieces = split(q, seq!['&']);
    if exists|i: int| 0 <= i < pieces.len() && query_matches(pieces[i]) {
        let i = choose|i: int|
            0 <= i < pieces.len() && query_matches(pieces[i]) && forall|j: int|
                0 <= j < i ==> !query_matches(pieces[j]);
        decode_or_keep(plus_to_space(query_value(pieces[i])))
    } else {
        Seq::empty()
    }
}

pub open spec fn is_reserved_word(lower: Seq<char>) -> bool {
    lower == "app"@ || lower == "install"@ || lower == "developer"@ || lower == "view"@ || lower == "search"@
}

/// The id after a route prefix, percent-decoded, when it is not blank.
pub open spec fn routed_id(path: Seq<char>, prefix: Seq<char>) -> Option<Seq<char>> {
    if is_prefix(prefix, path) && trim(decode_or_keep(path.subrange(prefix.len() as int, path.len() as int))).len() > 0 {
        Some(decode_or_keep(path.subrange(prefix.len() as int, path.len() as int)))
    } else {
        None
    }
}

/// The action named by the part of a link after the scheme.
pub open spec fn route(w: Seq<char>) -> Option<ActionView> {
    let after = strip_leading(w, '/');
    let path = match first_index(after, '?') {
        Some(i) => strip_trailing(after.subrange(0, i), '/'),
        None => strip_trailing(after, '/'),
    };
    if eq_ascii_ci(path, "search"@) {
        match first_index(after, '?') {
            Some(i) => Some(ActionView::Search(search_value(after.subrange(i + 1, after.len() as int)))),
            None => Some(ActionView::Search(Seq::empty())),
        }
    } else if routed_id(path, "app/"@) is Some {
        Some(ActionView::AppDetail(routed_id(path, "app/"@)->0))
    } else if routed_id(path, "install/"@) is Some {
        Some(ActionView::InstallApp(routed_id(path, "install/"@)->0))
    } else if routed_id(path, "developer/"@) is Some {
        Some(ActionView::DeveloperProfile(routed_id(path, "developer/"@)->0))
    } else if is_prefix("view/"@, path) {
        Some(ActionView::OpenView(path.subrange(5, path.len() as int)))
    } else if path.len() > 0 && !path.contains('?') && !is_reserved_word(lowercase(path)) && trim(
        decode_or_keep(path),
    ).len() > 0 {
        Some(ActionView::AppDetail(trim(decode_or_keep(path))))
    } else {
        None
    }
}

/// The action a `zstore://` link asks for.
pub open spec fn deep_link_action(raw: Seq<char>) -> Option<ActionView> {
    match after_scheme(raw) {
        Some(w) => route(w),
        None => None,
    }
}

/// Parses `zstore://` links.
pub struct DeepLinkParser;

fn decode_or_keep_chars(v: &[char]) -> (r: Vec<char>)
    ensures
        r@ == decode_or_keep(v@),
{
    let s = string_of(v);
    match url_decode(s.as_str()) {
        Some(d) => chars_of(d.as_str()),
        None => slice_chars(v, 0, v.len()),
    }
}

fn plus_to_space_chars(v: &[char]) -> (r: Vec<char>)
    ensures
        r@ == plus_to_space(v@),
{
    let mut r: Vec<char> = Vec::new();
    let mut i: usize = 0;
    while i < v.len()
        invariant
            i <= v.len(),
            r@ == plus_to_space(v@.subrange(0, i as int)),
        decreases v.len() - i,
    {
        r.push(if v[i] == '+' { ' ' } else { v[i] });
        i = i + 1;
        assert(r@ =~= plus_to_space(v@.subrange(0, i as int)));
    }
    assert(v@.subrange(0, i as int) =~= v@);
    r
}

fn query_matches_chars(piece: &[char]) -> (r: bool)
    ensures
        r == query_matches(piece@),
{
    match find_char(piece, '=') {
        Some(i) => {
            let k = slice_chars(piece, 0, i);
            eq_ignore_ascii_case(&k, &chars_of("q")) || eq_ignore_ascii_case(&k, &chars_of("query"))
        },
        None => false,
    }
}

fn search_value_chars(q: &[char]) -> (r: Vec<char>)
    ensures
        r@ == search_value(q@),
{
    let seps = vec!['&'];
    assert(seps@ =~= seq!['&']);
    let pieces = split_chars(q, &seps);
    let ghost ps = seqs_of(pieces@);
    let mut i: usize = 0;
    while i < pieces.len()
        invariant
            i <= pieces.len(),
            ps == seqs_of(pieces@),
            ps == split(q@, seq!['&']),
            forall|j: int| 0 <= j < i ==> !query_matches(ps[j]),
        decreases pieces.len() - i,
    {
        assert(ps[i as int] == pieces@[i as int]@);
        if query_matches_chars(&pieces[i]) {
            let piece = &pieces[i];
            let eq = find_char(piece, '=');
            let v = match eq {
                Some(e) => slice_chars(piece, e + 1, piece.len()),
                None => slice_chars(piece, 0, piece.len()),
            };
            let ghost w = choose|k: int|
                0 <= k < ps.len() && query_matches(ps[k]) && forall|j: int|
                    0 <= j < k ==> !query_matches(ps[j]);
            assert(0 <= i < ps.len() && query_matches(ps[i as int]) && forall|j: int|
                0 <= j < i ==> !query_matches(ps[j]));
            assert(w == i) by {
                if w < i {
                    assert(!query_matches(ps[w]));
                } else if w > i {
                    assert(!query_matches(ps[i as int]));
                }
            }
            return decode_or_keep_chars(&plus_to_space_chars(&v));
        }
        i = i + 1;
    }
    Vec::new()
}

fn routed_id_chars(path: &[char], prefix: &str) -> (r: Option<Vec<char>>)
    ensures
        match r {
            Some(x) => routed_id(path@, prefix@) == Some(x@),
            None => routed_id(path@, prefix@) is None,
        },
{
    let p = chars_of(prefix);
    if starts_with(path, &p) {
        let id = decode_or_keep_chars(&slice_chars(path, p.len(), path.len()));
        if trim_chars(&id).len() > 0 {
            return Some(id);
        }
    }
    None
}

fn is_reserved_word_chars(lower: &[char]) -> (r: bool)
    ensures
        r == is_reserved_word(lower@),
{
    eq_chars(lower, &chars_of("app")) || eq_chars(lower, &chars_of("install")) || eq_chars(
        lower,
        &chars_of("developer"),
    ) || eq_chars(lower, &chars_of("view")) || eq_chars(lower, &chars_of("search"))
}

fn route_chars(w: &[char]) -> (r: Option<DeepLinkAction>)
    ensures
        action_option_view(r) == route(w@),
{
    let after = strip_leading_chars(w, '/');
    let q = find_char(&after, '?');
    let path = match q {
        Some(i) => strip_trailing_chars(&slice_chars(&after, 0, i), '/'),
        None => strip_trailing_chars(&after, '/'),
    };
    if eq_ignore_ascii_case(&path, &chars_of("search")) {
        return match q {
            Some(i) => {
                let query = search_value_chars(&slice_chars(&after, i + 1, after.len()));
                Some(DeepLinkAction::Search { query: string_of(&query) })
            },
            None => Some(DeepLinkAction::Search { query: String::new() }),
        };
    }
    if let Some(id) = routed_id_chars(&path, "app/") {
        return Some(DeepLinkAction::AppDetail { app_id: string_of(&id) });
    }
    if let Some(id) = routed_id_chars(&path, "install/") {
        return Some(DeepLinkAction::InstallApp { app_id: string_of(&id) });
    }
    if let Some(owner) = routed_id_chars(&path, "developer/") {
        return Some(DeepLinkAction::DeveloperProfile { owner: string_of(&owner) });
    }
    let view_prefix = chars_of("view/");
    proof {
        reveal_strlit("view/");
    }
    if starts_with(&path, &view_prefix) {
        return Some(DeepLinkAction::OpenView { view: string_of(&slice_chars(&path, 5, path.len())) });
    }
    if path.len() > 0 && !crate::text::contains_char(&path, '?') && !is_reserved_word_chars(&lowercase_chars(&path)) {
        let clean = trim_chars(&decode_or_keep_chars(&path));
        if clean.len() > 0 {
            return Some(DeepLinkAction::AppDetail { app_id: string_of(&clean) });
        }
    }
    None
}

fn strip_trailing_chars(v: &[char], c: char) -> (r: Vec<char>)
    ensures
        r@ == strip_trailing(v@, c),
{
    let mut k: usize = v.len();
    assert(v@.subrange(0, v@.len() as int) =~= v@);
    while k > 0 && v[k - 1] == c
        invariant
            k <= v.len(),
            strip_trailing(v@, c) == strip_trailing(v@.subrange(0, k as int), c),
        decreases k,
    {
        assert(v@.subrange(0, k as int).drop_last() =~= v@.subrange(0, k - 1));
        k = k - 1;
    }
    slice_chars(v, 0, k)
}

fn has_scheme_bytes(b: &[u8]) -> (r: bool)
    requires
        b@.len() == 9,
    ensures
        r == has_scheme(b@),
{
    let expected: [u8; 9] = [0x7a, 0x73, 0x74, 0x6f, 0x72, 0x65, 0x3a, 0x2f, 0x2f];
    assert(expected@ =~= scheme_bytes());
    let mut i: usize = 0;
    while i < 9
        invariant
            b@.len() == 9,
            expected@ == scheme_bytes(),
            i <= 9,
            forall|j: int| 0 <= j < i ==> lower_byte(b@[j]) == scheme_bytes()[j],
        decreases 9 - i,
    {
        let x = b[i];
        let l: u8 = if 0x41 <= x && x <= 0x5a { x + 32 } else { x };
        if l != expected[i] {
            return false;
        }
        i = i + 1;
    }
    true
}

impl DeepLinkParser {
    /// Reads a `zstore://` link: `search?q=...`, `app/{id}`, `install/{id}`,
    /// `developer/{owner}`, `view/{view}`, or a bare `{id}` for an application.
    /// The scheme is matched without regard to ASCII case; ids are percent-decoded.
    pub fn parse(raw_url: &str) -> (r: Option<DeepLinkAction>)
        requires
            deep_link_sliceable(raw_url@),
        ensures
            action_option_view(r) == deep_link_action(raw_url@),
    {
        let trimmed = trim_chars(&chars_of(raw_url));
        if trimmed.len() == 0 {
            return None;
        }
        let t = string_of(&trimmed);
        let ts = t.as_str();
        assert(ts.spec_bytes() == encode_utf8(trimmed@));
        if !ts.is_char_boundary(9) {
            return None;
        }
        let (head, tail) = ts.split_at(9);
        let hb = head.as_bytes();
        if !has_scheme_bytes(hb) {
            assert(!has_scheme(encode_utf8(trimmed@))) by {
                assert(hb@ =~= encode_utf8(trimmed@).subrange(0, 9));
            }
            return None;
        }
        assert(has_scheme(encode_utf8(trimmed@))) by {
            assert(hb@ =~= encode_utf8(trimmed@).subrange(0, 9));
            assert forall|i: int| 0 <= i < 9 implies lower_byte(encode_utf8(trimmed@)[i]) == scheme_bytes()[i] by {
                assert(hb@[i] == encode_utf8(trimmed@)[i]);
            }
        }
        let w = chars_of(tail);
        assert(tail@ == decode_utf8(encode_utf8(trimmed@).subrange(9, encode_utf8(trimmed@).len() as int))) by {
            assert(tail.spec_bytes() =~= encode_utf8(trimmed@).subrange(9, encode_utf8(trimmed@).len() as int));
        }
        route_chars(&w)
    }
}

/// The command the system runs to open a `zstore://` link: the quoted
/// executable followed by the quoted link.
pub open spec fn protocol_command(exe_path: Seq<char>) -> Seq<char> {
    "\""@ + exe_path + "\" \"%1\""@
}

/// The registry values that make Windows hand `zstore://` links to the store,
/// as (key below the current user, value name, data), in the order written.
pub fn register_windows_protocol(exe_path: &str) -> (r: Vec<(String, String, String)>)
    ensures
        r@.len() == 3,
        (r@[0].0@, r@[0].1@, r@[0].2@) == ("Software\\Classes\\zstore"@, ""@, "URL:ZStore Protocol"@),
        (r@[1].0@, r@[1].1@, r@[1].2@) == ("Software\\Classes\\zstore"@, "URL Protocol"@, ""@),
        (r@[2].0@, r@[2].1@, r@[2].2@) == (
            "Software\\Classes\\zstore\\shell\\open\\command"@,
            ""@,
            protocol_command(exe_path@),
        ),
{
    let key = "Software\\Classes\\zstore";
    let command = crate::text::concat(
        &crate::text::concat(&chars_of("\""), &chars_of(exe_path)),
        &chars_of("\" \"%1\""),
    );
    vec![
        (string_of(&chars_of(key)), string_of(&chars_of("")), string_of(&chars_of("URL:ZStore Protocol"))),
        (string_of(&chars_of(key)), string_of(&chars_of("URL Protocol")), string_of(&chars_of(""))),
        (
            string_of(&chars_of("Software\\Classes\\zstore\\shell\\open\\command")),
            string_of(&chars_of("")),
            string_of(&command),
        ),
    ]
}

/// The first command-line argument that is a `zstore://` link (scheme case
/// ignored), if any.
pub fn cli_deep_link(args: &Vec<String>) -> (r: Option<usize>)
    ensures
        match r {
            Some(i) => i < args@.len() && is_prefix("zstore://"@, lowercase(args@[i as int]@)) && forall|j: int|
                0 <= j < i ==> !is_prefix("zstore://"@, lowercase(#[trigger] args@[j]@)),
            None => forall|j: int| 0 <= j < args@.len() ==> !is_prefix("zstore://"@, lowercase(#[trigger] args@[j]@)),
        },
{
    let scheme = chars_of("zstore://");
    let mut i: usize = 0;
    while i < args.len()
        invariant
            i <= args@.len(),
            scheme@ == "zstore://"@,
            forall|j: int| 0 <= j < i ==> !is_prefix("zstore://"@, lowercase(#[trigger] args@[j]@)),
        decreases args@.len() - i,
    {
        if starts_with(&lowercase_chars(&chars_of(args[i].as_str())), &scheme) {
            return Some(i);
        }
        i = i + 1;
    }
    None
}

/// A link handed to the system browser: trimmed, and only `http://` or
/// `https://`.
pub fn openable_url(url: &str) -> (r: Result<String, String>)
    ensures
        match r {
            Ok(u) => u@ == trim(url@) && (is_prefix("http://"@, trim(url@)) || is_prefix("https://"@, trim(url@))),
            Err(e) => !(is_prefix("http://"@, trim(url@)) || is_prefix("https://"@, trim(url@)))
                && e@ == "仅支持打开 http/https 协议的安全链接"@,
        },
{
    let t = trim_chars(&chars_of(url));
    if starts_with(&t, &chars_of("http://")) || starts_with(&t, &chars_of("https://")) {
        Ok(string_of(&t))
    } else {
        Err(string_of(&chars_of("仅支持打开 http/https 协议的安全链接")))
    }
}

/// An application id that a link carries as written: printable ASCII without
/// spaces, `/`, `?` or `%`.
pub open spec fn plain_link_id(id: Seq<char>) -> bool {
    &&& id.len() > 0
    &&& forall|i: int|
        0 <= i < id.len() ==> '!' <= #[trigger] id[i] && id[i] <= '~' && id[i] != '/' && id[i] != '?' && id[i] != '%'
}

/// A link to an application's page opens that application's page.
pub proof fn law_app_link_opens_app(id: Seq<char>)
    requires
        plain_link_id(id),
    ensures
        deep_link_action("zstore://app/"@ + id) == Some(ActionView::AppDetail(id)),
{
    reveal_strlit("zstore://app/");
    reveal_strlit("app/");
    reveal_strlit("search");
    reveal_strlit("install/");
    let head = "zstore://app/"@;
    let raw = head + id;
    assert(raw.len() == id.len() + 13);
    assert forall|i: int| 0 <= i < raw.len() implies '!' <= #[trigger] raw[i] && raw[i] <= '~' by {
        if i >= 13 {
            assert(raw[i] == id[i - 13]);
        }
    }
    assert(vstd::utf8::is_ascii_chars(raw));
    assert(crate::text::trim_start(raw) == raw);
    assert(raw.last() == id.last());
    assert(crate::text::trim_end(raw) == raw);
    assert(trim(raw) == raw);
    let b = encode_utf8(raw);
    vstd::utf8::is_ascii_chars_encode_utf8(raw);
    assert(has_scheme(b)) by {
        assert forall|i: int| 0 <= i < 9 implies lower_byte(b[i]) == scheme_bytes()[i] by {
            assert(b[i] == raw[i] as u8);
        }
    }
    let w = raw.skip(9);
    assert(w =~= "app/"@ + id);
    assert(vstd::utf8::is_ascii_chars(w));
    vstd::utf8::is_ascii_chars_encode_utf8(w);
    assert(b.subrange(9, b.len() as int) =~= encode_utf8(w)) by {
        assert forall|i: int| 0 <= i < encode_utf8(w).len() implies b.subrange(9, b.len() as int)[i] == encode_utf8(
            w,
        )[i] by {
            assert(w[i] == raw[i + 9]);
        }
    }
    assert(after_scheme(raw) == Some(w));
    assert(strip_leading(w, '/') == w);
    lemma_first_index(w, '?');
    assert(first_index(w, '?') is None) by {
        if first_index(w, '?') is Some {
            let k = first_index(w, '?')->0;
            if k >= 4 {
                assert(w[k] == id[k - 4]);
            }
        }
    }
    assert(w.last() == id.last());
    assert(strip_trailing(w, '/') == w);
    assert(!eq_ascii_ci(w, "search"@)) by {
        if eq_ascii_ci(w, "search"@) {
            assert(crate::text::lower_ascii(w)[0] == crate::text::lower_ascii("search"@)[0]);
        }
    }
    assert(is_prefix("app/"@, w)) by {
        assert(w.subrange(0, 4) =~= "app/"@);
    }
    let rest = w.subrange(4, w.len() as int);
    assert(rest =~= id);
    assert(vstd::utf8::is_ascii_chars(id));
    crate::urlcodec::lemma_decode_plain_ascii(id);
    assert(crate::text::trim_start(id) == id);
    assert(crate::text::trim_end(id) == id);
    assert(routed_id(w, "app/"@) == Some(id));
}

/// A link to install an application asks to install that application.
pub proof fn law_install_link_installs_app(id: Seq<char>)
    requires
        plain_link_id(id),
    ensures
        deep_link_action("zstore://install/"@ + id) == Some(ActionView::InstallApp(id)),
{
    reveal_strlit("zstore://install/");
    reveal_strlit("app/");
    reveal_strlit("install/");
    reveal_strlit("search");
    reveal_strlit("install/");
    let head = "zstore://install/"@;
    let raw = head + id;
    assert(raw.len() == id.len() + 17);
    assert forall|i: int| 0 <= i < raw.len() implies '!' <= #[trigger] raw[i] && raw[i] <= '~' by {
        if i >= 17 {
            assert(raw[i] == id[i - 17]);
        }
    }
    assert(vstd::utf8::is_ascii_chars(raw));
    assert(crate::text::trim_start(raw) == raw);
    assert(raw.last() == id.last());
    assert(crate::text::trim_end(raw) == raw);
    assert(trim(raw) == raw);
    let b = encode_utf8(raw);
    vstd::utf8::is_ascii_chars_encode_utf8(raw);
    assert(has_scheme(b)) by {
        assert forall|i: int| 0 <= i < 9 implies lower_byte(b[i]) == scheme_bytes()[i] by {
            assert(b[i] == raw[i] as u8);
        }
    }
    let w = raw.skip(9);
    assert(w =~= "install/"@ + id);
    assert(vstd::utf8::is_ascii_chars(w));
    vstd::utf8::is_ascii_chars_encode_utf8(w);
    assert(b.subrange(9, b.len() as int) =~= encode_utf8(w)) by {
        assert forall|i: int| 0 <= i < encode_utf8(w).len() implies b.subrange(9, b.len() as int)[i] == encode_utf8(
            w,
        )[i] by {
            assert(w[i] == raw[i + 9]);
        }
    }
    assert(after_scheme(raw) == Some(w));
    assert(strip_leading(w, '/') == w);
    lemma_first_index(w, '?');
    assert(first_index(w, '?') is None) by {
        if first_index(w, '?') is Some {
            let k = first_index(w, '?')->0;
            if k >= 8 {
                assert(w[k] == id[k - 8]);
            }
        }
    }
    assert(w.last() == id.last());
    assert(strip_trailing(w, '/') == w);
    assert(!eq_ascii_ci(w, "search"@)) by {
        if eq_ascii_ci(w, "search"@) {
            assert(crate::text::lower_ascii(w)[0] == crate::text::lower_ascii("search"@)[0]);
        }
    }
    assert(!is_prefix("app/"@, w)) by {
        if is_prefix("app/"@, w) {
            assert(w.subrange(0, 4)[0] == w[0]);
        }
    }

    assert(is_prefix("install/"@, w)) by {
        assert(w.subrange(0, 8) =~= "install/"@);
    }
    let rest = w.subrange(8, w.len() as int);
    assert(rest =~= id);
    assert(vstd::utf8::is_ascii_chars(id));
    crate::urlcodec::lemma_decode_plain_ascii(id);
    assert(crate::text::trim_start(id) == id);
    assert(crate::text::trim_end(id) == id);
    assert(routed_id(w, "install/"@) == Some(id));
}

/// A link to a developer's page opens that developer's page.
pub proof fn law_developer_link_opens_profile(id: Seq<char>)
    requires
        plain_link_id(id),
    ensures
        deep_link_action("zstore://developer/"@ + id) == Some(ActionView::DeveloperProfile(id)),
{
    reveal_strlit("zstore://developer/");
    reveal_strlit("app/");
    reveal_strlit("developer/");
    reveal_strlit("search");
    reveal_strlit("install/");
    let head = "zstore://developer/"@;
    let raw = head + id;
    assert(raw.len() == id.len() + 19);
    assert forall|i: int| 0 <= i < raw.len() implies '!' <= #[trigger] raw[i] && raw[i] <= '~' by {
        if i >= 19 {
            assert(raw[i] == id[i - 19]);
        }
    }
    assert(vstd::utf8::is_ascii_chars(raw));
    assert(crate::text::trim_start(raw) == raw);
    assert(raw.last() == id.last());
    assert(crate::text::trim_end(raw) == raw);
    assert(trim(raw) == raw);
    let b = encode_utf8(raw);
    vstd::utf8::is_ascii_chars_encode_utf8(raw);
    assert(has_scheme(b)) by {
        assert forall|i: int| 0 <= i < 9 implies lower_byte(b[i]) == scheme_bytes()[i] by {
            assert(b[i] == raw[i] as u8);
        }
    }
    let w = raw.skip(9);
    assert(w =~= "developer/"@ + id);
    assert(vstd::utf8::is_ascii_chars(w));
    vstd::utf8::is_ascii_chars_encode_utf8(w);
    assert(b.subrange(9, b.len() as int) =~= encode_utf8(w)) by {
        assert forall|i: int| 0 <= i < encode_utf8(w).len() implies b.subrange(9, b.len() as int)[i] == encode_utf8(
            w,
        )[i] by {
            assert(w[i] == raw[i + 9]);
        }
    }
    assert(after_scheme(raw) == Some(w));
    assert(strip_leading(w, '/') == w);
    lemma_first_index(w, '?');
    assert(first_index(w, '?') is None) by {
        if first_index(w, '?') is Some {
            let k = first_index(w, '?')->0;
            if k >= 10 {
                assert(w[k] == id[k - 10]);
            }
        }
    }
    assert(w.last() == id.last());
    assert(strip_trailing(w, '/') == w);
    assert(!eq_ascii_ci(w, "search"@)) by {
        if eq_ascii_ci(w, "search"@) {
            assert(crate::text::lower_ascii(w)[0] == crate::text::lower_ascii("search"@)[0]);
        }
    }
    assert(!is_prefix("app/"@, w)) by {
        if is_prefix("app/"@, w) {
            assert(w.subrange(0, 4)[0] == w[0]);
        }
    }
    assert(!is_prefix("install/"@, w)) by {
        if is_prefix("install/"@, w) {
            assert(w.subrange(0, 8)[0] == w[0]);
        }
    }
    assert(is_prefix("developer/"@, w)) by {
        assert(w.subrange(0, 10) =~= "developer/"@);
    }
    let rest = w.subrange(10, w.len() as int);
    assert(rest =~= id);
    assert(vstd::utf8::is_ascii_chars(id));
    crate::urlcodec::lemma_decode_plain_ascii(id);
    assert(crate::text::trim_start(id) == id);
    assert(crate::text::trim_end(id) == id);
    assert(routed_id(w, "developer/"@) == Some(id));
}

/// A query key naming the search text: `q` or `query`, in any ASCII case.
pub open spec fn search_key_word(key: Seq<char>) -> bool {
    &&& key.len() > 0
    &&& forall|i: int| 0 <= i < key.len() ==> ('a' <= #[trigger] key[i] && key[i] <= 'z') || ('A' <= key[i] && key[i] <= 'Z')
    &&& (eq_ascii_ci(key, "q"@) || eq_ascii_ci(key, "query"@))
}

/// A query value written with printable ASCII characters and no `&`.
pub open spec fn plain_query_value(v: Seq<char>) -> bool {
    forall|i: int| 0 <= i < v.len() ==> '!' <= #[trigger] v[i] && v[i] <= '~' && v[i] != '&'
}

proof fn lemma_search_single_pair(key: Seq<char>, v: Seq<char>)
    requires
        search_key_word(key),
        plain_query_value(v),
    ensures
        search_value(key + seq!['='] + v) == decode_or_keep(plus_to_space(v)),
{
    let qs = key + seq!['='] + v;
    let kl = key.len() as int;
    let seps = seq!['&'];
    assert forall|i: int| 0 <= i < qs.len() implies !seps.contains(#[trigger] qs[i]) by {
        assert(seps[0] == '&');
        if i < kl {
            assert(qs[i] == key[i]);
        } else if i > kl {
            assert(qs[i] == v[i - 1 - kl]);
        }
        if seps.contains(qs[i]) {
            let t = choose|t: int| 0 <= t < seps.len() && seps[t] == qs[i];
            assert(t == 0);
        }
    }
    let e = Seq::<char>::empty();
    crate::text::lemma_split_extend(e, qs, seps);
    assert(e + qs =~= qs);
    assert(split(e, seps) == seq![e]);
    assert(split(qs, seps) =~= seq![qs]);
    lemma_first_index(qs, '=');
    assert(qs[kl] == '=');
    assert forall|j: int| 0 <= j < kl implies qs[j] != '=' by {
        assert(qs[j] == key[j]);
    }
    assert(first_index(qs, '=') == Some(kl));
    assert(qs.subrange(0, kl) =~= key);
    assert(query_matches(qs));
    assert(query_value(qs) =~= v);
    let pieces = split(qs, seps);
    assert(pieces[0] == qs);
    assert(exists|i: int| 0 <= i < pieces.len() && query_matches(pieces[i]));
    let i = choose|i: int|
        0 <= i < pieces.len() && query_matches(pieces[i]) && forall|j: int| 0 <= j < i ==> !query_matches(pieces[j]);
    assert(0 <= 0 < pieces.len() && query_matches(pieces[0]) && forall|j: int| 0 <= j < 0 ==> !query_matches(pieces[j]));
    assert(i == 0);
}

proof fn lemma_search_route(qs: Seq<char>)
    ensures
        route("search?"@ + qs) == Some(ActionView::Search(search_value(qs))),
{
    reveal_strlit("search?");
    reveal_strlit("search");
    let w = "search?"@ + qs;
    assert(w[0] == 's');
    assert(strip_leading(w, '/') == w);
    lemma_first_index(w, '?');
    assert(w[6] == '?');
    assert(first_index(w, '?') == Some(6int));
    let path0 = w.subrange(0, 6);
    assert(path0 =~= "search"@);
    assert(path0.last() == 'h');
    assert(strip_trailing(path0, '/') == path0);
    assert(eq_ascii_ci(path0, "search"@));
    assert(w.subrange(7, w.len() as int) =~= qs);
}

/// A search link whose query is `q=` or `query=` (in any ASCII case) followed
/// by a value searches for that value, with `+` read as a space and
/// percent-decoded.
pub proof fn law_search_link_searches_value(key: Seq<char>, v: Seq<char>)
    requires
        search_key_word(key),
        plain_query_value(v),
    ensures
        deep_link_action("zstore://search?"@ + key + seq!['='] + v) == Some(
            ActionView::Search(decode_or_keep(plus_to_space(v))),
        ),
{
    reveal_strlit("zstore://search?");
    reveal_strlit("search?");
    let head = "zstore://search?"@;
    assert(head.len() == 16);
    let qs = key + seq!['='] + v;
    let raw = head + qs;
    assert("zstore://search?"@ + key + seq!['='] + v =~= raw);
    let kl = key.len() as int;
    assert forall|i: int| 0 <= i < raw.len() implies '!' <= #[trigger] raw[i] && raw[i] <= '~' by {
        if i >= 16 {
            assert(raw[i] == qs[i - 16]);
            if i - 16 < kl {
                assert(qs[i - 16] == key[i - 16]);
            } else if i - 16 > kl {
                assert(qs[i - 16] == v[i - 17 - kl]);
            }
        }
    }
    assert(vstd::utf8::is_ascii_chars(raw));
    assert(crate::text::trim_start(raw) == raw);
    assert(crate::text::trim_end(raw) == raw);
    assert(trim(raw) == raw);
    let b = encode_utf8(raw);
    vstd::utf8::is_ascii_chars_encode_utf8(raw);
    assert(has_scheme(b)) by {
        assert forall|i: int| 0 <= i < 9 implies lower_byte(b[i]) == scheme_bytes()[i] by {
            assert(b[i] == raw[i] as u8);
        }
    }
    let w = raw.skip(9);
    assert(w =~= "search?"@ + qs);
    assert(vstd::utf8::is_ascii_chars(w));
    vstd::utf8::is_ascii_chars_encode_utf8(w);
    assert(b.subrange(9, b.len() as int) =~= encode_utf8(w)) by {
        assert forall|i: int| 0 <= i < encode_utf8(w).len() implies b.subrange(9, b.len() as int)[i] == encode_utf8(
            w,
        )[i] by {
            assert(w[i] == raw[i + 9]);
        }
    }
    assert(after_scheme(raw) == Some(w));
    lemma_search_route(qs);
    lemma_search_single_pair(key, v);
}

} // verus!
