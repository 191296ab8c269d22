//! User settings: the defaults, how stored values override them, and how
//! values are cleaned before they are stored.

use vstd::prelude::*;
use crate::config::ProjectConfig;
use crate::text::{
    chars_of, concat, contains_str, eq_chars, has_substring, is_ascii_digit, lowercase, lowercase_chars,
    string_of, trim, trim_chars,
};
use crate::version::{decimal_value, digit_value};

verus! {

/// The cache lifetimes, in minutes, that a user may choose: 0 means that every
/// opening checks with the server.
pub open spec fn is_valid_ttl(m: int) -> bool {
    m == 0 || m == 10 || m == 30 || m == 60 || m == 360 || m == 1440
}

/// The configured default cache lifetime, in minutes.
pub fn default_detail_cache_ttl_minutes(cfg: &ProjectConfig) -> (r: i64)
    ensures
        r == cfg.cache.detail_ttl_minutes,
{
    cfg.cache.detail_ttl_minutes
}

/// A valid lifetime is kept; any other falls back to `default_minutes`.
pub fn normalize_detail_cache_ttl(minutes: i64, default_minutes: i64) -> (r: i64)
    ensures
        r == if is_valid_ttl(minutes as int) {
            minutes
        } else {
            default_minutes
        },
{
    if minutes == 0 || minutes == 10 || minutes == 30 || minutes == 60 || minutes == 360 || minutes == 1440 {
        minutes
    } else {
        default_minutes
    }
}

/// How often watched applications may notify: at each start, or once a day.
pub open spec fn watch_frequency_of(value: Seq<char>) -> Seq<char> {
    let clean = lowercase(trim(value));
    if clean == "startup"@ || clean == "daily"@ {
        clean
    } else {
        "daily"@
    }
}

/// Trims and lower-cases a notification frequency; anything but `startup` or
/// `daily` becomes `daily`.
pub fn normalize_watch_notify_frequency(value: &str) -> (r: String)
    ensures
        r@ == watch_frequency_of(value@),
{
    let clean = lowercase_chars(&trim_chars(&chars_of(value)));
    if eq_chars(&clean, &chars_of("startup")) || eq_chars(&clean, &chars_of("daily")) {
        string_of(&clean)
    } else {
        string_of(&chars_of("daily"))
    }
}

pub open spec fn all_digits(d: Seq<char>) -> bool {
    forall|i: int| 0 <= i < d.len() ==> is_ascii_digit(#[trigger] d[i])
}

/// `i64`'s reading of a decimal number: an optional sign, then one or more
/// digits, within the range of `i64`.
pub open spec fn parse_i64(s: Seq<char>) -> Option<i64> {
    if s.len() == 0 {
        None
    } else {
        let neg = s[0] == '-';
        let digits = if s[0] == '-' || s[0] == '+' {
            s.skip(1)
        } else {
            s
        };
        let mag = decimal_value(digits) as int;
        if digits.len() == 0 || !all_digits(digits) {
            None
        } else if neg && mag <= 0x8000_0000_0000_0000 {
            Some((-mag) as i64)
        } else if !neg && mag <= 0x7fff_ffff_ffff_ffff {
            Some(mag as i64)
        } else {
            None
        }
    }
}

/// Value of a run of digits when all are digits and it fits in a `u64`.
fn digits_value(d: &[char]) -> (r: Option<u64>)
    ensures
        match r {
            Some(v) => all_digits(d@) && v as int == decimal_value(d@),
            None => !all_digits(d@) || decimal_value(d@) > u64::MAX,
        },
{
    let mut i: usize = 0;
    let mut val: u64 = 0;
    let mut overflow = false;
    while i < d.len()
        invariant
            i <= d.len(),
            all_digits(d@.take(i as int)),
            !overflow ==> val as nat == decimal_value(d@.take(i as int)),
            overflow ==> decimal_value(d@.take(i as int)) > u64::MAX,
        decreases d.len() - i,
    {
        let c = d[i];
        if !('0' <= c && c <= '9') {
            assert(!is_ascii_digit(d@[i as int]));
            return None;
        }
        let dv: u64 = ((c as u32) - ('0' as u32)) as u64;
        let ghost prev = d@.take(i as int);
        assert(d@.take(i + 1).drop_last() =~= prev);
        assert(d@.take(i + 1).last() == c);
        assert(dv as nat == digit_value(c));
        if !overflow {
            match val.checked_mul(10) {
                Some(m) => match m.checked_add(dv) {
                    Some(n) => {
                        val = n;
                    },
                    None => {
                        overflow = true;
                    },
                },
                None => {
                    overflow = true;
                },
            }
        }
        i = i + 1;
        assert(all_digits(d@.take(i as int))) by {
            assert forall|j: int| 0 <= j < i implies is_ascii_digit(#[trigger] d@.take(i as int)[j]) by {
                if j < i - 1 {
                    assert(d@.take(i as int)[j] == prev[j]);
                }
            }
        }
    }
    assert(d@.take(i as int) =~= d@);
    if overflow {
        None
    } else {
        Some(val)
    }
}

/// Reads a decimal `i64` the way `str::parse::<i64>` does.
pub fn parse_i64_chars(s: &[char]) -> (r: Option<i64>)
    ensures
        r == parse_i64(s@),
{
    if s.len() == 0 {
        return None;
    }
    let neg = s[0] == '-';
    let start: usize = if s[0] == '-' || s[0] == '+' {
        1
    } else {
        0
    };
    let mut digits: Vec<char> = Vec::new();
    let mut i: usize = start;
    while i < s.len()
        invariant
            start <= i <= s.len(),
            digits@ == s@.subrange(start as int, i as int),
        decreases s.len() - i,
    {
        digits.push(s[i]);
        i = i + 1;
        assert(digits@ =~= s@.subrange(start as int, i as int));
    }
    assert(digits@ =~= (if s@[0] == '-' || s@[0] == '+' { s@.skip(1) } else { s@ }));
    if digits.len() == 0 {
        return None;
    }
    match digits_value(&digits) {
        None => None,
        Some(mag) => {
            if neg && mag <= 0x8000_0000_0000_0000u64 {
                if mag == 0x8000_0000_0000_0000u64 {
                    Some(i64::MIN)
                } else {
                    let m: i64 = mag as i64;
                    Some(-m)
                }
            } else if !neg && mag <= 0x7fff_ffff_ffff_ffffu64 {
                Some(mag as i64)
            } else {
                None
            }
        },
    }
}

/// `u32`'s reading of a decimal number: an optional `+`, then one or more
/// digits, within the range of `u32`.
pub open spec fn parse_u32(s: Seq<char>) -> Option<u32> {
    let digits = if s.len() > 0 && s[0] == '+' {
        s.skip(1)
    } else {
        s
    };
    if digits.len() == 0 || !all_digits(digits) || decimal_value(digits) > u32::MAX {
        None
    } else {
        Some(decimal_value(digits) as u32)
    }
}

/// Reads a decimal `u32` the way `str::parse::<u32>` does.
pub fn parse_u32_chars(s: &[char]) -> (r: Option<u32>)
    ensures
        r == parse_u32(s@),
{
    let start: usize = if s.len() > 0 && s[0] == '+' {
        1
    } else {
        0
    };
    let digits = crate::text::slice_chars(s, start, s.len());
    assert(digits@ =~= (if s@.len() > 0 && s@[0] == '+' { s@.skip(1) } else { s@ }));
    if digits.len() == 0 {
        return None;
    }
    match digits_value(&digits) {
        Some(v) => {
            if v <= 0xffff_ffffu64 {
                Some(v as u32)
            } else {
                None
            }
        },
        None => None,
    }
}

pub open spec fn digit_char(d: nat) -> char {
    (('0' as u32) + d) as char
}

/// Decimal digits of a number, most significant first.
pub open spec fn decimal_digits(n: nat) -> Seq<char>
    decreases n,
{
    if n < 10 {
        seq![digit_char(n)]
    } else {
        decimal_digits(n / 10).push(digit_char(n % 10))
    }
}

/// The text of an `i64` as `to_string` writes it.
pub open spec fn i64_text(n: i64) -> Seq<char> {
    if n < 0 {
        seq!['-'] + decimal_digits((-(n as int)) as nat)
    } else {
        decimal_digits(n as nat)
    }
}

fn u64_digits(n: u64) -> (r: Vec<char>)
    ensures
        r@ == decimal_digits(n as nat),
    decreases n,
{
    let c: char = char_of_digit((n % 10) as u32);
    if n < 10 {
        vec![c]
    } else {
        let mut v = u64_digits(n / 10);
        v.push(c);
        v
    }
}

fn char_of_digit(d: u32) -> (c: char)
    requires
        d < 10,
    ensures
        c == digit_char(d as nat),
{
    if d == 0 {
        '0'
    } else if d == 1 {
        '1'
    } else if d == 2 {
        '2'
    } else if d == 3 {
        '3'
    } else if d == 4 {
        '4'
    } else if d == 5 {
        '5'
    } else if d == 6 {
        '6'
    } else if d == 7 {
        '7'
    } else if d == 8 {
        '8'
    } else {
        '9'
    }
}

/// Writes a `u64` in decimal.
pub fn u64_to_string(n: u64) -> (r: String)
    ensures
        r@ == decimal_digits(n as nat),
{
    string_of(&u64_digits(n))
}

/// Writes an `i64` in decimal.
pub fn i64_to_string(n: i64) -> (r: String)
    ensures
        r@ == i64_text(n),
{
    if n < 0 {
        let mag: u64 = if n == i64::MIN {
            0x8000_0000_0000_0000u64
        } else {
            (-n) as u64
        };
        proof {
            reveal_strlit("-");
        }
        string_of(&concat(&chars_of("-"), &u64_digits(mag)))
    } else {
        string_of(&u64_digits(n as u64))
    }
}


/// The map that a list of key/value pairs describes; a later pair wins.
pub open spec fn pairs_map(s: Seq<(Seq<char>, Seq<char>)>) -> Map<Seq<char>, Seq<char>>
    decreases s.len(),
{
    if s.len() == 0 {
        Map::empty()
    } else {
        pairs_map(s.drop_last()).insert(s.last().0, s.last().1)
    }
}

pub open spec fn pairs_view(v: Seq<(String, String)>) -> Seq<(Seq<char>, Seq<char>)> {
    v.map_values(|p: (String, String)| (p.0@, p.1@))
}

pub open spec fn keys_distinct(s: Seq<(Seq<char>, Seq<char>)>) -> bool {
    forall|i: int, j: int| 0 <= i < j < s.len() ==> (#[trigger] s[i]).0 != (#[trigger] s[j]).0
}

pub proof fn lemma_pairs_map_keys(s: Seq<(Seq<char>, Seq<char>)>, k: Seq<char>)
    ensures
        pairs_map(s).contains_key(k) <==> exists|i: int| 0 <= i < s.len() && (#[trigger] s[i]).0 == k,
    decreases s.len(),
{
    if s.len() > 0 {
        lemma_pairs_map_keys(s.drop_last(), k);
        if exists|i: int| 0 <= i < s.len() && (#[trigger] s[i]).0 == k {
            let i = choose|i: int| 0 <= i < s.len() && (#[trigger] s[i]).0 == k;
            if i < s.len() - 1 {
                assert(s.drop_last()[i] == s[i]);
            }
        }
        if exists|i: int| 0 <= i < s.len() - 1 && (#[trigger] s.drop_last()[i]).0 == k {
            let i = choose|i: int| 0 <= i < s.len() - 1 && (#[trigger] s.drop_last()[i]).0 == k;
            assert(s[i] == s.drop_last()[i]);
        }
    }
}

proof fn lemma_pairs_map_value(s: Seq<(Seq<char>, Seq<char>)>, i: int)
    requires
        keys_distinct(s),
        0 <= i < s.len(),
    ensures
        pairs_map(s).contains_key(s[i].0),
        pairs_map(s)[s[i].0] == s[i].1,
    decreases s.len(),
{
    if i < s.len() - 1 {
        assert(s.drop_last()[i] == s[i]);
        assert(keys_distinct(s.drop_last()));
        lemma_pairs_map_value(s.drop_last(), i);
    }
}

proof fn lemma_pairs_map_update(s: Seq<(Seq<char>, Seq<char>)>, i: int, v: Seq<char>)
    requires
        keys_distinct(s),
        0 <= i < s.len(),
    ensures
        pairs_map(s.update(i, (s[i].0, v))) == pairs_map(s).insert(s[i].0, v),
    decreases s.len(),
{
    let t = s.update(i, (s[i].0, v));
    let k = s[i].0;
    if i == s.len() - 1 {
        assert(t.drop_last() =~= s.drop_last());
        assert(pairs_map(t) =~= pairs_map(s).insert(k, v));
    } else {
        assert(t.drop_last() =~= s.drop_last().update(i, (k, v)));
        assert(keys_distinct(s.drop_last()));
        lemma_pairs_map_update(s.drop_last(), i, v);
        assert(s.last().0 != k);
        assert(pairs_map(t) =~= pairs_map(s).insert(k, v));
    }
}

/// A set of settings: each key once, with its value.
pub struct SettingsMap {
    entries: Vec<(String, String)>,
}

impl View for SettingsMap {
    type V = Map<Seq<char>, Seq<char>>;

    closed spec fn view(&self) -> Map<Seq<char>, Seq<char>> {
        pairs_map(pairs_view(self.entries@))
    }
}

impl SettingsMap {
    /// Keys occur once.
    pub closed spec fn wf(&self) -> bool {
        keys_distinct(pairs_view(self.entries@))
    }

    /// No settings.
    pub fn new() -> (r: SettingsMap)
        ensures
            r.wf(),
            r@ == Map::<Seq<char>, Seq<char>>::empty(),
    {
        let r = SettingsMap { entries: Vec::new() };
        assert(pairs_view(r.entries@) =~= Seq::<(Seq<char>, Seq<char>)>::empty());
        r
    }

    fn position(&self, key: &[char]) -> (r: Option<usize>)
        ensures
            match r {
                Some(i) => i < self.entries@.len() && self.entries@[i as int].0@ == key@,
                None => forall|i: int| 0 <= i < self.entries@.len() ==> (#[trigger] self.entries@[i]).0@ != key@,
            },
    {
        let mut i: usize = 0;
        while i < self.entries.len()
            invariant
                i <= self.entries@.len(),
                forall|j: int| 0 <= j < i ==> (#[trigger] self.entries@[j]).0@ != key@,
            decreases self.entries@.len() - i,
        {
            if eq_chars(&chars_of(self.entries[i].0.as_str()), key) {
                return Some(i);
            }
            i = i + 1;
        }
        None
    }

    /// Sets `key` to `value`.
    pub fn insert(&mut self, key: String, value: String)
        requires
            old(self).wf(),
        ensures
            final(self).wf(),
            final(self)@ == old(self)@.insert(key@, value@),
    {
        let ghost before = pairs_view(self.entries@);
        match self.position(&chars_of(key.as_str())) {
            Some(i) => {
                let k = self.entries[i].0.clone();
                self.entries.set(i, (k, value));
                proof {
                    assert(pairs_view(self.entries@) =~= before.update(i as int, (before[i as int].0, value@)));
                    lemma_pairs_map_update(before, i as int, value@);
                }
            },
            None => {
                self.entries.push((key, value));
                proof {
                    let after = pairs_view(self.entries@);
                    assert(after =~= before.push((key@, value@)));
                    assert(after.drop_last() =~= before);
                    assert forall|a: int, b: int| 0 <= a < b < after.len() implies (#[trigger] after[a]).0 != (#[trigger] after[b]).0 by {
                        if b == after.len() - 1 {
                            assert(self.entries@[a].0@ != key@);
                        } else {
                            assert(after[a] == before[a] && after[b] == before[b]);
                        }
                    }
                }
            },
        }
    }

    /// The value of `key`, if it is set.
    pub fn get(&self, key: &str) -> (r: Option<String>)
        requires
            self.wf(),
        ensures
            match r {
                Some(v) => self@.contains_key(key@) && v@ == self@[key@],
                None => !self@.contains_key(key@),
            },
    {
        let ghost pv = pairs_view(self.entries@);
        proof {
            lemma_pairs_map_keys(pv, key@);
        }
        match self.position(&chars_of(key)) {
            Some(i) => {
                proof {
                    lemma_pairs_map_value(pv, i as int);
                }
                Some(self.entries[i].1.clone())
            },
            None => {
                proof {
                    assert forall|j: int| 0 <= j < pv.len() implies (#[trigger] pv[j]).0 != key@ by {
                        assert(pv[j].0 == self.entries@[j].0@);
                    }
                }
                None
            },
        }
    }

    /// The settings as key/value pairs, each key once.
    pub fn into_pairs(self) -> (r: Vec<(String, String)>)
        requires
            self.wf(),
        ensures
            keys_distinct(pairs_view(r@)),
            pairs_map(pairs_view(r@)) == self@,
    {
        self.entries
    }
}


/// The settings a user starts with.
pub open spec fn default_settings(cfg: ProjectConfig) -> Map<Seq<char>, Seq<char>> {
    map![
        "theme"@ => "system"@,
        "download_dir"@ => "~/Downloads"@,
        "active_mirror"@ => "ghproxy"@,
        "max_concurrent_downloads"@ => "3"@,
        "github_token"@ => ""@,
        "close_to_tray"@ => "true"@,
        "launch_on_startup"@ => "false"@,
        "update_frequency"@ => "startup"@,
        "detail_cache_ttl_minutes"@ => i64_text(cfg.cache.detail_ttl_minutes),
        "catalog_source_url"@ => cfg.catalog.default_source_url@,
        "watch_notify_frequency"@ => "daily"@,
    ]
}

fn owned(s: &str) -> (r: String)
    ensures
        r@ == s@,
{
    string_of(&chars_of(s))
}

/// The default settings under `cfg`.
pub fn get_default_settings(cfg: &ProjectConfig) -> (r: SettingsMap)
    ensures
        r.wf(),
        r@ == default_settings(*cfg),
{
    let mut m = SettingsMap::new();
    m.insert(owned("theme"), owned("system"));
    m.insert(owned("download_dir"), owned("~/Downloads"));
    m.insert(owned("active_mirror"), owned("ghproxy"));
    m.insert(owned("max_concurrent_downloads"), owned("3"));
    m.insert(owned("github_token"), owned(""));
    m.insert(owned("close_to_tray"), owned("true"));
    m.insert(owned("launch_on_startup"), owned("false"));
    m.insert(owned("update_frequency"), owned("startup"));
    m.insert(owned("detail_cache_ttl_minutes"), i64_to_string(cfg.cache.detail_ttl_minutes));
    m.insert(owned("catalog_source_url"), cfg.catalog.default_source_url.clone());
    m.insert(owned("watch_notify_frequency"), owned("daily"));
    assert(m@ =~= default_settings(*cfg));
    m
}

/// `base` with the stored pairs laid over it, in order; blank stored values are ignored.
pub open spec fn overlay(base: Map<Seq<char>, Seq<char>>, stored: Seq<(Seq<char>, Seq<char>)>) -> Map<Seq<char>, Seq<char>>
    decreases stored.len(),
{
    if stored.len() == 0 {
        base
    } else {
        let m = overlay(base, stored.drop_last());
        if trim(stored.last().1).len() > 0 {
            m.insert(stored.last().0, stored.last().1)
        } else {
            m
        }
    }
}

/// A catalog address from an earlier release, replaced by the current default.
pub open spec fn is_legacy_source(url: Seq<char>) -> bool {
    has_substring(url, "gitmirror.com"@) || has_substring(url, "src-tauri/src/catalog.json"@) || has_substring(
        url,
        "supermc/z-store/main/catalog.json"@,
    ) || has_substring(url, "superMC5657/z-store/main/catalog.json"@)
}

/// The effective settings: the defaults, overridden by the non-blank stored
/// values; a legacy catalog address becomes the default one, and a blank or
/// obsolete download directory becomes `~/Downloads`.
pub open spec fn effective_settings(stored: Seq<(Seq<char>, Seq<char>)>, cfg: ProjectConfig) -> Map<Seq<char>, Seq<char>> {
    let m = overlay(default_settings(cfg), stored);
    let m1 = if m.contains_key("catalog_source_url"@) && is_legacy_source(m["catalog_source_url"@]) {
        m.insert("catalog_source_url"@, cfg.catalog.default_source_url@)
    } else {
        m
    };
    let dl = if m1.contains_key("download_dir"@) {
        m1["download_dir"@]
    } else {
        Seq::empty()
    };
    if trim(dl).len() == 0 || has_substring(dl, "zstore_downloads"@) {
        m1.insert("download_dir"@, "~/Downloads"@)
    } else {
        m1
    }
}

/// The settings in effect, given the stored pairs.
pub fn get_settings(stored: &Vec<(String, String)>, cfg: &ProjectConfig) -> (r: SettingsMap)
    ensures
        r.wf(),
        r@ == effective_settings(pairs_view(stored@), *cfg),
{
    let ghost sv = pairs_view(stored@);
    let mut m = get_default_settings(cfg);
    let mut i: usize = 0;
    while i < stored.len()
        invariant
            i <= stored@.len(),
            sv == pairs_view(stored@),
            m.wf(),
            m@ == overlay(default_settings(*cfg), sv.take(i as int)),
        decreases stored@.len() - i,
    {
        assert(sv.take(i + 1).drop_last() =~= sv.take(i as int));
        let v = chars_of(stored[i].1.as_str());
        if trim_chars(&v).len() > 0 {
            m.insert(stored[i].0.clone(), stored[i].1.clone());
        }
        i = i + 1;
    }
    assert(sv.take(i as int) =~= sv);
    match m.get("catalog_source_url") {
        Some(url) => {
            let u = chars_of(url.as_str());
            if contains_str(&u, &chars_of("gitmirror.com")) || contains_str(&u, &chars_of("src-tauri/src/catalog.json"))
                || contains_str(&u, &chars_of("supermc/z-store/main/catalog.json")) || contains_str(
                &u,
                &chars_of("superMC5657/z-store/main/catalog.json"),
            ) {
                m.insert(owned("catalog_source_url"), cfg.catalog.default_source_url.clone());
            }
        },
        None => {},
    }
    let dl = match m.get("download_dir") {
        Some(d) => chars_of(d.as_str()),
        None => Vec::new(),
    };
    if trim_chars(&dl).len() == 0 || contains_str(&dl, &chars_of("zstore_downloads")) {
        m.insert(owned("download_dir"), owned("~/Downloads"));
    }
    m
}

/// The value of a setting as it is stored: a cache lifetime is read as a
/// number (the default when it is not one) and kept only if valid; a
/// notification frequency is normalised; any other value is kept.
pub open spec fn cleaned_setting(key: Seq<char>, value: Seq<char>, default_ttl: i64) -> Seq<char> {
    if key == "detail_cache_ttl_minutes"@ {
        let parsed = match parse_i64(trim(value)) {
            Some(n) => n,
            None => default_ttl,
        };
        i64_text(if is_valid_ttl(parsed as int) { parsed } else { default_ttl })
    } else if key == "watch_notify_frequency"@ {
        watch_frequency_of(value)
    } else {
        value
    }
}

/// Cleans a setting's value before it is stored.
pub fn normalize_setting_value(key: &str, value: &str, default_ttl: i64) -> (r: String)
    ensures
        r@ == cleaned_setting(key@, value@, default_ttl),
{
    let k = chars_of(key);
    if eq_chars(&k, &chars_of("detail_cache_ttl_minutes")) {
        let parsed = match parse_i64_chars(&trim_chars(&chars_of(value))) {
            Some(n) => n,
            None => default_ttl,
        };
        i64_to_string(normalize_detail_cache_ttl(parsed, default_ttl))
    } else if eq_chars(&k, &chars_of("watch_notify_frequency")) {
        normalize_watch_notify_frequency(value)
    } else {
        owned(value)
    }
}

/// For the start-up setting, whether the application should start with the
/// system: its stored value is `true` or `1`.
pub fn launch_on_startup_change(key: &str, stored_value: &str) -> (r: Option<bool>)
    ensures
        r == if key@ == "launch_on_startup"@ {
            Some(stored_value@ == "true"@ || stored_value@ == "1"@)
        } else {
            None::<bool>
        },
{
    if eq_chars(&chars_of(key), &chars_of("launch_on_startup")) {
        let v = chars_of(stored_value);
        Some(eq_chars(&v, &chars_of("true")) || eq_chars(&v, &chars_of("1")))
    } else {
        None
    }
}

/// What the system's start-up entry for the store (the `ZStore` value of the
/// Windows `Run` key) becomes: the quoted executable when starting with the
/// system is enabled, removed (none) otherwise.
pub fn sync_launch_on_startup(enabled: bool, exe_path: &str) -> (r: Option<String>)
    ensures
        match r {
            Some(v) => enabled && v@ == "\""@ + exe_path@ + "\""@,
            None => !enabled,
        },
{
    if enabled {
        let q = chars_of("\"");
        Some(string_of(&concat(&concat(&q, &chars_of(exe_path)), &q)))
    } else {
        None
    }
}

/// The value a setting is reset to: its default, or the empty string.
pub fn default_setting_value(key: &str, cfg: &ProjectConfig) -> (r: String)
    ensures
        r@ == if default_settings(*cfg).contains_key(key@) {
            default_settings(*cfg)[key@]
        } else {
            Seq::empty()
        },
{
    let defaults = get_default_settings(cfg);
    match defaults.get(key) {
        Some(v) => v,
        None => String::new(),
    }
}

/// The cache lifetime in effect: the stored value when it reads as a number
/// (kept only if valid), else the configured default.
pub fn detail_cache_ttl_from_setting(stored: Option<&str>, default_ttl: i64) -> (r: i64)
    ensures
        r == match stored {
            Some(v) => match parse_i64(trim(v@)) {
                Some(n) => if is_valid_ttl(n as int) {
                    n
                } else {
                    default_ttl
                },
                None => default_ttl,
            },
            None => default_ttl,
        },
{
    match stored {
        Some(v) => match parse_i64_chars(&trim_chars(&chars_of(v))) {
            Some(n) => normalize_detail_cache_ttl(n, default_ttl),
            None => default_ttl,
        },
        None => default_ttl,
    }
}

/// The notification frequency in effect: the stored one, normalised, or `daily`.
pub fn watch_frequency_from_setting(stored: Option<&str>) -> (r: String)
    ensures
        r@ == match stored {
            Some(v) => watch_frequency_of(v@),
            None => "daily"@,
        },
{
    match stored {
        Some(v) => normalize_watch_notify_frequency(v),
        None => owned("daily"),
    }
}

/// A usable token: present and not blank once trimmed.
pub open spec fn usable_token(t: Option<&str>) -> Option<Seq<char>> {
    match t {
        Some(s) => if trim(s@).len() > 0 {
            Some(trim(s@))
        } else {
            None
        },
        None => None,
    }
}

fn usable(t: Option<&str>) -> (r: Option<String>)
    ensures
        match r {
            Some(s) => usable_token(t) == Some(s@),
            None => usable_token(t) is None,
        },
{
    match t {
        Some(s) => {
            let c = trim_chars(&chars_of(s));
            if c.len() > 0 {
                Some(string_of(&c))
            } else {
                None
            }
        },
        None => None,
    }
}

/// The GitHub token in effect: the OAuth login token first, then the token
/// held in memory (a personal access token the user set), then the stored
/// personal access token, then the token stored for github.com; each trimmed,
/// blank ones skipped. The flag is set when the OAuth token was chosen, which
/// the caller then keeps in memory.
pub fn resolve_active_github_token(
    in_memory: Option<&str>,
    oauth_token: Option<&str>,
    personal_token: Option<&str>,
    host_token: Option<&str>,
) -> (r: (Option<String>, bool))
    ensures
        r.1 == (usable_token(oauth_token) is Some),
        match r.0 {
            Some(t) => Some(t@) == (if usable_token(oauth_token) is Some {
                usable_token(oauth_token)
            } else if usable_token(in_memory) is Some {
                usable_token(in_memory)
            } else if usable_token(personal_token) is Some {
                usable_token(personal_token)
            } else {
                usable_token(host_token)
            }),
            None => usable_token(oauth_token) is None && usable_token(in_memory) is None && usable_token(
                personal_token,
            ) is None && usable_token(host_token) is None,
        },
{
    match usable(oauth_token) {
        Some(t) => {
            return (Some(t), true);
        },
        None => {},
    }
    match usable(in_memory) {
        Some(t) => {
            return (Some(t), false);
        },
        None => {},
    }
    match usable(personal_token) {
        Some(t) => {
            return (Some(t), false);
        },
        None => {},
    }
    (usable(host_token), false)
}

proof fn lemma_digits_are_digits(n: nat)
    ensures
        all_digits(decimal_digits(n)),
        decimal_digits(n).len() > 0,
        decimal_value(decimal_digits(n)) == n,
        decimal_digits(n)[0] != '-' && decimal_digits(n)[0] != '+',
        !crate::text::is_ws(decimal_digits(n)[0]),
        !crate::text::is_ws(decimal_digits(n).last()),
    decreases n,
{
    let c = digit_char(n % 10);
    assert(digit_value(c) == n % 10);
    if n < 10 {
        let d = decimal_digits(n);
        assert(d.drop_last() =~= Seq::<char>::empty());
        assert(decimal_value(d) == decimal_value(d.drop_last()) * 10 + digit_value(d.last()));
    }
    if n >= 10 {
        lemma_digits_are_digits(n / 10);
        let d = decimal_digits(n);
        let pre = decimal_digits(n / 10);
        assert(d.drop_last() =~= pre);
        assert(decimal_value(d) == decimal_value(pre) * 10 + digit_value(d.last()));
        assert((n / 10) * 10 + n % 10 == n) by (nonlinear_arith);
        assert forall|i: int| 0 <= i < d.len() implies crate::text::is_ascii_digit(#[trigger] d[i]) by {
            if i < d.len() - 1 {
                assert(d[i] == pre[i]);
            }
        }
        assert(d[0] == pre[0]);
    }
}

proof fn lemma_trim_plain(s: Seq<char>)
    requires
        s.len() > 0,
        !crate::text::is_ws(s[0]),
        !crate::text::is_ws(s.last()),
    ensures
        trim(s) == s,
{
}

/// Reading back a written number gives the number.
pub proof fn law_i64_text_reads_back(n: i64)
    ensures
        parse_i64(i64_text(n)) == Some(n),
        trim(i64_text(n)) == i64_text(n),
{
    if n < 0 {
        let m = (-(n as int)) as nat;
        lemma_digits_are_digits(m);
        let t = i64_text(n);
        let d = decimal_digits(m);
        assert(t.skip(1) =~= d);
        assert(t.last() == d.last());
        lemma_trim_plain(t);
    } else {
        lemma_digits_are_digits(n as nat);
        lemma_trim_plain(i64_text(n));
    }
}

/// A cache lifetime that was stored is read back as the value stored: the
/// cleaned value, read, gives the cleaned number.
pub proof fn law_ttl_setting_reads_back(value: Seq<char>, default_ttl: i64)
    requires
        is_valid_ttl(default_ttl as int),
    ensures
        ({
            let stored = cleaned_setting("detail_cache_ttl_minutes"@, value, default_ttl);
            let n = match parse_i64(trim(value)) {
                Some(n) => n,
                None => default_ttl,
            };
            let kept = if is_valid_ttl(n as int) { n } else { default_ttl };
            &&& parse_i64(trim(stored)) == Some(kept)
            &&& is_valid_ttl(kept as int)
        }),
{
    let n = match parse_i64(trim(value)) {
        Some(n) => n,
        None => default_ttl,
    };
    let kept = if is_valid_ttl(n as int) { n } else { default_ttl };
    law_i64_text_reads_back(kept);
}

/// Normalising a notification frequency twice changes nothing more.
pub proof fn law_watch_frequency_idempotent(value: Seq<char>)
    requires
        crate::text::lowercase("startup"@) == "startup"@,
        crate::text::lowercase("daily"@) == "daily"@,
    ensures
        watch_frequency_of(watch_frequency_of(value)) == watch_frequency_of(value),
{
    reveal_strlit("startup");
    reveal_strlit("daily");
    let w = watch_frequency_of(value);
    assert(w == "startup"@ || w == "daily"@);
    lemma_trim_plain(w);
}

/// Saving a setting that was saved changes nothing: a cleaned value, cleaned
/// again, is the same value.
pub proof fn law_saved_setting_is_stable(key: Seq<char>, value: Seq<char>, default_ttl: i64)
    requires
        is_valid_ttl(default_ttl as int),
        crate::text::lowercase("startup"@) == "startup"@,
        crate::text::lowercase("daily"@) == "daily"@,
    ensures
        cleaned_setting(key, cleaned_setting(key, value, default_ttl), default_ttl) == cleaned_setting(
            key,
            value,
            default_ttl,
        ),
{
    if key == "detail_cache_ttl_minutes"@ {
        law_ttl_setting_reads_back(value, default_ttl);
    } else if key == "watch_notify_frequency"@ {
        law_watch_frequency_idempotent(value);
    }
}

/// What an import of user data changed.
#[derive(Debug)]
pub struct ImportUserDataResult {
    pub favorites_added: usize,
    pub watched_added: usize,
    pub settings_applied: usize,
    pub installed_skipped: usize,
}

/// An imported favourite or watched application is skipped when it is
/// installed: its lower-cased id is among the installed ones (lower-cased).
pub fn import_skips_installed(installed_lower: &Vec<String>, id: &str) -> (r: bool)
    ensures
        r == crate::models::strs_view(installed_lower@).contains(crate::text::lowercase(id@)),
{
    let l = lowercase_chars(&chars_of(id));
    let mut i: usize = 0;
    while i < installed_lower.len()
        invariant
            i <= installed_lower@.len(),
            l@ == crate::text::lowercase(id@),
            forall|j: int| 0 <= j < i ==> (#[trigger] crate::models::strs_view(installed_lower@)[j]) != l@,
        decreases installed_lower@.len() - i,
    {
        if eq_chars(&chars_of(installed_lower[i].as_str()), &l) {
            assert(crate::models::strs_view(installed_lower@)[i as int] == l@);
            return true;
        }
        i = i + 1;
    }
    false
}

/// An application id to watch: trimmed; an error when blank.
pub fn watch_target(app_id: &str) -> (r: Result<String, String>)
    ensures
        match r {
            Ok(id) => trim(app_id@).len() > 0 && id@ == trim(app_id@),
            Err(e) => trim(app_id@).len() == 0 && e@ == "应用 ID 不能为空"@,
        },
{
    let t = trim_chars(&chars_of(app_id));
    if t.len() == 0 {
        Err(owned("应用 ID 不能为空"))
    } else {
        Ok(string_of(&t))
    }
}

} // verus!
