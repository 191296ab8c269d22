//! The curated catalog of applications: lookup, search and category listing.

use vstd::prelude::*;
use crate::models::{
    UpdateRule,
    clone_opt_string, clone_string, clone_strings, opt_str_view, strs_view, summaries_view, AppSummary,
    SummaryView,
};
use crate::ranking::{rank_entries, ranks_before, strictly_ranked, positions_increase, Ranked};
use crate::forge::{parse_repository, repo_key_of, RepositoryUrlParser};
use crate::text::{
    chars_of, concat, contains_char, contains_str, eq_ascii_ci, eq_chars, eq_ignore_ascii_case,
    has_substring, is_prefix, lowercase, lowercase_chars, seqs_of, split, split_chars, starts_with,
    string_of, trim, trim_chars, is_ascii_seq, lower_ascii, lowers_as_ascii, lemma_lower_ascii_idempotent,
    lemma_trim_idempotent, lemma_trim_lower, occurs_at,
};

verus! {

/// An application of the curated catalog.
#[derive(Debug)]
pub struct CatalogItem {
    pub id: String,
    pub name: String,
    pub chinese_name: Option<String>,
    pub owner: String,
    pub repo: String,
    pub icon: String,
    pub icon_bg: String,
    pub description: String,
    pub category: String,
    pub category_name: String,
    pub aliases: Vec<String>,
    pub default_version: String,
    pub license: String,
    pub stars: u64,
    pub forks: u64,
    pub is_verified: bool,
    pub publisher_fingerprint: Option<String>,
    pub homepage: Option<String>,
    /// Native identifiers per platform (executable or package names); each
    /// platform appears once.
    pub identifiers: Vec<(String, Vec<String>)>,
    /// Windows executables in the older catalog format.
    pub executables: Vec<String>,
    pub install_dirs: Vec<String>,
    pub search_subdirs: Vec<String>,
    pub publishers: Vec<String>,
    pub platforms: Vec<String>,
}

/// The contents of a catalog entry as plain values.
pub struct CatalogItemView {
    pub id: Seq<char>,
    pub name: Seq<char>,
    pub chinese_name: Option<Seq<char>>,
    pub owner: Seq<char>,
    pub repo: Seq<char>,
    pub icon: Seq<char>,
    pub icon_bg: Seq<char>,
    pub description: Seq<char>,
    pub category: Seq<char>,
    pub category_name: Seq<char>,
    pub aliases: Seq<Seq<char>>,
    pub default_version: Seq<char>,
    pub license: Seq<char>,
    pub stars: u64,
    pub forks: u64,
    pub is_verified: bool,
    pub publisher_fingerprint: Option<Seq<char>>,
    pub homepage: Option<Seq<char>>,
    pub identifiers: Seq<(Seq<char>, Seq<Seq<char>>)>,
    pub executables: Seq<Seq<char>>,
    pub install_dirs: Seq<Seq<char>>,
    pub search_subdirs: Seq<Seq<char>>,
    pub publishers: Seq<Seq<char>>,
    pub platforms: Seq<Seq<char>>,
}

pub open spec fn ids_view(v: Seq<(String, Vec<String>)>) -> Seq<(Seq<char>, Seq<Seq<char>>)> {
    v.map_values(|p: (String, Vec<String>)| (p.0@, strs_view(p.1@)))
}

impl View for CatalogItem {
    type V = CatalogItemView;

    open spec fn view(&self) -> CatalogItemView {
        CatalogItemView {
            id: self.id@,
            name: self.name@,
            chinese_name: opt_str_view(self.chinese_name),
            owner: self.owner@,
            repo: self.repo@,
            icon: self.icon@,
            icon_bg: self.icon_bg@,
            description: self.description@,
            category: self.category@,
            category_name: self.category_name@,
            aliases: strs_view(self.aliases@),
            default_version: self.default_version@,
            license: self.license@,
            stars: self.stars,
            forks: self.forks,
            is_verified: self.is_verified,
            publisher_fingerprint: opt_str_view(self.publisher_fingerprint),
            homepage: opt_str_view(self.homepage),
            identifiers: ids_view(self.identifiers@),
            executables: strs_view(self.executables@),
            install_dirs: strs_view(self.install_dirs@),
            search_subdirs: strs_view(self.search_subdirs@),
            publishers: strs_view(self.publishers@),
            platforms: strs_view(self.platforms@),
        }
    }
}

pub open spec fn items_view(v: Seq<CatalogItem>) -> Seq<CatalogItemView> {
    v.map_values(|it: CatalogItem| it@)
}

/// Platforms assumed for catalog entries that list none.
pub fn default_platforms() -> (r: Vec<String>)
    ensures
        strs_view(r@) == seq!["windows"@],
{
    let r = vec![string_of(&chars_of("windows"))];
    assert(strs_view(r@) =~= seq!["windows"@]);
    r
}

/// The identifiers of the first entry for `platform`, if there is one.
pub open spec fn entry_for(ids: Seq<(Seq<char>, Seq<Seq<char>>)>, platform: Seq<char>) -> Option<Seq<Seq<char>>>
    decreases ids.len(),
{
    if ids.len() == 0 {
        None
    } else if ids[0].0 == platform {
        Some(ids[0].1)
    } else {
        entry_for(ids.drop_first(), platform)
    }
}

/// Identifiers listed for `platform`: its entry when not empty; else, for
/// Windows, the legacy executables; else none.
pub open spec fn identifiers_for(item: CatalogItemView, platform: Seq<char>) -> Seq<Seq<char>> {
    match entry_for(item.identifiers, platform) {
        Some(list) if list.len() > 0 => list,
        _ => if platform == "windows"@ && item.executables.len() > 0 {
            item.executables
        } else {
            Seq::empty()
        },
    }
}

/// The summary shown for a catalog entry: its own icon when it is an http(s)
/// address, else the owner's GitHub avatar; Windows when no platform is listed.
pub open spec fn summary_of(item: CatalogItemView) -> SummaryView {
    SummaryView {
        id: item.id,
        name: item.name,
        owner: item.owner,
        repo: item.repo,
        icon: if is_prefix("http://"@, item.icon) || is_prefix("https://"@, item.icon) {
            item.icon
        } else {
            "https://github.com/"@ + item.owner + ".png"@
        },
        icon_bg: item.icon_bg,
        description: item.description,
        stars: item.stars,
        forks: item.forks,
        license: item.license,
        latest_version: item.default_version,
        category: item.category,
        category_name: item.category_name,
        is_verified: item.is_verified,
        is_installed: None,
        has_update: None,
        installed_version: None,
        forge: Some("github"@),
        forge_host: Some("github.com"@),
        homepage: item.homepage,
        platforms: if item.platforms.len() == 0 {
            seq!["windows"@]
        } else {
            item.platforms
        },
    }
}

fn owned(s: &str) -> (r: String)
    ensures
        r@ == s@,
{
    string_of(&chars_of(s))
}

impl CatalogItem {
    /// Native identifiers of this application on `platform`.
    pub fn get_identifiers(&self, platform: &str) -> (r: Vec<String>)
        ensures
            strs_view(r@) == identifiers_for(self@, platform@),
    {
        let ghost ids = ids_view(self.identifiers@);
        let p = chars_of(platform);
        let mut i: usize = 0;
        assert(ids.subrange(0, ids.len() as int) =~= ids);
        while i < self.identifiers.len()
            invariant_except_break
                i <= ids.len(),
                entry_for(ids, platform@) == entry_for(ids.subrange(i as int, ids.len() as int), platform@),
            invariant
                ids == ids_view(self.identifiers@),
                p@ == platform@,
            ensures
                entry_for(ids, platform@) matches Some(list) ==> list.len() == 0,
            decreases ids.len() - i,
        {
            let ghost rest = ids.subrange(i as int, ids.len() as int);
            assert(rest.drop_first() =~= ids.subrange(i + 1, ids.len() as int));
            if eq_chars(&chars_of(self.identifiers[i].0.as_str()), &p) {
                if self.identifiers[i].1.len() > 0 {
                    return clone_strings(&self.identifiers[i].1);
                }
                break;
            }
            i = i + 1;
            proof {
                if i == ids.len() {
                    assert(ids.subrange(i as int, ids.len() as int).len() == 0);
                }
            }
        }
        if eq_chars(&p, &chars_of("windows")) && self.executables.len() > 0 {
            return clone_strings(&self.executables);
        }
        let r: Vec<String> = Vec::new();
        assert(strs_view(r@) =~= Seq::<Seq<char>>::empty());
        r
    }

    /// Executable file names of this application on Windows.
    pub fn get_windows_executables(&self) -> (r: Vec<String>)
        ensures
            strs_view(r@) == identifiers_for(self@, "windows"@),
    {
        self.get_identifiers("windows")
    }

    /// The summary shown in listings.
    pub fn to_summary(&self) -> (r: AppSummary)
        ensures
            r@ == summary_of(self@),
    {
        let icon_chars = chars_of(self.icon.as_str());
        let icon = if starts_with(&icon_chars, &chars_of("http://")) || starts_with(&icon_chars, &chars_of("https://")) {
            clone_string(&self.icon)
        } else {
            string_of(&concat(&concat(&chars_of("https://github.com/"), &chars_of(self.owner.as_str())), &chars_of(".png")))
        };
        let platforms = if self.platforms.len() == 0 {
            default_platforms()
        } else {
            clone_strings(&self.platforms)
        };
        AppSummary {
            id: clone_string(&self.id),
            name: clone_string(&self.name),
            owner: clone_string(&self.owner),
            repo: clone_string(&self.repo),
            icon,
            icon_bg: clone_string(&self.icon_bg),
            description: clone_string(&self.description),
            stars: self.stars,
            forks: self.forks,
            license: clone_string(&self.license),
            latest_version: clone_string(&self.default_version),
            category: clone_string(&self.category),
            category_name: clone_string(&self.category_name),
            is_verified: self.is_verified,
            is_installed: None,
            has_update: None,
            installed_version: None,
            forge: Some(owned("github")),
            forge_host: Some(owned("github.com")),
            homepage: clone_opt_string(&self.homepage),
            platforms,
        }
    }
}


fn clone_identifiers(v: &Vec<(String, Vec<String>)>) -> (r: Vec<(String, Vec<String>)>)
    ensures
        ids_view(r@) == ids_view(v@),
{
    let mut r: Vec<(String, Vec<String>)> = Vec::new();
    let mut i: usize = 0;
    while i < v.len()
        invariant
            i <= v.len(),
            r@.len() == i,
            forall|j: int| 0 <= j < i ==> (#[trigger] r@[j]).0@ == v@[j].0@ && strs_view(r@[j].1@) == strs_view(v@[j].1@),
        decreases v.len() - i,
    {
        let p = (clone_string(&v[i].0), clone_strings(&v[i].1));
        r.push(p);
        i = i + 1;
    }
    assert(ids_view(r@) =~= ids_view(v@));
    r
}

impl CatalogItem {
    /// A copy of this entry.
    pub fn copied(&self) -> (r: CatalogItem)
        ensures
            r@ == self@,
    {
        CatalogItem {
            id: clone_string(&self.id),
            name: clone_string(&self.name),
            chinese_name: clone_opt_string(&self.chinese_name),
            owner: clone_string(&self.owner),
            repo: clone_string(&self.repo),
            icon: clone_string(&self.icon),
            icon_bg: clone_string(&self.icon_bg),
            description: clone_string(&self.description),
            category: clone_string(&self.category),
            category_name: clone_string(&self.category_name),
            aliases: clone_strings(&self.aliases),
            default_version: clone_string(&self.default_version),
            license: clone_string(&self.license),
            stars: self.stars,
            forks: self.forks,
            is_verified: self.is_verified,
            publisher_fingerprint: clone_opt_string(&self.publisher_fingerprint),
            homepage: clone_opt_string(&self.homepage),
            identifiers: clone_identifiers(&self.identifiers),
            executables: clone_strings(&self.executables),
            install_dirs: clone_strings(&self.install_dirs),
            search_subdirs: clone_strings(&self.search_subdirs),
            publishers: clone_strings(&self.publishers),
            platforms: clone_strings(&self.platforms),
        }
    }
}

/// `id` names the entry: its id or its `owner/repo`, ASCII case ignored.
pub open spec fn item_matches(it: CatalogItemView, id: Seq<char>) -> bool {
    eq_ascii_ci(it.id, id) || eq_ascii_ci(it.owner + "/"@ + it.repo, id)
}

/// `k` is the first entry that `id` names.
pub open spec fn is_first_match(items: Seq<CatalogItemView>, id: Seq<char>, k: int) -> bool {
    &&& 0 <= k < items.len()
    &&& item_matches(items[k], id)
    &&& forall|j: int| 0 <= j < k ==> !item_matches(#[trigger] items[j], id)
}

pub open spec fn no_match(items: Seq<CatalogItemView>, id: Seq<char>) -> bool {
    forall|j: int| 0 <= j < items.len() ==> !item_matches(#[trigger] items[j], id)
}

impl CatalogItem {
    fn matches_id(&self, id: &[char]) -> (r: bool)
        ensures
            r == item_matches(self@, id@),
    {
        if eq_ignore_ascii_case(&chars_of(self.id.as_str()), id) {
            return true;
        }
        let full = concat(&concat(&chars_of(self.owner.as_str()), &chars_of("/")), &chars_of(self.repo.as_str()));
        eq_ignore_ascii_case(&full, id)
    }
}

/// An entry after its statistics were refreshed: the counts that were given
/// replace the old ones, and a version replaces the default one unless it is blank.
pub open spec fn stats_updated(
    it: CatalogItemView,
    stars: Option<u64>,
    forks: Option<u64>,
    version: Option<Seq<char>>,
) -> CatalogItemView {
    CatalogItemView {
        stars: match stars {
            Some(s) => s,
            None => it.stars,
        },
        forks: match forks {
            Some(f) => f,
            None => it.forks,
        },
        default_version: match version {
            Some(v) => if trim(v).len() > 0 {
                v
            } else {
                it.default_version
            },
            None => it.default_version,
        },
        ..it
    }
}

/// The first entry whose id is exactly `id`.
pub open spec fn first_with_id(items: Seq<CatalogItemView>, id: Seq<char>) -> Option<CatalogItemView>
    decreases items.len(),
{
    if items.len() == 0 {
        None
    } else if items[0].id == id {
        Some(items[0])
    } else {
        first_with_id(items.drop_first(), id)
    }
}

/// Refreshing an entry's statistics is seen by the next lookup under the
/// same id: the entry is still the first one the id names, and it shows the
/// counts given and the new version unless that was blank; no other entry changes.
pub proof fn law_stats_update_is_seen(
    items: Seq<CatalogItemView>,
    id: Seq<char>,
    k: int,
    stars: Option<u64>,
    forks: Option<u64>,
    version: Option<Seq<char>>,
)
    requires
        is_first_match(items, id, k),
    ensures
        ({
            let after = items.update(k, stats_updated(items[k], stars, forks, version));
            &&& is_first_match(after, id, k)
            &&& stars matches Some(s) ==> after[k].stars == s
            &&& forks matches Some(f) ==> after[k].forks == f
            &&& version matches Some(v) ==> (trim(v).len() > 0 ==> after[k].default_version == v)
            &&& forall|j: int| 0 <= j < items.len() && j != k ==> after[j] == items[j]
        }),
{
    let after = items.update(k, stats_updated(items[k], stars, forks, version));
    assert forall|j: int| 0 <= j < k implies !item_matches(#[trigger] after[j], id) by {
        assert(after[j] == items[j]);
        assert(!item_matches(items[j], id));
    }
}

pub open spec fn opt_str_ref_view(o: Option<&str>) -> Option<Seq<char>> {
    match o {
        Some(s) => Some(s@),
        None => None,
    }
}

/// Each platform appears once among an entry's identifiers, as in a map keyed
/// by platform.
pub open spec fn platforms_distinct(ids: Seq<(Seq<char>, Seq<Seq<char>>)>) -> bool {
    forall|a: int, b: int| 0 <= a < b < ids.len() ==> #[trigger] ids[a].0 != #[trigger] ids[b].0
}

/// Every entry of a catalog lists each platform's identifiers once.
pub open spec fn catalog_wf(items: Seq<CatalogItemView>) -> bool {
    forall|k: int| 0 <= k < items.len() ==> platforms_distinct(#[trigger] items[k].identifiers)
}

/// The identifiers without the entries for `platform`.
pub open spec fn without_platform(
    ids: Seq<(Seq<char>, Seq<Seq<char>>)>,
    platform: Seq<char>,
) -> Seq<(Seq<char>, Seq<Seq<char>>)> {
    ids.filter(|p: (Seq<char>, Seq<Seq<char>>)| p.0 != platform)
}

/// The identifiers with each platform once, read in order into a map keyed by
/// platform: a later entry for a platform replaces an earlier one.
pub open spec fn last_per_platform(ids: Seq<(Seq<char>, Seq<Seq<char>>)>) -> Seq<(Seq<char>, Seq<Seq<char>>)>
    decreases ids.len(),
{
    if ids.len() == 0 {
        ids
    } else {
        without_platform(last_per_platform(ids.drop_last()), ids.last().0).push(ids.last())
    }
}

proof fn lemma_without_platform(ids: Seq<(Seq<char>, Seq<Seq<char>>)>, platform: Seq<char>)
    ensures
        platforms_distinct(ids) ==> platforms_distinct(without_platform(ids, platform)),
        forall|i: int| 0 <= i < without_platform(ids, platform).len() ==> (#[trigger] without_platform(ids, platform)[i]).0
            != platform,
    decreases ids.len(),
{
    reveal(Seq::filter);
    if ids.len() > 0 {
        lemma_without_platform(ids.drop_last(), platform);
        let w = without_platform(ids.drop_last(), platform);
        if ids.last().0 != platform {
            assert(without_platform(ids, platform) == w.push(ids.last()));
            if platforms_distinct(ids) {
                assert(platforms_distinct(ids.drop_last()));
                lemma_filter_keys_from(ids.drop_last(), platform);
            }
        }
    }
}

proof fn lemma_filter_keys_from(ids: Seq<(Seq<char>, Seq<Seq<char>>)>, platform: Seq<char>)
    ensures
        forall|i: int| 0 <= i < without_platform(ids, platform).len() ==> exists|j: int| 0 <= j < ids.len()
            && #[trigger] without_platform(ids, platform)[i] == ids[j],
    decreases ids.len(),
{
    reveal(Seq::filter);
    if ids.len() > 0 {
        lemma_filter_keys_from(ids.drop_last(), platform);
        let w = without_platform(ids.drop_last(), platform);
        assert forall|i: int| 0 <= i < without_platform(ids, platform).len() implies exists|j: int| 0 <= j < ids.len()
            && #[trigger] without_platform(ids, platform)[i] == ids[j] by {
            if i < w.len() {
                let j = choose|j: int| 0 <= j < ids.drop_last().len() && w[i] == ids.drop_last()[j];
                assert(without_platform(ids, platform)[i] == ids[j]);
            } else {
                assert(without_platform(ids, platform)[i] == ids[ids.len() - 1]);
            }
        }
    }
}

proof fn lemma_last_per_platform(ids: Seq<(Seq<char>, Seq<Seq<char>>)>)
    ensures
        platforms_distinct(last_per_platform(ids)),
    decreases ids.len(),
{
    if ids.len() > 0 {
        lemma_last_per_platform(ids.drop_last());
        let k = ids.last().0;
        let w = without_platform(last_per_platform(ids.drop_last()), k);
        lemma_without_platform(last_per_platform(ids.drop_last()), k);
        let r = w.push(ids.last());
        assert forall|a: int, b: int| 0 <= a < b < r.len() implies #[trigger] r[a].0 != #[trigger] r[b].0 by {
            if b == r.len() - 1 {
                assert(r[a] == w[a]);
            } else {
                assert(r[a] == w[a] && r[b] == w[b]);
            }
        }
    }
}

fn drop_platform(v: Vec<(String, Vec<String>)>, platform: &[char]) -> (r: Vec<(String, Vec<String>)>)
    ensures
        ids_view(r@) == without_platform(ids_view(v@), platform@),
{
    let ghost iv = ids_view(v@);
    let ghost keep = |p: (Seq<char>, Seq<Seq<char>>)| p.0 != platform@;
    let mut out: Vec<(String, Vec<String>)> = Vec::new();
    let mut i: usize = 0;
    while i < v.len()
        invariant
            i <= v@.len(),
            iv == ids_view(v@),
            keep == (|p: (Seq<char>, Seq<Seq<char>>)| p.0 != platform@),
            ids_view(out@) == iv.take(i as int).filter(keep),
        decreases v@.len() - i,
    {
        reveal(Seq::filter);
        assert(iv.take(i + 1).drop_last() =~= iv.take(i as int));
        assert(iv.take(i + 1).last() == iv[i as int]);
        if !eq_chars(&chars_of(v[i].0.as_str()), platform) {
            let p = (clone_string(&v[i].0), clone_strings(&v[i].1));
            let ghost before = out@;
            out.push(p);
            assert(ids_view(out@) =~= ids_view(before).push(iv[i as int]));
        }
        i = i + 1;
    }
    assert(iv.take(i as int) =~= iv);
    out
}

/// Each platform's identifiers once: a later entry for a platform replaces an
/// earlier one, as when they are read into a map.
pub fn identifiers_once(ids: &Vec<(String, Vec<String>)>) -> (r: Vec<(String, Vec<String>)>)
    ensures
        ids_view(r@) == last_per_platform(ids_view(ids@)),
        platforms_distinct(ids_view(r@)),
{
    let ghost iv = ids_view(ids@);
    let mut out: Vec<(String, Vec<String>)> = Vec::new();
    let mut i: usize = 0;
    while i < ids.len()
        invariant
            i <= ids@.len(),
            iv == ids_view(ids@),
            ids_view(out@) == last_per_platform(iv.take(i as int)),
        decreases ids@.len() - i,
    {
        assert(iv.take(i + 1).drop_last() =~= iv.take(i as int));
        assert(iv.take(i + 1).last() == iv[i as int]);
        let key = chars_of(ids[i].0.as_str());
        let mut kept = drop_platform(out, &key);
        let ghost before = kept@;
        kept.push((clone_string(&ids[i].0), clone_strings(&ids[i].1)));
        assert(ids_view(kept@) =~= ids_view(before).push(iv[i as int]));
        out = kept;
        i = i + 1;
    }
    assert(iv.take(i as int) =~= iv);
    proof {
        lemma_last_per_platform(iv);
    }
    out
}

/// A catalog entry with each platform's identifiers once.
pub open spec fn with_identifiers_once(it: CatalogItemView) -> CatalogItemView {
    CatalogItemView { identifiers: last_per_platform(it.identifiers), ..it }
}

/// The entries of a catalog file as the catalog holds them: a later identifier
/// entry for a platform replaces an earlier one.
pub fn catalog_entries(items: &Vec<CatalogItem>) -> (r: Vec<CatalogItem>)
    ensures
        items_view(r@) == items_view(items@).map_values(|it: CatalogItemView| with_identifiers_once(it)),
        catalog_wf(items_view(r@)),
{
    let ghost f = |it: CatalogItemView| with_identifiers_once(it);
    let mut out: Vec<CatalogItem> = Vec::new();
    let mut k: usize = 0;
    while k < items.len()
        invariant
            k <= items@.len(),
            f == (|it: CatalogItemView| with_identifiers_once(it)),
            out@.len() == k,
            forall|j: int| 0 <= j < k ==> (#[trigger] out@[j])@ == with_identifiers_once(items@[j]@),
            forall|j: int| 0 <= j < k ==> platforms_distinct((#[trigger] out@[j])@.identifiers),
        decreases items@.len() - k,
    {
        let mut it = items[k].copied();
        let ids = identifiers_once(&it.identifiers);
        it.identifiers = ids;
        assert(it@ == with_identifiers_once(items@[k as int]@));
        out.push(it);
        k = k + 1;
    }
    assert(items_view(out@) =~= items_view(items@).map_values(f));
    out
}

/// The catalog of curated applications held in memory.
pub struct CatalogService {
    items: Vec<CatalogItem>,
}

impl CatalogService {
    #[verifier::type_invariant]
    closed spec fn inv(self) -> bool {
        catalog_wf(items_view(self.items@))
    }
}

impl View for CatalogService {
    type V = Seq<CatalogItemView>;

    closed spec fn view(&self) -> Seq<CatalogItemView> {
        items_view(self.items@)
    }
}

fn copy_items(v: &Vec<CatalogItem>) -> (r: Vec<CatalogItem>)
    ensures
        items_view(r@) == items_view(v@),
{
    let mut r: Vec<CatalogItem> = Vec::new();
    let mut i: usize = 0;
    while i < v.len()
        invariant
            i <= v.len(),
            r@.len() == i,
            forall|j: int| 0 <= j < i ==> (#[trigger] r@[j])@ == v@[j]@,
        decreases v.len() - i,
    {
        r.push(v[i].copied());
        i = i + 1;
    }
    assert(items_view(r@) =~= items_view(v@));
    r
}

impl CatalogService {
    /// A catalog holding `items`, in that order.
    pub fn new(items: Vec<CatalogItem>) -> (r: CatalogService)
        requires
            catalog_wf(items_view(items@)),
        ensures
            r@ == items_view(items@),
    {
        CatalogService { items }
    }

    pub fn get_catalog_count(&self) -> (r: usize)
        ensures
            r == self@.len(),
    {
        self.items.len()
    }

    /// Copies of all entries, in catalog order.
    pub fn get_catalog_items(&self) -> (r: Vec<CatalogItem>)
        ensures
            items_view(r@) == self@,
            catalog_wf(self@),
    {
        proof {
            use_type_invariant(self);
        }
        copy_items(&self.items)
    }

    fn find_index(&self, id: &[char]) -> (r: Option<usize>)
        ensures
            match r {
                Some(k) => is_first_match(self@, id@, k as int),
                None => no_match(self@, id@),
            },
    {
        let mut i: usize = 0;
        while i < self.items.len()
            invariant
                i <= self.items@.len(),
                forall|j: int| 0 <= j < i ==> !item_matches(#[trigger] self@[j], id@),
            decreases self.items@.len() - i,
        {
            if self.items[i].matches_id(id) {
                return Some(i);
            }
            i = i + 1;
        }
        None
    }

    /// The first entry named by `id` (its id or `owner/repo`, ASCII case ignored).
    pub fn get_catalog_item(&self, id: &str) -> (r: Option<CatalogItem>)
        ensures
            match r {
                Some(it) => exists|k: int| is_first_match(self@, id@, k) && it@ == self@[k],
                None => no_match(self@, id@),
            },
    {
        match self.find_index(&chars_of(id)) {
            Some(k) => Some(self.items[k].copied()),
            None => None,
        }
    }

    /// A copy of the first entry whose id is exactly `id`.
    pub(crate) fn item_with_id(&self, id: &str) -> (r: Option<CatalogItem>)
        ensures
            match r {
                Some(it) => first_with_id(self@, id@) == Some(it@),
                None => first_with_id(self@, id@) is None,
            },
    {
        let idc = chars_of(id);
        let mut i: usize = 0;
        assert(self@.skip(0) =~= self@);
        while i < self.items.len()
            invariant
                i <= self.items@.len(),
                idc@ == id@,
                first_with_id(self@, id@) == first_with_id(self@.skip(i as int), id@),
            decreases self.items@.len() - i,
        {
            assert(self@.skip(i as int)[0] == self@[i as int]);
            assert(self@.skip(i as int).drop_first() =~= self@.skip(i + 1));
            if eq_chars(&chars_of(self.items[i].id.as_str()), &idc) {
                return Some(self.items[i].copied());
            }
            i = i + 1;
        }
        None
    }

    /// Replaces the whole catalog.
    pub fn update_items(&mut self, new_items: Vec<CatalogItem>)
        requires
            catalog_wf(items_view(new_items@)),
        ensures
            final(self)@ == items_view(new_items@),
    {
        self.items = new_items;
    }

    /// Refreshes the statistics of the first entry named by `id`; the catalog
    /// is unchanged when no entry is named.
    pub fn update_catalog_item_stats(
        &mut self,
        id: &str,
        stars: Option<u64>,
        forks: Option<u64>,
        version: Option<&str>,
    )
        ensures
            no_match(old(self)@, id@) ==> final(self)@ == old(self)@,
            forall|k: int| is_first_match(old(self)@, id@, k) ==> final(self)@ == old(self)@.update(
                k,
                stats_updated(old(self)@[k], stars, forks, opt_str_ref_view(version)),
            ),
    {
        let ghost before = self@;
        proof {
            use_type_invariant(&*self);
        }
        match self.find_index(&chars_of(id)) {
            None => {},
            Some(k) => {
                let mut items: Vec<CatalogItem> = Vec::new();
                std::mem::swap(&mut items, &mut self.items);
                let mut item = items.remove(k);
                match stars {
                    Some(s) => {
                        item.stars = s;
                    },
                    None => {},
                }
                match forks {
                    Some(f) => {
                        item.forks = f;
                    },
                    None => {},
                }
                match version {
                    Some(v) => {
                        let vc = chars_of(v);
                        if trim_chars(&vc).len() > 0 {
                            item.default_version = string_of(&vc);
                        }
                    },
                    None => {},
                }
                items.insert(k, item);
                proof {
                    let n = items@;
                    let after = before.update(
                        k as int,
                        stats_updated(before[k as int], stars, forks, opt_str_ref_view(version)),
                    );
                    assert(items_view(n) =~= after);
                    assert forall|j: int| 0 <= j < after.len() implies platforms_distinct(#[trigger] after[j].identifiers) by {
                        assert(after[j].identifiers == before[j].identifiers);
                    }
                    assert(items_view(n) =~= before.update(
                        k as int,
                        stats_updated(before[k as int], stars, forks, opt_str_ref_view(version)),
                    ));
                    assert forall|k2: int| is_first_match(before, id@, k2) implies k2 == k by {
                        if k2 < k {
                            assert(!item_matches(before[k2], id@));
                        } else if k2 > k {
                            assert(!item_matches(before[k as int], id@));
                        }
                    }
                }
                self.items = items;
            },
        }
    }
}


/// Score of an exact name or id match.
pub const SEARCH_SCORE_EXACT_MATCH: i32 = 100;
/// Score of a name that starts with the query.
pub const SEARCH_SCORE_PREFIX_MATCH: i32 = 60;
/// Score of a Chinese name that contains the query.
pub const SEARCH_SCORE_CHINESE_CONTAINS: i32 = 50;
/// Score of a name that contains the query.
pub const SEARCH_SCORE_NAME_CONTAINS: i32 = 40;
/// Score of an alias that contains the query.
pub const SEARCH_SCORE_ALIAS_CONTAINS: i32 = 35;
/// Score of an owner or repository name that contains the query.
pub const SEARCH_SCORE_OWNER_OR_REPO_CONTAINS: i32 = 30;
/// Score of a description that contains the query.
pub const SEARCH_SCORE_DESC_CONTAINS: i32 = 15;

/// How well an entry matches a lower-cased query; the first rule that applies
/// decides, and 0 means no match.
pub open spec fn search_score(it: CatalogItemView, q: Seq<char>) -> int {
    let name = lowercase(it.name);
    let zh = lowercase(
        match it.chinese_name {
            Some(z) => z,
            None => Seq::empty(),
        },
    );
    if name == q || lowercase(it.id) == q {
        SEARCH_SCORE_EXACT_MATCH as int
    } else if is_prefix(q, name) {
        SEARCH_SCORE_PREFIX_MATCH as int
    } else if has_substring(zh, q) {
        SEARCH_SCORE_CHINESE_CONTAINS as int
    } else if has_substring(name, q) {
        SEARCH_SCORE_NAME_CONTAINS as int
    } else if has_substring(lowercase(it.owner), q) || has_substring(lowercase(it.repo), q) {
        SEARCH_SCORE_OWNER_OR_REPO_CONTAINS as int
    } else if exists|a: int| 0 <= a < it.aliases.len() && has_substring(lowercase(#[trigger] it.aliases[a]), q) {
        SEARCH_SCORE_ALIAS_CONTAINS as int
    } else if has_substring(lowercase(it.description), q) {
        SEARCH_SCORE_DESC_CONTAINS as int
    } else {
        0
    }
}

/// An entry matches a lower-cased query exactly when its name, Chinese name,
/// owner, repository name, one of its aliases or its description contains the
/// query (each lower-cased), or its id is the query.
pub proof fn law_search_hit_iff_field_contains(it: CatalogItemView, q: Seq<char>)
    ensures
        search_score(it, q) > 0 <==> ({
            let zh = lowercase(
                match it.chinese_name {
                    Some(z) => z,
                    None => Seq::empty(),
                },
            );
            ||| has_substring(lowercase(it.name), q)
            ||| lowercase(it.id) == q
            ||| has_substring(zh, q)
            ||| has_substring(lowercase(it.owner), q)
            ||| has_substring(lowercase(it.repo), q)
            ||| exists|a: int| 0 <= a < it.aliases.len() && has_substring(lowercase(#[trigger] it.aliases[a]), q)
            ||| has_substring(lowercase(it.description), q)
        }),
{
    let name = lowercase(it.name);
    if name == q {
        assert(occurs_at(name, q, 0)) by {
            assert(name.subrange(0, q.len() as int) =~= name);
        }
    }
    if is_prefix(q, name) {
        assert(occurs_at(name, q, 0));
    }
}

/// An entry whose name or id is the query ranks at least as high as any other,
/// and above every entry whose name and id are not the query.
pub proof fn law_search_exact_ranks_first(it: CatalogItemView, other: CatalogItemView, q: Seq<char>)
    requires
        lowercase(it.name) == q || lowercase(it.id) == q,
    ensures
        search_score(other, q) <= search_score(it, q),
        (lowercase(other.name) != q && lowercase(other.id) != q) ==> search_score(other, q) < search_score(it, q),
{
}

/// An entry whose name contains the query ranks above one that matches only by
/// an alias or its description.
pub proof fn law_search_name_above_alias(it: CatalogItemView, other: CatalogItemView, q: Seq<char>)
    requires
        has_substring(lowercase(it.name), q),
        !has_substring(lowercase(other.name), q),
        lowercase(other.id) != q,
        !has_substring(lowercase(other.owner), q),
        !has_substring(lowercase(other.repo), q),
        !has_substring(
            lowercase(
                match other.chinese_name {
                    Some(z) => z,
                    None => Seq::empty(),
                },
            ),
            q,
        ),
    ensures
        search_score(other, q) < search_score(it, q),
{
    let name = lowercase(other.name);
    if is_prefix(q, name) {
        assert(occurs_at(name, q, 0));
    }
    if name == q {
        assert(occurs_at(name, q, 0)) by {
            assert(name.subrange(0, q.len() as int) =~= name);
        }
    }
}

/// A search listing holds every entry that is a hit; in particular an entry
/// one of whose aliases contains the query.
pub proof fn law_search_lists_alias_hits(out: Seq<SummaryView>, items: Seq<CatalogItemView>, q: Seq<char>, i: int, a: int)
    requires
        is_listing(out, items, search_hit(q), search_scores(q)),
        0 <= i < items.len(),
        0 <= a < items[i].aliases.len(),
        has_substring(lowercase(items[i].aliases[a]), q),
    ensures
        out.contains(summary_of(items[i])),
{
    law_search_hit_iff_field_contains(items[i], q);
    let order = choose|order: Seq<int>| listed_in(order, out, items, search_hit(q), search_scores(q));
    assert(search_hit(q)(items[i]));
    assert(order.contains(i));
    let k = choose|k: int| 0 <= k < order.len() && order[k] == i;
    assert(out[k] == summary_of(items[order[k]]));
}

/// Entry `i` is listed before entry `j`: a higher score, then more stars,
/// then an earlier place in the catalog.
pub open spec fn precedes(items: Seq<CatalogItemView>, score: spec_fn(CatalogItemView) -> int, i: int, j: int) -> bool {
    let a = score(items[i]);
    let b = score(items[j]);
    a > b || (a == b && (items[i].stars > items[j].stars || (items[i].stars == items[j].stars && i < j)))
}

/// `out` lists, through the catalog positions `order`, exactly the entries
/// that `keep` selects, each once, ranked by `precedes`.
pub open spec fn listed_in(
    order: Seq<int>,
    out: Seq<SummaryView>,
    items: Seq<CatalogItemView>,
    keep: spec_fn(CatalogItemView) -> bool,
    score: spec_fn(CatalogItemView) -> int,
) -> bool {
    &&& order.len() == out.len()
    &&& forall|k: int|
        0 <= k < order.len() ==> 0 <= #[trigger] order[k] < items.len() && keep(items[order[k]])
            && out[k] == summary_of(items[order[k]])
    &&& forall|i: int| 0 <= i < items.len() && #[trigger] keep(items[i]) ==> order.contains(i)
    &&& forall|k: int, l: int|
        0 <= k < l < order.len() ==> precedes(items, score, #[trigger] order[k], #[trigger] order[l])
}

/// `out` is the ranked listing of the entries that `keep` selects.
pub open spec fn is_listing(
    out: Seq<SummaryView>,
    items: Seq<CatalogItemView>,
    keep: spec_fn(CatalogItemView) -> bool,
    score: spec_fn(CatalogItemView) -> int,
) -> bool {
    exists|order: Seq<int>| listed_in(order, out, items, keep, score)
}

pub open spec fn keep_all() -> spec_fn(CatalogItemView) -> bool {
    |it: CatalogItemView| true
}

pub open spec fn no_score() -> spec_fn(CatalogItemView) -> int {
    |it: CatalogItemView| 0int
}

pub open spec fn category_matches(it: CatalogItemView, key: Seq<char>) -> bool {
    lowercase(it.category) == key || lowercase(it.category_name) == key
}

pub open spec fn in_category(key: Seq<char>) -> spec_fn(CatalogItemView) -> bool {
    |it: CatalogItemView| category_matches(it, key)
}

pub open spec fn has_category_match(items: Seq<CatalogItemView>, key: Seq<char>) -> bool {
    exists|i: int| 0 <= i < items.len() && category_matches(#[trigger] items[i], key)
}

pub open spec fn search_hit(q: Seq<char>) -> spec_fn(CatalogItemView) -> bool {
    |it: CatalogItemView| search_score(it, q) > 0
}

pub open spec fn search_scores(q: Seq<char>) -> spec_fn(CatalogItemView) -> int {
    |it: CatalogItemView| search_score(it, q)
}

/// The key a query or a category name is compared by: trimmed, then lower-cased.
pub open spec fn search_key(s: Seq<char>) -> Seq<char> {
    lowercase(trim(s))
}

fn score_item(item: &CatalogItem, q: &[char]) -> (r: i32)
    ensures
        r as int == search_score(item@, q@),
{
    let name = lowercase_chars(&chars_of(item.name.as_str()));
    let id = lowercase_chars(&chars_of(item.id.as_str()));
    let zh = match &item.chinese_name {
        Some(z) => lowercase_chars(&chars_of(z.as_str())),
        None => {
            let empty: Vec<char> = Vec::new();
            lowercase_chars(&empty)
        },
    };
    if eq_chars(&name, q) || eq_chars(&id, q) {
        return SEARCH_SCORE_EXACT_MATCH;
    }
    if starts_with(&name, q) {
        return SEARCH_SCORE_PREFIX_MATCH;
    }
    if contains_str(&zh, q) {
        return SEARCH_SCORE_CHINESE_CONTAINS;
    }
    if contains_str(&name, q) {
        return SEARCH_SCORE_NAME_CONTAINS;
    }
    let owner = lowercase_chars(&chars_of(item.owner.as_str()));
    let repo = lowercase_chars(&chars_of(item.repo.as_str()));
    if contains_str(&owner, q) || contains_str(&repo, q) {
        return SEARCH_SCORE_OWNER_OR_REPO_CONTAINS;
    }
    let ghost aliases = strs_view(item.aliases@);
    let mut a: usize = 0;
    while a < item.aliases.len()
        invariant
            a <= item.aliases@.len(),
            aliases == strs_view(item.aliases@),
            forall|b: int| 0 <= b < a ==> !has_substring(lowercase(#[trigger] aliases[b]), q@),
            (exists|b: int| 0 <= b < item@.aliases.len() && has_substring(lowercase(#[trigger] item@.aliases[b]), q@))
                ==> search_score(item@, q@) == SEARCH_SCORE_ALIAS_CONTAINS as int,
        decreases item.aliases@.len() - a,
    {
        let al = lowercase_chars(&chars_of(item.aliases[a].as_str()));
        if contains_str(&al, q) {
            assert(item@.aliases == aliases);
            assert(0 <= a < item@.aliases.len() && has_substring(lowercase(item@.aliases[a as int]), q@));
            assert(exists|b: int| 0 <= b < item@.aliases.len() && has_substring(lowercase(#[trigger] item@.aliases[b]), q@));
            return SEARCH_SCORE_ALIAS_CONTAINS;
        }
        a = a + 1;
    }
    let desc = lowercase_chars(&chars_of(item.description.as_str()));
    if contains_str(&desc, q) {
        return SEARCH_SCORE_DESC_CONTAINS;
    }
    0
}

impl CatalogService {
    /// Summaries of the entries `entries` refers to, in ranking order.
    fn ranked_summaries(
        &self,
        entries: &Vec<Ranked>,
        Ghost(keep): Ghost<spec_fn(CatalogItemView) -> bool>,
        Ghost(score): Ghost<spec_fn(CatalogItemView) -> int>,
    ) -> (r: Vec<AppSummary>)
        requires
            positions_increase(entries@),
            forall|e: Ranked|
                #[trigger] entries@.contains(e) ==> e.2 < self@.len() && keep(self@[e.2 as int]) && e.0 as int
                    == score(self@[e.2 as int]) && e.1 == self@[e.2 as int].stars,
            forall|i: int|
                0 <= i < self@.len() && #[trigger] keep(self@[i]) ==> exists|e: Ranked|
                    #[trigger] entries@.contains(e) && e.2 == i,
        ensures
            is_listing(summaries_view(r@), self@, keep, score),
    {
        let ranked = rank_entries(entries);
        let mut out: Vec<AppSummary> = Vec::new();
        let mut k: usize = 0;
        while k < ranked.len()
            invariant
                k <= ranked@.len(),
                out@.len() == k,
                forall|x: Ranked| ranked@.contains(x) <==> entries@.contains(x),
                forall|e: Ranked|
                    #[trigger] entries@.contains(e) ==> e.2 < self@.len() && keep(self@[e.2 as int]) && e.0 as int
                        == score(self@[e.2 as int]) && e.1 == self@[e.2 as int].stars,
                forall|j: int| 0 <= j < k ==> (#[trigger] out@[j])@ == summary_of(self@[ranked@[j].2 as int]),
            decreases ranked@.len() - k,
        {
            assert(ranked@.contains(ranked@[k as int]));
            let idx = ranked[k].2;
            out.push(self.items[idx].to_summary());
            k = k + 1;
        }
        let ghost order = ranked@.map_values(|e: Ranked| e.2 as int);
        proof {
            let outv = summaries_view(out@);
            assert forall|j: int| 0 <= j < order.len() implies 0 <= #[trigger] order[j] < self@.len() && keep(self@[order[j]])
                && outv[j] == summary_of(self@[order[j]]) by {
                assert(ranked@.contains(ranked@[j]));
            }
            assert forall|i: int| 0 <= i < self@.len() && #[trigger] keep(self@[i]) implies order.contains(i) by {
                let e = choose|e: Ranked| #[trigger] entries@.contains(e) && e.2 == i;
                assert(ranked@.contains(e));
                let j = choose|j: int| 0 <= j < ranked@.len() && ranked@[j] == e;
                assert(order[j] == i);
            }
            assert forall|a: int, b: int| 0 <= a < b < order.len() implies precedes(self@, score, #[trigger] order[a], #[trigger] order[b]) by {
                assert(ranked@.contains(ranked@[a]));
                assert(ranked@.contains(ranked@[b]));
                assert(ranks_before(ranked@[a], ranked@[b]));
            }
            assert(listed_in(order, outv, self@, keep, score));
        }
        out
    }

    /// Summaries of all entries, in catalog order.
    pub fn get_all_summaries(&self) -> (r: Vec<AppSummary>)
        ensures
            summaries_view(r@) == self@.map_values(|it: CatalogItemView| summary_of(it)),
    {
        let mut out: Vec<AppSummary> = Vec::new();
        let mut i: usize = 0;
        while i < self.items.len()
            invariant
                i <= self.items@.len(),
                out@.len() == i,
                forall|j: int| 0 <= j < i ==> (#[trigger] out@[j])@ == summary_of(self@[j]),
            decreases self.items@.len() - i,
        {
            out.push(self.items[i].to_summary());
            i = i + 1;
        }
        assert(summaries_view(out@) =~= self@.map_values(|it: CatalogItemView| summary_of(it)));
        out
    }
}


impl CatalogService {
    /// Ranking entries for the catalog positions whose flag is set, with the
    /// given scores.
    fn entries_for(
        &self,
        scores: &Vec<i32>,
        kept: &Vec<bool>,
        Ghost(keep): Ghost<spec_fn(CatalogItemView) -> bool>,
        Ghost(score): Ghost<spec_fn(CatalogItemView) -> int>,
    ) -> (r: Vec<Ranked>)
        requires
            scores@.len() == self@.len(),
            kept@.len() == self@.len(),
            forall|i: int| 0 <= i < self@.len() ==> #[trigger] kept@[i] == keep(self@[i]),
            forall|i: int| 0 <= i < self@.len() ==> #[trigger] scores@[i] as int == score(self@[i]),
        ensures
            positions_increase(r@),
            forall|e: Ranked|
                #[trigger] r@.contains(e) ==> e.2 < self@.len() && keep(self@[e.2 as int]) && e.0 as int
                    == score(self@[e.2 as int]) && e.1 == self@[e.2 as int].stars,
            forall|i: int|
                0 <= i < self@.len() && #[trigger] keep(self@[i]) ==> exists|e: Ranked|
                    #[trigger] r@.contains(e) && e.2 == i,
            r@.len() == 0 <==> forall|i: int| 0 <= i < self@.len() ==> !#[trigger] keep(self@[i]),
    {
        let mut entries: Vec<Ranked> = Vec::new();
        let mut i: usize = 0;
        while i < self.items.len()
            invariant
                i <= self@.len(),
                self@.len() == self.items@.len(),
                scores@.len() == self@.len(),
                kept@.len() == self@.len(),
                forall|j: int| 0 <= j < self@.len() ==> #[trigger] kept@[j] == keep(self@[j]),
                forall|j: int| 0 <= j < self@.len() ==> #[trigger] scores@[j] as int == score(self@[j]),
                positions_increase(entries@),
                forall|k: int| 0 <= k < entries@.len() ==> (#[trigger] entries@[k]).2 < i,
                forall|e: Ranked|
                    #[trigger] entries@.contains(e) ==> e.2 < self@.len() && keep(self@[e.2 as int]) && e.0 as int
                        == score(self@[e.2 as int]) && e.1 == self@[e.2 as int].stars,
                forall|j: int|
                    0 <= j < i && #[trigger] keep(self@[j]) ==> exists|e: Ranked|
                        #[trigger] entries@.contains(e) && e.2 == j,
                entries@.len() == 0 ==> forall|j: int| 0 <= j < i ==> !#[trigger] keep(self@[j]),
            decreases self@.len() - i,
        {
            if kept[i] {
                let e: Ranked = (scores[i], self.items[i].stars, i);
                let ghost before = entries@;
                entries.push(e);
                proof {
                    assert(entries@.contains(e)) by {
                        assert(entries@[before.len() as int] == e);
                    }
                    assert forall|x: Ranked| #[trigger] entries@.contains(x) implies x == e || before.contains(x) by {
                        let k = choose|k: int| 0 <= k < entries@.len() && entries@[k] == x;
                        if k < before.len() {
                            assert(before[k] == x);
                        }
                    }
                    assert forall|j: int| 0 <= j < i && #[trigger] keep(self@[j]) implies exists|x: Ranked|
                        #[trigger] entries@.contains(x) && x.2 == j by {
                        let x = choose|x: Ranked| #[trigger] before.contains(x) && x.2 == j;
                        let k = choose|k: int| 0 <= k < before.len() && before[k] == x;
                        assert(entries@[k] == x);
                        assert(entries@.contains(x));
                    }
                }
            }
            i = i + 1;
        }
        proof {
            if entries@.len() > 0 {
                assert(entries@.contains(entries@[0]));
            }
        }
        entries
    }

    /// All entries ranked by stars, ties in catalog order.
    fn all_by_stars(&self) -> (r: Vec<AppSummary>)
        ensures
            is_listing(summaries_view(r@), self@, keep_all(), no_score()),
    {
        let mut scores: Vec<i32> = Vec::new();
        let mut kept: Vec<bool> = Vec::new();
        let mut i: usize = 0;
        while i < self.items.len()
            invariant
                i <= self@.len(),
                self@.len() == self.items@.len(),
                scores@.len() == i,
                kept@.len() == i,
                forall|j: int| 0 <= j < i ==> #[trigger] kept@[j] == keep_all()(self@[j]),
                forall|j: int| 0 <= j < i ==> #[trigger] scores@[j] as int == no_score()(self@[j]),
            decreases self@.len() - i,
        {
            scores.push(0);
            kept.push(true);
            i = i + 1;
        }
        let entries = self.entries_for(&scores, &kept, Ghost(keep_all()), Ghost(no_score()));
        self.ranked_summaries(&entries, Ghost(keep_all()), Ghost(no_score()))
    }

    fn category_listing(&self, key: &[char]) -> (r: Option<Vec<AppSummary>>)
        ensures
            match r {
                None => !has_category_match(self@, key@),
                Some(v) => has_category_match(self@, key@) && is_listing(
                    summaries_view(v@),
                    self@,
                    in_category(key@),
                    no_score(),
                ),
            },
    {
        let mut scores: Vec<i32> = Vec::new();
        let mut kept: Vec<bool> = Vec::new();
        let mut i: usize = 0;
        while i < self.items.len()
            invariant
                i <= self@.len(),
                self@.len() == self.items@.len(),
                scores@.len() == i,
                kept@.len() == i,
                forall|j: int| 0 <= j < i ==> #[trigger] kept@[j] == in_category(key@)(self@[j]),
                forall|j: int| 0 <= j < i ==> #[trigger] scores@[j] as int == no_score()(self@[j]),
            decreases self@.len() - i,
        {
            let cat = lowercase_chars(&chars_of(self.items[i].category.as_str()));
            let cat_name = lowercase_chars(&chars_of(self.items[i].category_name.as_str()));
            scores.push(0);
            kept.push(eq_chars(&cat, key) || eq_chars(&cat_name, key));
            i = i + 1;
        }
        let entries = self.entries_for(&scores, &kept, Ghost(in_category(key@)), Ghost(no_score()));
        if entries.len() == 0 {
            proof {
                assert forall|j: int| 0 <= j < self@.len() implies !category_matches(#[trigger] self@[j], key@) by {
                    assert(!in_category(key@)(self@[j]));
                }
            }
            None
        } else {
            proof {
                let j = choose|j: int| 0 <= j < self@.len() && #[trigger] in_category(key@)(self@[j]);
                assert(category_matches(self@[j], key@));
            }
            Some(self.ranked_summaries(&entries, Ghost(in_category(key@)), Ghost(no_score())))
        }
    }

    /// The entries of a category, matched by its key or its display name
    /// (trimmed, case ignored), ranked by stars; `None` when there are none.
    pub fn filter_by_category(&self, category: &str) -> (r: Option<Vec<AppSummary>>)
        ensures
            match r {
                None => !has_category_match(self@, search_key(category@)),
                Some(v) => has_category_match(self@, search_key(category@)) && is_listing(
                    summaries_view(v@),
                    self@,
                    in_category(search_key(category@)),
                    no_score(),
                ),
            },
    {
        let key = lowercase_chars(&trim_chars(&chars_of(category)));
        self.category_listing(&key)
    }

    /// Searches the catalog. A blank query lists everything by stars; a query
    /// that names a category lists that category; otherwise the entries that
    /// match are ranked by score, then stars.
    pub fn search_apps(&self, query: &str) -> (r: Vec<AppSummary>)
        ensures
            ({
                let q = search_key(query@);
                if q.len() == 0 {
                    is_listing(summaries_view(r@), self@, keep_all(), no_score())
                } else if has_category_match(self@, search_key(q)) {
                    is_listing(summaries_view(r@), self@, in_category(search_key(q)), no_score())
                } else {
                    is_listing(summaries_view(r@), self@, search_hit(q), search_scores(q))
                }
            }),
    {
        let q = lowercase_chars(&trim_chars(&chars_of(query)));
        if q.len() == 0 {
            return self.all_by_stars();
        }
        let q_string = string_of(&q);
        match self.filter_by_category(q_string.as_str()) {
            Some(v) => {
                return v;
            },
            None => {},
        }
        let mut scores: Vec<i32> = Vec::new();
        let mut kept: Vec<bool> = Vec::new();
        let mut i: usize = 0;
        while i < self.items.len()
            invariant
                i <= self@.len(),
                self@.len() == self.items@.len(),
                scores@.len() == i,
                kept@.len() == i,
                forall|j: int| 0 <= j < i ==> #[trigger] kept@[j] == search_hit(q@)(self@[j]),
                forall|j: int| 0 <= j < i ==> #[trigger] scores@[j] as int == search_scores(q@)(self@[j]),
            decreases self@.len() - i,
        {
            let sc = score_item(&self.items[i], &q);
            scores.push(sc);
            kept.push(sc > 0);
            i = i + 1;
        }
        let entries = self.entries_for(&scores, &kept, Ghost(search_hit(q@)), Ghost(search_scores(q@)));
        self.ranked_summaries(&entries, Ghost(search_hit(q@)), Ghost(search_scores(q@)))
    }
}


/// Where an application's repository lives, with its display details.
#[derive(Debug)]
pub struct AppRepoCoordinates {
    pub owner: String,
    pub repo: String,
    pub name: String,
    pub description: String,
    pub icon: String,
    pub icon_bg: String,
}

/// Owner, repository, name, description, icon and icon background.
pub type CoordinatesView = (Seq<char>, Seq<char>, Seq<char>, Seq<char>, Seq<char>, Seq<char>);

impl View for AppRepoCoordinates {
    type V = CoordinatesView;

    open spec fn view(&self) -> CoordinatesView {
        (self.owner@, self.repo@, self.name@, self.description@, self.icon@, self.icon_bg@)
    }
}

/// The first position from `k` on whose lower-cased id is `clean`.
pub open spec fn find_id_from(items: Seq<CatalogItemView>, clean: Seq<char>, k: int) -> Option<int>
    decreases items.len() - k,
{
    if k < 0 || k >= items.len() {
        None
    } else if lowercase(items[k].id) == clean {
        Some(k)
    } else {
        find_id_from(items, clean, k + 1)
    }
}

pub open spec fn community_description() -> Seq<char> {
    "GitHub 社区开源项目"@
}

pub open spec fn community_icon() -> Seq<char> {
    "📦"@
}

pub open spec fn community_icon_bg() -> Seq<char> {
    "linear-gradient(135deg, #475569, #334155)"@
}

/// Coordinates of `id`: the catalog entry whose id it is (trimmed, lower-cased);
/// else, for `owner/repo`, a community project with those (trimmed) names.
pub open spec fn repo_coordinates(items: Seq<CatalogItemView>, id: Seq<char>) -> Result<CoordinatesView, Seq<char>> {
    match find_id_from(items, search_key(id), 0) {
        Some(k) => Ok(
            (
                items[k].owner,
                items[k].repo,
                items[k].name,
                items[k].description,
                items[k].icon,
                items[k].icon_bg,
            ),
        ),
        None => if id.contains('/') {
            let parts = split(id, seq!['/']);
            if parts.len() == 2 {
                Ok(
                    (
                        trim(parts[0]),
                        trim(parts[1]),
                        trim(parts[1]),
                        community_description(),
                        community_icon(),
                        community_icon_bg(),
                    ),
                )
            } else {
                Err("未识别的仓库坐标: "@ + id)
            }
        } else {
            Err("收录库中不存在该应用: "@ + id)
        },
    }
}

pub open spec fn coordinates_result_view(r: Result<AppRepoCoordinates, String>) -> Result<CoordinatesView, Seq<char>> {
    match r {
        Ok(c) => Ok(c@),
        Err(e) => Err(e@),
    }
}

pub open spec fn endpoints_result_view(r: Result<(String, String, String, String, String, String), String>) -> Result<
    CoordinatesView,
    Seq<char>,
> {
    match r {
        Ok(t) => Ok((t.0@, t.1@, t.2@, t.3@, t.4@, t.5@)),
        Err(e) => Err(e@),
    }
}

/// The cache key of an application: a recognised repository's key; else the
/// key of its catalog coordinates on github.com; else `github.com/` before an
/// `owner/repo`; else the cleaned id itself.
pub open spec fn repo_key_for(items: Seq<CatalogItemView>, id: Seq<char>) -> Seq<char> {
    let clean = search_key(id);
    match parse_repository(clean) {
        Some(c) => repo_key_of(c),
        None => match repo_coordinates(items, clean) {
            Ok(t) => lowercase("github.com/"@ + t.0 + "/"@ + t.1),
            Err(_) => if clean.contains('/') {
                "github.com/"@ + clean
            } else {
                clean
            },
        },
    }
}

/// On ASCII ids, resolving the trimmed, lower-cased id gives the key of the
/// id itself.
pub proof fn law_repo_key_of_search_key(items: Seq<CatalogItemView>, id: Seq<char>)
    requires
        is_ascii_seq(id),
        lowers_as_ascii(trim(id)),
        lowers_as_ascii(lower_ascii(trim(id))),
    ensures
        repo_key_for(items, search_key(id)) == repo_key_for(items, id),
{
    lemma_trim_lower(trim(id));
    lemma_trim_idempotent(id);
    lemma_lower_ascii_idempotent(trim(id));
    assert(search_key(search_key(id)) == search_key(id));
}

impl CatalogService {
    /// Repository coordinates of a catalog id or of an `owner/repo` pair.
    pub fn get_repo_coordinates(&self, id: &str) -> (r: Result<AppRepoCoordinates, String>)
        ensures
            coordinates_result_view(r) == repo_coordinates(self@, id@),
    {
        let idc = chars_of(id);
        let clean = lowercase_chars(&trim_chars(&idc));
        let mut i: usize = 0;
        while i < self.items.len()
            invariant
                i <= self@.len(),
                self@.len() == self.items@.len(),
                clean@ == search_key(id@),
                find_id_from(self@, clean@, 0) == find_id_from(self@, clean@, i as int),
            decreases self@.len() - i,
        {
            let lid = lowercase_chars(&chars_of(self.items[i].id.as_str()));
            if eq_chars(&lid, &clean) {
                let it = &self.items[i];
                return Ok(
                    AppRepoCoordinates {
                        owner: clone_string(&it.owner),
                        repo: clone_string(&it.repo),
                        name: clone_string(&it.name),
                        description: clone_string(&it.description),
                        icon: clone_string(&it.icon),
                        icon_bg: clone_string(&it.icon_bg),
                    },
                );
            }
            i = i + 1;
        }
        if contains_char(&idc, '/') {
            let seps = vec!['/'];
            assert(seps@ =~= seq!['/']);
            let parts = split_chars(&idc, &seps);
            if parts.len() == 2 {
                let owner = string_of(&trim_chars(&parts[0]));
                let repo_chars = trim_chars(&parts[1]);
                Ok(
                    AppRepoCoordinates {
                        owner,
                        repo: string_of(&repo_chars),
                        name: string_of(&repo_chars),
                        description: owned("GitHub 社区开源项目"),
                        icon: owned("📦"),
                        icon_bg: owned("linear-gradient(135deg, #475569, #334155)"),
                    },
                )
            } else {
                Err(string_of(&concat(&chars_of("未识别的仓库坐标: "), &idc)))
            }
        } else {
            Err(string_of(&concat(&chars_of("收录库中不存在该应用: "), &idc)))
        }
    }

    /// The coordinates of `id` as a tuple: owner, repository, name,
    /// description, icon and icon background.
    pub fn get_endpoints(&self, id: &str) -> (r: Result<(String, String, String, String, String, String), String>)
        ensures
            endpoints_result_view(r) == repo_coordinates(self@, id@),
    {
        match self.get_repo_coordinates(id) {
            Ok(c) => Ok((c.owner, c.repo, c.name, c.description, c.icon, c.icon_bg)),
            Err(e) => Err(e),
        }
    }
}

/// The key under which data about the application `id` is cached.
pub fn resolve_repo_key(id: &str, catalog: &CatalogService) -> (r: String)
    ensures
        r@ == repo_key_for(catalog@, id@),
{
    let clean = lowercase_chars(&trim_chars(&chars_of(id)));
    let clean_s = string_of(&clean);
    match RepositoryUrlParser::parse(clean_s.as_str()) {
        Some(coord) => {
            return coord.to_repo_key();
        },
        None => {},
    }
    match catalog.get_repo_coordinates(clean_s.as_str()) {
        Ok(c) => {
            let slash = chars_of("/");
            let key = concat(
                &concat(&concat(&chars_of("github.com/"), &chars_of(c.owner.as_str())), &slash),
                &chars_of(c.repo.as_str()),
            );
            string_of(&lowercase_chars(&key))
        },
        Err(_) => {
            if contains_char(&clean, '/') {
                string_of(&concat(&chars_of("github.com/"), &clean))
            } else {
                clean_s
            }
        },
    }
}


/// The lower-cased ids of the applications a rule hides.
pub open spec fn hidden_ids_of(rules: Seq<UpdateRule>) -> Seq<Seq<char>> {
    rules.filter(hides()).map_values(rule_key())
}

pub open spec fn hides() -> spec_fn(UpdateRule) -> bool {
    |r: UpdateRule| r.is_hidden
}

pub open spec fn rule_key() -> spec_fn(UpdateRule) -> Seq<char> {
    |r: UpdateRule| lowercase(r.app_id@)
}

pub fn hidden_app_ids(rules: &Vec<UpdateRule>) -> (r: Vec<String>)
    ensures
        strs_view(r@) == hidden_ids_of(rules@),
{
    let mut out: Vec<String> = Vec::new();
    let mut i: usize = 0;
    while i < rules.len()
        invariant
            i <= rules@.len(),
            strs_view(out@) == hidden_ids_of(rules@.take(i as int)),
        decreases rules@.len() - i,
    {
        reveal(Seq::filter);
        assert(rules@.take(i + 1).drop_last() =~= rules@.take(i as int));
        assert(rules@.take(i + 1).last() == rules@[i as int]);
        let ghost before = rules@.take(i as int).filter(hides());
        let ghost after = rules@.take(i + 1).filter(hides());
        if rules[i].is_hidden {
            out.push(string_of(&lowercase_chars(&chars_of(rules[i].app_id.as_str()))));
            assert(after == before.push(rules@[i as int]));
            assert(after.map_values(rule_key()) =~= before.map_values(rule_key()).push(lowercase(rules@[i as int].app_id@)));
        } else {
            assert(after == before);
        }
        assert(strs_view(out@) =~= hidden_ids_of(rules@.take(i + 1)));
        i = i + 1;
    }
    assert(rules@.take(i as int) =~= rules@);
    out
}

fn contains_string(v: &Vec<String>, s: &[char]) -> (r: bool)
    ensures
        r == strs_view(v@).contains(s@),
{
    let mut i: usize = 0;
    while i < v.len()
        invariant
            i <= v@.len(),
            forall|j: int| 0 <= j < i ==> (#[trigger] strs_view(v@)[j]) != s@,
        decreases v@.len() - i,
    {
        if eq_chars(&chars_of(v[i].as_str()), s) {
            assert(strs_view(v@)[i as int] == s@);
            return true;
        }
        i = i + 1;
    }
    false
}

/// A result is hidden when its lower-cased id is among the hidden ids.
pub open spec fn not_hidden(hidden: Seq<Seq<char>>) -> spec_fn(SummaryView) -> bool {
    |s: SummaryView| !hidden.contains(lowercase(s.id))
}

/// A copy of a summary.
pub fn copy_summary(s: &AppSummary) -> (r: AppSummary)
    ensures
        r@ == s@,
{
    AppSummary {
        id: clone_string(&s.id),
        name: clone_string(&s.name),
        owner: clone_string(&s.owner),
        repo: clone_string(&s.repo),
        icon: clone_string(&s.icon),
        icon_bg: clone_string(&s.icon_bg),
        description: clone_string(&s.description),
        stars: s.stars,
        forks: s.forks,
        license: clone_string(&s.license),
        latest_version: clone_string(&s.latest_version),
        category: clone_string(&s.category),
        category_name: clone_string(&s.category_name),
        is_verified: s.is_verified,
        is_installed: s.is_installed,
        has_update: s.has_update,
        installed_version: clone_opt_string(&s.installed_version),
        forge: clone_opt_string(&s.forge),
        forge_host: clone_opt_string(&s.forge_host),
        homepage: clone_opt_string(&s.homepage),
        platforms: clone_strings(&s.platforms),
    }
}

/// The results whose ids are not hidden, in order.
pub fn without_hidden(results: &Vec<AppSummary>, hidden: &Vec<String>) -> (r: Vec<AppSummary>)
    ensures
        summaries_view(r@) == summaries_view(results@).filter(not_hidden(strs_view(hidden@))),
{
    let ghost sv = summaries_view(results@);
    let ghost f = not_hidden(strs_view(hidden@));
    let mut out: Vec<AppSummary> = Vec::new();
    let mut i: usize = 0;
    while i < results.len()
        invariant
            i <= results@.len(),
            sv == summaries_view(results@),
            f == not_hidden(strs_view(hidden@)),
            summaries_view(out@) == sv.take(i as int).filter(f),
        decreases results@.len() - i,
    {
        reveal(Seq::filter);
        assert(sv.take(i + 1).drop_last() =~= sv.take(i as int));
        assert(sv.take(i + 1).last() == results@[i as int]@);
        let id = lowercase_chars(&chars_of(results[i].id.as_str()));
        if !contains_string(hidden, &id) {
            out.push(copy_summary(&results[i]));
        }
        assert(summaries_view(out@) =~= sv.take(i + 1).filter(f));
        i = i + 1;
    }
    assert(sv.take(i as int) =~= sv);
    out
}

/// A listed application in the category `key` that no rule hides.
pub open spec fn category_listing_keep(key: Seq<char>, hidden: Seq<Seq<char>>) -> spec_fn(SummaryView) -> bool {
    |s: SummaryView| (lowercase(s.category) == key || lowercase(s.category_name) == key) && !hidden.contains(
        lowercase(s.id),
    )
}

impl CatalogService {
    /// The applications of a category (by key or display name, trimmed and
    /// lower-cased), in catalog order, without hidden ones.
    pub fn get_category_apps(&self, category: &str, hidden: &Vec<String>) -> (r: Vec<AppSummary>)
        ensures
            summaries_view(r@) == self@.map_values(|it: CatalogItemView| summary_of(it)).filter(
                category_listing_keep(search_key(category@), strs_view(hidden@)),
            ),
    {
        let key = lowercase_chars(&trim_chars(&chars_of(category)));
        let all = self.get_all_summaries();
        let ghost sv = summaries_view(all@);
        let ghost f = category_listing_keep(key@, strs_view(hidden@));
        let mut out: Vec<AppSummary> = Vec::new();
        let mut i: usize = 0;
        while i < all.len()
            invariant
                i <= all@.len(),
                sv == summaries_view(all@),
                f == category_listing_keep(key@, strs_view(hidden@)),
                summaries_view(out@) == sv.take(i as int).filter(f),
            decreases all@.len() - i,
        {
            reveal(Seq::filter);
            assert(sv.take(i + 1).drop_last() =~= sv.take(i as int));
            assert(sv.take(i + 1).last() == all@[i as int]@);
            let c = lowercase_chars(&chars_of(all[i].category.as_str()));
            let cn = lowercase_chars(&chars_of(all[i].category_name.as_str()));
            let id = lowercase_chars(&chars_of(all[i].id.as_str()));
            if (eq_chars(&c, &key) || eq_chars(&cn, &key)) && !contains_string(hidden, &id) {
                out.push(copy_summary(&all[i]));
            }
            assert(summaries_view(out@) =~= sv.take(i + 1).filter(f));
            i = i + 1;
        }
        assert(sv.take(i as int) =~= sv);
        out
    }
}

/// Queries looked up directly on GitHub: a path, a web address, or the
/// `gh:` and `github:` short forms.
pub fn is_github_repo_query(query: &str) -> (r: bool)
    ensures
        r == (query@.contains('/') || is_prefix("https://"@, query@) || is_prefix("gh:"@, query@) || is_prefix(
            "github:"@,
            query@,
        )),
{
    let q = chars_of(query);
    contains_char(&q, '/') || starts_with(&q, &chars_of("https://")) || starts_with(&q, &chars_of("gh:")) || starts_with(
        &q,
        &chars_of("github:"),
    )
}

/// The listing of a repository found on another platform.
pub open spec fn external_summary_of(
    coord: crate::forge::CoordView,
    name: Seq<char>,
    description: Option<Seq<char>>,
    stars: u64,
    forks: u64,
    homepage: Option<Seq<char>>,
    latest_version: Option<Seq<char>>,
) -> SummaryView {
    SummaryView {
        id: crate::forge::app_id_of(coord),
        name: name,
        owner: coord.owner,
        repo: coord.repo,
        icon: crate::forge::forge_icon(coord.forge),
        icon_bg: community_icon_bg(),
        description: match description {
            Some(d) => d,
            None => "跨平台开源项目"@,
        },
        stars: stars,
        forks: forks,
        license: "OpenSource"@,
        latest_version: match latest_version {
            Some(v) => v,
            None => "latest"@,
        },
        category: "external"@,
        category_name: "跨平台开源"@,
        is_verified: false,
        is_installed: None,
        has_update: None,
        installed_version: None,
        forge: Some(crate::forge::forge_name(coord.forge)),
        forge_host: Some(coord.host),
        homepage: homepage,
        platforms: seq!["windows"@],
    }
}

pub fn external_summary(
    coord: &crate::forge::UniversalRepoCoord,
    name: String,
    description: Option<String>,
    stars: u64,
    forks: u64,
    homepage: Option<String>,
    latest_version: Option<String>,
) -> (r: AppSummary)
    ensures
        r@ == external_summary_of(
            coord@,
            name@,
            opt_str_view(description),
            stars,
            forks,
            opt_str_view(homepage),
            opt_str_view(latest_version),
        ),
{
    AppSummary {
        id: coord.to_app_id(),
        name,
        owner: clone_string(&coord.owner),
        repo: clone_string(&coord.repo),
        icon: owned(coord.forge.icon()),
        icon_bg: owned("linear-gradient(135deg, #475569, #334155)"),
        description: match description {
            Some(d) => d,
            None => owned("跨平台开源项目"),
        },
        stars,
        forks,
        license: owned("OpenSource"),
        latest_version: match latest_version {
            Some(v) => v,
            None => owned("latest"),
        },
        category: owned("external"),
        category_name: owned("跨平台开源"),
        is_verified: false,
        is_installed: None,
        has_update: None,
        installed_version: None,
        forge: Some(owned(coord.forge.as_str())),
        forge_host: Some(clone_string(&coord.host)),
        homepage,
        platforms: default_platforms(),
    }
}

impl CatalogService {
    /// The owner and repository an icon belongs to: the given ones when both
    /// are present and not blank (trimmed); else those of the catalog entry
    /// the application id names; else the given ones as they are.
    pub fn icon_coordinates(&self, owner: Option<&str>, repo: Option<&str>, app_id: Option<&str>) -> (r: (
        Option<String>,
        Option<String>,
    ))
        ensures
            ({
                let given = (crate::watch::opt_ref_view(owner), crate::watch::opt_ref_view(repo));
                let both = owner is Some && repo is Some && trim(owner->0@).len() > 0 && trim(repo->0@).len() > 0;
                let rv = (opt_str_view(r.0), opt_str_view(r.1));
                if both {
                    rv == (Some(trim(owner->0@)), Some(trim(repo->0@)))
                } else {
                    match app_id {
                        Some(id) => if no_match(self@, id@) {
                            rv == given
                        } else {
                            exists|k: int| is_first_match(self@, id@, k) && rv == (Some(self@[k].owner), Some(self@[k].repo))
                        },
                        None => rv == given,
                    }
                }
            }),
    {
        match (owner, repo) {
            (Some(o), Some(rp)) => {
                let to = trim_chars(&chars_of(o));
                let tr = trim_chars(&chars_of(rp));
                if to.len() > 0 && tr.len() > 0 {
                    return (Some(string_of(&to)), Some(string_of(&tr)));
                }
            },
            _ => {},
        }
        let given = (
            match owner {
                Some(o) => Some(owned(o)),
                None => None,
            },
            match repo {
                Some(rp) => Some(owned(rp)),
                None => None,
            },
        );
        match app_id {
            Some(id) => match self.find_index(&chars_of(id)) {
                Some(k) => (Some(clone_string(&self.items[k].owner)), Some(clone_string(&self.items[k].repo))),
                None => given,
            },
            None => given,
        }
    }
}

/// The summary of the first entry whose id is `id` (ASCII case ignored).
pub open spec fn summary_for_id(items: Seq<CatalogItemView>, id: Seq<char>) -> Option<SummaryView>
    decreases items.len(),
{
    if items.len() == 0 {
        None
    } else if eq_ascii_ci(items[0].id, id) {
        Some(summary_of(items[0]))
    } else {
        summary_for_id(items.drop_first(), id)
    }
}

impl CatalogService {
    fn summary_of_id(&self, id: &[char]) -> (r: Option<AppSummary>)
        ensures
            match r {
                Some(s) => summary_for_id(self@, id@) == Some(s@),
                None => summary_for_id(self@, id@) is None,
            },
    {
        let mut i: usize = 0;
        assert(self@.skip(0) =~= self@);
        while i < self.items.len()
            invariant
                i <= self@.len(),
                self@.len() == self.items@.len(),
                summary_for_id(self@, id@) == summary_for_id(self@.skip(i as int), id@),
            decreases self@.len() - i,
        {
            assert(self@.skip(i as int)[0] == self@[i as int]);
            assert(self@.skip(i as int).drop_first() =~= self@.skip(i + 1));
            if eq_ignore_ascii_case(&chars_of(self.items[i].id.as_str()), id) {
                return Some(self.items[i].to_summary());
            }
            i = i + 1;
        }
        None
    }

    /// Summaries of the catalog entries with the given ids (ASCII case
    /// ignored), in the order of the ids; unknown ids are skipped.
    pub fn summaries_for_ids(&self, ids: &Vec<String>) -> (r: Vec<AppSummary>)
        ensures
            summaries_view(r@) == crate::models::strs_view(ids@).filter_map(|id: Seq<char>| summary_for_id(self@, id)),
    {
        let ghost iv = crate::models::strs_view(ids@);
        let mut out: Vec<AppSummary> = Vec::new();
        let mut i: usize = 0;
        while i < ids.len()
            invariant
                i <= ids@.len(),
                iv == crate::models::strs_view(ids@),
                summaries_view(out@) == iv.take(i as int).filter_map(|id: Seq<char>| summary_for_id(self@, id)),
            decreases ids@.len() - i,
        {
            assert(iv.take(i + 1).drop_last() =~= iv.take(i as int));
            assert(iv.take(i + 1).last() == ids@[i as int]@);
            match self.summary_of_id(&chars_of(ids[i].as_str())) {
                Some(sm) => {
                    out.push(sm);
                },
                None => {},
            }
            assert(summaries_view(out@) =~= iv.take(i + 1).filter_map(|id: Seq<char>| summary_for_id(self@, id)));
            i = i + 1;
        }
        assert(iv.take(i as int) =~= iv);
        out
    }
}

} // verus!
