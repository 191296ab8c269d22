//! Release assets: classification, choice of the best download for a
//! platform, install command lines and uninstall commands.

use vstd::prelude::*;
use crate::models::ReleaseAsset;
use crate::text::{
    char_is_alphanumeric, chars_of, concat, contains_str, ends_with, eq_chars, filter_chars,
    has_substring, is_alphanumeric, is_suffix, lowercase, lowercase_chars, string_of, trim,
    trim_chars, is_ascii_seq, lower_ascii, lowers_as_ascii, lemma_lower_ascii_idempotent,
};

verus! {

/// Kind of installer a release asset is.
#[derive(Debug, Clone, Copy, PartialEq, Eq, Structural)]
pub enum AssetKind {
    Msi,
    SetupExe,
    PortableZip,
    Deb,
    Rpm,
    AppImage,
    Dmg,
    Pkg,
    Apk,
    Other,
}

pub open spec fn kind_name(k: AssetKind) -> Seq<char> {
    match k {
        AssetKind::Msi => "msi"@,
        AssetKind::SetupExe => "setup_exe"@,
        AssetKind::PortableZip => "portable_zip"@,
        AssetKind::Deb => "deb"@,
        AssetKind::Rpm => "rpm"@,
        AssetKind::AppImage => "appimage"@,
        AssetKind::Dmg => "dmg"@,
        AssetKind::Pkg => "pkg"@,
        AssetKind::Apk => "apk"@,
        AssetKind::Other => "other"@,
    }
}

impl AssetKind {
    /// The name under which release assets record their kind.
    pub fn as_str(&self) -> (r: &'static str)
        ensures
            r@ == kind_name(*self),
    {
        match self {
            AssetKind::Msi => "msi",
            AssetKind::SetupExe => "setup_exe",
            AssetKind::PortableZip => "portable_zip",
            AssetKind::Deb => "deb",
            AssetKind::Rpm => "rpm",
            AssetKind::AppImage => "appimage",
            AssetKind::Dmg => "dmg",
            AssetKind::Pkg => "pkg",
            AssetKind::Apk => "apk",
            AssetKind::Other => "other",
        }
    }
}

/// Processor architecture a lower-cased file name names.
pub open spec fn arch_of_name(l: Seq<char>) -> Seq<char> {
    if has_substring(l, "arm64"@) || has_substring(l, "aarch64"@) {
        "aarch64"@
    } else if has_substring(l, "x86_64"@) || has_substring(l, "x64"@) || has_substring(l, "amd64"@)
        || has_substring(l, "win64"@) {
        "x86_64"@
    } else if has_substring(l, "x86"@) || has_substring(l, "i686"@) || has_substring(l, "i386"@)
        || has_substring(l, "win32"@) || has_substring(l, "ia32"@) {
        "x86"@
    } else {
        "universal"@
    }
}

pub open spec fn names_mac(l: Seq<char>) -> bool {
    has_substring(l, "darwin"@) || has_substring(l, "macos"@) || has_substring(l, "osx"@) || has_substring(l, "mac"@)
}

pub open spec fn is_archive(l: Seq<char>) -> bool {
    is_suffix(".zip"@, l) || is_suffix(".7z"@, l)
}

/// The architecture read from a lower-cased file name: a name mentioning
/// `arm64` or `aarch64` is for 64-bit ARM; else one mentioning `x86_64`, `x64`,
/// `amd64` or `win64` is for x86_64; else one mentioning `x86`, `i686`, `i386`,
/// `win32` or `ia32` is for 32-bit x86; any other name is universal.
pub proof fn law_arch_from_name(l: Seq<char>)
    ensures
        has_substring(l, "arm64"@) ==> arch_of_name(l) == "aarch64"@,
        has_substring(l, "aarch64"@) ==> arch_of_name(l) == "aarch64"@,
        ({
            let arm = has_substring(l, "arm64"@) || has_substring(l, "aarch64"@);
            let x64 = has_substring(l, "x86_64"@) || has_substring(l, "x64"@) || has_substring(l, "amd64"@)
                || has_substring(l, "win64"@);
            let x86 = has_substring(l, "x86"@) || has_substring(l, "i686"@) || has_substring(l, "i386"@)
                || has_substring(l, "win32"@) || has_substring(l, "ia32"@);
            &&& (!arm && has_substring(l, "x64"@)) ==> arch_of_name(l) == "x86_64"@
            &&& (!arm && has_substring(l, "x86_64"@)) ==> arch_of_name(l) == "x86_64"@
            &&& (!arm && has_substring(l, "amd64"@)) ==> arch_of_name(l) == "x86_64"@
            &&& (!arm && has_substring(l, "win64"@)) ==> arch_of_name(l) == "x86_64"@
            &&& (!arm && !x64 && x86) ==> arch_of_name(l) == "x86"@
            &&& (!arm && !x64 && !x86) ==> arch_of_name(l) == "universal"@
        }),
{
}

/// Kind, operating system and architecture of an asset, read from its file name
/// (compared in lower case).
pub open spec fn classify(name: Seq<char>) -> (AssetKind, Seq<char>, Seq<char>) {
    let l = lowercase(name);
    let arch = arch_of_name(l);
    if is_suffix(".msi"@, l) {
        (AssetKind::Msi, "windows"@, arch)
    } else if is_suffix("-setup.exe"@, l) || is_suffix("_setup.exe"@, l) || is_suffix("-installer.exe"@, l)
        || is_suffix("_installer.exe"@, l) || has_substring(l, "install"@) || is_suffix(".exe"@, l) {
        (AssetKind::SetupExe, "windows"@, arch)
    } else if (has_substring(l, "portable"@) || has_substring(l, "win"@) || has_substring(l, "windows"@))
        && is_archive(l) {
        (AssetKind::PortableZip, "windows"@, arch)
    } else if is_suffix(".deb"@, l) {
        (AssetKind::Deb, "linux"@, arch)
    } else if is_suffix(".rpm"@, l) {
        (AssetKind::Rpm, "linux"@, arch)
    } else if is_suffix(".appimage"@, l) {
        (AssetKind::AppImage, "linux"@, arch)
    } else if is_suffix(".dmg"@, l) {
        (AssetKind::Dmg, "macos"@, arch)
    } else if is_suffix(".pkg"@, l) {
        (AssetKind::Pkg, "macos"@, arch)
    } else if is_suffix(".apk"@, l) {
        (AssetKind::Apk, "android"@, "arm64-v8a"@)
    } else if is_archive(l) {
        let os = if names_mac(l) {
            "macos"@
        } else if has_substring(l, "linux"@) {
            "linux"@
        } else {
            "windows"@
        };
        (AssetKind::PortableZip, os, arch)
    } else if is_suffix(".tar.gz"@, l) || is_suffix(".tar.xz"@, l) {
        let os = if names_mac(l) {
            "macos"@
        } else {
            "linux"@
        };
        (AssetKind::Other, os, arch)
    } else {
        (AssetKind::Other, "all"@, "universal"@)
    }
}

/// On ASCII names, classifying a name and its lower-cased form agree.
pub proof fn law_classify_ignores_case(name: Seq<char>)
    requires
        is_ascii_seq(name),
        lowers_as_ascii(name),
        lowers_as_ascii(lower_ascii(name)),
    ensures
        classify(name) == classify(lowercase(name)),
{
    lemma_lower_ascii_idempotent(name);
}

/// Each kind of asset belongs to its operating system, the architecture is
/// one of the known ones, and only Android packages are for Android.
pub proof fn law_classify_consistent(name: Seq<char>)
    ensures
        (classify(name).0 == AssetKind::Msi || classify(name).0 == AssetKind::SetupExe) ==> classify(name).1
            == "windows"@,
        (classify(name).0 == AssetKind::Deb || classify(name).0 == AssetKind::Rpm || classify(name).0
            == AssetKind::AppImage) ==> classify(name).1 == "linux"@,
        (classify(name).0 == AssetKind::Dmg || classify(name).0 == AssetKind::Pkg) ==> classify(name).1 == "macos"@,
        (classify(name).0 == AssetKind::Apk) <==> (classify(name).1 == "android"@ && classify(name).2
            == "arm64-v8a"@),
        classify(name).2 == "aarch64"@ || classify(name).2 == "x86_64"@ || classify(name).2 == "x86"@
            || classify(name).2 == "universal"@ || classify(name).2 == "arm64-v8a"@,
{
    reveal_strlit("android");
    reveal_strlit("windows");
    reveal_strlit("linux");
    reveal_strlit("macos");
    reveal_strlit("all");
    reveal_strlit("arm64-v8a");
    reveal_strlit("aarch64");
    reveal_strlit("x86_64");
    reveal_strlit("x86");
    reveal_strlit("universal");
    assert("android"@[0] != "windows"@[0] && "android"@[0] != "linux"@[0] && "android"@[0] != "macos"@[0]);
    assert("android"@[1] != "all"@[1]);
}

fn contains_lit(l: &[char], p: &str) -> (r: bool)
    ensures
        r == has_substring(l@, p@),
{
    contains_str(l, &chars_of(p))
}

fn ends(l: &[char], p: &str) -> (r: bool)
    ensures
        r == is_suffix(p@, l@),
{
    ends_with(l, &chars_of(p))
}

fn arch_of_chars(l: &[char]) -> (r: &'static str)
    ensures
        r@ == arch_of_name(l@),
{
    if contains_lit(l, "arm64") || contains_lit(l, "aarch64") {
        "aarch64"
    } else if contains_lit(l, "x86_64") || contains_lit(l, "x64") || contains_lit(l, "amd64") || contains_lit(l, "win64") {
        "x86_64"
    } else if contains_lit(l, "x86") || contains_lit(l, "i686") || contains_lit(l, "i386") || contains_lit(l, "win32") || contains_lit(l, "ia32") {
        "x86"
    } else {
        "universal"
    }
}

fn names_mac_chars(l: &[char]) -> (r: bool)
    ensures
        r == names_mac(l@),
{
    contains_lit(l, "darwin") || contains_lit(l, "macos") || contains_lit(l, "osx") || contains_lit(l, "mac")
}

/// Installer engine: the decisions the store takes about release assets.
pub struct InstallerEngine;

impl InstallerEngine {
    /// Guesses kind, operating system and architecture of a release asset from its file name.
    pub fn classify_asset(filename: &str) -> (r: (AssetKind, &'static str, &'static str))
        ensures
            (r.0, r.1@, r.2@) == classify(filename@),
    {
        let l = lowercase_chars(&chars_of(filename));
        let arch = arch_of_chars(&l);
        let archive = ends(&l, ".zip") || ends(&l, ".7z");
        if ends(&l, ".msi") {
            (AssetKind::Msi, "windows", arch)
        } else if ends(&l, "-setup.exe") || ends(&l, "_setup.exe") || ends(&l, "-installer.exe") || ends(
            &l,
            "_installer.exe",
        ) || contains_lit(&l, "install") || ends(&l, ".exe") {
            (AssetKind::SetupExe, "windows", arch)
        } else if (contains_lit(&l, "portable") || contains_lit(&l, "win") || contains_lit(&l, "windows")) && archive {
            (AssetKind::PortableZip, "windows", arch)
        } else if ends(&l, ".deb") {
            (AssetKind::Deb, "linux", arch)
        } else if ends(&l, ".rpm") {
            (AssetKind::Rpm, "linux", arch)
        } else if ends(&l, ".appimage") {
            (AssetKind::AppImage, "linux", arch)
        } else if ends(&l, ".dmg") {
            (AssetKind::Dmg, "macos", arch)
        } else if ends(&l, ".pkg") {
            (AssetKind::Pkg, "macos", arch)
        } else if ends(&l, ".apk") {
            (AssetKind::Apk, "android", "arm64-v8a")
        } else if archive {
            let os = if names_mac_chars(&l) {
                "macos"
            } else if contains_lit(&l, "linux") {
                "linux"
            } else {
                "windows"
            };
            (AssetKind::PortableZip, os, arch)
        } else if ends(&l, ".tar.gz") || ends(&l, ".tar.xz") {
            let os = if names_mac_chars(&l) {
                "macos"
            } else {
                "linux"
            };
            (AssetKind::Other, os, arch)
        } else {
            (AssetKind::Other, "all", "universal")
        }
    }
}

/// A release asset described by its file name, download URL and size, with
/// kind, operating system and architecture taken from the name.
pub fn release_asset_from(name: String, download_url: String, size_bytes: u64) -> (r: ReleaseAsset)
    ensures
        r.name == name,
        r.download_url == download_url,
        r.size_bytes == size_bytes,
        r.sha256 is None,
        (r.os@, r.arch@) == (classify(name@).1, classify(name@).2),
        r.kind@ == kind_name(classify(name@).0),
{
    let (kind, os, arch) = InstallerEngine::classify_asset(name.as_str());
    ReleaseAsset {
        name,
        download_url,
        size_bytes,
        sha256: None,
        os: string_of(&chars_of(os)),
        arch: string_of(&chars_of(arch)),
        kind: string_of(&chars_of(kind.as_str())),
    }
}


pub open spec fn arch_score(asset_arch: Seq<char>, target_arch: Seq<char>) -> int {
    if asset_arch == target_arch {
        50
    } else if asset_arch == "universal"@ {
        25
    } else if target_arch == "x86_64"@ && asset_arch == "x86"@ {
        10
    } else {
        -50
    }
}

/// Preference among installer kinds on the target system.
pub open spec fn kind_bonus(target_os: Seq<char>, kind: Seq<char>) -> int {
    if target_os == "windows"@ {
        if kind == "msi"@ { 20 } else if kind == "setup_exe"@ { 15 } else if kind == "portable_zip"@ { 10 } else { 0 }
    } else if target_os == "macos"@ {
        if kind == "dmg"@ { 20 } else if kind == "pkg"@ { 15 } else if kind == "portable_zip"@ { 10 } else { 0 }
    } else if target_os == "linux"@ {
        if kind == "appimage"@ {
            20
        } else if kind == "deb"@ {
            15
        } else if kind == "rpm"@ {
            12
        } else if kind == "portable_zip"@ {
            10
        } else {
            0
        }
    } else {
        0
    }
}

/// How well an asset suits the target system and architecture.
pub open spec fn asset_score(a: ReleaseAsset, target_os: Seq<char>, target_arch: Seq<char>) -> int {
    (if a.os@ == target_os { 100int } else { 0int }) + arch_score(a.arch@, target_arch) + kind_bonus(target_os, a.kind@)
}

pub open spec fn os_matches(a: ReleaseAsset, target_os: Seq<char>) -> bool {
    a.os@ == target_os || a.os@ == "all"@
}

/// Assets considered: those for the target system (or for all systems), or
/// every asset when there is none.
pub open spec fn is_candidate(assets: Seq<ReleaseAsset>, i: int, target_os: Seq<char>) -> bool {
    0 <= i < assets.len() && ((exists|j: int| 0 <= j < assets.len() && os_matches(#[trigger] assets[j], target_os))
        ==> os_matches(assets[i], target_os))
}

/// `i` is the chosen asset: a candidate of highest score, the last one among equals.
pub open spec fn is_best_asset(assets: Seq<ReleaseAsset>, i: int, target_os: Seq<char>, target_arch: Seq<char>) -> bool {
    &&& is_candidate(assets, i, target_os)
    &&& forall|j: int| #[trigger] is_candidate(assets, j, target_os) ==> asset_score(assets[j], target_os, target_arch)
        <= asset_score(assets[i], target_os, target_arch)
    &&& forall|j: int| i < j && #[trigger] is_candidate(assets, j, target_os) ==> asset_score(assets[j], target_os, target_arch)
        < asset_score(assets[i], target_os, target_arch)
}

fn same(a: &String, b: &str) -> (r: bool)
    ensures
        r == (a@ == b@),
{
    eq_chars(&chars_of(a.as_str()), &chars_of(b))
}

fn os_matches_exec(a: &ReleaseAsset, target_os: &str) -> (r: bool)
    ensures
        r == os_matches(*a, target_os@),
{
    same(&a.os, target_os) || same(&a.os, "all")
}

pub(crate) fn asset_score_of(a: &ReleaseAsset, target_os: &str, target_arch: &str) -> (r: i32)
    ensures
        r == asset_score(*a, target_os@, target_arch@),
{
    let mut score: i32 = 0;
    if same(&a.os, target_os) {
        score = score + 100;
    }
    let ta = chars_of(target_arch);
    if same(&a.arch, target_arch) {
        score = score + 50;
    } else if same(&a.arch, "universal") {
        score = score + 25;
    } else if eq_chars(&ta, &chars_of("x86_64")) && same(&a.arch, "x86") {
        score = score + 10;
    } else {
        score = score - 50;
    }
    let os = chars_of(target_os);
    if eq_chars(&os, &chars_of("windows")) {
        if same(&a.kind, "msi") {
            score = score + 20;
        } else if same(&a.kind, "setup_exe") {
            score = score + 15;
        } else if same(&a.kind, "portable_zip") {
            score = score + 10;
        }
    } else if eq_chars(&os, &chars_of("macos")) {
        if same(&a.kind, "dmg") {
            score = score + 20;
        } else if same(&a.kind, "pkg") {
            score = score + 15;
        } else if same(&a.kind, "portable_zip") {
            score = score + 10;
        }
    } else if eq_chars(&os, &chars_of("linux")) {
        if same(&a.kind, "appimage") {
            score = score + 20;
        } else if same(&a.kind, "deb") {
            score = score + 15;
        } else if same(&a.kind, "rpm") {
            score = score + 12;
        } else if same(&a.kind, "portable_zip") {
            score = score + 10;
        }
    }
    score
}

/// Index of the asset best suited to `target_os` and `target_arch`.
pub fn select_best_asset_index(assets: &[ReleaseAsset], target_os: &str, target_arch: &str) -> (r: Option<usize>)
    ensures
        r is None <==> assets@.len() == 0,
        r matches Some(i) ==> is_best_asset(assets@, i as int, target_os@, target_arch@),
{
    let mut any = false;
    let mut k: usize = 0;
    while k < assets.len()
        invariant
            k <= assets.len(),
            any <==> exists|j: int| 0 <= j < k && os_matches(#[trigger] assets@[j], target_os@),
        decreases assets.len() - k,
    {
        if os_matches_exec(&assets[k], target_os) {
            any = true;
        }
        k = k + 1;
    }
    let mut best: Option<usize> = None;
    let mut best_score: i32 = 0;
    let mut i: usize = 0;
    while i < assets.len()
        invariant
            i <= assets.len(),
            any <==> exists|j: int| 0 <= j < assets.len() && os_matches(#[trigger] assets@[j], target_os@),
            best is None <==> forall|j: int| 0 <= j < i ==> !#[trigger] is_candidate(assets@, j, target_os@),
            best matches Some(b) ==> {
                &&& b < i
                &&& is_candidate(assets@, b as int, target_os@)
                &&& best_score == asset_score(assets@[b as int], target_os@, target_arch@)
                &&& forall|j: int| 0 <= j < i && #[trigger] is_candidate(assets@, j, target_os@) ==> asset_score(
                    assets@[j],
                    target_os@,
                    target_arch@,
                ) <= best_score
                &&& forall|j: int| b < j < i && #[trigger] is_candidate(assets@, j, target_os@) ==> asset_score(
                    assets@[j],
                    target_os@,
                    target_arch@,
                ) < best_score
            },
        decreases assets.len() - i,
    {
        let cand = !any || os_matches_exec(&assets[i], target_os);
        assert(cand == is_candidate(assets@, i as int, target_os@));
        if cand {
            let sc = asset_score_of(&assets[i], target_os, target_arch);
            match best {
                None => {
                    best = Some(i);
                    best_score = sc;
                },
                Some(b) => {
                    if sc >= best_score {
                        best = Some(i);
                        best_score = sc;
                    }
                },
            }
        }
        i = i + 1;
    }
    proof {
        if assets@.len() > 0 && best is None {
            if any {
                let j = choose|j: int| 0 <= j < assets.len() && os_matches(#[trigger] assets@[j], target_os@);
                assert(is_candidate(assets@, j, target_os@));
            } else {
                assert(is_candidate(assets@, 0, target_os@));
            }
        }
    }
    best
}

/// The asset best suited to the given system and architecture: among the
/// assets for that system (or for all systems), or among all assets when none
/// is, the one of highest score; the last of several equally good ones.
pub fn select_best_asset<'a>(assets: &'a [ReleaseAsset], target_os: &str, target_arch: &str) -> (r: Option<&'a ReleaseAsset>)
    ensures
        r is None <==> assets@.len() == 0,
        r matches Some(a) ==> exists|i: int| is_best_asset(assets@, i, target_os@, target_arch@) && *a == assets@[i],
{
    match select_best_asset_index(assets, target_os, target_arch) {
        Some(i) => Some(&assets[i]),
        None => None,
    }
}

impl InstallerEngine {
    /// See [`select_best_asset`].
    pub fn select_best_asset<'a>(assets: &'a [ReleaseAsset], target_os: &str, target_arch: &str) -> (r: Option<&'a ReleaseAsset>)
        ensures
            r is None <==> assets@.len() == 0,
            r matches Some(a) ==> exists|i: int| is_best_asset(assets@, i, target_os@, target_arch@) && *a == assets@[i],
    {
        select_best_asset(assets, target_os, target_arch)
    }
}


/// At most one asset is the best one.
pub proof fn law_best_asset_unique(assets: Seq<ReleaseAsset>, i: int, j: int, target_os: Seq<char>, target_arch: Seq<char>)
    requires
        is_best_asset(assets, i, target_os, target_arch),
        is_best_asset(assets, j, target_os, target_arch),
    ensures
        i == j,
{
    if i < j {
        assert(is_candidate(assets, j, target_os));
    } else if j < i {
        assert(is_candidate(assets, i, target_os));
    }
}

/// When some asset is for the target system (or for all systems), the chosen one is too.
pub proof fn law_best_asset_prefers_system(assets: Seq<ReleaseAsset>, i: int, k: int, target_os: Seq<char>, target_arch: Seq<char>)
    requires
        is_best_asset(assets, i, target_os, target_arch),
        0 <= k < assets.len(),
        os_matches(assets[k], target_os),
    ensures
        os_matches(assets[i], target_os),
{
}

/// The installer kinds each system prefers, most wanted first: on Windows an
/// MSI, then a setup program, then a portable archive; on macOS a disk image,
/// then a package, then a portable archive; on Linux an AppImage, then a
/// Debian package, then an RPM package, then a portable archive. Any other
/// kind comes after these.
pub open spec fn preferred_kinds(target_os: Seq<char>) -> Seq<Seq<char>> {
    if target_os == "windows"@ {
        seq!["msi"@, "setup_exe"@, "portable_zip"@]
    } else if target_os == "macos"@ {
        seq!["dmg"@, "pkg"@, "portable_zip"@]
    } else if target_os == "linux"@ {
        seq!["appimage"@, "deb"@, "rpm"@, "portable_zip"@]
    } else {
        Seq::empty()
    }
}

/// Kind `a` is wanted before kind `b` on the target system.
pub open spec fn kind_preferred(target_os: Seq<char>, a: Seq<char>, b: Seq<char>) -> bool {
    let ks = preferred_kinds(target_os);
    exists|p: int|
        0 <= p < ks.len() && ks[p] == a && forall|q: int| 0 <= q <= p ==> ks[q] != b
}

/// Of two assets for the same system and architecture, the one whose kind the
/// target system prefers is chosen over the other: the other is never the
/// chosen asset.
pub proof fn law_best_asset_prefers_kind(
    assets: Seq<ReleaseAsset>,
    i: int,
    j: int,
    target_os: Seq<char>,
    target_arch: Seq<char>,
)
    requires
        is_candidate(assets, i, target_os),
        is_candidate(assets, j, target_os),
        assets[i].os@ == assets[j].os@,
        assets[i].arch@ == assets[j].arch@,
        kind_preferred(target_os, assets[i].kind@, assets[j].kind@),
    ensures
        !is_best_asset(assets, j, target_os, target_arch),
{
    reveal_strlit("windows");
    reveal_strlit("macos");
    reveal_strlit("linux");
    reveal_strlit("msi");
    reveal_strlit("setup_exe");
    reveal_strlit("portable_zip");
    reveal_strlit("dmg");
    reveal_strlit("pkg");
    reveal_strlit("appimage");
    reveal_strlit("deb");
    reveal_strlit("rpm");
    let a = assets[i].kind@;
    let b = assets[j].kind@;
    let ks = preferred_kinds(target_os);
    let p = choose|p: int| 0 <= p < ks.len() && ks[p] == a && forall|q: int| 0 <= q <= p ==> ks[q] != b;
    assert(kind_bonus(target_os, a) > kind_bonus(target_os, b)) by {
        assert(ks.len() > 0);
        if target_os == "windows"@ {
            assert(ks =~= seq!["msi"@, "setup_exe"@, "portable_zip"@]);
            assert(ks[0] != b);
            if p >= 1 { assert(ks[1] != b); }
            if p >= 2 { assert(ks[2] != b); }
        } else if target_os == "macos"@ {
            assert(ks =~= seq!["dmg"@, "pkg"@, "portable_zip"@]);
            assert(ks[0] != b);
            if p >= 1 { assert(ks[1] != b); }
            if p >= 2 { assert(ks[2] != b); }
        } else {
            assert(target_os == "linux"@);
            assert(ks =~= seq!["appimage"@, "deb"@, "rpm"@, "portable_zip"@]);
            assert(ks[0] != b);
            if p >= 1 { assert(ks[1] != b); }
            if p >= 2 { assert(ks[2] != b); }
            if p >= 3 { assert(ks[3] != b); }
        }
    }
    assert(asset_score(assets[i], target_os, target_arch) > asset_score(assets[j], target_os, target_arch));
}

/// How well an asset's architecture fits the target one: the target itself
/// first, then a universal build, then (for an x86_64 target) a 32-bit x86
/// build, then anything else.
pub open spec fn arch_fit(asset_arch: Seq<char>, target_arch: Seq<char>) -> int {
    if asset_arch == target_arch {
        3
    } else if asset_arch == "universal"@ {
        2
    } else if target_arch == "x86_64"@ && asset_arch == "x86"@ {
        1
    } else {
        0
    }
}

/// Of two assets for the same system and of the same kind, the one whose
/// architecture fits better is chosen over the other.
pub proof fn law_best_asset_prefers_arch(
    assets: Seq<ReleaseAsset>,
    i: int,
    j: int,
    target_os: Seq<char>,
    target_arch: Seq<char>,
)
    requires
        is_candidate(assets, i, target_os),
        is_candidate(assets, j, target_os),
        assets[i].os@ == assets[j].os@,
        assets[i].kind@ == assets[j].kind@,
        arch_fit(assets[i].arch@, target_arch) > arch_fit(assets[j].arch@, target_arch),
    ensures
        !is_best_asset(assets, j, target_os, target_arch),
{
    assert(asset_score(assets[i], target_os, target_arch) > asset_score(assets[j], target_os, target_arch));
}

/// Of two assets of the same kind and architecture, one built for the target
/// system is chosen over one that is not.
pub proof fn law_best_asset_prefers_own_system(
    assets: Seq<ReleaseAsset>,
    i: int,
    j: int,
    target_os: Seq<char>,
    target_arch: Seq<char>,
)
    requires
        is_candidate(assets, i, target_os),
        is_candidate(assets, j, target_os),
        assets[i].os@ == target_os,
        assets[j].os@ != target_os,
        assets[i].arch@ == assets[j].arch@,
        assets[i].kind@ == assets[j].kind@,
    ensures
        !is_best_asset(assets, j, target_os, target_arch),
{
    assert(asset_score(assets[i], target_os, target_arch) > asset_score(assets[j], target_os, target_arch));
}

pub open spec fn words_view(v: Seq<String>) -> Seq<Seq<char>> {
    v.map_values(|w: String| w@)
}

pub open spec fn commands_view(v: Seq<Vec<String>>) -> Seq<Seq<Seq<char>>> {
    v.map_values(|c: Vec<String>| words_view(c@))
}

/// Command lines that install an asset of the given kind found at `p` on a
/// Unix-like system; none for kinds that have no such procedure.
pub open spec fn install_commands(kind: AssetKind, p: Seq<char>) -> Seq<Seq<Seq<char>>> {
    match kind {
        AssetKind::Dmg => seq![
            seq!["hdiutil"@, "attach"@, "-nobrowse"@, "-readonly"@, p],
            seq!["cp"@, "-R"@, "/Volumes/<App>/<App>.app"@, "/Applications/"@],
            seq!["hdiutil"@, "detach"@, "/Volumes/<App>"@, "-force"@],
        ],
        AssetKind::Pkg => seq![seq!["installer"@, "-pkg"@, p, "-target"@, "CurrentUserHomeDirectory"@]],
        AssetKind::AppImage => seq![seq!["chmod"@, "+x"@, p], seq![p]],
        AssetKind::Deb => seq![seq!["pkexec"@, "dpkg"@, "-i"@, p]],
        AssetKind::Rpm => seq![seq!["pkexec"@, "rpm"@, "-i"@, p]],
        AssetKind::Apk => seq![seq!["pm"@, "install"@, "-r"@, p]],
        _ => Seq::empty(),
    }
}

fn owned(s: &str) -> (r: String)
    ensures
        r@ == s@,
{
    string_of(&chars_of(s))
}

fn words(ws: Vec<&str>) -> (r: Vec<String>)
    ensures
        r@.len() == ws@.len(),
        forall|i: int| 0 <= i < ws@.len() ==> #[trigger] r@[i]@ == ws@[i]@,
{
    let mut r: Vec<String> = Vec::new();
    let mut i: usize = 0;
    while i < ws.len()
        invariant
            i <= ws.len(),
            r@.len() == i,
            forall|j: int| 0 <= j < i ==> #[trigger] r@[j]@ == ws@[j]@,
        decreases ws.len() - i,
    {
        r.push(owned(ws[i]));
        i = i + 1;
    }
    r
}

impl InstallerEngine {
    /// The command lines that install the asset at `asset_path` on macOS, Linux or Android.
    pub fn build_unix_install_commands(kind: &AssetKind, asset_path: &str) -> (r: Vec<Vec<String>>)
        ensures
            commands_view(r@) == install_commands(*kind, asset_path@),
    {
        let p = asset_path;
        match kind {
            AssetKind::Dmg => {
                let a = words(vec!["hdiutil", "attach", "-nobrowse", "-readonly", p]);
                let b = words(vec!["cp", "-R", "/Volumes/<App>/<App>.app", "/Applications/"]);
                let c = words(vec!["hdiutil", "detach", "/Volumes/<App>", "-force"]);
                assert(words_view(a@) =~= seq!["hdiutil"@, "attach"@, "-nobrowse"@, "-readonly"@, p@]);
                assert(words_view(b@) =~= seq!["cp"@, "-R"@, "/Volumes/<App>/<App>.app"@, "/Applications/"@]);
                assert(words_view(c@) =~= seq!["hdiutil"@, "detach"@, "/Volumes/<App>"@, "-force"@]);
                let r = vec![a, b, c];
                assert(commands_view(r@) =~= install_commands(*kind, asset_path@));
                r
            },
            AssetKind::Pkg => {
                let a = words(vec!["installer", "-pkg", p, "-target", "CurrentUserHomeDirectory"]);
                assert(words_view(a@) =~= seq!["installer"@, "-pkg"@, p@, "-target"@, "CurrentUserHomeDirectory"@]);
                let r = vec![a];
                assert(commands_view(r@) =~= install_commands(*kind, asset_path@));
                r
            },
            AssetKind::AppImage => {
                let a = words(vec!["chmod", "+x", p]);
                let b = words(vec![p]);
                assert(words_view(a@) =~= seq!["chmod"@, "+x"@, p@]);
                assert(words_view(b@) =~= seq![p@]);
                let r = vec![a, b];
                assert(commands_view(r@) =~= install_commands(*kind, asset_path@));
                r
            },
            AssetKind::Deb => {
                let a = words(vec!["pkexec", "dpkg", "-i", p]);
                assert(words_view(a@) =~= seq!["pkexec"@, "dpkg"@, "-i"@, p@]);
                let r = vec![a];
                assert(commands_view(r@) =~= install_commands(*kind, asset_path@));
                r
            },
            AssetKind::Rpm => {
                let a = words(vec!["pkexec", "rpm", "-i", p]);
                assert(words_view(a@) =~= seq!["pkexec"@, "rpm"@, "-i"@, p@]);
                let r = vec![a];
                assert(commands_view(r@) =~= install_commands(*kind, asset_path@));
                r
            },
            AssetKind::Apk => {
                let a = words(vec!["pm", "install", "-r", p]);
                assert(words_view(a@) =~= seq!["pm"@, "install"@, "-r"@, p@]);
                let r = vec![a];
                assert(commands_view(r@) =~= install_commands(*kind, asset_path@));
                r
            },
            _ => {
                let r: Vec<Vec<String>> = Vec::new();
                assert(commands_view(r@) =~= install_commands(*kind, asset_path@));
                r
            },
        }
    }
}


/// One program registered with the system's uninstaller list.
pub struct UninstallEntry {
    pub display_name: String,
    pub uninstall_string: Option<String>,
}

/// A recorded uninstall command that is a real command, not a note left by an installer step.
pub open spec fn usable_command(c: Seq<char>) -> bool {
    let t = trim(c);
    t.len() > 0 && !has_substring(t, "已调起"@) && !has_substring(t, "跳过"@) && !has_substring(t, "非 Windows"@)
        && !has_substring(t, "已解压至"@)
}

pub open spec fn is_id_separator(c: char) -> bool {
    c == '-' || c == '_' || c == '.'
}

pub open spec fn without_id_separators(s: Seq<char>) -> Seq<char> {
    filter_chars(s, |c: char| !is_id_separator(c))
}

/// A registered program whose display name matches the application's name or id.
pub open spec fn entry_matches(display_name: Seq<char>, app_name: Seq<char>, app_id: Seq<char>) -> bool {
    let d = lowercase(trim(display_name));
    let n = lowercase(app_name);
    let i = lowercase(app_id);
    let ci = without_id_separators(i);
    d.len() > 0 && (d == n || d == i || has_substring(d, n) || has_substring(n, d) || (ci.len() > 0
        && has_substring(without_id_separators(d), ci)))
}

pub open spec fn entry_command(e: UninstallEntry, app_name: Seq<char>, app_id: Seq<char>) -> Option<Seq<char>> {
    if entry_matches(e.display_name@, app_name, app_id) && e.uninstall_string is Some && trim(
        e.uninstall_string->0@,
    ).len() > 0 {
        Some(trim(e.uninstall_string->0@))
    } else {
        None
    }
}

/// The uninstall command of the first matching registered program from position `i` on.
pub open spec fn registry_command(entries: Seq<UninstallEntry>, i: int, app_name: Seq<char>, app_id: Seq<char>) -> Option<Seq<char>>
    decreases entries.len() - i,
{
    if i < 0 || i >= entries.len() {
        None
    } else {
        match entry_command(entries[i], app_name, app_id) {
            Some(c) => Some(c),
            None => registry_command(entries, i + 1, app_name, app_id),
        }
    }
}

/// The uninstall command: the recorded one when usable, else that of the
/// first matching registered program.
pub open spec fn uninstall_command(
    app_name: Seq<char>,
    app_id: Seq<char>,
    existing: Option<Seq<char>>,
    entries: Seq<UninstallEntry>,
) -> Option<Seq<char>> {
    if existing is Some && usable_command(existing->0) {
        Some(trim(existing->0))
    } else {
        registry_command(entries, 0, app_name, app_id)
    }
}

fn without_id_separators_chars(v: &[char]) -> (r: Vec<char>)
    ensures
        r@ == without_id_separators(v@),
{
    let mut r: Vec<char> = Vec::new();
    let mut i: usize = 0;
    while i < v.len()
        invariant
            i <= v.len(),
            r@ == without_id_separators(v@.subrange(0, i as int)),
        decreases v.len() - i,
    {
        assert(v@.subrange(0, i + 1).drop_last() =~= v@.subrange(0, i as int));
        let c = v[i];
        if !(c == '-' || c == '_' || c == '.') {
            r.push(c);
        }
        i = i + 1;
    }
    assert(v@.subrange(0, i as int) =~= v@);
    r
}

fn usable_command_exec(c: &str) -> (r: bool)
    ensures
        r == usable_command(c@),
{
    let t = trim_chars(&chars_of(c));
    t.len() > 0 && !contains_lit(&t, "已调起") && !contains_lit(&t, "跳过") && !contains_lit(&t, "非 Windows") && !contains_lit(&t, "已解压至")
}

fn entry_command_exec(e: &UninstallEntry, name_lower: &[char], id_lower: &[char], clean_id: &[char]) -> (r: Option<Vec<char>>)
    requires
        exists|n: Seq<char>, i: Seq<char>| lowercase(n) == name_lower@ && lowercase(i) == id_lower@,
        clean_id@ == without_id_separators(id_lower@),
    ensures
        forall|n: Seq<char>, i: Seq<char>|
            lowercase(n) == name_lower@ && lowercase(i) == id_lower@ ==> match r {
                Some(x) => entry_command(*e, n, i) == Some(x@),
                None => entry_command(*e, n, i) is None,
            },
{
    let d = lowercase_chars(&trim_chars(&chars_of(e.display_name.as_str())));
    let matched = d.len() > 0 && (eq_chars(&d, name_lower) || eq_chars(&d, id_lower) || contains_str(&d, name_lower)
        || contains_str(name_lower, &d) || (clean_id.len() > 0 && contains_str(&without_id_separators_chars(&d), clean_id)));
    if matched {
        match &e.uninstall_string {
            Some(u) => {
                let t = trim_chars(&chars_of(u.as_str()));
                if t.len() > 0 {
                    return Some(t);
                }
            },
            None => {},
        }
    }
    None
}

/// Finds the command that uninstalls an application: the recorded command when it
/// is a usable one, otherwise the uninstall string of the first registered program
/// whose display name matches the application's name or id (compared in lower
/// case, and also with `-`, `_` and `.` removed).
pub fn resolve_uninstaller_command(
    app_name: &str,
    app_id: &str,
    existing_command: Option<&str>,
    registry: &[UninstallEntry],
) -> (r: Option<String>)
    ensures
        match r {
            Some(x) => uninstall_command(
                app_name@,
                app_id@,
                match existing_command {
                    Some(c) => Some(c@),
                    None => None,
                },
                registry@,
            ) == Some(x@),
            None => uninstall_command(
                app_name@,
                app_id@,
                match existing_command {
                    Some(c) => Some(c@),
                    None => None,
                },
                registry@,
            ) is None,
        },
{
    match existing_command {
        Some(c) => {
            if usable_command_exec(c) {
                return Some(string_of(&trim_chars(&chars_of(c))));
            }
        },
        None => {},
    }
    let name_lower = lowercase_chars(&chars_of(app_name));
    let id_lower = lowercase_chars(&chars_of(app_id));
    let clean_id = without_id_separators_chars(&id_lower);
    let mut i: usize = 0;
    while i < registry.len()
        invariant
            i <= registry.len(),
            name_lower@ == lowercase(app_name@),
            id_lower@ == lowercase(app_id@),
            clean_id@ == without_id_separators(id_lower@),
            registry_command(registry@, 0, app_name@, app_id@) == registry_command(registry@, i as int, app_name@, app_id@),
            !(existing_command is Some && usable_command(existing_command->0@)),
        decreases registry.len() - i,
    {
        let found = entry_command_exec(&registry[i], &name_lower, &id_lower, &clean_id);
        assert(lowercase(app_name@) == name_lower@ && lowercase(app_id@) == id_lower@);
        match found {
            Some(x) => {
                assert(entry_command(registry@[i as int], app_name@, app_id@) == Some(x@));
                return Some(string_of(&x));
            },
            None => {},
        }
        i = i + 1;
    }
    None
}

impl InstallerEngine {
    /// See [`resolve_uninstaller_command`].
    pub fn resolve_uninstaller_command(
        app_name: &str,
        app_id: &str,
        existing_command: Option<&str>,
        registry: &[UninstallEntry],
    ) -> (r: Option<String>)
        ensures
            match r {
                Some(x) => uninstall_command(
                    app_name@,
                    app_id@,
                    match existing_command {
                        Some(c) => Some(c@),
                        None => None,
                    },
                    registry@,
                ) == Some(x@),
                None => uninstall_command(
                    app_name@,
                    app_id@,
                    match existing_command {
                        Some(c) => Some(c@),
                        None => None,
                    },
                    registry@,
                ) is None,
            },
    {
        resolve_uninstaller_command(app_name, app_id, existing_command, registry)
    }
}

pub open spec fn keeps_in_dir_name(c: char) -> bool {
    is_alphanumeric(c) || c == '-' || c == '_' || c == '.'
}

/// Directory name for an application: the characters of its id that are
/// alphanumeric or `-`, `_`, `.`; `app` when that leaves nothing or starts with `.`.
pub open spec fn dir_name_of(app_id: Seq<char>) -> Seq<char> {
    let safe = filter_chars(app_id, |c: char| keeps_in_dir_name(c));
    if safe.len() == 0 || safe[0] == '.' {
        "app"@
    } else {
        safe
    }
}

/// Safe directory name for an application (no path separators, no leading dot).
pub fn install_dir_name(app_id: &str) -> (r: String)
    ensures
        r@ == dir_name_of(app_id@),
{
    let v = chars_of(app_id);
    let mut safe: Vec<char> = Vec::new();
    let mut i: usize = 0;
    while i < v.len()
        invariant
            i <= v.len(),
            v@ == app_id@,
            safe@ == filter_chars(v@.subrange(0, i as int), |c: char| keeps_in_dir_name(c)),
        decreases v.len() - i,
    {
        assert(v@.subrange(0, i + 1).drop_last() =~= v@.subrange(0, i as int));
        let c = v[i];
        if char_is_alphanumeric(c) || c == '-' || c == '_' || c == '.' {
            safe.push(c);
        }
        i = i + 1;
    }
    assert(v@.subrange(0, i as int) =~= v@);
    if safe.len() == 0 || safe[0] == '.' {
        owned("app")
    } else {
        string_of(&safe)
    }
}

/// Where a portable application goes: with a non-blank custom base directory,
/// that base (trimmed, still to be expanded) and the application's directory name;
/// without one, no base (the platform's default applies) and the directory name.
pub fn dirs_or_fallback_with_base(app_id: &str, custom_base: Option<&str>) -> (r: (Option<String>, String))
    ensures
        r.1@ == dir_name_of(app_id@),
        match custom_base {
            Some(b) => if trim(b@).len() > 0 {
                r.0 matches Some(x) && x@ == trim(b@)
            } else {
                r.0 is None
            },
            None => r.0 is None,
        },
{
    let name = install_dir_name(app_id);
    match custom_base {
        Some(b) => {
            let t = trim_chars(&chars_of(b));
            if t.len() > 0 {
                return (Some(string_of(&t)), name);
            }
        },
        None => {},
    }
    (None, name)
}

} // verus!
