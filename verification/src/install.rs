//! Decisions around downloading, installing, launching and removing an
//! application: file names, integrity verdicts, installer outcomes.

use vstd::prelude::*;
use crate::installer::{select_best_asset_index, AssetKind};
use crate::models::{opt_str_view, ReleaseAsset};
use crate::settings::{i64_text, i64_to_string};
use crate::text::{
    chars_of, concat, contains_str, ends_with, eq_chars, eq_ignore_ascii_case, has_substring, is_suffix,
    lowercase, lowercase_chars, nonempty_pieces, seqs_of, split, split_chars, split_nonempty, starts_with,
    string_of, strip_leading, strip_trailing, trim, trim_chars,
};

verus! {

fn owned(s: &str) -> (r: String)
    ensures
        r@ == s@,
{
    string_of(&chars_of(s))
}

/// The last proper component of a `/`-separated path, as `Path::file_name`
/// gives it: empty and `.` components are skipped, and a path ending in `..`
/// has none.
pub open spec fn file_name_of(path: Seq<char>) -> Option<Seq<char>> {
    let parts = split(path, seq!['/']).filter(|p: Seq<char>| p.len() > 0 && p != "."@);
    if parts.len() > 0 && parts.last() != ".."@ {
        Some(parts.last())
    } else {
        None
    }
}

fn keep_component(parts: Vec<Vec<char>>) -> (r: Vec<Vec<char>>)
    ensures
        seqs_of(r@) == seqs_of(parts@).filter(|p: Seq<char>| p.len() > 0 && p != "."@),
{
    let ghost ps = seqs_of(parts@);
    let dot = chars_of(".");
    proof {
        reveal_strlit(".");
    }
    let mut out: Vec<Vec<char>> = Vec::new();
    let mut i: usize = 0;
    while i < parts.len()
        invariant
            i <= parts@.len(),
            ps == seqs_of(parts@),
            dot@ == "."@,
            seqs_of(out@) == ps.take(i as int).filter(|p: Seq<char>| p.len() > 0 && p != "."@),
        decreases parts@.len() - i,
    {
        reveal(Seq::filter);
        assert(ps.take(i + 1).drop_last() =~= ps.take(i as int));
        assert(ps.take(i + 1).last() == parts@[i as int]@);
        if parts[i].len() > 0 && !eq_chars(&parts[i], &dot) {
            out.push(parts[i].clone());
            assert(seqs_of(out@) =~= ps.take(i + 1).filter(|p: Seq<char>| p.len() > 0 && p != "."@));
        } else {
            assert(seqs_of(out@) =~= ps.take(i + 1).filter(|p: Seq<char>| p.len() > 0 && p != "."@));
        }
        i = i + 1;
    }
    assert(ps.take(i as int) =~= ps);
    out
}

/// `Path::file_name` for a `/`-separated path.
pub fn file_name(path: &str) -> (r: Option<String>)
    ensures
        opt_str_view(r) == file_name_of(path@),
{
    let seps = vec!['/'];
    assert(seps@ =~= seq!['/']);
    let parts = keep_component(split_chars(&chars_of(path), &seps));
    proof {
        reveal_strlit("..");
    }
    if parts.len() > 0 {
        let last = &parts[parts.len() - 1];
        assert(seqs_of(parts@).last() == last@);
        if !eq_chars(last, &chars_of("..")) {
            return Some(string_of(last));
        }
    }
    None
}

/// `Path::extension`: the text after the last `.` of the file name, unless
/// the name has no `.` other than a leading one (or is `..`).
pub open spec fn extension_of(path: Seq<char>) -> Option<Seq<char>> {
    match file_name_of(path) {
        Some(f) => match crate::text::last_index(f, '.') {
            Some(i) => if i > 0 {
                Some(f.skip(i + 1))
            } else {
                None
            },
            None => None,
        },
        None => None,
    }
}

/// `Path::extension` for a `/`-separated path.
pub fn extension(path: &str) -> (r: Option<String>)
    ensures
        opt_str_view(r) == extension_of(path@),
{
    match file_name(path) {
        Some(f) => {
            let fc = chars_of(f.as_str());
            match crate::text::find_last_char(&fc, '.') {
                Some(i) => {
                    let n = fc.len();
                    assert(i < n);
                    if i > 0 {
                        Some(string_of(&crate::text::slice_chars(&fc, i + 1, n)))
                    } else {
                        None
                    }
                },
                None => None,
            }
        },
        None => None,
    }
}

/// The program of an unpacked portable application: the first unpacked file
/// (not a directory) with the extension `exe`, extension case kept.
pub fn first_executable(entries: &Vec<(String, bool)>) -> (r: Option<usize>)
    ensures
        match r {
            Some(i) => i < entries@.len() && !entries@[i as int].1 && extension_of(entries@[i as int].0@)
                == Some("exe"@) && forall|j: int|
                0 <= j < i ==> (#[trigger] entries@[j]).1 || extension_of(entries@[j].0@) != Some("exe"@),
            None => forall|j: int|
                0 <= j < entries@.len() ==> (#[trigger] entries@[j]).1 || extension_of(entries@[j].0@) != Some(
                    "exe"@,
                ),
        },
{
    let exe = chars_of("exe");
    let mut i: usize = 0;
    while i < entries.len()
        invariant
            i <= entries@.len(),
            exe@ == "exe"@,
            forall|j: int|
                0 <= j < i ==> (#[trigger] entries@[j]).1 || extension_of(entries@[j].0@) != Some("exe"@),
        decreases entries@.len() - i,
    {
        if !entries[i].1 {
            match extension(entries[i].0.as_str()) {
                Some(e) => {
                    if eq_chars(&chars_of(e.as_str()), &exe) {
                        return Some(i);
                    }
                },
                None => {},
            }
        }
        i = i + 1;
    }
    None
}

pub open spec fn keeps_in_task_id(c: char) -> bool {
    crate::text::is_alphanumeric(c) || c == '-' || c == '_'
}

/// The name a download is saved under: the file name of the asset (else
/// `package.bin`), prefixed by the task id (only its letters, digits, `-` and
/// `_`) and `_` unless that is empty or already begins the name, case ignored.
pub open spec fn download_file_name_of(task_id: Seq<char>, asset_name: Seq<char>) -> Seq<char> {
    let safe_asset = match file_name_of(asset_name) {
        Some(n) => n,
        None => "package.bin"@,
    };
    let safe_task = crate::text::filter_chars(task_id, |c: char| keeps_in_task_id(c));
    if safe_task.len() == 0 || crate::text::is_prefix(lowercase(safe_task), lowercase(safe_asset)) {
        safe_asset
    } else {
        safe_task + "_"@ + safe_asset
    }
}

fn safe_task_id(v: &[char]) -> (r: Vec<char>)
    ensures
        r@ == crate::text::filter_chars(v@, |c: char| keeps_in_task_id(c)),
{
    let mut r: Vec<char> = Vec::new();
    let mut i: usize = 0;
    while i < v.len()
        invariant
            i <= v.len(),
            r@ == crate::text::filter_chars(v@.take(i as int), |c: char| keeps_in_task_id(c)),
        decreases v.len() - i,
    {
        assert(v@.take(i + 1).drop_last() =~= v@.take(i as int));
        assert(v@.take(i + 1).last() == v@[i as int]);
        let c = v[i];
        if crate::text::char_is_alphanumeric(c) || c == '-' || c == '_' {
            r.push(c);
        }
        i = i + 1;
    }
    assert(v@.take(i as int) =~= v@);
    r
}

pub fn download_file_name(task_id: &str, asset_name: &str) -> (r: String)
    ensures
        r@ == download_file_name_of(task_id@, asset_name@),
{
    let safe_asset = match file_name(asset_name) {
        Some(n) => chars_of(n.as_str()),
        None => chars_of("package.bin"),
    };
    let safe_task = safe_task_id(&chars_of(task_id));
    if safe_task.len() == 0 || starts_with(&lowercase_chars(&safe_asset), &lowercase_chars(&safe_task)) {
        string_of(&safe_asset)
    } else {
        string_of(&concat(&concat(&safe_task, &chars_of("_")), &safe_asset))
    }
}

/// The verdict on a finished download.
#[derive(Debug, PartialEq, Eq)]
pub enum HashVerdict {
    /// The published checksum matches: progress state `verified`, with a message.
    Verified(String),
    /// No checksum was published: progress state `completed_unverified`, with a message.
    Unverified(String),
    /// The checksums differ: the progress message and the error returned.
    Tampered(String, String),
}

pub enum HashVerdictView {
    Verified(Seq<char>),
    Unverified(Seq<char>),
    Tampered(Seq<char>, Seq<char>),
}

impl View for HashVerdict {
    type V = HashVerdictView;

    open spec fn view(&self) -> HashVerdictView {
        match self {
            HashVerdict::Verified(m) => HashVerdictView::Verified(m@),
            HashVerdict::Unverified(m) => HashVerdictView::Unverified(m@),
            HashVerdict::Tampered(p, e) => HashVerdictView::Tampered(p@, e@),
        }
    }
}

/// Compares the computed hash with the published one (trimmed, lower-cased):
/// a blank or missing published hash leaves the download unverified.
pub open spec fn hash_verdict(expected: Option<Seq<char>>, actual: Seq<char>) -> HashVerdictView {
    let unverified = HashVerdictView::Unverified("上游未提供官方校验清单，已记录本地计算 SHA-256: "@ + actual);
    match expected {
        Some(e) => {
            let clean = lowercase(trim(e));
            if clean.len() == 0 {
                unverified
            } else if lowercase(actual) != clean {
                HashVerdictView::Tampered(
                    "哈希不符！期望: "@ + clean + ", 实际: "@ + actual,
                    "安全拦截：SHA-256 完整性校验不符！官方校验值: "@ + clean + "，实际下载文件: "@ + actual
                        + "。已阻止潜在篡改软件的安装执行。"@,
                )
            } else {
                HashVerdictView::Verified("已通过官方 SHA-256 完整性校验: "@ + actual)
            }
        },
        None => unverified,
    }
}

pub fn check_download_hash(expected: Option<&str>, actual: &str) -> (r: HashVerdict)
    ensures
        r@ == hash_verdict(crate::watch::opt_ref_view(expected), actual@),
        expected matches Some(e) && trim(e@).len() > 0 ==> !(r@ is Unverified),
{
    let a = chars_of(actual);
    let unverified = string_of(&concat(&chars_of("上游未提供官方校验清单，已记录本地计算 SHA-256: "), &a));
    match expected {
        Some(e) => {
            let clean = lowercase_chars(&trim_chars(&chars_of(e)));
            if clean.len() == 0 {
                HashVerdict::Unverified(unverified)
            } else if !eq_chars(&lowercase_chars(&a), &clean) {
                let progress = concat(&concat(&concat(&chars_of("哈希不符！期望: "), &clean), &chars_of(", 实际: ")), &a);
                let error = concat(
                    &concat(
                        &concat(&concat(&chars_of("安全拦截：SHA-256 完整性校验不符！官方校验值: "), &clean), &chars_of("，实际下载文件: ")),
                        &a,
                    ),
                    &chars_of("。已阻止潜在篡改软件的安装执行。"),
                );
                HashVerdict::Tampered(string_of(&progress), string_of(&error))
            } else {
                HashVerdict::Verified(string_of(&concat(&chars_of("已通过官方 SHA-256 完整性校验: "), &a)))
            }
        },
        None => HashVerdict::Unverified(unverified),
    }
}

/// The verdict on a finished download: the digest of every byte that was fed
/// to `stream`, in lower-case hexadecimal, and that digest judged against the
/// published checksum.
pub fn download_verdict(stream: crate::digest::Sha256Stream, expected: Option<&str>) -> (r: (String, HashVerdict))
    ensures
        r.0@ == crate::digest::hex_lower(crate::digest::sha256_digest(crate::digest::streamed_bytes(stream))),
        r.0@.len() == 64,
        r.1@ == hash_verdict(crate::watch::opt_ref_view(expected), r.0@),
{
    let actual = stream.hex_digest();
    let verdict = check_download_hash(expected, actual.as_str());
    (actual, verdict)
}

/// Progress is reported at most every 200 ms, and when the download is complete.
pub fn should_report_progress(elapsed_ms: u128, total_bytes: u64, downloaded: u64) -> (r: bool)
    ensures
        r == (elapsed_ms >= 200 || (total_bytes > 0 && downloaded == total_bytes)),
{
    elapsed_ms >= 200 || (total_bytes > 0 && downloaded == total_bytes)
}

/// A stored directory setting, trimmed; none when blank. A download directory
/// under the obsolete `zstore_downloads` name is ignored too.
pub open spec fn dir_setting(stored: Option<Seq<char>>, reject_obsolete: bool) -> Option<Seq<char>> {
    match stored {
        Some(s) => {
            let t = trim(s);
            if t.len() == 0 || (reject_obsolete && has_substring(t, "zstore_downloads"@)) {
                None
            } else {
                Some(t)
            }
        },
        None => None,
    }
}

pub fn download_dir_setting(stored: Option<&str>) -> (r: Option<String>)
    ensures
        opt_str_view(r) == dir_setting(crate::watch::opt_ref_view(stored), true),
{
    match stored {
        Some(s) => {
            let t = trim_chars(&chars_of(s));
            if t.len() == 0 || contains_str(&t, &chars_of("zstore_downloads")) {
                None
            } else {
                Some(string_of(&t))
            }
        },
        None => None,
    }
}

pub fn portable_dir_setting(stored: Option<&str>) -> (r: Option<String>)
    ensures
        opt_str_view(r) == dir_setting(crate::watch::opt_ref_view(stored), false),
{
    match stored {
        Some(s) => {
            let t = trim_chars(&chars_of(s));
            if t.len() == 0 {
                None
            } else {
                Some(string_of(&t))
            }
        },
        None => None,
    }
}

pub open spec fn no_asset_message() -> Seq<char> {
    "该 Release 未提供匹配当前操作系统的安装包资产"@
}

/// The asset to install: the one named, when it is among the assets; else
/// the best one for the system; else an error.
pub fn choose_install_asset(
    assets: &[ReleaseAsset],
    requested: Option<&str>,
    target_os: &str,
    target_arch: &str,
) -> (r: Result<usize, String>)
    ensures
        match r {
            Ok(i) => i < assets@.len() && (match requested {
                Some(n) => if exists|j: int| 0 <= j < assets@.len() && (#[trigger] assets@[j]).name@ == n@ {
                    assets@[i as int].name@ == n@ && forall|j: int| 0 <= j < i ==> (#[trigger] assets@[j]).name@ != n@
                } else {
                    crate::installer::is_best_asset(assets@, i as int, target_os@, target_arch@)
                },
                None => crate::installer::is_best_asset(assets@, i as int, target_os@, target_arch@),
            }),
            Err(e) => e@ == no_asset_message() && assets@.len() == 0,
        },
{
    match requested {
        Some(n) => {
            let nc = chars_of(n);
            let mut i: usize = 0;
            while i < assets.len()
                invariant
                    i <= assets@.len(),
                    nc@ == n@,
                    requested == Some(n),
                    forall|j: int| 0 <= j < i ==> (#[trigger] assets@[j]).name@ != n@,
                decreases assets@.len() - i,
            {
                if eq_chars(&chars_of(assets[i].name.as_str()), &nc) {
                    assert(assets@[i as int].name@ == n@);
                    return Ok(i);
                }
                i = i + 1;
            }
        },
        None => {},
    }
    match select_best_asset_index(assets, target_os, target_arch) {
        Some(i) => Ok(i),
        None => Err(owned("该 Release 未提供匹配当前操作系统的安装包资产")),
    }
}

/// After a failed direct download from GitHub, the same file through the
/// public mirror; none otherwise.
pub open spec fn mirror_retry(asset_url: Seq<char>, rewritten: Seq<char>) -> Option<Seq<char>> {
    if has_substring(asset_url, "github.com"@) && rewritten == asset_url {
        Some("https://gh-proxy.com/"@ + asset_url)
    } else {
        None
    }
}

pub fn mirror_retry_url(asset_url: &str, rewritten: &str) -> (r: Option<String>)
    ensures
        opt_str_view(r) == mirror_retry(asset_url@, rewritten@),
{
    let o = chars_of(asset_url);
    if contains_str(&o, &chars_of("github.com")) && eq_chars(&chars_of(rewritten), &o) {
        Some(string_of(&concat(&chars_of("https://gh-proxy.com/"), &o)))
    } else {
        None
    }
}

/// The error after both the direct and the mirrored download failed.
pub fn retry_failure_message(direct_error: &str, mirror_error: &str) -> (r: String)
    ensures
        r@ == "下载失败（直连: "@ + direct_error@ + "；镜像重试: "@ + mirror_error@ + "）"@,
{
    string_of(
        &concat(
            &concat(&concat(&concat(&chars_of("下载失败（直连: "), &chars_of(direct_error)), &chars_of("；镜像重试: ")), &chars_of(mirror_error)),
            &chars_of("）"),
        ),
    )
}

/// Files whose publisher signature is checked on Windows: `.exe` and `.msi`.
pub fn is_windows_binary(name: &str) -> (r: bool)
    ensures
        r == (is_suffix(".exe"@, lowercase(name@)) || is_suffix(".msi"@, lowercase(name@))),
{
    let l = lowercase_chars(&chars_of(name));
    ends_with(&l, &chars_of(".exe")) || ends_with(&l, &chars_of(".msi"))
}

/// What the silent MSI run leads to.
#[derive(Debug, PartialEq, Eq)]
pub enum MsiNext {
    /// Installed.
    Done(String),
    /// The user cancelled.
    Cancelled(String),
    /// Run the installer's own wizard.
    OpenWizard,
}

pub open spec fn cancelled_msi_message() -> Seq<char> {
    "用户取消了 MSI 安装向导"@
}

/// After `msiexec /qn`: done on success, cancelled on exit code 1602, else
/// the wizard is opened.
pub fn after_silent_msi(success: bool, code: Option<i32>) -> (r: MsiNext)
    ensures
        success ==> r == MsiNext::Done(r->Done_0) && r->Done_0@ == "MSI 静默安装已完成"@,
        !success && code == Some(1602i32) ==> r == MsiNext::Cancelled(r->Cancelled_0) && r->Cancelled_0@
            == cancelled_msi_message(),
        !success && code != Some(1602i32) ==> r == MsiNext::OpenWizard,
{
    if success {
        MsiNext::Done(owned("MSI 静默安装已完成"))
    } else if code == Some(1602i32) {
        MsiNext::Cancelled(owned("用户取消了 MSI 安装向导"))
    } else {
        MsiNext::OpenWizard
    }
}

/// The exit code, or -1 when there is none.
pub open spec fn code_or_minus_one(code: Option<i32>) -> i64 {
    match code {
        Some(c) => c as i64,
        None => -1i64,
    }
}

/// The outcome of the MSI wizard.
pub open spec fn msi_wizard_outcome(success: bool, code: Option<i32>) -> Result<Seq<char>, Seq<char>> {
    if success {
        Ok("MSI 安装已完成"@)
    } else if code_or_minus_one(code) == 1602 {
        Err(cancelled_msi_message())
    } else {
        Err("MSI 安装未能成功完成 (退出代码: "@ + i64_text(code_or_minus_one(code)) + ")"@)
    }
}

pub open spec fn result_view(r: Result<String, String>) -> Result<Seq<char>, Seq<char>> {
    match r {
        Ok(s) => Ok(s@),
        Err(e) => Err(e@),
    }
}

fn code_value(code: Option<i32>) -> (r: i64)
    ensures
        r == code_or_minus_one(code),
{
    match code {
        Some(c) => c as i64,
        None => -1,
    }
}

fn with_code(prefix: &str, code: i64) -> (r: String)
    ensures
        r@ == prefix@ + i64_text(code) + ")"@,
{
    let c = i64_to_string(code);
    string_of(&concat(&concat(&chars_of(prefix), &chars_of(c.as_str())), &chars_of(")")))
}

pub fn msi_wizard_result(success: bool, code: Option<i32>) -> (r: Result<String, String>)
    ensures
        result_view(r) == msi_wizard_outcome(success, code),
{
    if success {
        return Ok(owned("MSI 安装已完成"));
    }
    let c = code_value(code);
    if c == 1602 {
        Err(owned("用户取消了 MSI 安装向导"))
    } else {
        Err(with_code("MSI 安装未能成功完成 (退出代码: ", c))
    }
}

/// The outcome of a setup program: exit codes 1602, 1 and 2 mean the user
/// cancelled.
pub open spec fn setup_exe_outcome(success: bool, code: Option<i32>) -> Result<Seq<char>, Seq<char>> {
    let c = code_or_minus_one(code);
    if success {
        Ok("安装程序已完成"@)
    } else if c == 1602 || c == 1 || c == 2 {
        Err("用户取消了安装向导或安装已中止 (退出代码: "@ + i64_text(c) + ")"@)
    } else {
        Err("安装程序未能成功完成 (退出代码: "@ + i64_text(c) + ")"@)
    }
}

pub fn setup_exe_result(success: bool, code: Option<i32>) -> (r: Result<String, String>)
    ensures
        result_view(r) == setup_exe_outcome(success, code),
{
    if success {
        return Ok(owned("安装程序已完成"));
    }
    let c = code_value(code);
    if c == 1602 || c == 1 || c == 2 {
        Err(with_code("用户取消了安装向导或安装已中止 (退出代码: ", c))
    } else {
        Err(with_code("安装程序未能成功完成 (退出代码: ", c))
    }
}

/// The outcome of a package installed through the system tools.
pub open spec fn package_outcome(kind: AssetKind, success: bool) -> Result<Seq<char>, Seq<char>> {
    match kind {
        AssetKind::Pkg => if success {
            Ok("macOS PKG 安装已完成"@)
        } else {
            Err("macOS PKG 安装向导未完成或被取消"@)
        },
        AssetKind::AppImage => if success {
            Ok("已赋予可执行权限并启动 AppImage"@)
        } else {
            Err("AppImage 执行未正常退出"@)
        },
        AssetKind::Deb => if success {
            Ok("deb 包安装已完成"@)
        } else {
            Err("deb 包提权安装未完成或被取消"@)
        },
        AssetKind::Rpm => if success {
            Ok("rpm 包安装已完成"@)
        } else {
            Err("rpm 包提权安装未完成或被取消"@)
        },
        _ => if success {
            Ok("系统默认程序已处理完成"@)
        } else {
            Err("处理未正常完成"@)
        },
    }
}

pub fn package_result(kind: AssetKind, success: bool) -> (r: Result<String, String>)
    ensures
        result_view(r) == package_outcome(kind, success),
{
    match kind {
        AssetKind::Pkg => if success {
            Ok(owned("macOS PKG 安装已完成"))
        } else {
            Err(owned("macOS PKG 安装向导未完成或被取消"))
        },
        AssetKind::AppImage => if success {
            Ok(owned("已赋予可执行权限并启动 AppImage"))
        } else {
            Err(owned("AppImage 执行未正常退出"))
        },
        AssetKind::Deb => if success {
            Ok(owned("deb 包安装已完成"))
        } else {
            Err(owned("deb 包提权安装未完成或被取消"))
        },
        AssetKind::Rpm => if success {
            Ok(owned("rpm 包安装已完成"))
        } else {
            Err(owned("rpm 包提权安装未完成或被取消"))
        },
        _ => if success {
            Ok(owned("系统默认程序已处理完成"))
        } else {
            Err(owned("处理未正常完成"))
        },
    }
}

/// A path that points into a download or temporary directory, or at an
/// installer, is not launched.
pub open spec fn is_installer_path(path: Seq<char>) -> bool {
    let l = lowercase(path);
    has_substring(l, "zstore_downloads"@) || has_substring(l, "\\temp\\"@) || has_substring(l, "/temp/"@)
        || is_suffix("-setup.exe"@, l) || is_suffix("_setup.exe"@, l) || is_suffix("-installer.exe"@, l)
        || is_suffix(".msi"@, l) || is_suffix(".dmg"@, l) || is_suffix(".deb"@, l) || is_suffix(".rpm"@, l)
}

pub fn is_temp_installer_path(path: &str) -> (r: bool)
    ensures
        r == is_installer_path(path@),
{
    let l = lowercase_chars(&chars_of(path));
    contains_str(&l, &chars_of("zstore_downloads")) || contains_str(&l, &chars_of("\\temp\\")) || contains_str(
        &l,
        &chars_of("/temp/"),
    ) || ends_with(&l, &chars_of("-setup.exe")) || ends_with(&l, &chars_of("_setup.exe")) || ends_with(
        &l,
        &chars_of("-installer.exe"),
    ) || ends_with(&l, &chars_of(".msi")) || ends_with(&l, &chars_of(".dmg")) || ends_with(&l, &chars_of(".deb"))
        || ends_with(&l, &chars_of(".rpm"))
}

/// A recorded install path without surrounding white space and quotes.
pub fn clean_install_path(path: &str) -> (r: String)
    ensures
        r@ == strip_trailing(strip_leading(trim(path@), '"'), '"'),
{
    let t = trim_chars(&chars_of(path));
    let a = crate::text::strip_leading_chars(&t, '"');
    string_of(&strip_trailing_chars(&a, '"'))
}

fn strip_trailing_chars(v: &[char], c: char) -> (r: Vec<char>)
    ensures
        r@ == strip_trailing(v@, c),
{
    let mut n: usize = v.len();
    assert(v@.take(n as int) =~= v@);
    while n > 0 && v[n - 1] == c
        invariant
            n <= v.len(),
            strip_trailing(v@, c) == strip_trailing(v@.take(n as int), c),
        decreases n,
    {
        assert(v@.take(n as int).drop_last() =~= v@.take(n - 1));
        n = n - 1;
    }
    assert(v@.take(0) =~= Seq::<char>::empty());
    let r = crate::text::slice_chars(v, 0, n);
    assert(r@ =~= v@.take(n as int));
    r
}

/// The error when no executable of an application can be found.
pub fn launch_failure_message(recorded_path: &str) -> (r: String)
    ensures
        r@ == "未能定位到该软件的可执行程序。\n记录路径: "@ + (if recorded_path@.len() == 0 {
            "无"@
        } else {
            recorded_path@
        }) + "\n建议检查软件是否已被重命名或迁移，或重新纳管。"@,
{
    let rp = chars_of(recorded_path);
    let p = if rp.len() == 0 {
        chars_of("无")
    } else {
        rp
    };
    string_of(
        &concat(
            &concat(&chars_of("未能定位到该软件的可执行程序。\n记录路径: "), &p),
            &chars_of("\n建议检查软件是否已被重命名或迁移，或重新纳管。"),
        ),
    )
}

/// Directories never removed when a portable application is uninstalled.
pub open spec fn is_protected_dir(dir: Seq<char>) -> bool {
    let l = lowercase(dir);
    is_suffix("program files"@, l) || is_suffix("windows"@, l) || is_suffix("users"@, l) || is_suffix("desktop"@, l)
}

pub fn is_protected_directory(dir: &str) -> (r: bool)
    ensures
        r == is_protected_dir(dir@),
{
    let l = lowercase_chars(&chars_of(dir));
    ends_with(&l, &chars_of("program files")) || ends_with(&l, &chars_of("windows")) || ends_with(&l, &chars_of("users"))
        || ends_with(&l, &chars_of("desktop"))
}

impl crate::installer::InstallerEngine {
    /// The SHA-256 of a file's contents, in lower-case hexadecimal.
    pub fn compute_sha256(contents: &[u8]) -> (r: String)
        ensures
            r@ == crate::digest::hex_lower(crate::digest::sha256_digest(contents@)),
            r@.len() == 64,
    {
        let d = crate::digest::sha256(contents);
        proof {
            crate::digest::lemma_hex_lower_len(d@);
        }
        crate::digest::hex_encode(&d)
    }
}

/// The volume a disk image was mounted at: the first line of `hdiutil
/// attach` whose last tab-separated field, trimmed, is under `/Volumes/`.
pub open spec fn mount_point_of(output: Seq<char>) -> Option<Seq<char>> {
    first_volume(crate::markdown::lines_of(output))
}

pub open spec fn last_field(line: Seq<char>) -> Seq<char> {
    trim(split(line, seq!['\t']).last())
}

pub open spec fn first_volume(lines: Seq<Seq<char>>) -> Option<Seq<char>>
    decreases lines.len(),
{
    if lines.len() == 0 {
        None
    } else if crate::text::is_prefix("/Volumes/"@, last_field(lines[0])) {
        Some(last_field(lines[0]))
    } else {
        first_volume(lines.drop_first())
    }
}

fn lines_exec(text: &[char]) -> (r: Vec<Vec<char>>)
    ensures
        seqs_of(r@) == crate::markdown::lines_of(text@),
{
    let seps = vec!['\n'];
    assert(seps@ =~= seq!['\n']);
    let pieces = split_chars(text, &seps);
    let ghost ps = seqs_of(pieces@);
    proof {
        crate::text::lemma_split_len(text@, seq!['\n']);
    }
    let n = pieces.len();
    let mut out: Vec<Vec<char>> = Vec::new();
    let mut i: usize = 0;
    while i + 1 < n
        invariant
            n == pieces@.len(),
            n >= 1,
            i + 1 <= n,
            ps == seqs_of(pieces@),
            ps == split(text@, seq!['\n']),
            out@.len() == i,
            forall|j: int| 0 <= j < i ==> (#[trigger] out@[j])@ == crate::markdown::strip_cr(ps[j]),
        decreases n - i,
    {
        assert(ps[i as int] == pieces@[i as int]@);
        let l = &pieces[i];
        let line = if l.len() > 0 && l[l.len() - 1] == '\r' {
            crate::text::slice_chars(l, 0, l.len() - 1)
        } else {
            crate::text::slice_chars(l, 0, l.len())
        };
        assert(line@ =~= crate::markdown::strip_cr(ps[i as int]));
        out.push(line);
        i = i + 1;
    }
    let ghost body = ps.drop_last().map_values(crate::markdown::strip_cr_fn());
    assert(seqs_of(out@) =~= body) by {
        assert forall|j: int| 0 <= j < body.len() implies seqs_of(out@)[j] == body[j] by {
            assert(ps.drop_last()[j] == ps[j]);
        }
    }
    assert(ps.last() == pieces@[n - 1]@);
    if pieces[n - 1].len() > 0 {
        let last = crate::text::slice_chars(&pieces[n - 1], 0, pieces[n - 1].len());
        assert(last@ =~= pieces@[n - 1]@);
        let ghost before = seqs_of(out@);
        out.push(last);
        assert(seqs_of(out@) =~= before.push(ps.last()));
        assert(crate::markdown::lines_of(text@) == body.push(ps.last()));
        assert(seqs_of(out@) =~= crate::markdown::lines_of(text@));
    } else {
        assert(seqs_of(out@) =~= crate::markdown::lines_of(text@));
    }
    out
}

/// Finds the volume a disk image was mounted at in the output of `hdiutil attach`.
pub fn dmg_mount_point(output: &str) -> (r: Option<String>)
    ensures
        opt_str_view(r) == mount_point_of(output@),
{
    let lines = lines_exec(&chars_of(output));
    let ghost ls = seqs_of(lines@);
    let tab = vec!['\t'];
    assert(tab@ =~= seq!['\t']);
    let mut i: usize = 0;
    assert(ls.skip(0) =~= ls);
    while i < lines.len()
        invariant
            i <= lines@.len(),
            ls == seqs_of(lines@),
            ls == crate::markdown::lines_of(output@),
            tab@ == seq!['\t'],
            first_volume(ls) == first_volume(ls.skip(i as int)),
        decreases lines@.len() - i,
    {
        assert(ls.skip(i as int)[0] == ls[i as int]);
        assert(ls.skip(i as int).drop_first() =~= ls.skip(i + 1));
        assert(ls[i as int] == lines@[i as int]@);
        let fields = split_chars(&lines[i], &tab);
        proof {
            crate::text::lemma_split_len(lines@[i as int]@, seq!['\t']);
        }
        let last = trim_chars(&fields[fields.len() - 1]);
        assert(seqs_of(fields@).last() == fields@[fields@.len() - 1]@);
        if starts_with(&last, &chars_of("/Volumes/")) {
            return Some(string_of(&last));
        }
        i = i + 1;
    }
    None
}

/// Characters a Windows file name cannot hold.
pub open spec fn bad_in_file_name(c: char) -> bool {
    c == '\\' || c == '/' || c == ':' || c == '*' || c == '?' || c == '"' || c == '<' || c == '>' || c == '|'
}

/// The name of a desktop shortcut: the application's name without the
/// characters Windows refuses, trimmed; `App` when nothing is left.
pub open spec fn shortcut_name_of(app_name: Seq<char>) -> Seq<char> {
    let t = trim(crate::text::filter_chars(app_name, |c: char| !bad_in_file_name(c)));
    if t.len() == 0 {
        "App"@
    } else {
        t
    }
}

pub fn shortcut_name(app_name: &str) -> (r: String)
    ensures
        r@ == shortcut_name_of(app_name@),
{
    let v = chars_of(app_name);
    let mut kept: Vec<char> = Vec::new();
    let mut i: usize = 0;
    while i < v.len()
        invariant
            i <= v.len(),
            kept@ == crate::text::filter_chars(v@.take(i as int), |c: char| !bad_in_file_name(c)),
        decreases v.len() - i,
    {
        assert(v@.take(i + 1).drop_last() =~= v@.take(i as int));
        assert(v@.take(i + 1).last() == v@[i as int]);
        let c = v[i];
        if !(c == '\\' || c == '/' || c == ':' || c == '*' || c == '?' || c == '"' || c == '<' || c == '>' || c == '|') {
            kept.push(c);
        }
        i = i + 1;
    }
    assert(v@.take(i as int) =~= v@);
    let t = trim_chars(&kept);
    if t.len() == 0 {
        owned("App")
    } else {
        string_of(&t)
    }
}

} // verus!
