use zstore::digest::Sha256Stream;
use zstore::install::{download_verdict, extension, first_executable};
use zstore::install::{
    after_silent_msi, check_download_hash, choose_install_asset, clean_install_path, dmg_mount_point,
    download_dir_setting, download_file_name, file_name, is_protected_directory, is_temp_installer_path,
    is_windows_binary, launch_failure_message, mirror_retry_url, msi_wizard_result, package_result,
    portable_dir_setting, retry_failure_message, setup_exe_result, shortcut_name, should_report_progress,
    HashVerdict, MsiNext,
};
use zstore::installer::{AssetKind, InstallerEngine};
use zstore::models::ReleaseAsset;

#[test]
fn path_file_names() {
    assert_eq!(file_name("a/b/c.zip").as_deref(), Some("c.zip"));
    assert_eq!(file_name("c.zip/").as_deref(), Some("c.zip"));
    assert_eq!(file_name("dir/./").as_deref(), Some("dir"));
    assert_eq!(file_name("a/.."), None);
    assert_eq!(file_name("/"), None);
    assert_eq!(file_name(""), None);
}

#[test]
fn download_names() {
    assert_eq!(download_file_name("vlc", "vlc-3.0.exe"), "vlc-3.0.exe");
    assert_eq!(download_file_name("obs", "Setup.exe"), "obs_Setup.exe");
    assert_eq!(download_file_name("a/b c", "x.msi"), "abc_x.msi");
    assert_eq!(download_file_name("", "../"), "package.bin");
    assert_eq!(download_file_name("VLC", "vlc.zip"), "vlc.zip");
}

#[test]
fn hash_verdicts() {
    let h = "ab".repeat(32);
    match check_download_hash(Some(&format!("  {}  ", h.to_uppercase())), &h) {
        HashVerdict::Verified(m) => assert_eq!(m, format!("已通过官方 SHA-256 完整性校验: {}", h)),
        other => panic!("unexpected {:?}", other),
    }
    match check_download_hash(Some("  "), &h) {
        HashVerdict::Unverified(m) => assert!(m.ends_with(&h)),
        other => panic!("unexpected {:?}", other),
    }
    match check_download_hash(Some("ff"), &h) {
        HashVerdict::Tampered(progress, err) => {
            assert_eq!(progress, format!("哈希不符！期望: ff, 实际: {}", h));
            assert!(err.starts_with("安全拦截：SHA-256 完整性校验不符！官方校验值: ff"));
        }
        other => panic!("unexpected {:?}", other),
    }
    assert!(matches!(check_download_hash(None, &h), HashVerdict::Unverified(_)));
    assert_eq!(InstallerEngine::compute_sha256(b"abc"), "ba7816bf8f01cfea414140de5dae2223b00361a396177a9cb410ff61f20015ad");
}

#[test]
fn settings_for_directories() {
    assert_eq!(download_dir_setting(Some(" /data/dl ")).as_deref(), Some("/data/dl"));
    assert_eq!(download_dir_setting(Some("/x/zstore_downloads")), None);
    assert_eq!(download_dir_setting(Some("  ")), None);
    assert_eq!(portable_dir_setting(Some("/x/zstore_downloads")).as_deref(), Some("/x/zstore_downloads"));
    assert!(should_report_progress(250, 0, 10));
    assert!(should_report_progress(10, 10, 10));
    assert!(!should_report_progress(10, 0, 0));
}

fn asset(name: &str, os: &str, arch: &str, kind: &str) -> ReleaseAsset {
    ReleaseAsset {
        name: name.to_string(),
        download_url: format!("https://github.com/o/r/releases/download/v1/{}", name),
        size_bytes: 1,
        sha256: None,
        os: os.to_string(),
        arch: arch.to_string(),
        kind: kind.to_string(),
    }
}

#[test]
fn asset_choice_and_mirror_retry() {
    let assets = vec![asset("a.msi", "windows", "x86_64", "msi"), asset("a.AppImage", "linux", "x86_64", "appimage")];
    assert_eq!(choose_install_asset(&assets, Some("a.msi"), "linux", "x86_64"), Ok(0));
    assert_eq!(choose_install_asset(&assets, Some("nope"), "linux", "x86_64"), Ok(1));
    assert_eq!(choose_install_asset(&assets, None, "windows", "x86_64"), Ok(0));
    assert_eq!(choose_install_asset(&[], None, "windows", "x86_64"), Err("该 Release 未提供匹配当前操作系统的安装包资产".to_string()));
    let u = "https://github.com/o/r/releases/download/v1/a.msi";
    assert_eq!(mirror_retry_url(u, u), Some(format!("https://gh-proxy.com/{}", u)));
    assert_eq!(mirror_retry_url(u, "https://mirror/x"), None);
    assert_eq!(retry_failure_message("a", "b"), "下载失败（直连: a；镜像重试: b）");
    assert!(is_windows_binary("Setup.EXE"));
    assert!(!is_windows_binary("a.zip"));
}

#[test]
fn installer_outcomes() {
    assert_eq!(after_silent_msi(true, Some(0)), MsiNext::Done("MSI 静默安装已完成".to_string()));
    assert_eq!(after_silent_msi(false, Some(1602)), MsiNext::Cancelled("用户取消了 MSI 安装向导".to_string()));
    assert_eq!(after_silent_msi(false, Some(1603)), MsiNext::OpenWizard);
    assert_eq!(msi_wizard_result(false, Some(1603)), Err("MSI 安装未能成功完成 (退出代码: 1603)".to_string()));
    assert_eq!(msi_wizard_result(false, None), Err("MSI 安装未能成功完成 (退出代码: -1)".to_string()));
    assert_eq!(setup_exe_result(false, Some(2)), Err("用户取消了安装向导或安装已中止 (退出代码: 2)".to_string()));
    assert_eq!(setup_exe_result(true, Some(0)), Ok("安装程序已完成".to_string()));
    assert_eq!(package_result(AssetKind::Deb, true), Ok("deb 包安装已完成".to_string()));
    assert_eq!(package_result(AssetKind::Rpm, false), Err("rpm 包提权安装未完成或被取消".to_string()));
    assert_eq!(package_result(AssetKind::Other, true), Ok("系统默认程序已处理完成".to_string()));
}

#[test]
fn launching_and_removing() {
    assert!(is_temp_installer_path("/home/u/Downloads/zstore_downloads/x"));
    assert!(is_temp_installer_path("/tmp/App-Setup.exe"));
    assert!(!is_temp_installer_path("/usr/bin/vlc"));
    assert_eq!(clean_install_path("  \"C:\\\\Apps\\\\x.exe\" "), "C:\\\\Apps\\\\x.exe");
    assert_eq!(launch_failure_message(""), "未能定位到该软件的可执行程序。\n记录路径: 无\n建议检查软件是否已被重命名或迁移，或重新纳管。");
    assert!(is_protected_directory("C:\\Program Files"));
    assert!(!is_protected_directory("/opt/apps/vlc"));
    assert_eq!(shortcut_name(" a:b*? "), "ab");
    assert_eq!(shortcut_name("<>"), "App");
}

#[test]
fn disk_image_mount_points() {
    let out = "/dev/disk4\tGUID_partition_scheme\t\n/dev/disk4s1\tApple_HFS\t/Volumes/VLC media player\n";
    assert_eq!(dmg_mount_point(out).as_deref(), Some("/Volumes/VLC media player"));
    assert_eq!(dmg_mount_point("nothing here\n"), None);
}

#[test]
fn test_hash_calculation() {
    let hash = InstallerEngine::compute_sha256(b"hello z-store real download test");
    assert_eq!(hash.len(), 64);
}

#[test]
fn portable_program_is_first_exe_file() {
    assert_eq!(extension("dir/app.exe").as_deref(), Some("exe"));
    assert_eq!(extension("dir/.exe"), None);
    assert_eq!(extension("dir/archive.tar.gz").as_deref(), Some("gz"));
    assert_eq!(extension("dir/noext"), None);
    assert_eq!(extension("a."), Some(String::new()));
    let entries = vec![
        ("tool/".to_string(), true),
        ("tool/readme.txt".to_string(), false),
        ("tool/BIG.EXE".to_string(), false),
        ("tool/app.exe".to_string(), false),
        ("tool/helper.exe".to_string(), false),
    ];
    assert_eq!(first_executable(&entries), Some(3));
    assert_eq!(first_executable(&vec![("x.exe/".to_string(), true)]), None);
}

const ABC_SHA256: &str = "ba7816bf8f01cfea414140de5dae2223b00361a396177a9cb410ff61f20015ad";

fn stream_of(chunks: &[&[u8]]) -> Sha256Stream {
    let mut s = Sha256Stream::new();
    for c in chunks {
        s.feed(c);
    }
    s
}

#[test]
fn streamed_digest_covers_every_chunk() {
    assert_eq!(stream_of(&[b"a", b"", b"bc"]).hex_digest(), ABC_SHA256);
    assert_eq!(stream_of(&[b"abc"]).hex_digest(), InstallerEngine::compute_sha256(b"abc"));
    assert_eq!(
        stream_of(&[]).hex_digest(),
        "e3b0c44298fc1c149afbf4c8996fb92427ae41e4649b934ca495991b7852b855"
    );
}

#[test]
fn download_verdicts_judge_the_streamed_digest() {
    let upper = ABC_SHA256.to_uppercase();
    let (hex, verdict) = download_verdict(stream_of(&[b"ab", b"c"]), Some(&format!("  {} ", upper)));
    assert_eq!(hex, ABC_SHA256);
    assert!(matches!(verdict, HashVerdict::Verified(_)));

    let (_, tampered) = download_verdict(stream_of(&[b"abd"]), Some(ABC_SHA256));
    assert!(matches!(tampered, HashVerdict::Tampered(_, _)));

    let (_, unverified) = download_verdict(stream_of(&[b"abc"]), None);
    assert!(matches!(unverified, HashVerdict::Unverified(_)));
}
