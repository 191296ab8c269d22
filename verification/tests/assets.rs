use zstore::installer::{select_best_asset, AssetKind, InstallerEngine};
use zstore::models::ReleaseAsset;

fn asset(name: &str, url: &str, os: &str, arch: &str, kind: &str) -> ReleaseAsset {
    ReleaseAsset {
        name: name.to_string(),
        download_url: url.to_string(),
        size_bytes: 1000,
        sha256: None,
        os: os.to_string(),
        arch: arch.to_string(),
        kind: kind.to_string(),
    }
}

fn three_assets() -> Vec<ReleaseAsset> {
    vec![
        asset("app-macos.dmg", "http://example.com/dmg", "macos", "universal", "dmg"),
        asset("app-setup.exe", "http://example.com/exe", "windows", "x86_64", "setup_exe"),
        asset("app-linux.AppImage", "http://example.com/appimage", "linux", "x86_64", "appimage"),
    ]
}

fn best_asset_cases() {
    let assets = three_assets();
    let selected = select_best_asset(&assets, "linux", "x86_64").unwrap();
    assert_eq!(selected.os, "linux");
    let selected = select_best_asset(&assets, "windows", "x86_64").unwrap();
    assert_eq!(selected.os, "windows");
    let selected = select_best_asset(&assets, "macos", "aarch64").unwrap();
    assert_eq!(selected.os, "macos");
}

#[test]
fn commands_test_select_best_asset() {
    best_asset_cases();
}

#[test]
fn tests_test_select_best_asset() {
    best_asset_cases();
}

fn arch_priority_cases() {
    let assets = vec![
        asset("rustdesk-1.4.9-aarch64.exe", "http://example.com/aarch64", "windows", "aarch64", "setup_exe"),
        asset("rustdesk-1.4.9-x86_64.msi", "http://example.com/x86_64", "windows", "x86_64", "msi"),
    ];
    let selected = select_best_asset(&assets, "windows", "x86_64").unwrap();
    assert_eq!(selected.name, "rustdesk-1.4.9-x86_64.msi");
}

#[test]
fn commands_test_select_best_asset_arch_priority() {
    arch_priority_cases();
}

#[test]
fn tests_test_select_best_asset_arch_priority() {
    arch_priority_cases();
}

#[test]
fn any_asset_when_none_is_for_this_system() {
    let assets = vec![asset("app.dmg", "u", "macos", "universal", "dmg")];
    assert_eq!(select_best_asset(&assets, "linux", "x86_64").unwrap().name, "app.dmg");
    assert_eq!(InstallerEngine::select_best_asset(&assets, "linux", "x86_64").unwrap().name, "app.dmg");
    let none: Vec<ReleaseAsset> = Vec::new();
    assert!(select_best_asset(&none, "linux", "x86_64").is_none());
}

#[test]
fn test_classify_asset() {
    assert_eq!(InstallerEngine::classify_asset("vlc-3.0.21-win64.msi").0, AssetKind::Msi);
    assert_eq!(InstallerEngine::classify_asset("RustDesk-1.2.6-Setup.exe").0, AssetKind::SetupExe);
    assert_eq!(InstallerEngine::classify_asset("app-portable.zip").0, AssetKind::PortableZip);
    assert_eq!(InstallerEngine::classify_asset("obs-studio_30.1.2_amd64.deb").0, AssetKind::Deb);
    assert_eq!(InstallerEngine::classify_asset("LocalSend-1.15.2.AppImage").0, AssetKind::AppImage);
    assert_eq!(InstallerEngine::classify_asset("KeePassXC-2.7.9.dmg").0, AssetKind::Dmg);
    assert_eq!(InstallerEngine::classify_asset("Wireshark-4.2.4.pkg").0, AssetKind::Pkg);
    assert_eq!(InstallerEngine::classify_asset("rustdesk-1.2.6.rpm").0, AssetKind::Rpm);
}

#[test]
fn classify_reports_system_and_architecture() {
    let (kind, os, arch) = InstallerEngine::classify_asset("obs-studio_30.1.2_amd64.deb");
    assert_eq!(kind, AssetKind::Deb);
    assert_eq!(os, "linux");
    assert_eq!(arch, "x86_64");
    assert_eq!(AssetKind::Deb.as_str(), "deb");
}

#[test]
fn test_build_unix_install_commands() {
    let cmds = InstallerEngine::build_unix_install_commands(&AssetKind::Dmg, "/tmp/test-installer.dmg");
    assert_eq!(cmds[0][0], "hdiutil");
    assert_eq!(cmds[0][1], "attach");

    let pkg_cmds = InstallerEngine::build_unix_install_commands(&AssetKind::Pkg, "/tmp/app.pkg");
    assert_eq!(pkg_cmds[0][0], "installer");

    let ai_cmds = InstallerEngine::build_unix_install_commands(&AssetKind::AppImage, "/home/user/app.AppImage");
    assert_eq!(ai_cmds[0][0], "chmod");

    let deb_cmds = InstallerEngine::build_unix_install_commands(&AssetKind::Deb, "/tmp/pkg.deb");
    assert_eq!(deb_cmds[0][0], "pkexec");
    assert_eq!(deb_cmds[0][1], "dpkg");

    let rpm_cmds = InstallerEngine::build_unix_install_commands(&AssetKind::Rpm, "/tmp/pkg.rpm");
    assert_eq!(rpm_cmds[0][0], "pkexec");
    assert_eq!(rpm_cmds[0][1], "rpm");
}

#[test]
fn classification_ignores_case() {
    for name in ["VLC-3.0.21-WIN64.MSI", "App-Portable-x64.ZIP", "Tool_ARM64.AppImage", "Game.APK", "x.tar.gz"] {
        assert_eq!(InstallerEngine::classify_asset(name), InstallerEngine::classify_asset(&name.to_lowercase()));
    }
    let (kind, os, arch) = InstallerEngine::classify_asset("Game.APK");
    assert_eq!((kind, os, arch), (AssetKind::Apk, "android", "arm64-v8a"));
}
