use oim::{
    Architecture, ArchiveFormat, GitHubAsset, GitHubRelease, InstallError, InstallationConfig,
    InstallationManager, State, StateProgress, UpdateAction, UpdateEvent, UpdateStage, Version,
};

fn release(tag: &str, prerelease: bool, asset_names: &[&str]) -> GitHubRelease {
    GitHubRelease {
        tag_name: tag.to_string(),
        name: format!("Release {}", tag),
        prerelease,
        assets: asset_names
            .iter()
            .map(|n| GitHubAsset {
                name: n.to_string(),
                browser_download_url: format!("https://example.com/{}", n),
                size: 1024,
            })
            .collect(),
    }
}

#[test]
fn test_architecture_detect() {
    let arch = Architecture::detect("linux", "x86_64");
    assert!(arch.is_ok());
}

#[test]
fn test_architecture_detect_all_pairs() {
    assert_eq!(
        Architecture::detect("windows", "x86_64").unwrap(),
        Architecture::WindowsX64
    );
    assert_eq!(
        Architecture::detect("windows", "aarch64").unwrap(),
        Architecture::WindowsArm64
    );
    assert_eq!(
        Architecture::detect("linux", "x86_64").unwrap(),
        Architecture::LinuxX64
    );
    assert_eq!(
        Architecture::detect("linux", "aarch64").unwrap(),
        Architecture::LinuxArm64
    );
    assert_eq!(
        Architecture::detect("macos", "x86_64").unwrap(),
        Architecture::MacOSX64
    );
    assert_eq!(
        Architecture::detect("macos", "aarch64").unwrap(),
        Architecture::MacOSArm64
    );
    assert!(matches!(
        Architecture::detect("plan9", "vax"),
        Err(InstallError::UnsupportedPlatform)
    ));
}

#[test]
fn test_architecture_patterns() {
    let arch = Architecture::WindowsX64;
    let patterns = arch.asset_patterns();
    assert!(patterns.contains(&"windows"));
    assert!(patterns.contains(&"x64"));
}

#[test]
fn test_architecture_is_windows() {
    assert!(Architecture::WindowsX64.is_windows());
    assert!(Architecture::WindowsArm64.is_windows());
    assert!(!Architecture::LinuxX64.is_windows());
    assert!(!Architecture::MacOSArm64.is_windows());
}

#[test]
fn test_config_builder() {
    let config = InstallationConfig::new(
        "/opt/myapp".to_string(),
        "owner/repo".to_string(),
        "myapp".to_string(),
    )
    .service_display_name("My Application".to_string())
    .service_description("A test application".to_string())
    .binary_name("myapp-bin".to_string());

    assert_eq!(config.get_display_name(), "My Application");
    assert_eq!(config.get_description(), "A test application");
    assert_eq!(config.binary_name, Some("myapp-bin".to_string()));
}

#[test]
fn test_config_defaults() {
    let config = InstallationConfig::new(
        "/opt/myapp".to_string(),
        "owner/repo".to_string(),
        "myapp".to_string(),
    );

    assert_eq!(config.get_display_name(), "myapp");
    assert_eq!(config.get_description(), "myapp Service");
    assert_eq!(config.get_working_directory(), &"/opt/myapp".to_string());
}

#[test]
fn test_config_marker_defaults() {
    let config = InstallationConfig::new(
        "/opt/myapp".to_string(),
        "owner/repo".to_string(),
        "myapp".to_string(),
    );
    assert_eq!(
        config.get_registry_path(),
        "SOFTWARE\\ObsidianInstallationManager"
    );
    assert_eq!(config.get_version_file_dir(), "/var/lib/oim");

    let config = config
        .registry_path("SOFTWARE\\Custom".to_string())
        .version_file_dir("/tmp/markers".to_string())
        .working_directory("/srv/run".to_string());
    assert_eq!(config.get_registry_path(), "SOFTWARE\\Custom");
    assert_eq!(config.get_version_file_dir(), "/tmp/markers");
    assert_eq!(config.get_working_directory(), &"/srv/run".to_string());
}

#[test]
fn test_installation_manager_creation() {
    let config = InstallationConfig::new(
        "/opt/myapp".to_string(),
        "owner/repo".to_string(),
        "myapp".to_string(),
    );

    let manager = InstallationManager::new(config);
    assert!(!manager.is_installed());
    assert!(manager.current_version().is_none());
    assert!(manager.latest_version().is_none());
}

#[test]
fn test_installation_manager_with_defaults() {
    let manager = InstallationManager::with_defaults(
        "/opt/myapp".to_string(),
        "owner/repo".to_string(),
        "myapp".to_string(),
    );

    assert_eq!(manager.config().service_name, "myapp");
    assert_eq!(manager.config().github_repo, "owner/repo");
}

#[test]
fn test_select_asset() {
    let config = InstallationConfig::new(
        "/opt/myapp".to_string(),
        "owner/repo".to_string(),
        "myapp".to_string(),
    );

    let manager = InstallationManager::new(config);

    let release = release(
        "v1.0.0",
        false,
        &["myapp-windows-x64.zip", "myapp-linux-x64.tar.gz"],
    );

    let result = manager.select_asset(&release, &Architecture::WindowsX64);
    assert!(result.is_ok());
    let asset = result.unwrap();
    assert!(asset.name.contains("windows"));

    let result = manager.select_asset(&release, &Architecture::LinuxX64);
    assert!(result.is_ok());
    let asset = result.unwrap();
    assert!(asset.name.contains("linux"));
}

#[test]
fn test_select_asset_order_stable() {
    let manager = InstallationManager::with_defaults(
        "/opt/myapp".to_string(),
        "owner/repo".to_string(),
        "myapp".to_string(),
    );
    let release = release(
        "v1.0.0",
        false,
        &["app-windows-x64.zip", "app-linux-arm64.tar.gz"],
    );
    let asset = manager
        .select_asset(&release, &Architecture::WindowsX64)
        .unwrap();
    assert_eq!(asset.name, "app-windows-x64.zip");
}

#[test]
fn test_select_asset_no_match() {
    let manager = InstallationManager::with_defaults(
        "/opt/myapp".to_string(),
        "owner/repo".to_string(),
        "myapp".to_string(),
    );
    let release = release("v1.0.0", false, &["app-macos-arm64.zip"]);
    let result = manager.select_asset(&release, &Architecture::WindowsX64);
    assert!(matches!(result, Err(InstallError::NoMatchingAsset)));
}

#[test]
fn test_select_asset_case_insensitive() {
    let manager = InstallationManager::with_defaults(
        "/opt/myapp".to_string(),
        "owner/repo".to_string(),
        "myapp".to_string(),
    );
    let release = release("v1.0.0", false, &["App-Windows-X64.zip"]);
    let asset = manager
        .select_asset(&release, &Architecture::WindowsX64)
        .unwrap();
    assert_eq!(asset.name, "App-Windows-X64.zip");
}

#[test]
fn test_select_asset_single_match_fallback() {
    let manager = InstallationManager::with_defaults(
        "/opt/myapp".to_string(),
        "owner/repo".to_string(),
        "myapp".to_string(),
    );
    let release = release("v1.0.0", false, &["tool-portable.zip", "tool-windows.zip"]);
    let asset = manager
        .select_asset(&release, &Architecture::WindowsX64)
        .unwrap();
    assert_eq!(asset.name, "tool-windows.zip");
}

#[test]
fn test_progress_clamps() {
    let low = StateProgress::new(State::Downloading, -5000);
    assert_eq!(low.progress, 0);
    let high = StateProgress::new(State::Extracting, 1_000_000);
    assert_eq!(high.progress, 1000);
    let mid = StateProgress::new(State::Installing, 500);
    assert_eq!(mid.progress, 500);
    assert_eq!(mid.state, State::Installing);
}

#[test]
fn test_progress_fraction() {
    assert_eq!(oim::progress_fraction(512, 1024), 500);
    assert_eq!(oim::progress_fraction(0, 10), 0);
    assert_eq!(oim::progress_fraction(10, 10), 1000);
    assert_eq!(oim::progress_fraction(2048, 1024), 1000);
}

#[test]
fn test_broadcast_without_subscribers() {
    let manager = InstallationManager::with_defaults(
        "/opt/myapp".to_string(),
        "owner/repo".to_string(),
        "myapp".to_string(),
    );
    let ev = manager.broadcast_progress(State::Downloading, 300);
    assert_eq!(ev.state, State::Downloading);
    assert_eq!(ev.progress, 300);
}

#[test]
fn test_subscribe_receives_events() {
    let manager = InstallationManager::with_defaults(
        "/opt/myapp".to_string(),
        "owner/repo".to_string(),
        "myapp".to_string(),
    );
    let mut rx = manager.subscribe();
    let sent = manager.broadcast_progress(State::Extracting, 1500);
    let got = rx.try_recv().unwrap();
    assert_eq!(got, sent);
    assert_eq!(got.progress, 1000);
    assert!(rx.try_recv().is_err());
}

#[test]
fn test_download_progress_events() {
    let manager = InstallationManager::with_defaults(
        "/opt/myapp".to_string(),
        "owner/repo".to_string(),
        "myapp".to_string(),
    );
    assert_eq!(manager.download_started().progress, 0);
    let ev = manager.download_progressed(256, 1024).unwrap();
    assert_eq!(ev.state, State::Downloading);
    assert_eq!(ev.progress, 250);
    assert!(manager.download_progressed(256, 0).is_none());
    assert_eq!(manager.download_finished().progress, 1000);
}

#[test]
fn test_version_parse_exact() {
    let v = Version::parse("1.2.3").unwrap();
    assert_eq!((v.major, v.minor, v.patch), (1, 2, 3));
    assert_eq!(v.pre.len(), 0);

    let v = Version::parse("1.2.3-alpha.1").unwrap();
    assert_eq!((v.major, v.minor, v.patch), (1, 2, 3));
    assert_eq!(v.pre.len(), 2);

    assert!(matches!(
        Version::parse("not-a-version"),
        Err(InstallError::VersionParseError)
    ));
    assert!(matches!(
        Version::parse("1.2"),
        Err(InstallError::VersionParseError)
    ));
}

#[test]
fn test_version_parse_tag() {
    let v = Version::parse_tag("v2.0.0").unwrap();
    assert_eq!((v.major, v.minor, v.patch), (2, 0, 0));
    let v = Version::parse_tag("2.0.0").unwrap();
    assert_eq!((v.major, v.minor, v.patch), (2, 0, 0));
    assert!(Version::parse_tag("vweird").is_err());
}

#[test]
fn test_version_ordering() {
    let lt = |a: &str, b: &str| {
        Version::parse(a)
            .unwrap()
            .precedes(&Version::parse(b).unwrap())
    };
    assert!(lt("1.5.0", "2.0.0"));
    assert!(!lt("2.0.0", "1.5.0"));
    assert!(lt("1.9.0", "1.10.0"));
    assert!(lt("1.0.0-alpha", "1.0.0"));
    assert!(!lt("1.0.0", "1.0.0-alpha"));
    assert!(lt("1.0.0-alpha", "1.0.0-alpha.1"));
    assert!(lt("1.0.0-alpha.1", "1.0.0-alpha.beta"));
    assert!(lt("1.0.0-2", "1.0.0-11"));
    assert!(lt("1.0.0-alpha.beta", "1.0.0-beta"));
    assert!(!lt("1.0.0", "1.0.0"));
}

#[test]
fn test_get_latest_release() {
    let mut manager = InstallationManager::with_defaults(
        "/opt/myapp".to_string(),
        "owner/repo".to_string(),
        "myapp".to_string(),
    );
    let releases = vec![
        release("v2.0.0-rc.1", true, &[]),
        release("v1.9.0", false, &[]),
    ];
    let latest = manager.get_latest_release(releases, false).unwrap();
    assert_eq!(latest.tag_name, "v1.9.0");
    let lv = manager.latest_version().unwrap();
    assert_eq!((lv.major, lv.minor, lv.patch), (1, 9, 0));

    let releases = vec![
        release("v2.0.0-rc.1", true, &[]),
        release("v1.9.0", false, &[]),
    ];
    let latest = manager.get_latest_release(releases, true).unwrap();
    assert_eq!(latest.tag_name, "v2.0.0-rc.1");
}

#[test]
fn test_get_latest_release_errors() {
    let mut manager = InstallationManager::with_defaults(
        "/opt/myapp".to_string(),
        "owner/repo".to_string(),
        "myapp".to_string(),
    );
    assert!(matches!(
        manager.get_latest_release(vec![], false),
        Err(InstallError::NoReleaseFound)
    ));
    assert!(matches!(
        manager.get_latest_release(vec![release("v0.1.0", true, &[])], false),
        Err(InstallError::NoReleaseFound)
    ));
    assert!(matches!(
        manager.get_latest_release(vec![release("nightly", false, &[])], false),
        Err(InstallError::VersionParseError)
    ));
}

#[test]
fn test_check_for_updates_versions() {
    let mut manager = InstallationManager::with_defaults(
        "/opt/myapp".to_string(),
        "owner/repo".to_string(),
        "myapp".to_string(),
    );

    let current = Version::parse("1.5.0").unwrap();
    let up = manager
        .check_for_updates(vec![release("v2.0.0", false, &[])], Some(current), false)
        .unwrap();
    assert!(up);
    assert!(manager.is_installed());

    let current = Version::parse("1.0.0").unwrap();
    let up = manager
        .check_for_updates(vec![release("1.0.0", false, &[])], Some(current), false)
        .unwrap();
    assert!(!up);
}

#[test]
fn test_check_for_updates_nothing_installed() {
    let mut manager = InstallationManager::with_defaults(
        "/opt/myapp".to_string(),
        "owner/repo".to_string(),
        "myapp".to_string(),
    );
    let up = manager
        .check_for_updates(vec![release("v0.0.1", false, &[])], None, false)
        .unwrap();
    assert!(up);
    assert!(!manager.is_installed());
    assert!(manager.current_version().is_none());
}

#[test]
fn test_classify_archive() {
    assert_eq!(
        oim::classify_archive("bundle.tar.gz").unwrap(),
        ArchiveFormat::TarGz
    );
    assert_eq!(oim::classify_archive("bundle.tgz").unwrap(), ArchiveFormat::TarGz);
    assert_eq!(oim::classify_archive("bundle.zip").unwrap(), ArchiveFormat::Zip);
    assert!(matches!(
        oim::classify_archive("bundle.rar"),
        Err(InstallError::UnsupportedArchiveFormat)
    ));
}

#[test]
fn test_sanitize_entry_path_zip_slip() {
    assert!(oim::sanitize_entry_path("../../evil.txt").is_none());
    assert!(oim::sanitize_entry_path("nested/../../evil.txt").is_none());
    assert!(oim::sanitize_entry_path("/etc/passwd").is_none());
    assert!(oim::sanitize_entry_path("..\\evil.txt").is_none());
}

#[test]
fn test_sanitize_entry_path_plain() {
    assert_eq!(
        oim::sanitize_entry_path("dir/sub/file.txt").unwrap(),
        vec!["dir", "sub", "file.txt"]
    );
    assert_eq!(oim::sanitize_entry_path("./a//b").unwrap(), vec!["a", "b"]);
    assert_eq!(oim::sanitize_entry_path("bin/").unwrap(), vec!["bin"]);
}

#[test]
fn test_update_step_not_installed() {
    let manager = InstallationManager::with_defaults(
        "/opt/myapp".to_string(),
        "owner/repo".to_string(),
        "myapp".to_string(),
    );
    assert!(matches!(
        manager.update_step(UpdateStage::Idle, UpdateEvent::Begin),
        Err(InstallError::NotInstalledError)
    ));
}

#[test]
fn test_update_step_flow() {
    let mut manager = InstallationManager::with_defaults(
        "/opt/myapp".to_string(),
        "owner/repo".to_string(),
        "myapp".to_string(),
    );
    manager.finish_install(Version::parse("1.0.0").unwrap());

    let (stage, action, ev) = manager
        .update_step(UpdateStage::Idle, UpdateEvent::Begin)
        .unwrap();
    assert_eq!(stage, UpdateStage::Checking);
    assert_eq!(action, UpdateAction::CheckForUpdates);
    assert!(ev.is_none());

    let (stage, action, ev) = manager
        .update_step(UpdateStage::Checking, UpdateEvent::Checked(true))
        .unwrap();
    assert_eq!(stage, UpdateStage::Stopping);
    assert_eq!(action, UpdateAction::StopService);
    assert_eq!(ev.unwrap().progress, 0);

    let (stage, action, ev) = manager
        .update_step(UpdateStage::Stopping, UpdateEvent::ServiceStopped)
        .unwrap();
    assert_eq!(stage, UpdateStage::Installing);
    assert_eq!(action, UpdateAction::RunInstall);
    assert_eq!(ev.unwrap().progress, 200);

    let (stage, action, ev) = manager
        .update_step(UpdateStage::Installing, UpdateEvent::InstallCompleted)
        .unwrap();
    assert_eq!(stage, UpdateStage::Starting);
    assert_eq!(action, UpdateAction::StartService);
    assert_eq!(ev.unwrap().progress, 800);

    let (stage, action, ev) = manager
        .update_step(UpdateStage::Starting, UpdateEvent::ServiceStarted)
        .unwrap();
    assert_eq!(stage, UpdateStage::Done);
    assert_eq!(action, UpdateAction::Finish);
    let ev = ev.unwrap();
    assert_eq!(ev.progress, 1000);
    assert_eq!(ev.state, State::Updating);

    let (stage, action, ev) = manager
        .update_step(UpdateStage::Checking, UpdateEvent::Checked(false))
        .unwrap();
    assert_eq!(stage, UpdateStage::Done);
    assert_eq!(action, UpdateAction::Finish);
    assert!(ev.is_none());
}

#[test]
fn test_uninstall_lifecycle() {
    let mut manager = InstallationManager::with_defaults(
        "/opt/myapp".to_string(),
        "owner/repo".to_string(),
        "myapp".to_string(),
    );
    assert!(matches!(
        manager.begin_uninstall(),
        Err(InstallError::NotInstalledError)
    ));

    manager.finish_install(Version::parse("1.0.0").unwrap());
    assert!(manager.is_installed());
    let cv = manager.current_version().unwrap();
    assert_eq!((cv.major, cv.minor, cv.patch), (1, 0, 0));

    assert!(manager.begin_uninstall().is_ok());
    manager.finish_uninstall();
    assert!(!manager.is_installed());
    assert!(manager.current_version().is_none());
}

#[test]
fn test_manager_urls() {
    let manager = InstallationManager::with_defaults(
        "/opt/myapp".to_string(),
        "owner/repo".to_string(),
        "myapp".to_string(),
    );
    assert_eq!(
        manager.releases_url(),
        "https://api.github.com/repos/owner/repo/releases"
    );
    assert_eq!(manager.download_dir_name(), "oim-myapp");
}

#[test]
fn test_error_messages() {
    assert_eq!(
        InstallError::NotInstalledError.message(),
        "no installation found"
    );
    assert_eq!(
        InstallError::NetworkError("status 503".to_string()).message(),
        "network error: status 503"
    );
    assert_eq!(
        InstallError::IOError("disk full".to_string()).message(),
        "i/o error: disk full"
    );
    assert_eq!(
        InstallError::ServiceControlError("unit not found".to_string()).message(),
        "service control error: unit not found"
    );
}

#[test]
fn test_text_helpers() {
    assert!(oim::str_contains("myapp-windows-x64.zip", "windows"));
    assert!(!oim::str_contains("myapp-linux.tar.gz", "windows"));
    assert!(oim::str_eq("abc", "abc"));
    assert!(!oim::str_eq("abc", "abd"));
    assert!(oim::str_ends_with("a.tar.gz", ".tar.gz"));
    assert!(!oim::str_ends_with("a.tar.gz", ".zip"));
    assert_eq!(oim::trim_leading_v("v1.2.3"), "1.2.3");
    assert_eq!(oim::trim_leading_v("vv2.0.0"), "2.0.0");
    assert_eq!(oim::trim_leading_v("1.2.3"), "1.2.3");
}
