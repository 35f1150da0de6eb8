use open_english::updates::{
    binary_file_name, component_version_from_marker, components, decide_component_update, decide_update, is_newer,
    linux_tarball_asset, llm_bind_setting, parse_version, pg_port_setting, probe_port, probe_step, self_probe_step,
    unix_tarball_asset, windows_installer_asset, windows_update_script, windows_zip_asset, LatestRelease, ProbeStep,
    ReleaseAsset, SelfProbeStep, UpdateStep, HEALTH_CHECK_SECS, health_plan, tasklist_mentions, HealthPlan,
};

fn asset(name: &str) -> ReleaseAsset {
    ReleaseAsset { name: name.to_string(), browser_download_url: format!("https://example.invalid/{name}") }
}

fn release_with(names: &[&str]) -> LatestRelease {
    LatestRelease { tag_name: "v1.2.3".to_string(), assets: names.iter().map(|n| asset(n)).collect() }
}

#[test]
fn finds_windows_zip_asset_by_component_prefix() {
    let release = release_with(&["aruaru-llm-windows-x86_64.zip", "aruaru-llm-linux-x86_64.tar.gz"]);
    let found = windows_zip_asset(&release, "aruaru-llm").expect("should find windows asset");
    assert_eq!(found.name, "aruaru-llm-windows-x86_64.zip");
}

#[test]
fn finds_linux_tarball_asset_by_component_prefix() {
    let release = release_with(&["aruaru-db-windows-x86_64.zip", "aruaru-db-linux-x86_64.tar.gz"]);
    let found = linux_tarball_asset(&release, "aruaru-db").expect("should find linux asset");
    assert_eq!(found.name, "aruaru-db-linux-x86_64.tar.gz");
}

#[test]
fn does_not_cross_match_between_components() {
    let release = release_with(&["aruaru-db-windows-x86_64.zip"]);
    assert!(windows_zip_asset(&release, "aruaru-llm").is_none());
}

#[test]
fn binary_file_name_appends_exe_only_on_windows() {
    let name = binary_file_name("aruaru-server", true);
    assert_eq!(name, "aruaru-server.exe");
    let name = binary_file_name("aruaru-server", false);
    assert_eq!(name, "aruaru-server");
}

#[test]
fn missing_version_marker_is_treated_as_unknown_oldest() {
    assert_eq!(component_version_from_marker(None), "0.0.0");
    assert_eq!(component_version_from_marker(Some(" v1.2.3\n")), "v1.2.3");
}

#[test]
fn parses_version_strings_with_and_without_v_prefix() {
    assert_eq!(parse_version("v0.5.1"), (0, 5, 1));
    assert_eq!(parse_version("0.5.1"), (0, 5, 1));
    assert_eq!(parse_version("1.0"), (1, 0, 0));
    assert_eq!(parse_version("garbage"), (0, 0, 0));
}

#[test]
fn is_newer_compares_semver_correctly() {
    assert!(is_newer("v0.6.0", "0.5.1"));
    assert!(is_newer("v1.0.0", "0.9.9"));
    assert!(!is_newer("v0.5.1", "0.5.1"));
    assert!(!is_newer("v0.5.0", "0.5.1"));
}

#[test]
fn version_parsing_edge_cases() {
    assert_eq!(parse_version("  vv2.10.3-beta "), (2, 10, 0));
    assert_eq!(parse_version("1.2.3.4"), (1, 2, 3));
    assert_eq!(parse_version(""), (0, 0, 0));
    assert_eq!(parse_version("+4.5.6"), (4, 5, 6));
    assert_eq!(parse_version("18446744073709551616.1"), (0, 1, 0));
}

#[test]
fn server_assets_by_platform() {
    let release = release_with(&[
        "open-english-linux-x86_64.tar.gz",
        "Open-English-Install.EXE",
        "open-english-macos-aarch64.tar.gz",
    ]);
    assert_eq!(windows_installer_asset(&release).map(|a| a.name.clone()), Some("Open-English-Install.EXE".to_string()));
    assert_eq!(unix_tarball_asset(&release, true).map(|a| a.name.clone()), Some("open-english-macos-aarch64.tar.gz".to_string()));
    assert_eq!(unix_tarball_asset(&release, false).map(|a| a.name.clone()), Some("open-english-linux-x86_64.tar.gz".to_string()));
    let old = release_with(&["open-english-setup-0.6.6.exe"]);
    assert!(windows_installer_asset(&old).is_some());
}

#[test]
fn update_decisions() {
    let release = release_with(&["open-english-linux-x86_64.tar.gz"]);
    assert!(matches!(decide_update(&release, "v1.2.3", false, false), UpdateStep::UpToDate));
    assert!(matches!(decide_update(&release, "1.2.2", false, false), UpdateStep::Download(0)));
    assert!(matches!(decide_update(&release, "1.2.2", true, false), UpdateStep::NoAsset));
    assert!(matches!(decide_update(&release, "1.2.2", false, true), UpdateStep::NoAsset));
    let comp = release_with(&["aruaru-llm-linux-x86_64.tar.gz", "aruaru-llm-windows-x86_64.zip"]);
    assert!(matches!(decide_component_update(&comp, "0.0.0", "aruaru-llm", true), UpdateStep::Download(1)));
    assert!(matches!(decide_component_update(&comp, "0.0.0", "aruaru-llm", false), UpdateStep::Download(0)));
    assert!(matches!(decide_component_update(&comp, "v9.0.0", "aruaru-llm", false), UpdateStep::UpToDate));
}

#[test]
fn bundled_components() {
    let cs = components();
    assert_eq!(cs.len(), 2);
    assert_eq!(cs[0].dir_name, "aruaru-llm");
    assert_eq!(cs[1].binary_stem, "aruaru-server");
}

#[test]
fn health_probe_steps_and_settings() {
    assert!(matches!(probe_step(0, true, true), ProbeStep::Failed));
    assert!(matches!(probe_step(0, false, true), ProbeStep::Healthy));
    assert!(matches!(probe_step(0, false, false), ProbeStep::Wait));
    assert!(matches!(probe_step(11, false, false), ProbeStep::Failed));
    assert_eq!(llm_bind_setting(None), "127.0.0.1:4600");
    assert_eq!(pg_port_setting(Some("6543")), 6543);
    assert_eq!(pg_port_setting(Some("x")), 5432);
}

#[test]
fn windows_script_restores_backup_on_failed_health_check() {
    let s = windows_update_script(
        Some("C:\\app\\unins000.exe"),
        "C:\\tmp\\setup.exe",
        "127.0.0.1:4601",
        "open-english-server.exe",
        "C:\\tmp\\backup",
        "C:\\app",
        "C:\\app\\open-english-server.exe",
        "C:\\tmp\\u.bat",
    );
    assert!(s.starts_with("@echo off\r\nping 127.0.0.1 -n 3 > nul\r\n\"C:\\app\\unins000.exe\" /VERYSILENT"));
    assert!(s.contains("ping 127.0.0.1 -n 15 > nul\r\n"));
    assert!(s.contains("'http://127.0.0.1:4601/healthz'"));
    assert!(s.contains("  xcopy \"C:\\tmp\\backup\" \"C:\\app\" /E /Y /I >nul\r\n"));
    assert!(s.ends_with("del \"C:\\tmp\\u.bat\"\r\n"));
}

#[test]
fn self_update_probe_steps() {
    assert!(matches!(self_probe_step(0, true), SelfProbeStep::Failed));
    assert!(matches!(self_probe_step(0, false), SelfProbeStep::Wait));
    assert!(matches!(self_probe_step(HEALTH_CHECK_SECS - 2, false), SelfProbeStep::Wait));
    assert!(matches!(self_probe_step(HEALTH_CHECK_SECS - 1, false), SelfProbeStep::CheckHealth));
    assert_eq!(probe_port(4601), 4602);
    assert_eq!(probe_port(65535), 0);
}

#[test]
fn version_marker_round_trips() {
    // The marker file holds the tag as written; reading it back gives the tag.
    let written = "v1.2.3";
    assert_eq!(component_version_from_marker(Some(written)), "v1.2.3");
}

#[test]
fn component_health_plans() {
    assert!(matches!(health_plan("aruaru-llm", false), HealthPlan::Http));
    assert!(matches!(health_plan("aruaru-llm", true), HealthPlan::Http));
    assert!(matches!(health_plan("aruaru-db", true), HealthPlan::PgPort));
    assert!(matches!(health_plan("aruaru-db", false), HealthPlan::KeepWithoutStart));
    assert!(tasklist_mentions("Image Name   PID\nARUARU-LLM.EXE  42", "aruaru-llm.exe"));
    assert!(!tasklist_mentions("INFO: No tasks are running", "aruaru-llm.exe"));
}
