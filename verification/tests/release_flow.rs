use filesup_update::config::{default_tuf_config, with_custom_urls, ConfigError, TufConfig};
use filesup_update::fetch::{save_target_to_cache, FetchError};
use filesup_update::manager::{check_for_updates, download_update_bundle, CheckError, DownloadError};
use filesup_update::resolver::{find_latest_update_for_platform, ResolveError, UpdateDescriptor};
use filesup_update::trust::{Repository, RoleCounters, TargetMeta};

const PLATFORM: &str = "desktop-linux-x86_64";

fn target(name: &str, length: u64, sha: &[u8]) -> TargetMeta {
    TargetMeta { name: name.to_string(), length, sha256: sha.to_vec() }
}

fn repo_with(targets: Vec<TargetMeta>) -> Repository {
    Repository { targets, counters: RoleCounters { timestamp: 1, snapshot: 1, targets: 1 } }
}

fn sha(bytes: &[u8]) -> Vec<u8> {
    <sha2::Sha256 as sha2::Digest>::digest(bytes).to_vec()
}

fn bundle_bytes() -> Vec<u8> {
    b"0123456789".to_vec()
}

fn release(ver: &str) -> TargetMeta {
    target(
        &format!("filesup/{}/app-{}.zip", PLATFORM, ver),
        bundle_bytes().len() as u64,
        &sha(&bundle_bytes()),
    )
}

fn cfg() -> TufConfig {
    default_tuf_config("/home/user/.config/FilesUP").unwrap()
}

#[test]
fn finds_highest_version_for_platform() {
    let repo = repo_with(vec![
        release("1.0.0"),
        release("1.1.0"),
        release("1.1.0-rc.1"),
        target("filesup/desktop-windows-x86_64/app-9.9.9.zip", 10, &[9]),
        target("unrelated/readme.txt", 3, &[0]),
    ]);
    let d = find_latest_update_for_platform(&repo, &PLATFORM.to_string())
        .unwrap()
        .expect("a release exists");
    assert_eq!(d.version.raw, "1.1.0");
    assert_eq!(d.target_name, format!("filesup/{}/app-1.1.0.zip", PLATFORM));
    assert_eq!(d.length, bundle_bytes().len() as u64);
}

#[test]
fn no_matching_platform_is_empty_not_error() {
    let repo = repo_with(vec![release("1.0.0")]);
    let r = find_latest_update_for_platform(&repo, &"desktop-macos-aarch64".to_string());
    assert!(matches!(r, Ok(None)));
}

#[test]
fn duplicate_latest_version_is_a_data_error() {
    let repo = repo_with(vec![release("1.0.0"), release("1.1.0"), release("1.1.0")]);
    let r = find_latest_update_for_platform(&repo, &PLATFORM.to_string());
    assert_eq!(r.err(), Some(ResolveError::DuplicateVersion));
}

#[test]
fn duplicate_below_the_maximum_is_a_data_error_too() {
    let repo = repo_with(vec![release("1.0.0"), release("1.0.0"), release("2.0.0")]);
    let r = find_latest_update_for_platform(&repo, &PLATFORM.to_string());
    assert_eq!(r.err(), Some(ResolveError::DuplicateVersion));
    let c = check_for_updates(&repo, "1.0.0".to_string(), &PLATFORM.to_string());
    assert_eq!(c.err(), Some(CheckError::DuplicateVersion));
    let d = download_update_bundle(&repo, &cfg(), &PLATFORM.to_string(), false, &bundle_bytes());
    assert_eq!(d.err(), Some(DownloadError::DuplicateVersion));
}

#[test]
fn duplicate_on_another_platform_does_not_disturb_resolution() {
    let repo = repo_with(vec![
        target("filesup/desktop-windows-x86_64/app-1.0.0.zip", 10, &[9]),
        target("filesup/desktop-windows-x86_64/app-1.0.0.zip", 10, &[9]),
        release("1.1.0"),
    ]);
    let d = find_latest_update_for_platform(&repo, &PLATFORM.to_string())
        .unwrap()
        .expect("a release exists");
    assert_eq!(d.version.raw, "1.1.0");
}

#[test]
fn check_reports_newer_version_available() {
    let repo = repo_with(vec![release("1.1.0")]);
    let res = check_for_updates(&repo, "1.0.0".to_string(), &PLATFORM.to_string()).unwrap();
    assert_eq!(res.current_version, "1.0.0");
    assert_eq!(res.latest_version.as_deref(), Some("1.1.0"));
    assert!(res.update_available);
}

#[test]
fn check_reports_no_update_when_current_is_ahead() {
    let repo = repo_with(vec![release("1.0.0")]);
    let res = check_for_updates(&repo, "1.1.0".to_string(), &PLATFORM.to_string()).unwrap();
    assert_eq!(res.latest_version.as_deref(), Some("1.0.0"));
    assert!(!res.update_available);
}

#[test]
fn check_reports_no_update_on_equal_versions() {
    let repo = repo_with(vec![release("1.1.0")]);
    let res = check_for_updates(&repo, "1.1.0".to_string(), &PLATFORM.to_string()).unwrap();
    assert_eq!(res.latest_version.as_deref(), Some("1.1.0"));
    assert!(!res.update_available);
}

#[test]
fn check_surfaces_empty_channel_as_plain_result() {
    let repo = repo_with(vec![]);
    let res = check_for_updates(&repo, "1.0.0".to_string(), &PLATFORM.to_string()).unwrap();
    assert!(res.latest_version.is_none());
    assert!(!res.update_available);
}

#[test]
fn check_surfaces_duplicate_latest_as_data_error() {
    let repo = repo_with(vec![release("1.1.0"), release("1.1.0")]);
    let r = check_for_updates(&repo, "1.0.0".to_string(), &PLATFORM.to_string());
    assert_eq!(r.err(), Some(CheckError::DuplicateVersion));
}

#[test]
fn download_surfaces_duplicate_latest_as_data_error() {
    let repo = repo_with(vec![release("1.1.0"), release("1.1.0")]);
    let r = download_update_bundle(&repo, &cfg(), &PLATFORM.to_string(), false, &bundle_bytes());
    assert_eq!(r.err(), Some(DownloadError::DuplicateVersion));
}

#[test]
fn check_rejects_malformed_current_version() {
    let repo = repo_with(vec![release("1.1.0")]);
    let r = check_for_updates(&repo, "one.two".to_string(), &PLATFORM.to_string());
    assert_eq!(r.err(), Some(CheckError::InvalidCurrentVersion));
}

fn resolved(repo: &Repository) -> UpdateDescriptor {
    find_latest_update_for_platform(repo, &PLATFORM.to_string()).unwrap().unwrap()
}

#[test]
fn cache_hit_skips_verification_and_path_is_stable() {
    let repo = repo_with(vec![release("1.1.0")]);
    let d = resolved(&repo);
    let junk: Vec<u8> = Vec::new();
    let p1 = save_target_to_cache(&repo, &cfg(), &d, true, &junk).unwrap();
    let p2 = save_target_to_cache(&repo, &cfg(), &d, true, &junk).unwrap();
    assert_eq!(p1, p2);
    assert_eq!(
        p1,
        format!(
            "/home/user/.config/FilesUP/tuf/targets-cache/filesup/{}/app-1.1.0.zip",
            PLATFORM
        )
    );
}

#[test]
fn matching_commitments_accept_the_download() {
    let repo = repo_with(vec![release("1.1.0")]);
    let d = resolved(&repo);
    let r = save_target_to_cache(&repo, &cfg(), &d, false, &bundle_bytes());
    assert!(r.is_ok());
}

#[test]
fn length_mismatch_is_fatal_for_the_download() {
    let repo = repo_with(vec![release("1.1.0")]);
    let d = resolved(&repo);
    let r = save_target_to_cache(&repo, &cfg(), &d, false, &b"01234567890".to_vec());
    assert_eq!(r.err(), Some(FetchError::LengthMismatch));
}

#[test]
fn hash_mismatch_is_fatal_for_the_download() {
    let repo = repo_with(vec![release("1.1.0")]);
    let d = resolved(&repo);
    let r = save_target_to_cache(&repo, &cfg(), &d, false, &b"9876543210".to_vec());
    assert_eq!(r.err(), Some(FetchError::HashMismatch));
}

#[test]
fn download_resolves_verifies_and_places_the_bundle() {
    let repo = repo_with(vec![release("1.0.0"), release("1.1.0")]);
    let res = download_update_bundle(&repo, &cfg(), &PLATFORM.to_string(), false, &bundle_bytes())
        .unwrap();
    assert_eq!(res.version, "1.1.0");
    assert!(res.bundle_path.ends_with(&format!("filesup/{}/app-1.1.0.zip", PLATFORM)));
}

#[test]
fn download_without_release_channel_fails_as_such() {
    let repo = repo_with(vec![]);
    let r = download_update_bundle(&repo, &cfg(), &PLATFORM.to_string(), false, &Vec::new());
    assert_eq!(r.err(), Some(DownloadError::NoUpdateAvailable));
}

#[test]
fn download_rejects_corrupt_bytes() {
    let repo = repo_with(vec![release("1.1.0")]);
    let r = download_update_bundle(
        &repo,
        &cfg(),
        &PLATFORM.to_string(),
        false,
        &b"9876543210".to_vec(),
    );
    assert_eq!(r.err(), Some(DownloadError::Fetch(FetchError::HashMismatch)));
}

#[test]
fn default_config_fixes_local_layout() {
    let c = cfg();
    assert_eq!(c.root_path, "/home/user/.config/FilesUP/tuf/root.json");
    assert_eq!(c.datastore_path, "/home/user/.config/FilesUP/tuf/metadata-cache");
    assert_eq!(c.targets_cache_dir, "/home/user/.config/FilesUP/tuf/targets-cache");
    assert_eq!(c.metadata_base_url, "https://updates.filesup.app/metadata/");
    assert_eq!(c.targets_base_url, "https://updates.filesup.app/targets/");
}

#[test]
fn custom_urls_relocate_endpoints_only() {
    let c = with_custom_urls(
        "/base",
        "http://localhost:8000/meta/",
        "http://localhost:8000/targets/",
    )
    .unwrap();
    assert_eq!(c.metadata_base_url, "http://localhost:8000/meta/");
    assert_eq!(c.targets_base_url, "http://localhost:8000/targets/");
    assert_eq!(c.root_path, "/base/tuf/root.json");
    assert_eq!(
        with_custom_urls("/base", "not a url", "http://ok/").err(),
        Some(ConfigError::InvalidUrl)
    );
}

#[test]
fn endpoints_must_be_distinct() {
    let c = cfg();
    assert_ne!(c.metadata_base_url, c.targets_base_url);
    let r = with_custom_urls("/base", "http://localhost:8000/r/", "http://localhost:8000/r/");
    assert_eq!(r.err(), Some(ConfigError::IndistinctEndpoints));
}
