use std::io::Write;

use filesup_update::apply::{apply_staged_update, check_entry_path, entry_is_dir, ApplyError};
use filesup_update::state::{
    load_version_state, next_version_state, parse_version_state, save_version_state, state_path,
    version_dir, versions_root, StateError, VersionState,
};
use filesup_update::version::parse_version;

const CONFIG_DIR: &str = "/home/user/.config/FilesUP";

fn make_zip(entries: &[(&str, &[u8])]) -> Vec<u8> {
    let mut w = zip::ZipWriter::new(std::io::Cursor::new(Vec::new()));
    let opts = zip::write::SimpleFileOptions::default()
        .compression_method(zip::CompressionMethod::Stored);
    for (name, data) in entries {
        if name.ends_with('/') {
            w.add_directory(*name, opts).unwrap();
        } else {
            w.start_file(*name, opts).unwrap();
            w.write_all(data).unwrap();
        }
    }
    w.finish().unwrap().into_inner()
}

fn state(current: &str, previous: Option<&str>) -> VersionState {
    VersionState { current: current.to_string(), previous: previous.map(|s| s.to_string()) }
}

#[test]
fn missing_state_document_yields_first_run_default() {
    let st = load_version_state(None).unwrap();
    assert_eq!(st.current, "0.0.0");
    assert!(st.previous.is_none());
}

#[test]
fn state_document_round_trips() {
    for st in [state("1.1.0", Some("1.0.0")), state("0.0.0", None)] {
        let doc = save_version_state(&st).unwrap();
        let back = parse_version_state(&doc).expect("rendered document parses");
        assert_eq!(back.current, st.current);
        assert_eq!(back.previous, st.previous);
        let loaded = load_version_state(Some(&doc)).unwrap();
        assert_eq!(loaded.current, st.current);
        assert_eq!(loaded.previous, st.previous);
    }
}

#[test]
fn state_document_is_plain_json() {
    let doc = save_version_state(&state("1.1.0", Some("1.0.0"))).unwrap();
    let v: serde_json::Value = serde_json::from_str(&doc).expect("valid JSON");
    assert_eq!(v.get("current").and_then(|x| x.as_str()), Some("1.1.0"));
    assert_eq!(v.get("previous").and_then(|x| x.as_str()), Some("1.0.0"));
    let doc2 = save_version_state(&state("0.1.0", None)).unwrap();
    let v2: serde_json::Value = serde_json::from_str(&doc2).expect("valid JSON");
    assert!(v2.get("previous").unwrap().is_null());
}

#[test]
fn malformed_state_document_is_an_error_not_a_default() {
    for bad in ["", "{}", "{\"current\":1}", "garbage", "{\"current\":\"1.0.0\""] {
        let r = load_version_state(Some(bad));
        assert_eq!(r.err(), Some(StateError::MalformedDocument), "accepted {:?}", bad);
    }
}

#[test]
fn unencodable_state_fails_before_any_write() {
    let st = state("1.0.0\"", None);
    assert_eq!(save_version_state(&st).err(), Some(StateError::UnencodableState));
}

#[test]
fn version_layout_paths() {
    assert_eq!(versions_root(CONFIG_DIR), format!("{}/versions", CONFIG_DIR));
    assert_eq!(state_path(CONFIG_DIR), format!("{}/versions/version_state.json", CONFIG_DIR));
    let v = parse_version("1.1.0").unwrap();
    assert_eq!(version_dir(CONFIG_DIR, &v), format!("{}/versions/1.1.0", CONFIG_DIR));
}

#[test]
fn apply_stages_promotes_and_shifts_state() {
    let bundle = make_zip(&[
        ("app.bin", b"binary contents".as_slice()),
        ("assets/", b"".as_slice()),
        ("assets/logo.txt", b"logo".as_slice()),
    ]);
    let st = state("1.0.0", None);
    let plan = apply_staged_update(CONFIG_DIR, &st, &bundle, &"1.1.0".to_string()).unwrap();

    assert_eq!(plan.target_dir, format!("{}/versions/1.1.0", CONFIG_DIR));
    assert_eq!(plan.temp_dir, format!("{}/versions/.1.1.0_tmp", CONFIG_DIR));
    assert_eq!(plan.result.from_version, "1.0.0");
    assert_eq!(plan.result.to_version, "1.1.0");
    assert_eq!(plan.new_state.current, "1.1.0");
    assert_eq!(plan.new_state.previous.as_deref(), Some("1.0.0"));

    assert_eq!(plan.files.len(), 3);
    assert_eq!(plan.files[0].0, "app.bin");
    assert_eq!(plan.files[0].1, b"binary contents");
    assert!(entry_is_dir(&plan.files[1].0));
    assert!(!entry_is_dir(&plan.files[0].0));
    assert_eq!(plan.files[2].0, "assets/logo.txt");
    assert_eq!(plan.files[2].1, b"logo");

    // The bookkeeping the caller persists after promotion reads back as the
    // shifted record.
    let doc = save_version_state(&plan.new_state).unwrap();
    let loaded = load_version_state(Some(&doc)).unwrap();
    assert_eq!(loaded.current, "1.1.0");
    assert_eq!(loaded.previous.as_deref(), Some("1.0.0"));
}

#[test]
fn compressed_bundles_extract_to_their_contents() {
    let mut w = zip::ZipWriter::new(std::io::Cursor::new(Vec::new()));
    let opts = zip::write::SimpleFileOptions::default()
        .compression_method(zip::CompressionMethod::Deflated);
    let body = "text that compresses: aaaaaaaaaaaaaaaaaaaaaaaaaaaaaaaaaaaaaaaa".repeat(20);
    w.start_file("notes.txt", opts).unwrap();
    w.write_all(body.as_bytes()).unwrap();
    let bundle = w.finish().unwrap().into_inner();

    let st = state("1.0.0", None);
    let plan = apply_staged_update(CONFIG_DIR, &st, &bundle, &"1.0.1".to_string()).unwrap();
    assert_eq!(plan.files.len(), 1);
    assert_eq!(plan.files[0].0, "notes.txt");
    assert_eq!(plan.files[0].1, body.as_bytes());
}

#[test]
fn escaping_entry_aborts_the_whole_apply() {
    for evil in ["../evil.txt", "/abs.txt", "a/../b.txt", "c:\\win.txt", "..", "a\\b.txt"] {
        let bundle = make_zip(&[("good.txt", b"ok".as_slice()), (evil, b"bad".as_slice())]);
        let st = state("1.0.0", None);
        let r = apply_staged_update(CONFIG_DIR, &st, &bundle, &"1.1.0".to_string());
        assert_eq!(r.err(), Some(ApplyError::UnsafeEntryPath), "accepted {:?}", evil);
    }
}

#[test]
fn non_escaping_oddities_are_still_extracted() {
    // Current-directory segments and doubled slashes resolve inside the
    // staging directory; only the ways out are rejected.
    let bundle = make_zip(&[
        ("./x.txt", b"x".as_slice()),
        ("a//b.txt", b"b".as_slice()),
        ("a/./c.txt", b"c".as_slice()),
    ]);
    let st = state("1.0.0", None);
    let plan = apply_staged_update(CONFIG_DIR, &st, &bundle, &"1.1.0".to_string()).unwrap();
    assert_eq!(plan.files.len(), 3);
    assert_eq!(plan.files[0].0, "./x.txt");
    assert_eq!(plan.files[0].1, b"x");
}

#[test]
fn entry_path_gate() {
    for good in ["a.txt", "a/b.txt", "a/b/", "deep/ly/nested/file", ".", "./x", "a//b", "a/./b"] {
        assert!(check_entry_path(&good.to_string()), "rejected {:?}", good);
    }
    for bad in ["", "/", "..", "../x", "a/..", "a/../b", "a\\b", "a:b", "//x", "/a/b"] {
        assert!(!check_entry_path(&bad.to_string()), "accepted {:?}", bad);
    }
}

#[test]
fn unreadable_bundle_is_rejected() {
    let st = state("1.0.0", None);
    let garbage = vec![0u8, 1, 2, 3, 4, 5];
    let r = apply_staged_update(CONFIG_DIR, &st, &garbage, &"1.1.0".to_string());
    assert_eq!(r.err(), Some(ApplyError::BadArchive));
}

#[test]
fn apply_rejects_malformed_version() {
    let bundle = make_zip(&[("a.txt", b"x".as_slice())]);
    let st = state("1.0.0", None);
    let r = apply_staged_update(CONFIG_DIR, &st, &bundle, &"1.1".to_string());
    assert_eq!(r.err(), Some(ApplyError::InvalidVersion));
}

#[test]
fn bookkeeping_shift_preserves_the_old_current() {
    let st = state("1.0.0", Some("0.9.0"));
    let next = next_version_state(&st, &"1.1.0".to_string());
    assert_eq!(next.current, "1.1.0");
    assert_eq!(next.previous.as_deref(), Some("1.0.0"));
}
