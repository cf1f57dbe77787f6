use divoom_monitor::paths::{
    find_sidecar_path, path_join, sidecar_candidates, sidecar_exe_name, PathEnv,
};

fn env_with_override(raw: &[u8], absolute: bool) -> PathEnv {
    PathEnv {
        override_path: Some(raw.to_vec()),
        override_is_absolute: absolute,
        cwd: Some(b"/work".to_vec()),
        exe_dir: Some(b"/app/bin".to_vec()),
        separator: b'/',
    }
}

#[test]
fn absolute_override_is_the_only_candidate() {
    let env = env_with_override(b"/opt/helper.exe", true);
    let cands = sidecar_candidates(&env);
    assert_eq!(cands, vec![b"/opt/helper.exe".to_vec()]);
}

#[test]
fn relative_override_tries_cwd_then_exe_dir() {
    let env = env_with_override(b"helper.exe", false);
    let cands = sidecar_candidates(&env);
    assert_eq!(
        cands,
        vec![b"/work/helper.exe".to_vec(), b"/app/bin/helper.exe".to_vec()]
    );
}

#[test]
fn override_to_missing_file_fails_without_fallback() {
    // The override is set but nothing exists: resolution must report
    // NotFound with the attempted paths, and no conventional location —
    // the helper name never appears among the candidates.
    let env = env_with_override(b"helper.exe", false);
    let cands = sidecar_candidates(&env);
    let exe_name = sidecar_exe_name();
    for c in &cands {
        assert!(!c.ends_with(&exe_name));
    }
    let exists = vec![false; cands.len()];
    let err = find_sidecar_path(cands.clone(), &exists).expect_err("nothing exists");
    assert_eq!(err.attempted, cands);
}

#[test]
fn without_override_the_conventional_locations_are_tried() {
    let env = PathEnv {
        override_path: None,
        override_is_absolute: false,
        cwd: Some(b"/work".to_vec()),
        exe_dir: Some(b"/app/bin".to_vec()),
        separator: b'/',
    };
    let cands = sidecar_candidates(&env);
    assert_eq!(
        cands,
        vec![
            b"/app/bin/HardwareMonitorCli.exe".to_vec(),
            b"/app/bin/sidecar/HardwareMonitorCli.exe".to_vec(),
        ]
    );
}

#[test]
fn first_existing_candidate_wins() {
    let cands = vec![b"/a".to_vec(), b"/b".to_vec(), b"/c".to_vec()];
    let exists = vec![false, true, true];
    let got = find_sidecar_path(cands, &exists).expect("one exists");
    assert_eq!(got, b"/b".to_vec());
}

#[test]
fn no_exe_dir_and_no_override_gives_no_candidates() {
    let env = PathEnv {
        override_path: None,
        override_is_absolute: false,
        cwd: None,
        exe_dir: None,
        separator: b'/',
    };
    let cands = sidecar_candidates(&env);
    assert!(cands.is_empty());
    let err = find_sidecar_path(cands, &Vec::new()).expect_err("nothing to try");
    assert!(err.attempted.is_empty());
}

#[test]
fn join_does_not_double_the_separator() {
    assert_eq!(path_join(&b"/a/".to_vec(), &b"x".to_vec(), b'/'), b"/a/x".to_vec());
    assert_eq!(path_join(&b"/a".to_vec(), &b"x".to_vec(), b'/'), b"/a/x".to_vec());
    assert_eq!(
        path_join(&b"C:\\bin".to_vec(), &b"x.exe".to_vec(), b'\\'),
        b"C:\\bin\\x.exe".to_vec()
    );
}
