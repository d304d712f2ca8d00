use rgbw_dashboard::utils::monorepo::{
    find_monorepo_root, is_monorepo_root, Candidate, RootMarkers,
};
use rgbw_dashboard::utils::pio_path::{resolve_pio_path, PioProbe};

fn markers(bits: [bool; 6]) -> RootMarkers {
    RootMarkers {
        has_apps: bits[0],
        has_shared: bits[1],
        has_tools: bits[2],
        has_readme: bits[3],
        has_repo_marker: bits[4],
        has_example: bits[5],
    }
}

#[test]
fn what_marks_the_root() {
    assert!(is_monorepo_root(&markers([true, true, false, true, false, false])));
    assert!(is_monorepo_root(&markers([true, false, true, false, true, false])));
    assert!(is_monorepo_root(&markers([true, false, true, false, false, true])));
    assert!(is_monorepo_root(&markers([true, true, true, true, true, true])));
    // No apps directory.
    assert!(!is_monorepo_root(&markers([false, true, true, true, true, true])));
    // Neither shared nor tools.
    assert!(!is_monorepo_root(&markers([true, false, false, true, true, true])));
    // Nothing that tells it from a look-alike.
    assert!(!is_monorepo_root(&markers([true, true, true, false, false, false])));
}

#[test]
fn the_nearest_root_is_found() {
    let no = markers([false; 6]);
    let yes = markers([true, true, false, true, false, false]);
    let candidates: Result<Vec<Candidate>, String> = Ok(vec![
        Candidate { path: "/repo/tools/dashboard".to_string(), markers: no },
        Candidate { path: "/repo/tools".to_string(), markers: no },
        Candidate { path: "/repo".to_string(), markers: yes },
        Candidate { path: "/".to_string(), markers: yes },
    ]);
    assert_eq!(find_monorepo_root(&candidates), Ok("/repo".to_string()));
}

#[test]
fn no_root_among_the_ancestors() {
    let no = markers([false; 6]);
    let candidates: Result<Vec<Candidate>, String> = Ok(vec![
        Candidate { path: "/home/me".to_string(), markers: no },
        Candidate { path: "/home".to_string(), markers: no },
    ]);
    assert_eq!(
        find_monorepo_root(&candidates).unwrap_err(),
        "Could not find rgbw-lighting monorepo root. Ensure the dashboard is run from within the repository."
    );
    assert!(find_monorepo_root(&Ok(Vec::new())).is_err());
    let unknown: Result<Vec<Candidate>, String> = Err("current directory is gone".to_string());
    assert_eq!(find_monorepo_root(&unknown).unwrap_err(), "current directory is gone");
}

#[test]
fn test_pio_not_found_returns_helpful_error() {
    let result = resolve_pio_path("/tmp/x/.venv/bin/pio", &PioProbe::Missing);

    assert!(result.is_err());
    let err = result.unwrap_err();
    assert!(err.contains("PlatformIO not found"));
    assert!(err.contains("uv venv .venv"));
    assert!(err.contains("uv pip install platformio"));
}

#[test]
fn test_pio_found_when_exists() {
    let pio_path = "/tmp/x/.venv/bin/pio";
    let result = resolve_pio_path(pio_path, &PioProbe::Found { mode: Some(0o755) });
    assert!(result.is_ok());
    assert_eq!(result.unwrap(), pio_path);
}

#[test]
fn the_build_tool_must_be_executable() {
    let path = "/repo/.venv/bin/pio";
    assert_eq!(
        resolve_pio_path(path, &PioProbe::Found { mode: Some(0o644) }).unwrap_err(),
        "PlatformIO found at /repo/.venv/bin/pio but is not executable. Run: chmod +x /repo/.venv/bin/pio"
    );
    assert!(resolve_pio_path(path, &PioProbe::Found { mode: Some(0o100) }).is_ok());
    assert!(resolve_pio_path(path, &PioProbe::Found { mode: Some(0o010) }).is_ok());
    assert!(resolve_pio_path(path, &PioProbe::Found { mode: Some(0o001) }).is_ok());
    // Where the platform has no permission bits, finding it is enough.
    assert_eq!(
        resolve_pio_path("C:\\repo\\.venv\\Scripts\\pio.exe", &PioProbe::Found { mode: None }),
        Ok("C:\\repo\\.venv\\Scripts\\pio.exe".to_string())
    );
    assert_eq!(
        resolve_pio_path(path, &PioProbe::Unreadable("Permission denied".to_string()))
            .unwrap_err(),
        "Failed to read PlatformIO metadata: Permission denied"
    );
}

#[test]
fn the_message_for_a_missing_build_tool() {
    assert_eq!(
        resolve_pio_path("/repo/.venv/bin/pio", &PioProbe::Missing).unwrap_err(),
        "PlatformIO not found at /repo/.venv/bin/pio\n\nRun these commands from the repo root:\n\nuv venv .venv\nuv pip install platformio --python .venv/bin/python\n\nSee docs/build-and-tooling.md for details."
    );
}
