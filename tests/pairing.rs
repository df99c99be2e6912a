use mockcheck::cli::{Args, Command};
use mockcheck::test_pair::{find_pairs, is_ignored_dir, Error, Probe, TestPair};

fn probe(path: &str, is_file: bool, module_is_file: bool) -> Probe {
    Probe {
        path: path.to_string(),
        is_file,
        module_is_file,
    }
}

#[test]
fn module_path_of_test_and_spec_files() {
    assert_eq!(TestPair::under_test_path("src/foo.test.ts").as_deref(), Some("src/foo.ts"));
    assert_eq!(TestPair::under_test_path("a.spec.ts").as_deref(), Some("a.ts"));
    assert_eq!(TestPair::under_test_path("x/y/z.test.tsx").as_deref(), Some("x/y/z.tsx"));
}

#[test]
fn only_first_marker_is_removed() {
    assert_eq!(TestPair::under_test_path("a.test.test.ts").as_deref(), Some("a.test.ts"));
    assert_eq!(TestPair::under_test_path("a.spec.test.ts").as_deref(), Some("a.spec.ts"));
}

#[test]
fn marker_in_directory_does_not_count() {
    assert_eq!(TestPair::under_test_path("dir.test/a.ts"), None);
    assert_eq!(TestPair::under_test_path("dir.test/a.test.ts").as_deref(), Some("dir.test/a.ts"));
}

#[test]
fn scenario_single_file_missing_module() {
    match TestPair::resolve("a.spec.ts", true, false) {
        Err(Error::UnderTestFileDoesNotExist(p)) => assert_eq!(p, "a.ts"),
        _ => panic!("expected the missing-module error"),
    }
}

#[test]
fn single_file_missing_test_file() {
    match TestPair::resolve("gone.test.ts", false, true) {
        Err(Error::TestFileDoesNotExist(p)) => assert_eq!(p, "gone.test.ts"),
        _ => panic!("expected the missing-test-file error"),
    }
}

#[test]
fn single_file_not_a_test_file() {
    match TestPair::resolve("src/plain.ts", true, true) {
        Err(Error::NotTestFile(p)) => assert_eq!(p, "src/plain.ts"),
        _ => panic!("expected the not-a-test-file error"),
    }
}

#[test]
fn single_file_pairs() {
    let pair = TestPair::resolve("src/a.test.ts", true, true).ok().unwrap();
    assert_eq!(pair.test_file, "src/a.test.ts");
    assert_eq!(pair.module_file, "src/a.ts");
    assert_eq!(pair.describe(), "src/a.test.ts -> src/a.ts");
}

#[test]
fn scenario_bulk_scan_drops_missing_module() {
    let probes = vec![
        probe("a.test.ts", true, false),
        probe("b.test.ts", true, true),
        probe("c.ts", true, true),
    ];
    let pairs = find_pairs(&probes);
    assert_eq!(pairs.len(), 1);
    assert_eq!(pairs[0].test_file, "b.test.ts");
    assert_eq!(pairs[0].module_file, "b.ts");
}

#[test]
fn bulk_scan_pairs_only_existing_files() {
    let probes = vec![
        probe("x/one.spec.js", true, true),
        probe("x/two.test.js", false, true),
        probe("x/three.test.js", true, true),
    ];
    let pairs = find_pairs(&probes);
    let found: Vec<(String, String)> = pairs
        .iter()
        .map(|p| (p.test_file.clone(), p.module_file.clone()))
        .collect();
    assert_eq!(
        found,
        vec![
            ("x/one.spec.js".to_string(), "x/one.js".to_string()),
            ("x/three.test.js".to_string(), "x/three.js".to_string()),
        ]
    );
}

#[test]
fn bulk_scan_skips_directories() {
    let probes = vec![probe("src/x.test", false, true), probe("src/y.test.ts", true, false)];
    assert!(find_pairs(&probes).is_empty());
}

#[test]
fn bulk_scan_of_nothing() {
    assert!(find_pairs(&Vec::new()).is_empty());
}

#[test]
fn ignored_directories() {
    assert!(is_ignored_dir("node_modules"));
    assert!(is_ignored_dir("build"));
    assert!(is_ignored_dir("__snapshots__"));
    assert!(!is_ignored_dir("src"));
    assert!(!is_ignored_dir("builds"));
    assert!(!is_ignored_dir(""));
}

#[test]
fn new_pair_keeps_paths() {
    let pair = TestPair::new("t.test.ts".to_string(), "t.ts".to_string());
    assert_eq!(pair.test_file, "t.test.ts");
    assert_eq!(pair.module_file, "t.ts");
}

#[test]
fn command_selection() {
    let file = Args {
        mocks: true,
        filename: Some("a.test.ts".to_string()),
        directory: ".".to_string(),
    };
    assert!(matches!(file.command(), Command::CheckFile(p) if p == "a.test.ts"));
    let dir = Args {
        mocks: true,
        filename: None,
        directory: "src".to_string(),
    };
    assert!(matches!(dir.command(), Command::CheckDirectory(p) if p == "src"));
    let none = Args {
        mocks: false,
        filename: None,
        directory: ".".to_string(),
    };
    assert!(matches!(none.command(), Command::Nothing));
}
