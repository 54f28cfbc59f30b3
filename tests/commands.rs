use cargo_bin::commands::{add_binaries, check_new_target, AddArgs, AddOutcome};
use cargo_bin::error::BinError;
use cargo_bin::manifest::Manifest;

fn args(bin_path: &str, force: bool) -> AddArgs {
    AddArgs {
        bin_path: bin_path.to_string(),
        root_path: "/p".to_string(),
        force,
        dry_run: false,
        verbose: false,
    }
}

fn names(m: &Manifest) -> Vec<String> {
    m.bin_entries().into_iter().map(|(n, _)| n.unwrap_or_default()).collect()
}

#[test]
fn add_new_binary() {
    let mut m = Manifest::open(String::new(), "").unwrap();
    match add_binaries(&mut m, &args("/p/src/tool.rs", false)).unwrap() {
        AddOutcome::Added(info, replaced) => {
            assert_eq!(info.name, "tool");
            assert_eq!(info.path, "src/tool.rs");
            assert!(!replaced);
        }
        AddOutcome::Skipped(_) => panic!("expected an add"),
    }
    assert_eq!(names(&m), vec!["tool".to_string()]);
}

#[test]
fn add_existing_without_force_is_skipped() {
    let mut m = Manifest::open(String::new(), "").unwrap();
    m.add_bin("tool", "src/other.rs").unwrap();
    match add_binaries(&mut m, &args("/p/src/tool.rs", false)).unwrap() {
        AddOutcome::Skipped(info) => assert_eq!(info.path, "src/tool.rs"),
        AddOutcome::Added(..) => panic!("expected a skip"),
    }
    assert_eq!(m.bin_entries()[0].1, Some("src/other.rs".to_string()));
}

#[test]
fn add_existing_with_force_replaces() {
    let mut m = Manifest::open(String::new(), "").unwrap();
    m.add_bin("tool", "src/other.rs").unwrap();
    m.add_bin("keep", "src/keep.rs").unwrap();
    match add_binaries(&mut m, &args("/p/src/tool.rs", true)).unwrap() {
        AddOutcome::Added(_, replaced) => assert!(replaced),
        AddOutcome::Skipped(_) => panic!("expected an add"),
    }
    assert_eq!(names(&m), vec!["keep".to_string(), "tool".to_string()]);
}

#[test]
fn add_outside_root_is_refused() {
    let mut m = Manifest::open(String::new(), "").unwrap();
    assert!(matches!(
        add_binaries(&mut m, &args("/elsewhere/a.rs", false)),
        Err(BinError::OutOfTree)
    ));
    assert!(m.bin_entries().is_empty());
}

#[test]
fn add_with_empty_derived_name_is_refused() {
    let mut m = Manifest::open(String::new(), "").unwrap();
    assert!(matches!(
        add_binaries(&mut m, &args("/p/src/.rs", false)),
        Err(BinError::EmptyName)
    ));
}

#[test]
fn new_target_decisions() {
    assert_eq!(check_new_target(false, false, false), Ok(()));
    assert_eq!(check_new_target(true, true, true), Ok(()));
    assert_eq!(check_new_target(true, true, false), Err(BinError::AlreadyExists));
    assert_eq!(check_new_target(true, false, true), Err(BinError::NotAFile));
}
