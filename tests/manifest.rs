use cargo_bin::error::BinError;
use cargo_bin::manifest::Manifest;

fn new_empty_manifest() -> Manifest {
    Manifest::open(String::new(), "").unwrap()
}

fn records(m: &Manifest) -> Vec<(String, String)> {
    m.bin_entries()
        .into_iter()
        .map(|(n, p)| (n.unwrap_or_default(), p.unwrap_or_default()))
        .collect()
}

fn pair(n: &str, p: &str) -> (String, String) {
    (n.to_string(), p.to_string())
}

#[test]
fn open_manifest() {
    let content = "[package]\nname = \"demo\"\n\n[[bin]]\nname = \"a\"\npath = \"src/a.rs\"\n";
    let manifest = Manifest::open("Cargo.toml".to_string(), content).unwrap();
    assert_eq!(manifest.file_path(), "Cargo.toml");
    assert_eq!(records(&manifest), vec![pair("a", "src/a.rs")]);
}

#[test]
fn add_bin() {
    let mut manifest = new_empty_manifest();
    manifest.add_bin("bin1", "src/b1.rs").unwrap();
    manifest.add_bin("bin2", "src/b2.rs").unwrap();
    manifest.add_bin("bin3", "src/b3.rs").unwrap();
    manifest.add_bin("bin1", "src/2/b1.rs").unwrap();

    let expected = r#"[[bin]]
name = "bin2"
path = "src/b2.rs"
[[bin]]
name = "bin3"
path = "src/b3.rs"
[[bin]]
name = "bin1"
path = "src/2/b1.rs"
"#;
    assert_eq!(expected, manifest.to_string());
}

#[test]
fn get_bins() {
    let mut manifest = new_empty_manifest();
    assert_eq!(0, manifest.bin_entries().len());
    manifest.add_bin("bin1", "src/b1.rs").unwrap();
    assert_eq!(1, manifest.bin_entries().len());
    manifest.add_bin("bin2", "src/b2.rs").unwrap();
    assert_eq!(2, manifest.bin_entries().len());
}

#[test]
fn bin_exists() {
    let mut manifest = new_empty_manifest();
    assert!(!manifest.has_bin("bin1", "src/b1.rs"));

    manifest.add_bin("bin1", "src/b1.rs").unwrap();
    assert!(manifest.has_bin("bin1", ""));
    assert!(manifest.has_bin("", "src/b1.rs"));
}

#[test]
fn find_bin() {
    let mut manifest = new_empty_manifest();
    let index = manifest.find_bin("bin1", "src/b1.rs");
    assert!(index.is_none());

    manifest.add_bin("bin1", "src/b1.rs").unwrap();
    assert_eq!(manifest.find_bin("bin1", "").unwrap(), 0);
    assert_eq!(manifest.find_bin("", "src/b1.rs").unwrap(), 0);
}

#[test]
fn concrete_literal_scenario_order() {
    let mut manifest = new_empty_manifest();
    manifest.add_bin("bin1", "src/b1.rs").unwrap();
    manifest.add_bin("bin2", "src/b2.rs").unwrap();
    manifest.add_bin("bin3", "src/b3.rs").unwrap();
    manifest.add_bin("bin1", "src/2/b1.rs").unwrap();
    assert_eq!(
        records(&manifest),
        vec![
            pair("bin2", "src/b2.rs"),
            pair("bin3", "src/b3.rs"),
            pair("bin1", "src/2/b1.rs")
        ]
    );
}

#[test]
fn add_twice_keeps_one_record_last() {
    let mut manifest = new_empty_manifest();
    manifest.add_bin("x", "src/x.rs").unwrap();
    manifest.add_bin("y", "src/y.rs").unwrap();
    manifest.add_bin("x", "src/x.rs").unwrap();
    let once = records(&manifest);
    manifest.add_bin("x", "src/x.rs").unwrap();
    assert_eq!(records(&manifest), once);
    assert_eq!(once, vec![pair("y", "src/y.rs"), pair("x", "src/x.rs")]);
}

#[test]
fn add_purges_both_collisions() {
    let mut manifest = new_empty_manifest();
    manifest.add_bin("first", "src/one.rs").unwrap();
    manifest.add_bin("second", "src/two.rs").unwrap();
    manifest.add_bin("first", "src/two.rs").unwrap();
    assert_eq!(records(&manifest), vec![pair("first", "src/two.rs")]);
}

#[test]
fn add_purges_every_collision_keeping_order() {
    let content = "[[bin]]\nname = \"a\"\npath = \"src/one.rs\"\n[[bin]]\nname = \"b\"\npath = \"src/two.rs\"\n\
                   [[bin]]\nname = \"a\"\npath = \"src/three.rs\"\n[[bin]]\nname = \"c\"\npath = \"src/four.rs\"\n";
    let mut manifest = Manifest::open(String::new(), content).unwrap();
    manifest.add_bin("a", "src/four.rs").unwrap();
    assert_eq!(records(&manifest), vec![pair("b", "src/two.rs"), pair("a", "src/four.rs")]);
}

#[test]
fn remove_is_single_shot() {
    let mut manifest = new_empty_manifest();
    manifest.add_bin("a", "src/one.rs").unwrap();
    manifest.add_bin("b", "src/two.rs").unwrap();
    manifest.add_bin("c", "src/three.rs").unwrap();
    // "a" matches the first record by name, "src/three.rs" the third by path.
    assert!(manifest.remove_bin("a", "src/three.rs"));
    assert_eq!(records(&manifest), vec![pair("b", "src/two.rs"), pair("c", "src/three.rs")]);
    assert!(manifest.remove_bin("a", "src/three.rs"));
    assert_eq!(records(&manifest), vec![pair("b", "src/two.rs")]);
    assert!(!manifest.remove_bin("a", "src/three.rs"));
    assert_eq!(records(&manifest), vec![pair("b", "src/two.rs")]);
}

#[test]
fn add_rejects_empty_fields() {
    let mut manifest = new_empty_manifest();
    manifest.add_bin("a", "p").unwrap();
    assert_eq!(manifest.add_bin("", "p"), Err(BinError::EmptyName));
    assert_eq!(manifest.add_bin("a", ""), Err(BinError::EmptyPath));
    assert_eq!(manifest.add_bin("", ""), Err(BinError::EmptyName));
    assert_eq!(records(&manifest), vec![pair("a", "p")]);
}

#[test]
fn open_rejects_invalid_toml() {
    assert_eq!(
        Manifest::open(String::new(), "[package\nname =").err(),
        Some(BinError::ParseManifest)
    );
}

#[test]
fn open_rejects_bin_of_wrong_shape() {
    assert_eq!(
        Manifest::open(String::new(), "bin = \"oops\"\n").err(),
        Some(BinError::BinNotArrayOfTables)
    );
    assert_eq!(
        Manifest::open(String::new(), "[bin]\nname = \"a\"\n").err(),
        Some(BinError::BinNotArrayOfTables)
    );
}

#[test]
fn entries_report_non_string_fields_as_absent() {
    let content = "[[bin]]\nname = 3\npath = \"src/a.rs\"\n[[bin]]\nname = \"b\"\n";
    let manifest = Manifest::open(String::new(), content).unwrap();
    assert_eq!(
        manifest.bin_entries(),
        vec![
            (None, Some("src/a.rs".to_string())),
            (Some("b".to_string()), None)
        ]
    );
    assert_eq!(manifest.find_bin("3", "x"), None);
    assert_eq!(manifest.find_bin("b", "x"), Some(1));
    assert_eq!(manifest.find_bin("x", "src/a.rs"), Some(0));
}

#[test]
fn format_preserved_outside_bin_section() {
    let content = "# top comment\n[package]\nname = \"demo\"   # trailing\nversion = \"0.1.0\"\n\n\
                   [dependencies]\n# deps comment\nserde = { version = \"1\" }\n";
    let mut manifest = Manifest::open(String::new(), content).unwrap();
    manifest.add_bin("tool", "src/tool.rs").unwrap();
    let out = manifest.to_string();
    assert!(out.starts_with(content), "{}", out);
    let rest = &out[content.len()..];
    assert_eq!(rest, "[[bin]]\nname = \"tool\"\npath = \"src/tool.rs\"\n");
}

#[test]
fn format_preserved_around_existing_bins() {
    let content = "[package]\nname = \"demo\" # keep\n\n[[bin]]\nname = \"old\"\npath = \"src/old.rs\"\n\n\
                   [features]\n# none yet\ndefault = []\n";
    let mut manifest = Manifest::open(String::new(), content).unwrap();
    manifest.add_bin("new", "src/new.rs").unwrap();
    let out = manifest.to_string();
    for line in content.lines() {
        assert!(out.lines().any(|l| l == line), "missing line {:?} in {}", line, out);
    }
    assert!(out.contains("name = \"new\"\npath = \"src/new.rs\"\n"), "{}", out);
}

#[test]
fn refused_add_and_missed_remove_leave_document_unchanged() {
    let content = "[package]\nname = \"demo\" # keep\n\n[[bin]]\nname = \"a\"\npath = \"src/a.rs\"\n";
    let mut manifest = Manifest::open(String::new(), content).unwrap();
    let before = manifest.to_string();
    assert_eq!(manifest.add_bin("", "src/b.rs"), Err(BinError::EmptyName));
    assert_eq!(manifest.add_bin("b", ""), Err(BinError::EmptyPath));
    assert!(!manifest.remove_bin("zzz", "src/zzz.rs"));
    assert_eq!(manifest.to_string(), before);
}
